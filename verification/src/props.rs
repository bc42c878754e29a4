//! Structural laws of the nesting algorithm, stated over the ghost model
//! and proved for every input.

use vstd::prelude::*;

use crate::ast::CarryoverTag;
use crate::ast::DelimitingModifier;
use crate::ast::DetachedModifierExtension;
use crate::ast::NorgASTFlat;
use crate::ast::NorgASTView;
use crate::ast::ParagraphSegmentToken;
use crate::ast::spec_convert;
use crate::stage_4::heading_close;
use crate::stage_4::lemma_heading_close_bounds;
use crate::stage_4::lemma_list_close_bounds;
use crate::stage_4::list_close;
use crate::stage_4::scanned_heading_level;
use crate::stage_4::scanned_list_level;
use crate::stage_4::spec_stage_4;

verus! {

/// A lawful direct child of a heading of level `level`: any node but a
/// heading opened at the same or a shallower level.
pub open spec fn heading_child_ok(level: u16, c: NorgASTView) -> bool {
    c matches NorgASTView::Heading { level: child_level, .. } ==> child_level > level
}

/// A lawful direct child of a nestable detached modifier of level `level`:
/// a strictly deeper nestable modifier, possibly wrapped in a carryover tag.
pub open spec fn list_child_ok(level: u16, c: NorgASTView) -> bool {
    match c {
        NorgASTView::NestableDetachedModifier { level: child_level, .. } => child_level > level,
        NorgASTView::CarryoverTag { next_object, .. } => {
            *next_object matches NorgASTView::NestableDetachedModifier { level: child_level, .. }
                && child_level > level
        },
        _ => false,
    }
}

/// Well-nestedness of a tree node, at every depth: no heading holds a
/// heading of its own or a shallower level, and a nestable detached
/// modifier holds only strictly deeper nestable modifiers.
pub open spec fn view_wf(t: NorgASTView) -> bool
    decreases t,
{
    match t {
        NorgASTView::Heading { level, content, .. } => forall|i: int|
            0 <= i < content.len() ==> #[trigger] view_wf(content[i]) && heading_child_ok(
                level,
                content[i],
            ),
        NorgASTView::NestableDetachedModifier { level, content, .. } => forall|i: int|
            0 <= i < content.len() ==> #[trigger] view_wf(content[i]) && list_child_ok(
                level,
                content[i],
            ),
        NorgASTView::CarryoverTag { next_object, .. } => view_wf(*next_object),
        _ => true,
    }
}

/// A leaf conversion is well-nested: it opens no content of its own.
pub proof fn lemma_spec_convert_wf(n: NorgASTFlat)
    ensures
        view_wf(spec_convert(n)),
    decreases n,
{
    match n {
        NorgASTFlat::CarryoverTag { next_object, .. } => {
            lemma_spec_convert_wf(*next_object);
        },
        _ => {},
    }
}

/// Every node the heading closer scans past presents either no heading
/// level or one strictly deeper than the scope being closed.
pub proof fn lemma_heading_scan_levels(start: u16, virt: int, s: Seq<NorgASTFlat>, j: int)
    requires
        0 <= j <= s.len(),
    ensures
        forall|k: int|
            j <= k < heading_close(start, virt, s, j).0 ==> ((#[trigger] scanned_heading_level(
                s[k],
            )) matches Some(l) ==> l > start),
    decreases s.len() - j,
{
    if j < s.len() {
        match scanned_heading_level(s[j]) {
            Some(l) => {
                if l > start {
                    lemma_heading_scan_levels(start, l as int, s, j + 1);
                }
            },
            None => {
                match s[j] {
                    NorgASTFlat::DelimitingModifier(DelimitingModifier::Weak) => {
                        if virt - 1 >= start {
                            lemma_heading_scan_levels(start, virt - 1, s, j + 1);
                        }
                    },
                    NorgASTFlat::DelimitingModifier(DelimitingModifier::Strong) => {},
                    _ => {
                        lemma_heading_scan_levels(start, virt, s, j + 1);
                    },
                }
            },
        }
    }
}

/// Every node the list closer assigns to the opener's content presents a
/// nestable level strictly deeper than the scope being closed.
pub proof fn lemma_list_scan_levels(start: u16, s: Seq<NorgASTFlat>, j: int)
    requires
        0 <= j <= s.len(),
    ensures
        forall|k: int|
            j <= k < list_close(start, s, j).0 ==> ((#[trigger] scanned_list_level(s[k])) matches
                Some(l)
                && l > start),
    decreases s.len() - j,
{
    if j < s.len() {
        match scanned_list_level(s[j]) {
            Some(l) => {
                if l > start && j < s.len() - 1 {
                    lemma_list_scan_levels(start, s, j + 1);
                }
            },
            None => {},
        }
    }
}

/// If every scanned heading level in the input is strictly deeper than
/// `bound`, every tree built from it is a lawful child of a heading of
/// level `bound`.
pub proof fn lemma_stage_4_heading_bound(s: Seq<NorgASTFlat>, bound: u16)
    requires
        forall|k: int|
            0 <= k < s.len() ==> ((#[trigger] scanned_heading_level(s[k])) matches Some(l) ==> l
                > bound),
    ensures
        forall|i: int|
            0 <= i < spec_stage_4(s).len() ==> heading_child_ok(
                bound,
                #[trigger] spec_stage_4(s)[i],
            ),
    decreases s.len(),
{
    if s.len() > 0 {
        let tail = s.drop_first();
        let out = spec_stage_4(s);
        assert(forall|k: int|
            0 <= k < tail.len() ==> scanned_heading_level(#[trigger] tail[k])
                == scanned_heading_level(s[k + 1]));
        match s[0] {
            NorgASTFlat::Heading { level, title, extensions } => {
                let r = heading_close(level, level as int, tail, 0);
                lemma_heading_close_bounds(level, level as int, tail, 0);
                let sub2 = tail.subrange(r.1, tail.len() as int);
                assert(forall|k: int|
                    0 <= k < sub2.len() ==> ((#[trigger] scanned_heading_level(sub2[k])) matches
                        Some(l) ==> l > bound));
                lemma_stage_4_heading_bound(sub2, bound);
                let out2 = spec_stage_4(sub2);
                assert(scanned_heading_level(s[0]) == Some(level));
                assert forall|i: int| 0 <= i < out.len() implies heading_child_ok(
                    bound,
                    #[trigger] out[i],
                ) by {
                    if i > 0 {
                        assert(out[i] == out2[i - 1]);
                    }
                }
            },
            NorgASTFlat::NestableDetachedModifier { level, .. } => {
                let r = list_close(level, tail, 0);
                lemma_list_close_bounds(level, tail, 0);
                let sub2 = tail.subrange(r.1, tail.len() as int);
                assert(forall|k: int|
                    0 <= k < sub2.len() ==> ((#[trigger] scanned_heading_level(sub2[k])) matches
                        Some(l) ==> l > bound));
                lemma_stage_4_heading_bound(sub2, bound);
                let out2 = spec_stage_4(sub2);
                assert forall|i: int| 0 <= i < out.len() implies heading_child_ok(
                    bound,
                    #[trigger] out[i],
                ) by {
                    if i > 0 {
                        assert(out[i] == out2[i - 1]);
                    }
                }
            },
            NorgASTFlat::CarryoverTag { next_object, .. } => {
                match *next_object {
                    NorgASTFlat::Heading { level, .. } => {
                        let r = heading_close(level, level as int, tail, 0);
                        lemma_heading_close_bounds(level, level as int, tail, 0);
                        let sub2 = tail.subrange(r.1, tail.len() as int);
                        assert(forall|k: int|
                            0 <= k < sub2.len() ==> ((#[trigger] scanned_heading_level(
                                sub2[k],
                            )) matches Some(l) ==> l > bound));
                        lemma_stage_4_heading_bound(sub2, bound);
                        let out2 = spec_stage_4(sub2);
                        assert forall|i: int| 0 <= i < out.len() implies heading_child_ok(
                            bound,
                            #[trigger] out[i],
                        ) by {
                            if i > 0 {
                                assert(out[i] == out2[i - 1]);
                            }
                        }
                    },
                    NorgASTFlat::NestableDetachedModifier { level, .. } => {
                        let r = list_close(level, tail, 0);
                        lemma_list_close_bounds(level, tail, 0);
                        let sub2 = tail.subrange(r.1, tail.len() as int);
                        assert(forall|k: int|
                            0 <= k < sub2.len() ==> ((#[trigger] scanned_heading_level(
                                sub2[k],
                            )) matches Some(l) ==> l > bound));
                        lemma_stage_4_heading_bound(sub2, bound);
                        let out2 = spec_stage_4(sub2);
                        assert forall|i: int| 0 <= i < out.len() implies heading_child_ok(
                            bound,
                            #[trigger] out[i],
                        ) by {
                            if i > 0 {
                                assert(out[i] == out2[i - 1]);
                            }
                        }
                    },
                    _ => {
                        lemma_stage_4_heading_bound(tail, bound);
                        lemma_convert_not_heading(s[0]);
                        let out2 = spec_stage_4(tail);
                        assert forall|i: int| 0 <= i < out.len() implies heading_child_ok(
                            bound,
                            #[trigger] out[i],
                        ) by {
                            if i > 0 {
                                assert(out[i] == out2[i - 1]);
                            }
                        }
                    },
                }
            },
            _ => {
                lemma_stage_4_heading_bound(tail, bound);
                lemma_convert_not_heading(s[0]);
                let out2 = spec_stage_4(tail);
                assert forall|i: int| 0 <= i < out.len() implies heading_child_ok(
                    bound,
                    #[trigger] out[i],
                ) by {
                    if i > 0 {
                        assert(out[i] == out2[i - 1]);
                    }
                }
            },
        }
    }
}

/// Converting a node that is not a bare heading never yields a heading.
pub proof fn lemma_convert_not_heading(n: NorgASTFlat)
    requires
        !(n matches NorgASTFlat::Heading { .. }),
    ensures
        !(spec_convert(n) matches NorgASTView::Heading { .. }),
{
}

/// If every node of the input presents a nestable level strictly deeper
/// than `bound`, every tree built from it is a lawful child of a nestable
/// detached modifier of level `bound`.
pub proof fn lemma_stage_4_list_shape(s: Seq<NorgASTFlat>, bound: u16)
    requires
        forall|k: int|
            0 <= k < s.len() ==> ((#[trigger] scanned_list_level(s[k])) matches Some(l)
                && l > bound),
    ensures
        forall|i: int|
            0 <= i < spec_stage_4(s).len() ==> list_child_ok(bound, #[trigger] spec_stage_4(s)[i]),
    decreases s.len(),
{
    if s.len() > 0 {
        let tail = s.drop_first();
        let out = spec_stage_4(s);
        assert(scanned_list_level(s[0]) matches Some(l) && l > bound);
        assert(forall|k: int|
            0 <= k < tail.len() ==> scanned_list_level(#[trigger] tail[k]) == scanned_list_level(
                s[k + 1],
            ));
        match s[0] {
            NorgASTFlat::NestableDetachedModifier { level, .. } => {
                let r = list_close(level, tail, 0);
                lemma_list_close_bounds(level, tail, 0);
                let sub2 = tail.subrange(r.1, tail.len() as int);
                assert(forall|k: int|
                    0 <= k < sub2.len() ==> ((#[trigger] scanned_list_level(sub2[k])) matches Some(
                        l,
                    )
                        && l > bound));
                lemma_stage_4_list_shape(sub2, bound);
                let out2 = spec_stage_4(sub2);
                assert forall|i: int| 0 <= i < out.len() implies list_child_ok(
                    bound,
                    #[trigger] out[i],
                ) by {
                    if i > 0 {
                        assert(out[i] == out2[i - 1]);
                    }
                }
            },
            NorgASTFlat::CarryoverTag { next_object, .. } => {
                match *next_object {
                    NorgASTFlat::NestableDetachedModifier { level, .. } => {
                        let r = list_close(level, tail, 0);
                        lemma_list_close_bounds(level, tail, 0);
                        let sub2 = tail.subrange(r.1, tail.len() as int);
                        assert(forall|k: int|
                            0 <= k < sub2.len() ==> ((#[trigger] scanned_list_level(
                                sub2[k],
                            )) matches Some(l)
                                && l > bound));
                        lemma_stage_4_list_shape(sub2, bound);
                        let out2 = spec_stage_4(sub2);
                        assert forall|i: int| 0 <= i < out.len() implies list_child_ok(
                            bound,
                            #[trigger] out[i],
                        ) by {
                            if i > 0 {
                                assert(out[i] == out2[i - 1]);
                            }
                        }
                    },
                    _ => {},
                }
            },
            _ => {},
        }
    }
}

/// Heading and list level invariants: every tree the nesting stage builds
/// is well-nested at every depth — a heading never holds a heading of its
/// own or a shallower level, and a nestable detached modifier holds only
/// strictly deeper nestable modifiers, possibly carryover-wrapped.
pub proof fn lemma_stage_4_well_nested(s: Seq<NorgASTFlat>)
    ensures
        forall|i: int| 0 <= i < spec_stage_4(s).len() ==> view_wf(#[trigger] spec_stage_4(s)[i]),
    decreases s.len(),
{
    if s.len() > 0 {
        let tail = s.drop_first();
        let out = spec_stage_4(s);
        match s[0] {
            NorgASTFlat::Heading { level, title, extensions } => {
                let r = heading_close(level, level as int, tail, 0);
                lemma_heading_close_bounds(level, level as int, tail, 0);
                lemma_heading_scan_levels(level, level as int, tail, 0);
                let sub1 = tail.subrange(0, r.0);
                let sub2 = tail.subrange(r.1, tail.len() as int);
                assert(forall|k: int|
                    0 <= k < sub1.len() ==> ((#[trigger] scanned_heading_level(sub1[k])) matches
                        Some(l) ==> l > level));
                lemma_stage_4_heading_bound(sub1, level);
                lemma_stage_4_well_nested(sub1);
                lemma_stage_4_well_nested(sub2);
                let head = NorgASTView::Heading {
                    level,
                    title,
                    extensions,
                    content: spec_stage_4(sub1),
                };
                assert(view_wf(head));
                let out2 = spec_stage_4(sub2);
                assert forall|i: int| 0 <= i < out.len() implies view_wf(#[trigger] out[i]) by {
                    if i > 0 {
                        assert(out[i] == out2[i - 1]);
                    }
                }
            },
            NorgASTFlat::NestableDetachedModifier { modifier_type, level, extensions, content } => {
                let r = list_close(level, tail, 0);
                lemma_list_close_bounds(level, tail, 0);
                lemma_list_scan_levels(level, tail, 0);
                let sub1 = tail.subrange(0, r.0);
                let sub2 = tail.subrange(r.1, tail.len() as int);
                assert(forall|k: int|
                    0 <= k < sub1.len() ==> ((#[trigger] scanned_list_level(sub1[k])) matches Some(
                        l,
                    )
                        && l > level));
                lemma_stage_4_list_shape(sub1, level);
                lemma_stage_4_well_nested(sub1);
                lemma_stage_4_well_nested(sub2);
                let head = NorgASTView::NestableDetachedModifier {
                    modifier_type,
                    level,
                    extensions,
                    text: content,
                    content: spec_stage_4(sub1),
                };
                assert(view_wf(head));
                let out2 = spec_stage_4(sub2);
                assert forall|i: int| 0 <= i < out.len() implies view_wf(#[trigger] out[i]) by {
                    if i > 0 {
                        assert(out[i] == out2[i - 1]);
                    }
                }
            },
            NorgASTFlat::CarryoverTag { tag_type, name, parameters, next_object } => {
                match *next_object {
                    NorgASTFlat::Heading { level, title, extensions } => {
                        let r = heading_close(level, level as int, tail, 0);
                        lemma_heading_close_bounds(level, level as int, tail, 0);
                        lemma_heading_scan_levels(level, level as int, tail, 0);
                        let sub1 = tail.subrange(0, r.0);
                        let sub2 = tail.subrange(r.1, tail.len() as int);
                        assert(forall|k: int|
                            0 <= k < sub1.len() ==> ((#[trigger] scanned_heading_level(
                                sub1[k],
                            )) matches Some(l) ==> l > level));
                        lemma_stage_4_heading_bound(sub1, level);
                        lemma_stage_4_well_nested(sub1);
                        lemma_stage_4_well_nested(sub2);
                        let head = NorgASTView::Heading {
                            level,
                            title,
                            extensions,
                            content: spec_stage_4(sub1),
                        };
                        assert(view_wf(head));
                        let wrapped = NorgASTView::CarryoverTag {
                            tag_type,
                            name,
                            parameters,
                            next_object: Box::new(head),
                        };
                        assert(view_wf(wrapped));
                        let out2 = spec_stage_4(sub2);
                        assert forall|i: int| 0 <= i < out.len() implies view_wf(
                            #[trigger] out[i],
                        ) by {
                            if i > 0 {
                                assert(out[i] == out2[i - 1]);
                            }
                        }
                    },
                    NorgASTFlat::NestableDetachedModifier {
                        modifier_type,
                        level,
                        extensions,
                        content,
                    } => {
                        let r = list_close(level, tail, 0);
                        lemma_list_close_bounds(level, tail, 0);
                        lemma_list_scan_levels(level, tail, 0);
                        let sub1 = tail.subrange(0, r.0);
                        let sub2 = tail.subrange(r.1, tail.len() as int);
                        assert(forall|k: int|
                            0 <= k < sub1.len() ==> ((#[trigger] scanned_list_level(
                                sub1[k],
                            )) matches Some(l)
                                && l > level));
                        lemma_stage_4_list_shape(sub1, level);
                        lemma_stage_4_well_nested(sub1);
                        lemma_stage_4_well_nested(sub2);
                        let head = NorgASTView::NestableDetachedModifier {
                            modifier_type,
                            level,
                            extensions,
                            text: content,
                            content: spec_stage_4(sub1),
                        };
                        assert(view_wf(head));
                        let wrapped = NorgASTView::CarryoverTag {
                            tag_type,
                            name,
                            parameters,
                            next_object: Box::new(head),
                        };
                        assert(view_wf(wrapped));
                        let out2 = spec_stage_4(sub2);
                        assert forall|i: int| 0 <= i < out.len() implies view_wf(
                            #[trigger] out[i],
                        ) by {
                            if i > 0 {
                                assert(out[i] == out2[i - 1]);
                            }
                        }
                    },
                    _ => {
                        lemma_stage_4_well_nested(tail);
                        lemma_spec_convert_wf(s[0]);
                        let out2 = spec_stage_4(tail);
                        assert forall|i: int| 0 <= i < out.len() implies view_wf(
                            #[trigger] out[i],
                        ) by {
                            if i > 0 {
                                assert(out[i] == out2[i - 1]);
                            }
                        }
                    },
                }
            },
            _ => {
                lemma_stage_4_well_nested(tail);
                lemma_spec_convert_wf(s[0]);
                let out2 = spec_stage_4(tail);
                assert forall|i: int| 0 <= i < out.len() implies view_wf(#[trigger] out[i]) by {
                    if i > 0 {
                        assert(out[i] == out2[i - 1]);
                    }
                }
            },
        }
    }
}

/// Carryover transparency: a heading wrapped in a carryover tag, fed the
/// identical trailing nodes, computes the identical content; the two
/// results differ only by the wrapper around the first tree.
pub proof fn lemma_carryover_transparency_heading(
    tag_type: CarryoverTag,
    name: Vec<String>,
    parameters: Vec<String>,
    h: NorgASTFlat,
    rest: Seq<NorgASTFlat>,
)
    requires
        h matches NorgASTFlat::Heading { .. },
    ensures
        ({
            let bare = spec_stage_4(seq![h] + rest);
            let wrapped = spec_stage_4(
                seq![
                    NorgASTFlat::CarryoverTag {
                        tag_type,
                        name,
                        parameters,
                        next_object: Box::new(h),
                    },
                ] + rest,
            );
            &&& bare.len() >= 1
            &&& wrapped.len() == bare.len()
            &&& wrapped[0] == NorgASTView::CarryoverTag {
                tag_type,
                name,
                parameters,
                next_object: Box::new(bare[0]),
            }
            &&& forall|i: int| 1 <= i < bare.len() ==> wrapped[i] == bare[i]
        }),
{
    let s1 = seq![h] + rest;
    let w = NorgASTFlat::CarryoverTag { tag_type, name, parameters, next_object: Box::new(h) };
    let s2 = seq![w] + rest;
    assert(s1.drop_first() =~= rest);
    assert(s2.drop_first() =~= rest);
    match h {
        NorgASTFlat::Heading { level, title, extensions } => {
            let r = heading_close(level, level as int, rest, 0);
            lemma_heading_close_bounds(level, level as int, rest, 0);
            let content = spec_stage_4(rest.subrange(0, r.0));
            let out2 = spec_stage_4(rest.subrange(r.1, rest.len() as int));
            let head = NorgASTView::Heading { level, title, extensions, content };
            assert(spec_stage_4(s1) == seq![head] + out2);
            assert(spec_stage_4(s2) == seq![
                NorgASTView::CarryoverTag {
                    tag_type,
                    name,
                    parameters,
                    next_object: Box::new(head),
                },
            ] + out2);
            assert forall|i: int| 1 <= i < spec_stage_4(s1).len() implies spec_stage_4(s2)[i]
                == spec_stage_4(s1)[i] by {
                assert(spec_stage_4(s1)[i] == out2[i - 1]);
                assert(spec_stage_4(s2)[i] == out2[i - 1]);
            }
        },
        _ => {},
    }
}

/// Carryover transparency for nestable detached modifiers, as in
/// `lemma_carryover_transparency_heading`.
pub proof fn lemma_carryover_transparency_list(
    tag_type: CarryoverTag,
    name: Vec<String>,
    parameters: Vec<String>,
    m: NorgASTFlat,
    rest: Seq<NorgASTFlat>,
)
    requires
        m matches NorgASTFlat::NestableDetachedModifier { .. },
    ensures
        ({
            let bare = spec_stage_4(seq![m] + rest);
            let wrapped = spec_stage_4(
                seq![
                    NorgASTFlat::CarryoverTag {
                        tag_type,
                        name,
                        parameters,
                        next_object: Box::new(m),
                    },
                ] + rest,
            );
            &&& bare.len() >= 1
            &&& wrapped.len() == bare.len()
            &&& wrapped[0] == NorgASTView::CarryoverTag {
                tag_type,
                name,
                parameters,
                next_object: Box::new(bare[0]),
            }
            &&& forall|i: int| 1 <= i < bare.len() ==> wrapped[i] == bare[i]
        }),
{
    let s1 = seq![m] + rest;
    let w = NorgASTFlat::CarryoverTag { tag_type, name, parameters, next_object: Box::new(m) };
    let s2 = seq![w] + rest;
    assert(s1.drop_first() =~= rest);
    assert(s2.drop_first() =~= rest);
    match m {
        NorgASTFlat::NestableDetachedModifier { modifier_type, level, extensions, content } => {
            let r = list_close(level, rest, 0);
            lemma_list_close_bounds(level, rest, 0);
            let inner = spec_stage_4(rest.subrange(0, r.0));
            let out2 = spec_stage_4(rest.subrange(r.1, rest.len() as int));
            let head = NorgASTView::NestableDetachedModifier {
                modifier_type,
                level,
                extensions,
                text: content,
                content: inner,
            };
            assert(spec_stage_4(s1) == seq![head] + out2);
            assert(spec_stage_4(s2) == seq![
                NorgASTView::CarryoverTag {
                    tag_type,
                    name,
                    parameters,
                    next_object: Box::new(head),
                },
            ] + out2);
            assert forall|i: int| 1 <= i < spec_stage_4(s1).len() implies spec_stage_4(s2)[i]
                == spec_stage_4(s1)[i] by {
                assert(spec_stage_4(s1)[i] == out2[i - 1]);
                assert(spec_stage_4(s2)[i] == out2[i - 1]);
            }
        },
        _ => {},
    }
}

/// A leaf-kind node: neither a structural opener, nor a delimiting
/// modifier, nor a carryover tag wrapping a structural opener.
pub open spec fn is_flat_leaf(n: NorgASTFlat) -> bool {
    match n {
        NorgASTFlat::Heading { .. } => false,
        NorgASTFlat::NestableDetachedModifier { .. } => false,
        NorgASTFlat::DelimitingModifier(_) => false,
        NorgASTFlat::CarryoverTag { next_object, .. } => match *next_object {
            NorgASTFlat::Heading { .. } => false,
            NorgASTFlat::NestableDetachedModifier { .. } => false,
            _ => true,
        },
        _ => true,
    }
}

/// The leaf-kind nodes of a flat sequence, in order, each as its converted
/// view.
pub open spec fn flat_leaves(s: Seq<NorgASTFlat>) -> Seq<NorgASTView>
    decreases s.len(),
{
    if s.len() == 0 {
        Seq::empty()
    } else if is_flat_leaf(s[0]) {
        seq![spec_convert(s[0])] + flat_leaves(s.drop_first())
    } else {
        flat_leaves(s.drop_first())
    }
}

/// The pre-order sequence of leaf-kind nodes of one built tree: structural
/// openers and carryover wrappers around them are traversed, delimiting
/// modifiers are skipped, every other node is a leaf.
pub open spec fn view_leaves(t: NorgASTView) -> Seq<NorgASTView>
    decreases t,
{
    match t {
        NorgASTView::Heading { content, .. } => view_leaves_seq(content),
        NorgASTView::NestableDetachedModifier { content, .. } => view_leaves_seq(content),
        NorgASTView::CarryoverTag { next_object, .. } => match *next_object {
            NorgASTView::Heading { .. } => view_leaves(*next_object),
            NorgASTView::NestableDetachedModifier { .. } => view_leaves(*next_object),
            _ => seq![t],
        },
        NorgASTView::DelimitingModifier(_) => Seq::empty(),
        _ => seq![t],
    }
}

/// The pre-order sequence of leaf-kind nodes of a sequence of built trees.
pub open spec fn view_leaves_seq(ts: Seq<NorgASTView>) -> Seq<NorgASTView>
    decreases ts,
{
    if ts.len() == 0 {
        Seq::empty()
    } else {
        view_leaves(ts[0]) + view_leaves_seq(ts.drop_first())
    }
}

/// `flat_leaves` distributes over concatenation.
proof fn lemma_flat_leaves_concat(a: Seq<NorgASTFlat>, b: Seq<NorgASTFlat>)
    ensures
        flat_leaves(a + b) == flat_leaves(a) + flat_leaves(b),
    decreases a.len(),
{
    if a.len() == 0 {
        assert(a + b =~= b);
        assert(flat_leaves(a) + flat_leaves(b) =~= flat_leaves(b));
    } else {
        lemma_flat_leaves_concat(a.drop_first(), b);
        assert((a + b).drop_first() =~= a.drop_first() + b);
        assert((a + b)[0] == a[0]);
        assert(flat_leaves(a + b) =~= flat_leaves(a) + flat_leaves(b));
    }
}

/// `view_leaves_seq` distributes over concatenation.
proof fn lemma_view_leaves_seq_concat(a: Seq<NorgASTView>, b: Seq<NorgASTView>)
    ensures
        view_leaves_seq(a + b) == view_leaves_seq(a) + view_leaves_seq(b),
    decreases a.len(),
{
    if a.len() == 0 {
        assert(a + b =~= b);
        assert(view_leaves_seq(a) + view_leaves_seq(b) =~= view_leaves_seq(b));
    } else {
        lemma_view_leaves_seq_concat(a.drop_first(), b);
        assert((a + b).drop_first() =~= a.drop_first() + b);
        assert((a + b)[0] == a[0]);
        assert(view_leaves_seq(a + b) =~= view_leaves_seq(a) + view_leaves_seq(b));
    }
}

/// Converting a node that is not a bare nestable detached modifier never
/// yields one.
pub proof fn lemma_convert_not_nestable(n: NorgASTFlat)
    requires
        !(n matches NorgASTFlat::NestableDetachedModifier { .. }),
    ensures
        !(spec_convert(n) matches NorgASTView::NestableDetachedModifier { .. }),
{
}

/// The conversion of a leaf-kind node is one leaf of the output.
proof fn lemma_convert_leaf(n: NorgASTFlat)
    requires
        is_flat_leaf(n),
    ensures
        view_leaves(spec_convert(n)) == seq![spec_convert(n)],
{
    match n {
        NorgASTFlat::CarryoverTag { next_object, .. } => {
            lemma_convert_not_heading(*next_object);
            lemma_convert_not_nestable(*next_object);
        },
        _ => {},
    }
}

/// `view_leaves_seq` of one tree is that tree's leaves.
proof fn lemma_view_leaves_seq_singleton(t: NorgASTView)
    ensures
        view_leaves_seq(seq![t]) == view_leaves(t),
{
    assert(seq![t].drop_first() =~= Seq::<NorgASTView>::empty());
    assert(view_leaves_seq(seq![t].drop_first()) == Seq::<NorgASTView>::empty());
    assert(view_leaves_seq(seq![t]) == view_leaves(seq![t][0]) + view_leaves_seq(
        seq![t].drop_first(),
    ));
    assert(view_leaves(t) + Seq::<NorgASTView>::empty() =~= view_leaves(t));
}

/// A range holding at most one node, and no leaf, contributes no leaves.
proof fn lemma_flat_leaves_skipped(mid: Seq<NorgASTFlat>)
    requires
        mid.len() == 0 || (mid.len() == 1 && !is_flat_leaf(mid[0])),
    ensures
        flat_leaves(mid) == Seq::<NorgASTView>::empty(),
{
    if mid.len() == 1 {
        assert(mid.drop_first() =~= Seq::<NorgASTFlat>::empty());
        assert(flat_leaves(mid) == flat_leaves(mid.drop_first()));
        assert(flat_leaves(mid.drop_first()) == Seq::<NorgASTView>::empty());
    }
}

/// Leaf preservation: the pre-order sequence of leaf-kind nodes of the
/// built trees is exactly the sequence of leaf-kind nodes of the flat
/// input, in the same order, for every input.  Delimiting modifiers are
/// not leaves: a consumed one is elided and a kept one converts in place.
pub proof fn lemma_leaf_preservation(s: Seq<NorgASTFlat>)
    ensures
        view_leaves_seq(spec_stage_4(s)) == flat_leaves(s),
    decreases s.len(),
{
    if s.len() > 0 {
        let tail = s.drop_first();
        let out = spec_stage_4(s);
        match s[0] {
            NorgASTFlat::Heading { level, title, extensions } => {
                let r = heading_close(level, level as int, tail, 0);
                lemma_heading_close_bounds(level, level as int, tail, 0);
                let sub1 = tail.subrange(0, r.0);
                let mid = tail.subrange(r.0, r.1);
                let sub2 = tail.subrange(r.1, tail.len() as int);
                lemma_leaf_preservation(sub1);
                lemma_leaf_preservation(sub2);
                assert(tail =~= sub1 + (mid + sub2));
                lemma_flat_leaves_concat(sub1, mid + sub2);
                lemma_flat_leaves_concat(mid, sub2);
                if r.1 > r.0 {
                    assert(mid.len() == 1);
                    assert(mid[0] == tail[r.0]);
                    assert(!is_flat_leaf(mid[0]));
                }
                lemma_flat_leaves_skipped(mid);
                let content = spec_stage_4(sub1);
                let out2 = spec_stage_4(sub2);
                let head = NorgASTView::Heading { level, title, extensions, content };
                assert(out == seq![head] + out2);
                lemma_view_leaves_seq_concat(seq![head], out2);
                lemma_view_leaves_seq_singleton(head);
                assert(view_leaves(head) == view_leaves_seq(content));
                assert(view_leaves_seq(out) =~= flat_leaves(s));
            },
            NorgASTFlat::NestableDetachedModifier { modifier_type, level, extensions, content } => {
                let r = list_close(level, tail, 0);
                lemma_list_close_bounds(level, tail, 0);
                let sub1 = tail.subrange(0, r.0);
                let sub2 = tail.subrange(r.1, tail.len() as int);
                lemma_leaf_preservation(sub1);
                lemma_leaf_preservation(sub2);
                assert(tail =~= sub1 + sub2);
                lemma_flat_leaves_concat(sub1, sub2);
                let inner = spec_stage_4(sub1);
                let out2 = spec_stage_4(sub2);
                let head = NorgASTView::NestableDetachedModifier {
                    modifier_type,
                    level,
                    extensions,
                    text: content,
                    content: inner,
                };
                assert(out == seq![head] + out2);
                lemma_view_leaves_seq_concat(seq![head], out2);
                lemma_view_leaves_seq_singleton(head);
                assert(view_leaves(head) == view_leaves_seq(inner));
                assert(view_leaves_seq(out) =~= flat_leaves(s));
            },
            NorgASTFlat::CarryoverTag { tag_type, name, parameters, next_object } => {
                match *next_object {
                    NorgASTFlat::Heading { level, title, extensions } => {
                        let r = heading_close(level, level as int, tail, 0);
                        lemma_heading_close_bounds(level, level as int, tail, 0);
                        let sub1 = tail.subrange(0, r.0);
                        let mid = tail.subrange(r.0, r.1);
                        let sub2 = tail.subrange(r.1, tail.len() as int);
                        lemma_leaf_preservation(sub1);
                        lemma_leaf_preservation(sub2);
                        assert(tail =~= sub1 + (mid + sub2));
                        lemma_flat_leaves_concat(sub1, mid + sub2);
                        lemma_flat_leaves_concat(mid, sub2);
                        if r.1 > r.0 {
                            assert(mid.len() == 1);
                            assert(mid[0] == tail[r.0]);
                            assert(!is_flat_leaf(mid[0]));
                        }
                        lemma_flat_leaves_skipped(mid);
                        let content = spec_stage_4(sub1);
                        let out2 = spec_stage_4(sub2);
                        let head = NorgASTView::Heading { level, title, extensions, content };
                        let wrapped = NorgASTView::CarryoverTag {
                            tag_type,
                            name,
                            parameters,
                            next_object: Box::new(head),
                        };
                        assert(out == seq![wrapped] + out2);
                        lemma_view_leaves_seq_concat(seq![wrapped], out2);
                        lemma_view_leaves_seq_singleton(wrapped);
                        assert(view_leaves(wrapped) == view_leaves(head));
                        assert(view_leaves(head) == view_leaves_seq(content));
                        assert(view_leaves_seq(out) =~= flat_leaves(s));
                    },
                    NorgASTFlat::NestableDetachedModifier {
                        modifier_type,
                        level,
                        extensions,
                        content,
                    } => {
                        let r = list_close(level, tail, 0);
                        lemma_list_close_bounds(level, tail, 0);
                        let sub1 = tail.subrange(0, r.0);
                        let sub2 = tail.subrange(r.1, tail.len() as int);
                        lemma_leaf_preservation(sub1);
                        lemma_leaf_preservation(sub2);
                        assert(tail =~= sub1 + sub2);
                        lemma_flat_leaves_concat(sub1, sub2);
                        let inner = spec_stage_4(sub1);
                        let out2 = spec_stage_4(sub2);
                        let head = NorgASTView::NestableDetachedModifier {
                            modifier_type,
                            level,
                            extensions,
                            text: content,
                            content: inner,
                        };
                        let wrapped = NorgASTView::CarryoverTag {
                            tag_type,
                            name,
                            parameters,
                            next_object: Box::new(head),
                        };
                        assert(out == seq![wrapped] + out2);
                        lemma_view_leaves_seq_concat(seq![wrapped], out2);
                        lemma_view_leaves_seq_singleton(wrapped);
                        assert(view_leaves(wrapped) == view_leaves(head));
                        assert(view_leaves(head) == view_leaves_seq(inner));
                        assert(view_leaves_seq(out) =~= flat_leaves(s));
                    },
                    _ => {
                        lemma_leaf_preservation(tail);
                        let conv = spec_convert(s[0]);
                        let out2 = spec_stage_4(tail);
                        assert(out == seq![conv] + out2);
                        lemma_view_leaves_seq_concat(seq![conv], out2);
                        lemma_view_leaves_seq_singleton(conv);
                        lemma_convert_leaf(s[0]);
                        assert(view_leaves_seq(out) =~= flat_leaves(s));
                    },
                }
            },
            _ => {
                lemma_leaf_preservation(tail);
                let conv = spec_convert(s[0]);
                let out2 = spec_stage_4(tail);
                assert(out == seq![conv] + out2);
                lemma_view_leaves_seq_concat(seq![conv], out2);
                lemma_view_leaves_seq_singleton(conv);
                if is_flat_leaf(s[0]) {
                    lemma_convert_leaf(s[0]);
                    assert(view_leaves_seq(out) =~= flat_leaves(s));
                } else {
                    assert(s[0] matches NorgASTFlat::DelimitingModifier(_));
                    assert(view_leaves(conv) =~= Seq::<NorgASTView>::empty());
                    assert(view_leaves_seq(out) =~= flat_leaves(s));
                }
            },
        }
    }
}

/// The number of strong delimiting modifiers a flat node holds, looking
/// through carryover wrappers.
pub open spec fn flat_strong_count(n: NorgASTFlat) -> nat
    decreases n,
{
    match n {
        NorgASTFlat::DelimitingModifier(d) => if d == DelimitingModifier::Strong {
            1nat
        } else {
            0nat
        },
        NorgASTFlat::CarryoverTag { next_object, .. } => flat_strong_count(*next_object),
        _ => 0,
    }
}

/// The number of strong delimiting modifiers in a flat sequence.
pub open spec fn flat_seq_strong_count(s: Seq<NorgASTFlat>) -> nat
    decreases s.len(),
{
    if s.len() == 0 {
        0
    } else {
        flat_strong_count(s[0]) + flat_seq_strong_count(s.drop_first())
    }
}

/// The number of strong delimiting modifiers anywhere in a built tree.
pub open spec fn view_strong_count(t: NorgASTView) -> nat
    decreases t,
{
    match t {
        NorgASTView::Heading { content, .. } => view_seq_strong_count(content),
        NorgASTView::NestableDetachedModifier { content, .. } => view_seq_strong_count(content),
        NorgASTView::CarryoverTag { next_object, .. } => view_strong_count(*next_object),
        NorgASTView::DelimitingModifier(d) => if d == DelimitingModifier::Strong {
            1nat
        } else {
            0nat
        },
        _ => 0,
    }
}

/// The number of strong delimiting modifiers anywhere in a sequence of
/// built trees.
pub open spec fn view_seq_strong_count(ts: Seq<NorgASTView>) -> nat
    decreases ts,
{
    if ts.len() == 0 {
        0
    } else {
        view_strong_count(ts[0]) + view_seq_strong_count(ts.drop_first())
    }
}

/// `flat_seq_strong_count` distributes over concatenation.
proof fn lemma_flat_strong_count_concat(a: Seq<NorgASTFlat>, b: Seq<NorgASTFlat>)
    ensures
        flat_seq_strong_count(a + b) == flat_seq_strong_count(a) + flat_seq_strong_count(b),
    decreases a.len(),
{
    if a.len() == 0 {
        assert(a + b =~= b);
    } else {
        lemma_flat_strong_count_concat(a.drop_first(), b);
        assert((a + b).drop_first() =~= a.drop_first() + b);
        assert((a + b)[0] == a[0]);
    }
}

/// `view_seq_strong_count` distributes over concatenation.
proof fn lemma_view_strong_count_concat(a: Seq<NorgASTView>, b: Seq<NorgASTView>)
    ensures
        view_seq_strong_count(a + b) == view_seq_strong_count(a) + view_seq_strong_count(b),
    decreases a.len(),
{
    if a.len() == 0 {
        assert(a + b =~= b);
    } else {
        lemma_view_strong_count_concat(a.drop_first(), b);
        assert((a + b).drop_first() =~= a.drop_first() + b);
        assert((a + b)[0] == a[0]);
    }
}

/// `view_seq_strong_count` of one tree is that tree's count.
proof fn lemma_view_strong_count_singleton(t: NorgASTView)
    ensures
        view_seq_strong_count(seq![t]) == view_strong_count(t),
{
    assert(seq![t].drop_first() =~= Seq::<NorgASTView>::empty());
    assert(view_seq_strong_count(seq![t].drop_first()) == 0);
    assert(seq![t][0] == t);
}

/// `flat_seq_strong_count` of one node is that node's count.
proof fn lemma_flat_strong_count_singleton(n: NorgASTFlat)
    ensures
        flat_seq_strong_count(seq![n]) == flat_strong_count(n),
{
    assert(seq![n].drop_first() =~= Seq::<NorgASTFlat>::empty());
    assert(flat_seq_strong_count(seq![n].drop_first()) == 0);
    assert(seq![n][0] == n);
}

/// Converting a leaf keeps its strong-delimiter count.
proof fn lemma_convert_strong_count(n: NorgASTFlat)
    ensures
        view_strong_count(spec_convert(n)) == flat_strong_count(n),
    decreases n,
{
    match n {
        NorgASTFlat::CarryoverTag { next_object, .. } => {
            lemma_convert_strong_count(*next_object);
        },
        NorgASTFlat::Heading { .. } => {
            assert(view_seq_strong_count(Seq::<NorgASTView>::empty()) == 0);
        },
        NorgASTFlat::NestableDetachedModifier { .. } => {
            assert(view_seq_strong_count(Seq::<NorgASTView>::empty()) == 0);
        },
        _ => {},
    }
}

/// The built trees never hold more strong delimiting modifiers than the
/// flat input: closure consumes delimiters and fabricates none.
pub proof fn lemma_stage_4_strong_count(s: Seq<NorgASTFlat>)
    ensures
        view_seq_strong_count(spec_stage_4(s)) <= flat_seq_strong_count(s),
    decreases s.len(),
{
    if s.len() > 0 {
        let tail = s.drop_first();
        let out = spec_stage_4(s);
        assert(s =~= seq![s[0]] + tail);
        lemma_flat_strong_count_concat(seq![s[0]], tail);
        lemma_flat_strong_count_singleton(s[0]);
        match s[0] {
            NorgASTFlat::Heading { level, title, extensions } => {
                let r = heading_close(level, level as int, tail, 0);
                lemma_heading_close_bounds(level, level as int, tail, 0);
                let sub1 = tail.subrange(0, r.0);
                let mid = tail.subrange(r.0, r.1);
                let sub2 = tail.subrange(r.1, tail.len() as int);
                lemma_stage_4_strong_count(sub1);
                lemma_stage_4_strong_count(sub2);
                assert(tail =~= sub1 + (mid + sub2));
                lemma_flat_strong_count_concat(sub1, mid + sub2);
                lemma_flat_strong_count_concat(mid, sub2);
                let content = spec_stage_4(sub1);
                let out2 = spec_stage_4(sub2);
                let head = NorgASTView::Heading { level, title, extensions, content };
                assert(out == seq![head] + out2);
                lemma_view_strong_count_concat(seq![head], out2);
                lemma_view_strong_count_singleton(head);
            },
            NorgASTFlat::NestableDetachedModifier { modifier_type, level, extensions, content } => {
                let r = list_close(level, tail, 0);
                lemma_list_close_bounds(level, tail, 0);
                let sub1 = tail.subrange(0, r.0);
                let sub2 = tail.subrange(r.1, tail.len() as int);
                lemma_stage_4_strong_count(sub1);
                lemma_stage_4_strong_count(sub2);
                assert(tail =~= sub1 + sub2);
                lemma_flat_strong_count_concat(sub1, sub2);
                let inner = spec_stage_4(sub1);
                let out2 = spec_stage_4(sub2);
                let head = NorgASTView::NestableDetachedModifier {
                    modifier_type,
                    level,
                    extensions,
                    text: content,
                    content: inner,
                };
                assert(out == seq![head] + out2);
                lemma_view_strong_count_concat(seq![head], out2);
                lemma_view_strong_count_singleton(head);
            },
            NorgASTFlat::CarryoverTag { tag_type, name, parameters, next_object } => {
                match *next_object {
                    NorgASTFlat::Heading { level, title, extensions } => {
                        let r = heading_close(level, level as int, tail, 0);
                        lemma_heading_close_bounds(level, level as int, tail, 0);
                        let sub1 = tail.subrange(0, r.0);
                        let mid = tail.subrange(r.0, r.1);
                        let sub2 = tail.subrange(r.1, tail.len() as int);
                        lemma_stage_4_strong_count(sub1);
                        lemma_stage_4_strong_count(sub2);
                        assert(tail =~= sub1 + (mid + sub2));
                        lemma_flat_strong_count_concat(sub1, mid + sub2);
                        lemma_flat_strong_count_concat(mid, sub2);
                        let content = spec_stage_4(sub1);
                        let out2 = spec_stage_4(sub2);
                        let head = NorgASTView::Heading { level, title, extensions, content };
                        let wrapped = NorgASTView::CarryoverTag {
                            tag_type,
                            name,
                            parameters,
                            next_object: Box::new(head),
                        };
                        assert(out == seq![wrapped] + out2);
                        lemma_view_strong_count_concat(seq![wrapped], out2);
                        lemma_view_strong_count_singleton(wrapped);
                        assert(view_strong_count(wrapped) == view_strong_count(head));
                    },
                    NorgASTFlat::NestableDetachedModifier {
                        modifier_type,
                        level,
                        extensions,
                        content,
                    } => {
                        let r = list_close(level, tail, 0);
                        lemma_list_close_bounds(level, tail, 0);
                        let sub1 = tail.subrange(0, r.0);
                        let sub2 = tail.subrange(r.1, tail.len() as int);
                        lemma_stage_4_strong_count(sub1);
                        lemma_stage_4_strong_count(sub2);
                        assert(tail =~= sub1 + sub2);
                        lemma_flat_strong_count_concat(sub1, sub2);
                        let inner = spec_stage_4(sub1);
                        let out2 = spec_stage_4(sub2);
                        let head = NorgASTView::NestableDetachedModifier {
                            modifier_type,
                            level,
                            extensions,
                            text: content,
                            content: inner,
                        };
                        let wrapped = NorgASTView::CarryoverTag {
                            tag_type,
                            name,
                            parameters,
                            next_object: Box::new(head),
                        };
                        assert(out == seq![wrapped] + out2);
                        lemma_view_strong_count_concat(seq![wrapped], out2);
                        lemma_view_strong_count_singleton(wrapped);
                        assert(view_strong_count(wrapped) == view_strong_count(head));
                    },
                    _ => {
                        lemma_stage_4_strong_count(tail);
                        let conv = spec_convert(s[0]);
                        let out2 = spec_stage_4(tail);
                        assert(out == seq![conv] + out2);
                        lemma_view_strong_count_concat(seq![conv], out2);
                        lemma_view_strong_count_singleton(conv);
                        lemma_convert_strong_count(s[0]);
                    },
                }
            },
            _ => {
                lemma_stage_4_strong_count(tail);
                let conv = spec_convert(s[0]);
                let out2 = spec_stage_4(tail);
                assert(out == seq![conv] + out2);
                lemma_view_strong_count_concat(seq![conv], out2);
                lemma_view_strong_count_singleton(conv);
                lemma_convert_strong_count(s[0]);
            },
        }
    }
}

/// Delimiter consumption: when a strong delimiting modifier closes a
/// heading scope, the built trees are exactly the heading — whose content
/// comes from the nodes before the delimiter — followed by the trees of the
/// nodes after it; the consumed delimiter is dropped, so the output holds
/// strictly fewer strong delimiters than the input.
pub proof fn lemma_strong_delimiter_consumed(
    level: u16,
    title: Vec<ParagraphSegmentToken>,
    extensions: Vec<DetachedModifierExtension>,
    rest: Seq<NorgASTFlat>,
)
    requires
        ({
            let (end, resume) = heading_close(level, level as int, rest, 0);
            end < rest.len() && rest[end] == NorgASTFlat::DelimitingModifier(
                DelimitingModifier::Strong,
            )
        }),
    ensures
        ({
            let s = seq![NorgASTFlat::Heading { level, title, extensions }] + rest;
            let (end, resume) = heading_close(level, level as int, rest, 0);
            &&& spec_stage_4(s) == seq![
                NorgASTView::Heading {
                    level,
                    title,
                    extensions,
                    content: spec_stage_4(rest.subrange(0, end)),
                },
            ] + spec_stage_4(rest.subrange(end + 1, rest.len() as int))
            &&& view_seq_strong_count(spec_stage_4(s)) < flat_seq_strong_count(s)
        }),
{
    let s = seq![NorgASTFlat::Heading { level, title, extensions }] + rest;
    let tail = s.drop_first();
    assert(tail =~= rest);
    let r = heading_close(level, level as int, rest, 0);
    lemma_heading_close_bounds(level, level as int, rest, 0);
    assert(r.1 == r.0 + 1);
    let sub1 = rest.subrange(0, r.0);
    let mid = rest.subrange(r.0, r.1);
    let sub2 = rest.subrange(r.1, rest.len() as int);
    let content = spec_stage_4(sub1);
    let out2 = spec_stage_4(sub2);
    let head = NorgASTView::Heading { level, title, extensions, content };
    assert(spec_stage_4(s) == seq![head] + out2);
    lemma_stage_4_strong_count(sub1);
    lemma_stage_4_strong_count(sub2);
    assert(rest =~= sub1 + (mid + sub2));
    lemma_flat_strong_count_concat(sub1, mid + sub2);
    lemma_flat_strong_count_concat(mid, sub2);
    assert(mid =~= seq![rest[r.0]]);
    lemma_flat_strong_count_singleton(rest[r.0]);
    assert(flat_seq_strong_count(mid) == 1);
    lemma_view_strong_count_concat(seq![head], out2);
    lemma_view_strong_count_singleton(head);
    assert(s =~= seq![s[0]] + rest);
    lemma_flat_strong_count_concat(seq![s[0]], rest);
    lemma_flat_strong_count_singleton(s[0]);
}

} // verus!
