//! The recursive tree builder and its scope closers.
//!
//! `stage_4` turns a flat sequence of block nodes into a nested tree by a
//! single left-to-right scan.  Every structural opener (a heading or a
//! nestable detached modifier, bare or wrapped in a carryover tag) triggers a
//! scope closer that determines which following nodes belong inside it; the
//! builder recurses on that sub-range and resumes after it.  The ghost
//! functions `heading_close`, `list_close` and `spec_stage_4` state the
//! algorithm over mathematical sequences; the executable functions are
//! proved to agree with them exactly.

use vstd::prelude::*;

use crate::ast::NorgAST;
use crate::ast::NorgASTFlat;
use crate::ast::NorgASTView;
use crate::ast::DelimitingModifier;
use crate::ast::ast_seq_view;
use crate::ast::ast_view;
use crate::ast::convert;
use crate::ast::spec_convert;

verus! {

/// The heading level a node presents to a scanning heading closer: the level
/// of a bare heading, or of a heading wrapped in a carryover tag.
pub open spec fn scanned_heading_level(n: NorgASTFlat) -> Option<u16> {
    match n {
        NorgASTFlat::Heading { level, .. } => Some(level),
        NorgASTFlat::CarryoverTag { next_object, .. } => match *next_object {
            NorgASTFlat::Heading { level, .. } => Some(level),
            _ => None,
        },
        _ => None,
    }
}

/// The level a node presents to a scanning list closer: the level of a bare
/// nestable detached modifier, or of one wrapped in a carryover tag.
pub open spec fn scanned_list_level(n: NorgASTFlat) -> Option<u16> {
    match n {
        NorgASTFlat::NestableDetachedModifier { level, .. } => Some(level),
        NorgASTFlat::CarryoverTag { next_object, .. } => match *next_object {
            NorgASTFlat::NestableDetachedModifier { level, .. } => Some(level),
            _ => None,
        },
        _ => None,
    }
}

/// Where a heading scope closes.  `s` holds the nodes after the heading,
/// `start` is the heading's level, `virt` the virtual level reached so far,
/// and `j` the scan position.  The result `(end, resume)` means: the
/// heading's content is `s.subrange(0, end)`, and the siblings after the
/// heading are `s.subrange(resume, s.len())`.
///
/// A heading (bare or carryover-wrapped) of level at most `start` is a
/// boundary and stays a sibling (`resume == end`); a deeper one raises the
/// virtual level.  A weak delimiting modifier lowers the virtual level by
/// one and is consumed if that drops below `start`; a strong one always
/// closes and is consumed (`resume == end + 1`).  Any other node is scanned
/// past.  Without a boundary the heading absorbs the remainder.
pub open spec fn heading_close(start: u16, virt: int, s: Seq<NorgASTFlat>, j: int) -> (int, int)
    decreases s.len() - j,
{
    if j >= s.len() {
        (s.len() as int, s.len() as int)
    } else {
        match scanned_heading_level(s[j]) {
            Some(l) => if l <= start {
                (j, j)
            } else {
                heading_close(start, l as int, s, j + 1)
            },
            None => match s[j] {
                NorgASTFlat::DelimitingModifier(DelimitingModifier::Weak) => if virt - 1
                    < start {
                    (j, j + 1)
                } else {
                    heading_close(start, virt - 1, s, j + 1)
                },
                NorgASTFlat::DelimitingModifier(DelimitingModifier::Strong) => (j, j + 1),
                _ => heading_close(start, virt, s, j + 1),
            },
        }
    }
}

/// Where a nestable detached modifier's scope closes; `s` holds the nodes
/// after the opener of level `start`, and `j` is the scan position.  The
/// result reads as in `heading_close`.
///
/// A nestable modifier (bare or carryover-wrapped) of level at most `start`
/// is a boundary and stays a sibling; a deeper one is scanned past, except
/// that a deeper one in last position is absorbed with the rest.  Any other
/// node closes the scope immediately and stays a sibling: list nesting uses
/// no delimiter-driven closure.
pub open spec fn list_close(start: u16, s: Seq<NorgASTFlat>, j: int) -> (int, int)
    decreases s.len() - j,
{
    if j >= s.len() {
        (s.len() as int, s.len() as int)
    } else {
        match scanned_list_level(s[j]) {
            Some(l) => if l <= start {
                (j, j)
            } else if j == s.len() - 1 {
                (s.len() as int, s.len() as int)
            } else {
                list_close(start, s, j + 1)
            },
            None => (j, j),
        }
    }
}

/// The scope-closure results stay inside the scanned range, and exactly one
/// node — a consumed delimiting modifier — lies between content and resume.
pub proof fn lemma_heading_close_bounds(start: u16, virt: int, s: Seq<NorgASTFlat>, j: int)
    requires
        0 <= j <= s.len(),
    ensures
        ({
            let (end, resume) = heading_close(start, virt, s, j);
            &&& j <= end <= s.len()
            &&& end <= resume <= s.len()
            &&& resume <= end + 1
            &&& end < s.len() ==> ((s[end] matches NorgASTFlat::DelimitingModifier(_)) <==> resume
                == end + 1)
        }),
    decreases s.len() - j,
{
    if j < s.len() {
        match scanned_heading_level(s[j]) {
            Some(l) => {
                if l > start {
                    lemma_heading_close_bounds(start, l as int, s, j + 1);
                }
            },
            None => {
                match s[j] {
                    NorgASTFlat::DelimitingModifier(DelimitingModifier::Weak) => {
                        if virt - 1 >= start {
                            lemma_heading_close_bounds(start, virt - 1, s, j + 1);
                        }
                    },
                    NorgASTFlat::DelimitingModifier(DelimitingModifier::Strong) => {},
                    _ => {
                        lemma_heading_close_bounds(start, virt, s, j + 1);
                    },
                }
            },
        }
    }
}

/// The list closer's results stay inside the scanned range; list closure
/// never consumes a node, so the scan resumes exactly at the boundary.
pub proof fn lemma_list_close_bounds(start: u16, s: Seq<NorgASTFlat>, j: int)
    requires
        0 <= j <= s.len(),
    ensures
        ({
            let (end, resume) = list_close(start, s, j);
            &&& j <= end <= s.len()
            &&& resume == end
        }),
    decreases s.len() - j,
{
    if j < s.len() {
        match scanned_list_level(s[j]) {
            Some(l) => {
                if l > start && j < s.len() - 1 {
                    lemma_list_close_bounds(start, s, j + 1);
                }
            },
            None => {},
        }
    }
}

/// The nested trees of a flat sequence: the ghost statement of the whole
/// algorithm.  The first node is dispatched on its kind; a structural opener
/// takes the sub-range its scope closer delimits as content, and the scan
/// resumes behind it; every other node converts 1:1.
pub open spec fn spec_stage_4(s: Seq<NorgASTFlat>) -> Seq<NorgASTView>
    decreases s.len(),
{
    if s.len() == 0 {
        Seq::empty()
    } else {
        let tail = s.drop_first();
        match s[0] {
            NorgASTFlat::Heading { level, title, extensions } => {
                let r = heading_close(level, level as int, tail, 0);
                proof {
                    lemma_heading_close_bounds(level, level as int, tail, 0);
                }
                seq![
                    NorgASTView::Heading {
                        level,
                        title,
                        extensions,
                        content: spec_stage_4(tail.subrange(0, r.0)),
                    },
                ] + spec_stage_4(tail.subrange(r.1, tail.len() as int))
            },
            NorgASTFlat::NestableDetachedModifier { modifier_type, level, extensions, content } => {
                let r = list_close(level, tail, 0);
                proof {
                    lemma_list_close_bounds(level, tail, 0);
                }
                seq![
                    NorgASTView::NestableDetachedModifier {
                        modifier_type,
                        level,
                        extensions,
                        text: content,
                        content: spec_stage_4(tail.subrange(0, r.0)),
                    },
                ] + spec_stage_4(tail.subrange(r.1, tail.len() as int))
            },
            NorgASTFlat::CarryoverTag { tag_type, name, parameters, next_object } => {
                match *next_object {
                    NorgASTFlat::Heading { level, title, extensions } => {
                        let r = heading_close(level, level as int, tail, 0);
                        proof {
                            lemma_heading_close_bounds(level, level as int, tail, 0);
                        }
                        seq![
                            NorgASTView::CarryoverTag {
                                tag_type,
                                name,
                                parameters,
                                next_object: Box::new(
                                    NorgASTView::Heading {
                                        level,
                                        title,
                                        extensions,
                                        content: spec_stage_4(tail.subrange(0, r.0)),
                                    },
                                ),
                            },
                        ] + spec_stage_4(tail.subrange(r.1, tail.len() as int))
                    },
                    NorgASTFlat::NestableDetachedModifier {
                        modifier_type,
                        level,
                        extensions,
                        content,
                    } => {
                        let r = list_close(level, tail, 0);
                        proof {
                            lemma_list_close_bounds(level, tail, 0);
                        }
                        seq![
                            NorgASTView::CarryoverTag {
                                tag_type,
                                name,
                                parameters,
                                next_object: Box::new(
                                    NorgASTView::NestableDetachedModifier {
                                        modifier_type,
                                        level,
                                        extensions,
                                        text: content,
                                        content: spec_stage_4(tail.subrange(0, r.0)),
                                    },
                                ),
                            },
                        ] + spec_stage_4(tail.subrange(r.1, tail.len() as int))
                    },
                    _ => seq![spec_convert(s[0])] + spec_stage_4(tail),
                }
            },
            _ => seq![spec_convert(s[0])] + spec_stage_4(tail),
        }
    }
}

/// Viewing a pushed node appends its view.
pub proof fn lemma_ast_seq_view_push(s: Seq<NorgAST>, x: NorgAST)
    ensures
        ast_seq_view(s.push(x)) == ast_seq_view(s) + seq![ast_view(x)],
    decreases s.len(),
{
    if s.len() == 0 {
        let e = Seq::<NorgAST>::empty();
        assert(s.push(x).drop_first() =~= e);
        assert(ast_seq_view(s.push(x)) == seq![ast_view(s.push(x)[0])] + ast_seq_view(e));
        assert(ast_seq_view(e) == Seq::<NorgASTView>::empty());
        assert(s.push(x)[0] == x);
        assert(ast_seq_view(s) == Seq::<NorgASTView>::empty());
        assert(ast_seq_view(s.push(x)) =~= ast_seq_view(s) + seq![ast_view(x)]);
    } else {
        lemma_ast_seq_view_push(s.drop_first(), x);
        assert(s.push(x).drop_first() =~= s.drop_first().push(x));
        assert(ast_seq_view(s.push(x)) == seq![ast_view(s.push(x)[0])] + ast_seq_view(
            s.push(x).drop_first(),
        ));
        assert(s.push(x)[0] == s[0]);
        assert(ast_seq_view(s.push(x)) =~= ast_seq_view(s) + seq![ast_view(x)]);
    }
}

/// The heading level a node presents to a scanning heading closer.
fn node_heading_level(n: &NorgASTFlat) -> (r: Option<u16>)
    ensures
        r == scanned_heading_level(*n),
{
    match n {
        NorgASTFlat::Heading { level, .. } => Some(*level),
        NorgASTFlat::CarryoverTag { next_object, .. } => match &**next_object {
            NorgASTFlat::Heading { level, .. } => Some(*level),
            _ => None,
        },
        _ => None,
    }
}

/// The level a node presents to a scanning list closer.
fn node_list_level(n: &NorgASTFlat) -> (r: Option<u16>)
    ensures
        r == scanned_list_level(*n),
{
    match n {
        NorgASTFlat::NestableDetachedModifier { level, .. } => Some(*level),
        NorgASTFlat::CarryoverTag { next_object, .. } => match &**next_object {
            NorgASTFlat::NestableDetachedModifier { level, .. } => Some(*level),
            _ => None,
        },
        _ => None,
    }
}

/// Scans `rest` from position `j` for the close of a heading scope of level
/// `start_level`, with `virt` the virtual level reached so far.
fn scan_heading(start_level: u16, virt: i32, rest: &Vec<NorgASTFlat>, j: usize) -> (r: (
    usize,
    usize,
))
    requires
        j <= rest@.len(),
        0 <= virt,
    ensures
        (r.0 as int, r.1 as int) == heading_close(start_level, virt as int, rest@, j as int),
    decreases rest@.len() - j,
{
    if j >= rest.len() {
        (rest.len(), rest.len())
    } else {
        match node_heading_level(&rest[j]) {
            Some(l) => {
                if l <= start_level {
                    (j, j)
                } else {
                    scan_heading(start_level, l as i32, rest, j + 1)
                }
            },
            None => {
                match &rest[j] {
                    NorgASTFlat::DelimitingModifier(d) => {
                        match d {
                            DelimitingModifier::Weak => {
                                if virt - 1 < start_level as i32 {
                                    (j, j + 1)
                                } else {
                                    scan_heading(start_level, virt - 1, rest, j + 1)
                                }
                            },
                            DelimitingModifier::Strong => (j, j + 1),
                        }
                    },
                    _ => scan_heading(start_level, virt, rest, j + 1),
                }
            },
        }
    }
}

/// Scans `rest` from position `j` for the close of a nestable detached
/// modifier's scope of level `start_level`.
fn scan_list(start_level: u16, rest: &Vec<NorgASTFlat>, j: usize) -> (r: (usize, usize))
    requires
        j <= rest@.len(),
    ensures
        (r.0 as int, r.1 as int) == list_close(start_level, rest@, j as int),
    decreases rest@.len() - j,
{
    if j >= rest.len() {
        (rest.len(), rest.len())
    } else {
        match node_list_level(&rest[j]) {
            Some(l) => {
                if l <= start_level {
                    (j, j)
                } else if j == rest.len() - 1 {
                    (rest.len(), rest.len())
                } else {
                    scan_list(start_level, rest, j + 1)
                }
            },
            None => (j, j),
        }
    }
}

/// Splits `rest`, the nodes after a heading of level `start_level`, at the
/// close of the heading's scope: returns the heading's fully nested content
/// and the remaining sibling nodes, with a consumed delimiting modifier
/// dropped.
pub fn consume_heading_content(start_level: u16, rest: Vec<NorgASTFlat>) -> (r: (
    Vec<NorgAST>,
    Vec<NorgASTFlat>,
))
    ensures
        ({
            let (end, resume) = heading_close(start_level, start_level as int, rest@, 0);
            &&& ast_seq_view(r.0@) == spec_stage_4(rest@.subrange(0, end))
            &&& r.1@ == rest@.subrange(resume, rest@.len() as int)
        }),
        r.1@.len() <= rest@.len(),
    decreases rest@.len() + 1, 0int,
{
    let ghost rest0 = rest@;
    proof {
        lemma_heading_close_bounds(start_level, start_level as int, rest0, 0);
    }
    let (end, resume) = scan_heading(start_level, start_level as i32, &rest, 0);
    let mut content_flat = rest;
    let mut tail = content_flat.split_off(end);
    if resume > end {
        tail.remove(0);
        proof {
            assert(tail@ =~= rest0.subrange(resume as int, rest0.len() as int));
        }
    }
    let content = stage_4(content_flat);
    (content, tail)
}

/// Splits `rest`, the nodes after a nestable detached modifier of level
/// `start_level`, at the close of its scope: returns the modifier's fully
/// nested content and the remaining sibling nodes.
pub fn consume_nestable_detached_mod_content(start_level: u16, rest: Vec<NorgASTFlat>) -> (r: (
    Vec<NorgAST>,
    Vec<NorgASTFlat>,
))
    ensures
        ({
            let (end, resume) = list_close(start_level, rest@, 0);
            &&& ast_seq_view(r.0@) == spec_stage_4(rest@.subrange(0, end))
            &&& r.1@ == rest@.subrange(resume, rest@.len() as int)
        }),
        r.1@.len() <= rest@.len(),
    decreases rest@.len() + 1, 0int,
{
    let ghost rest0 = rest@;
    proof {
        lemma_list_close_bounds(start_level, rest0, 0);
    }
    let (end, _resume) = scan_list(start_level, &rest, 0);
    let mut content_flat = rest;
    let tail = content_flat.split_off(end);
    let content = stage_4(content_flat);
    (content, tail)
}

/// Resolves a flat sequence of block nodes into a nested tree: every
/// structural opener absorbs the nodes its scope closer assigns to it, a
/// carryover tag is transparent for the nesting of the opener it wraps, and
/// every other node converts 1:1 in place.
#[verifier::loop_isolation(false)]
pub fn stage_4(flat: Vec<NorgASTFlat>) -> (ast: Vec<NorgAST>)
    ensures
        ast_seq_view(ast@) == spec_stage_4(flat@),
    decreases flat@.len(), 1int,
{
    let ghost flat0 = flat@;
    let mut rest = flat;
    let mut ast: Vec<NorgAST> = Vec::new();
    while rest.len() > 0
        invariant
            ast_seq_view(ast@) + spec_stage_4(rest@) == spec_stage_4(flat0),
            rest@.len() <= flat0.len(),
        decreases rest@.len(),
    {
        let ghost r0 = rest@;
        let ghost ast0 = ast@;
        let node = rest.remove(0);
        proof {
            assert(rest@ =~= r0.drop_first());
        }
        match node {
            NorgASTFlat::Heading { level, title, extensions } => {
                let (content, remainder) = consume_heading_content(level, rest);
                let done = NorgAST::Heading { level, title, extensions, content };
                proof {
                    lemma_ast_seq_view_push(ast0, done);
                    assert(ast_seq_view(ast0.push(done)) + spec_stage_4(remainder@) =~= spec_stage_4(
                        flat0,
                    ));
                }
                ast.push(done);
                rest = remainder;
            },
            NorgASTFlat::NestableDetachedModifier { modifier_type, level, extensions, content } => {
                let (new_content, remainder) = consume_nestable_detached_mod_content(level, rest);
                let done = NorgAST::NestableDetachedModifier {
                    modifier_type,
                    level,
                    extensions,
                    text: content,
                    content: new_content,
                };
                proof {
                    lemma_ast_seq_view_push(ast0, done);
                    assert(ast_seq_view(ast0.push(done)) + spec_stage_4(remainder@) =~= spec_stage_4(
                        flat0,
                    ));
                }
                ast.push(done);
                rest = remainder;
            },
            NorgASTFlat::CarryoverTag { tag_type, name, parameters, next_object } => {
                match *next_object {
                    NorgASTFlat::Heading { level, title, extensions } => {
                        let (content, remainder) = consume_heading_content(level, rest);
                        let done = NorgAST::CarryoverTag {
                            tag_type,
                            name,
                            parameters,
                            next_object: Box::new(
                                NorgAST::Heading { level, title, extensions, content },
                            ),
                        };
                        proof {
                            reveal_with_fuel(ast_view, 2);
                            lemma_ast_seq_view_push(ast0, done);
                            assert(ast_seq_view(ast0.push(done)) + spec_stage_4(remainder@)
                                =~= spec_stage_4(flat0));
                        }
                        ast.push(done);
                        rest = remainder;
                    },
                    NorgASTFlat::NestableDetachedModifier {
                        modifier_type,
                        level,
                        extensions,
                        content,
                    } => {
                        let (new_content, remainder) = consume_nestable_detached_mod_content(
                            level,
                            rest,
                        );
                        let done = NorgAST::CarryoverTag {
                            tag_type,
                            name,
                            parameters,
                            next_object: Box::new(
                                NorgAST::NestableDetachedModifier {
                                    modifier_type,
                                    level,
                                    extensions,
                                    text: content,
                                    content: new_content,
                                },
                            ),
                        };
                        proof {
                            reveal_with_fuel(ast_view, 2);
                            lemma_ast_seq_view_push(ast0, done);
                            assert(ast_seq_view(ast0.push(done)) + spec_stage_4(remainder@)
                                =~= spec_stage_4(flat0));
                        }
                        ast.push(done);
                        rest = remainder;
                    },
                    other => {
                        let whole = NorgASTFlat::CarryoverTag {
                            tag_type,
                            name,
                            parameters,
                            next_object: Box::new(other),
                        };
                        proof {
                            assert(whole == r0[0]);
                        }
                        let done = convert(whole);
                        proof {
                            lemma_ast_seq_view_push(ast0, done);
                            assert(ast_seq_view(ast0.push(done)) + spec_stage_4(rest@)
                                =~= spec_stage_4(flat0));
                        }
                        ast.push(done);
                    },
                }
            },
            other => {
                let done = convert(other);
                proof {
                    lemma_ast_seq_view_push(ast0, done);
                    assert(ast_seq_view(ast0.push(done)) + spec_stage_4(rest@) =~= spec_stage_4(
                        flat0,
                    ));
                }
                ast.push(done);
            },
        }
    }
    proof {
        assert(spec_stage_4(rest@) =~= Seq::<NorgASTView>::empty());
        assert(ast_seq_view(ast@) =~= spec_stage_4(flat0));
    }
    ast
}

} // verus!
