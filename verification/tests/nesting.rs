use norg_nest::ast::CarryoverTag;
use norg_nest::ast::DelimitingModifier;
use norg_nest::ast::NestableDetachedModifier;
use norg_nest::ast::NorgAST;
use norg_nest::ast::NorgASTFlat;
use norg_nest::ast::ParagraphSegment;
use norg_nest::ast::ParagraphSegmentToken;
use norg_nest::ast::RangeableDetachedModifier;
use norg_nest::stage_4::stage_4;

fn text(s: &str) -> Vec<ParagraphSegment> {
    vec![ParagraphSegment::Token(ParagraphSegmentToken::Text(s.to_string()))]
}

fn title(s: &str) -> Vec<ParagraphSegmentToken> {
    vec![ParagraphSegmentToken::Text(s.to_string())]
}

fn para(s: &str) -> NorgASTFlat {
    NorgASTFlat::Paragraph(text(s))
}

fn t_para(s: &str) -> NorgAST {
    NorgAST::Paragraph(text(s))
}

fn heading(level: u16, t: &str) -> NorgASTFlat {
    NorgASTFlat::Heading { level, title: title(t), extensions: vec![] }
}

fn t_heading(level: u16, t: &str, content: Vec<NorgAST>) -> NorgAST {
    NorgAST::Heading { level, title: title(t), extensions: vec![], content }
}

fn list_item(level: u16, t: &str) -> NorgASTFlat {
    NorgASTFlat::NestableDetachedModifier {
        modifier_type: NestableDetachedModifier::UnorderedList,
        level,
        extensions: vec![],
        content: Box::new(para(t)),
    }
}

fn t_list_item(level: u16, t: &str, content: Vec<NorgAST>) -> NorgAST {
    NorgAST::NestableDetachedModifier {
        modifier_type: NestableDetachedModifier::UnorderedList,
        level,
        extensions: vec![],
        text: Box::new(para(t)),
        content,
    }
}

fn carry(target: NorgASTFlat) -> NorgASTFlat {
    NorgASTFlat::CarryoverTag {
        tag_type: CarryoverTag::Attribute,
        name: vec!["note".to_string()],
        parameters: vec![],
        next_object: Box::new(target),
    }
}

fn weak() -> NorgASTFlat {
    NorgASTFlat::DelimitingModifier(DelimitingModifier::Weak)
}

fn strong() -> NorgASTFlat {
    NorgASTFlat::DelimitingModifier(DelimitingModifier::Strong)
}

#[test]
fn scenario_headings_nest_and_close() {
    let out = stage_4(vec![
        heading(1, "A"),
        para("x"),
        heading(2, "B"),
        para("y"),
        heading(1, "C"),
    ]);
    let expected = vec![
        t_heading(1, "A", vec![t_para("x"), t_heading(2, "B", vec![t_para("y")])]),
        t_heading(1, "C", vec![]),
    ];
    assert_eq!(out, expected);
}

#[test]
fn scenario_list_sibling_paragraph() {
    let out = stage_4(vec![list_item(1, "i"), list_item(2, "ii"), para("p")]);
    let expected = vec![
        t_list_item(1, "i", vec![t_list_item(2, "ii", vec![])]),
        t_para("p"),
    ];
    assert_eq!(out, expected);
}

#[test]
fn scenario_empty_input() {
    let out = stage_4(vec![]);
    assert_eq!(out, Vec::<NorgAST>::new());
}

#[test]
fn weak_delimiter_arithmetic() {
    // The first weak delimiter drops the virtual level from 3 to 2, already
    // below the start level, so it closes the heading with empty content and
    // is consumed; the second delimiter and the paragraph stay siblings.
    let out = stage_4(vec![heading(3, "deep"), weak(), weak(), para("p")]);
    let expected = vec![
        t_heading(3, "deep", vec![]),
        NorgAST::DelimitingModifier(DelimitingModifier::Weak),
        t_para("p"),
    ];
    assert_eq!(out, expected);
}

#[test]
fn weak_delimiter_closes_deepest_level_only() {
    // The inner heading raises the virtual level to 2; one weak delimiter
    // drops it back to 1, closing only the inner scope.
    let out = stage_4(vec![heading(1, "outer"), heading(2, "inner"), weak(), para("p")]);
    let expected = vec![
        t_heading(1, "outer", vec![t_heading(2, "inner", vec![]), t_para("p")]),
    ];
    assert_eq!(out, expected);
}

#[test]
fn strong_delimiter_consumed() {
    let out = stage_4(vec![heading(1, "A"), para("a"), strong(), para("b")]);
    let expected = vec![t_heading(1, "A", vec![t_para("a")]), t_para("b")];
    assert_eq!(out, expected);
}

#[test]
fn strong_delimiter_kept_outside_heading_scope() {
    let out = stage_4(vec![strong(), para("p")]);
    let expected = vec![
        NorgAST::DelimitingModifier(DelimitingModifier::Strong),
        t_para("p"),
    ];
    assert_eq!(out, expected);
}

#[test]
fn carryover_transparency() {
    let trailing = || vec![para("a"), heading(2, "B"), para("b"), heading(1, "C")];
    let mut bare_input = vec![heading(1, "A")];
    bare_input.extend(trailing());
    let mut wrapped_input = vec![carry(heading(1, "A"))];
    wrapped_input.extend(trailing());
    let bare = stage_4(bare_input);
    let wrapped = stage_4(wrapped_input);
    assert_eq!(bare.len(), wrapped.len());
    match &wrapped[0] {
        NorgAST::CarryoverTag { next_object, .. } => {
            assert_eq!(&**next_object, &bare[0]);
        }
        other => panic!("expected a carryover tag, got {:?}", other),
    }
    assert_eq!(&wrapped[1..], &bare[1..]);
}

#[test]
fn carryover_list_item_nests_like_bare() {
    let out = stage_4(vec![carry(list_item(1, "i")), list_item(2, "ii"), para("p")]);
    let expected = vec![
        NorgAST::CarryoverTag {
            tag_type: CarryoverTag::Attribute,
            name: vec!["note".to_string()],
            parameters: vec![],
            next_object: Box::new(t_list_item(1, "i", vec![t_list_item(2, "ii", vec![])])),
        },
        t_para("p"),
    ];
    assert_eq!(out, expected);
}

#[test]
fn carryover_heading_closes_outer_scope() {
    let out = stage_4(vec![heading(2, "outer"), carry(heading(1, "inner")), para("q")]);
    let expected = vec![
        t_heading(2, "outer", vec![]),
        NorgAST::CarryoverTag {
            tag_type: CarryoverTag::Attribute,
            name: vec!["note".to_string()],
            parameters: vec![],
            next_object: Box::new(t_heading(1, "inner", vec![t_para("q")])),
        },
    ];
    assert_eq!(out, expected);
}

#[test]
fn carryover_leaf_target_kept() {
    let out = stage_4(vec![carry(para("kept"))]);
    let expected = vec![NorgAST::CarryoverTag {
        tag_type: CarryoverTag::Attribute,
        name: vec!["note".to_string()],
        parameters: vec![],
        next_object: Box::new(t_para("kept")),
    }];
    assert_eq!(out, expected);
}

#[test]
fn list_absorbs_trailing_deeper_item() {
    let out = stage_4(vec![list_item(1, "i"), list_item(3, "iii"), list_item(2, "ii")]);
    let expected = vec![t_list_item(
        1,
        "i",
        vec![t_list_item(3, "iii", vec![]), t_list_item(2, "ii", vec![])],
    )];
    assert_eq!(out, expected);
}

#[test]
fn heading_absorbs_remainder_without_boundary() {
    let out = stage_4(vec![heading(1, "A"), para("x"), heading(2, "B")]);
    let expected = vec![t_heading(1, "A", vec![t_para("x"), t_heading(2, "B", vec![])])];
    assert_eq!(out, expected);
}

#[test]
fn leaves_convert_in_place() {
    let input = vec![
        NorgASTFlat::RangeableDetachedModifier {
            modifier_type: RangeableDetachedModifier::Definition,
            title: title("term"),
            extensions: vec![],
            content: vec![para("body")],
        },
        NorgASTFlat::VerbatimRangedTag {
            name: vec!["code".to_string()],
            parameters: vec!["rust".to_string()],
            content: "let x = 1;".to_string(),
        },
        NorgASTFlat::RangedTag {
            name: vec!["group".to_string()],
            parameters: vec![],
            content: vec![para("inner")],
        },
        NorgASTFlat::InfirmTag { name: vec!["image".to_string()], parameters: vec![] },
    ];
    let out = stage_4(input);
    let expected = vec![
        NorgAST::RangeableDetachedModifier {
            modifier_type: RangeableDetachedModifier::Definition,
            title: title("term"),
            extensions: vec![],
            content: vec![para("body")],
        },
        NorgAST::VerbatimRangedTag {
            name: vec!["code".to_string()],
            parameters: vec!["rust".to_string()],
            content: "let x = 1;".to_string(),
        },
        NorgAST::RangedTag {
            name: vec!["group".to_string()],
            parameters: vec![],
            content: vec![para("inner")],
        },
        NorgAST::InfirmTag { name: vec!["image".to_string()], parameters: vec![] },
    ];
    assert_eq!(out, expected);
}

#[test]
fn convert_gives_openers_empty_content() {
    assert_eq!(
        norg_nest::ast::convert(heading(2, "t")),
        t_heading(2, "t", vec![])
    );
    assert_eq!(
        norg_nest::ast::convert(list_item(1, "i")),
        t_list_item(1, "i", vec![])
    );
}

fn collect_leaves<'a>(nodes: &'a [NorgAST], out: &mut Vec<&'a NorgAST>) {
    for node in nodes {
        match node {
            NorgAST::Heading { content, .. } => collect_leaves(content, out),
            NorgAST::NestableDetachedModifier { content, .. } => collect_leaves(content, out),
            NorgAST::CarryoverTag { next_object, .. } => match &**next_object {
                NorgAST::Heading { .. } | NorgAST::NestableDetachedModifier { .. } => {
                    collect_leaves(std::slice::from_ref(next_object), out)
                }
                _ => out.push(node),
            },
            NorgAST::DelimitingModifier(_) => {}
            _ => out.push(node),
        }
    }
}

#[test]
fn leaf_order_preserved() {
    let out = stage_4(vec![
        heading(1, "A"),
        para("one"),
        heading(2, "B"),
        para("two"),
        strong(),
        list_item(1, "i"),
        list_item(2, "ii"),
        para("three"),
        carry(para("four")),
    ]);
    let mut leaves: Vec<&NorgAST> = Vec::new();
    collect_leaves(&out, &mut leaves);
    let expected = vec![
        t_para("one"),
        t_para("two"),
        t_para("three"),
        NorgAST::CarryoverTag {
            tag_type: CarryoverTag::Attribute,
            name: vec!["note".to_string()],
            parameters: vec![],
            next_object: Box::new(t_para("four")),
        },
    ];
    assert_eq!(leaves.len(), expected.len());
    for (got, want) in leaves.iter().zip(expected.iter()) {
        assert_eq!(*got, want);
    }
}

#[test]
fn heading_levels_strictly_deepen() {
    let out = stage_4(vec![heading(2, "a"), heading(3, "b"), heading(1, "c")]);
    let expected = vec![
        t_heading(2, "a", vec![t_heading(3, "b", vec![])]),
        t_heading(1, "c", vec![]),
    ];
    assert_eq!(out, expected);
    match &out[0] {
        NorgAST::Heading { level, content, .. } => {
            for child in content {
                match child {
                    NorgAST::Heading { level: child_level, .. } => {
                        assert!(child_level > level)
                    }
                    _ => {}
                }
            }
        }
        other => panic!("expected a heading, got {:?}", other),
    }
}

#[test]
fn list_levels_strictly_deepen() {
    let out = stage_4(vec![list_item(1, "i"), list_item(3, "iii"), list_item(2, "ii")]);
    match &out[0] {
        NorgAST::NestableDetachedModifier { level, content, .. } => {
            assert_eq!(content.len(), 2);
            for child in content {
                match child {
                    NorgAST::NestableDetachedModifier { level: child_level, .. } => {
                        assert!(child_level > level)
                    }
                    other => panic!("expected a nestable modifier, got {:?}", other),
                }
            }
        }
        other => panic!("expected a nestable modifier, got {:?}", other),
    }
}
