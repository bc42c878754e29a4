//! The block node types: the flat form handed in by earlier stages, the
//! nested tree form this crate produces, and the ghost views the contracts
//! speak about.

use vstd::prelude::*;

verus! {

/// One token of inline text, as the inline stage delivers it.  This stage
/// never looks inside; tokens are carried through unchanged.
#[derive(Debug, PartialEq, Eq, Hash)]
pub enum ParagraphSegmentToken {
    Text(String),
    Whitespace,
    Special(char),
    Escape(char),
}

/// One segment of inline content.  Opaque to this stage.
#[derive(Debug, PartialEq, Eq, Hash)]
pub enum ParagraphSegment {
    Token(ParagraphSegmentToken),
}

/// An extension attached to a detached modifier (for example a task status).
/// Opaque to this stage; extensions are carried through unchanged.
#[derive(Debug, PartialEq, Eq, Hash)]
pub struct DetachedModifierExtension {
    pub name: String,
    pub value: String,
}

/// The family of a nestable detached modifier.
#[derive(Debug, PartialEq, Eq, Hash)]
pub enum NestableDetachedModifier {
    Quote,
    UnorderedList,
    OrderedList,
}

/// The family of a rangeable detached modifier.
#[derive(Debug, PartialEq, Eq, Hash)]
pub enum RangeableDetachedModifier {
    Definition,
    Footnote,
    Table,
}

/// The kind of a carryover tag.
#[derive(Debug, PartialEq, Eq, Hash)]
pub enum CarryoverTag {
    Attribute,
    Macro,
}

/// A delimiting modifier: `Weak` closes one heading level, `Strong` closes
/// every open heading scope.
#[derive(Debug, PartialEq, Eq, Hash)]
pub enum DelimitingModifier {
    Weak,
    Strong,
}

/// A flat block node, as the flat-block stage recognises it: structural
/// openers carry a level but no children yet.
#[derive(Debug, PartialEq, Eq, Hash)]
pub enum NorgASTFlat {
    Paragraph(Vec<ParagraphSegment>),
    NestableDetachedModifier {
        modifier_type: NestableDetachedModifier,
        level: u16,
        extensions: Vec<DetachedModifierExtension>,
        content: Box<NorgASTFlat>,
    },
    RangeableDetachedModifier {
        modifier_type: RangeableDetachedModifier,
        title: Vec<ParagraphSegmentToken>,
        extensions: Vec<DetachedModifierExtension>,
        content: Vec<NorgASTFlat>,
    },
    Heading {
        level: u16,
        title: Vec<ParagraphSegmentToken>,
        extensions: Vec<DetachedModifierExtension>,
    },
    CarryoverTag {
        tag_type: CarryoverTag,
        name: Vec<String>,
        parameters: Vec<String>,
        next_object: Box<NorgASTFlat>,
    },
    VerbatimRangedTag {
        name: Vec<String>,
        parameters: Vec<String>,
        content: String,
    },
    RangedTag {
        name: Vec<String>,
        parameters: Vec<String>,
        content: Vec<NorgASTFlat>,
    },
    InfirmTag {
        name: Vec<String>,
        parameters: Vec<String>,
    },
    DelimitingModifier(DelimitingModifier),
}

/// A nested tree node: headings and nestable detached modifiers have gained
/// a `content` field, and a carryover tag owns a tree node.
#[derive(Debug, PartialEq, Eq, Hash)]
pub enum NorgAST {
    Paragraph(Vec<ParagraphSegment>),
    NestableDetachedModifier {
        modifier_type: NestableDetachedModifier,
        level: u16,
        extensions: Vec<DetachedModifierExtension>,
        text: Box<NorgASTFlat>,
        content: Vec<Self>,
    },
    RangeableDetachedModifier {
        modifier_type: RangeableDetachedModifier,
        title: Vec<ParagraphSegmentToken>,
        extensions: Vec<DetachedModifierExtension>,
        content: Vec<NorgASTFlat>,
    },
    Heading {
        level: u16,
        title: Vec<ParagraphSegmentToken>,
        extensions: Vec<DetachedModifierExtension>,
        content: Vec<Self>,
    },
    CarryoverTag {
        tag_type: CarryoverTag,
        name: Vec<String>,
        parameters: Vec<String>,
        next_object: Box<NorgAST>,
    },
    VerbatimRangedTag {
        name: Vec<String>,
        parameters: Vec<String>,
        content: String,
    },
    RangedTag {
        name: Vec<String>,
        parameters: Vec<String>,
        content: Vec<NorgASTFlat>,
    },
    InfirmTag {
        name: Vec<String>,
        parameters: Vec<String>,
    },
    DelimitingModifier(DelimitingModifier),
}

/// The ghost shape of a tree node.  It mirrors `NorgAST`, with mathematical
/// sequences for the computed `content` fields; payloads that this stage only
/// carries through keep their executable types.
pub enum NorgASTView {
    Paragraph(Vec<ParagraphSegment>),
    NestableDetachedModifier {
        modifier_type: NestableDetachedModifier,
        level: u16,
        extensions: Vec<DetachedModifierExtension>,
        text: Box<NorgASTFlat>,
        content: Seq<NorgASTView>,
    },
    RangeableDetachedModifier {
        modifier_type: RangeableDetachedModifier,
        title: Vec<ParagraphSegmentToken>,
        extensions: Vec<DetachedModifierExtension>,
        content: Vec<NorgASTFlat>,
    },
    Heading {
        level: u16,
        title: Vec<ParagraphSegmentToken>,
        extensions: Vec<DetachedModifierExtension>,
        content: Seq<NorgASTView>,
    },
    CarryoverTag {
        tag_type: CarryoverTag,
        name: Vec<String>,
        parameters: Vec<String>,
        next_object: Box<NorgASTView>,
    },
    VerbatimRangedTag {
        name: Vec<String>,
        parameters: Vec<String>,
        content: String,
    },
    RangedTag {
        name: Vec<String>,
        parameters: Vec<String>,
        content: Vec<NorgASTFlat>,
    },
    InfirmTag {
        name: Vec<String>,
        parameters: Vec<String>,
    },
    DelimitingModifier(DelimitingModifier),
}

/// The ghost shape of a tree node.
pub open spec fn ast_view(t: NorgAST) -> NorgASTView
    decreases t,
{
    match t {
        NorgAST::Paragraph(segments) => NorgASTView::Paragraph(segments),
        NorgAST::NestableDetachedModifier { modifier_type, level, extensions, text, content } => {
            NorgASTView::NestableDetachedModifier {
                modifier_type,
                level,
                extensions,
                text,
                content: ast_seq_view(content@),
            }
        },
        NorgAST::RangeableDetachedModifier { modifier_type, title, extensions, content } => {
            NorgASTView::RangeableDetachedModifier { modifier_type, title, extensions, content }
        },
        NorgAST::Heading { level, title, extensions, content } => {
            NorgASTView::Heading { level, title, extensions, content: ast_seq_view(content@) }
        },
        NorgAST::CarryoverTag { tag_type, name, parameters, next_object } => {
            NorgASTView::CarryoverTag {
                tag_type,
                name,
                parameters,
                next_object: Box::new(ast_view(*next_object)),
            }
        },
        NorgAST::VerbatimRangedTag { name, parameters, content } => {
            NorgASTView::VerbatimRangedTag { name, parameters, content }
        },
        NorgAST::RangedTag { name, parameters, content } => {
            NorgASTView::RangedTag { name, parameters, content }
        },
        NorgAST::InfirmTag { name, parameters } => NorgASTView::InfirmTag { name, parameters },
        NorgAST::DelimitingModifier(t) => NorgASTView::DelimitingModifier(t),
    }
}

/// The ghost shape of a sequence of tree nodes, element for element.
pub open spec fn ast_seq_view(s: Seq<NorgAST>) -> Seq<NorgASTView>
    decreases s,
{
    if s.len() == 0 {
        Seq::empty()
    } else {
        seq![ast_view(s[0])] + ast_seq_view(s.drop_first())
    }
}

/// The 1:1 mapping of a flat node to a tree node: structural openers get
/// empty content, a carryover tag keeps its target converted the same way,
/// and every other kind maps field for field.
pub open spec fn spec_convert(flat: NorgASTFlat) -> NorgASTView
    decreases flat,
{
    match flat {
        NorgASTFlat::Paragraph(segments) => NorgASTView::Paragraph(segments),
        NorgASTFlat::NestableDetachedModifier { modifier_type, level, extensions, content } => {
            NorgASTView::NestableDetachedModifier {
                modifier_type,
                level,
                extensions,
                text: content,
                content: Seq::empty(),
            }
        },
        NorgASTFlat::RangeableDetachedModifier { modifier_type, title, extensions, content } => {
            NorgASTView::RangeableDetachedModifier { modifier_type, title, extensions, content }
        },
        NorgASTFlat::Heading { level, title, extensions } => {
            NorgASTView::Heading { level, title, extensions, content: Seq::empty() }
        },
        NorgASTFlat::CarryoverTag { tag_type, name, parameters, next_object } => {
            NorgASTView::CarryoverTag {
                tag_type,
                name,
                parameters,
                next_object: Box::new(spec_convert(*next_object)),
            }
        },
        NorgASTFlat::VerbatimRangedTag { name, parameters, content } => {
            NorgASTView::VerbatimRangedTag { name, parameters, content }
        },
        NorgASTFlat::RangedTag { name, parameters, content } => {
            NorgASTView::RangedTag { name, parameters, content }
        },
        NorgASTFlat::InfirmTag { name, parameters } => {
            NorgASTView::InfirmTag { name, parameters }
        },
        NorgASTFlat::DelimitingModifier(t) => NorgASTView::DelimitingModifier(t),
    }
}

/// Converts one flat node to a tree node without resolving any nesting:
/// structural openers get empty content, and a carryover tag keeps its
/// target, itself converted as a leaf.
pub fn convert(flat: NorgASTFlat) -> (r: NorgAST)
    ensures
        ast_view(r) == spec_convert(flat),
    decreases flat,
{
    match flat {
        NorgASTFlat::Paragraph(segments) => NorgAST::Paragraph(segments),
        NorgASTFlat::NestableDetachedModifier { modifier_type, level, extensions, content } => {
            let empty: Vec<NorgAST> = Vec::new();
            proof {
                assert(ast_seq_view(empty@) =~= Seq::<NorgASTView>::empty());
            }
            NorgAST::NestableDetachedModifier {
                modifier_type,
                level,
                extensions,
                text: content,
                content: empty,
            }
        },
        NorgASTFlat::RangeableDetachedModifier { modifier_type, title, extensions, content } => {
            NorgAST::RangeableDetachedModifier { modifier_type, title, extensions, content }
        },
        NorgASTFlat::Heading { level, title, extensions } => {
            let empty: Vec<NorgAST> = Vec::new();
            proof {
                assert(ast_seq_view(empty@) =~= Seq::<NorgASTView>::empty());
            }
            NorgAST::Heading { level, title, extensions, content: empty }
        },
        NorgASTFlat::CarryoverTag { tag_type, name, parameters, next_object } => {
            NorgAST::CarryoverTag {
                tag_type,
                name,
                parameters,
                next_object: Box::new(convert(*next_object)),
            }
        },
        NorgASTFlat::VerbatimRangedTag { name, parameters, content } => {
            NorgAST::VerbatimRangedTag { name, parameters, content }
        },
        NorgASTFlat::RangedTag { name, parameters, content } => {
            NorgAST::RangedTag { name, parameters, content }
        },
        NorgASTFlat::InfirmTag { name, parameters } => NorgAST::InfirmTag { name, parameters },
        NorgASTFlat::DelimitingModifier(t) => NorgAST::DelimitingModifier(t),
    }
}

} // verus!
