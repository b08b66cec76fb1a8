//! Conversion of plain text, whitespace and paragraph breaks.

use vstd::prelude::*;
use crate::doc::{Doc, GDoc, ghardlines};
use crate::mode::{Mode, Context};
use crate::printer::{PrettyPrinter, gtrivia, gwrap_text, trivia, wrap_text};
use crate::strutil::{has_nl, count_nl, str_count_nl};
use crate::syntax::{SyntaxTree, NodeData};

verus! {

/// The document of a text node: its exact words.
pub open spec fn cv_text(t: Seq<NodeData>, i: int) -> GDoc {
    gtrivia(t, i)
}

/// The document of a text node under prose wrapping: its words joined by
/// soft breaks.
pub open spec fn cv_text_wrapped(t: Seq<NodeData>, i: int) -> GDoc {
    gwrap_text(t[i].text@)
}

/// The document of a whitespace node: a mandatory break when it holds a
/// newline; its exact text in markup when spaces are kept; one space
/// otherwise.
pub open spec fn cv_space_untyped(p: PrettyPrinter, t: Seq<NodeData>, ctx: Context, i: int) -> GDoc {
    if has_nl(t[i].text@) {
        GDoc::Hardline
    } else if ctx.mode == Mode::Markup && !p.config.collapse_markup_spaces {
        GDoc::Text(t[i].text@)
    } else {
        GDoc::Space
    }
}

/// The document of a paragraph break: as many mandatory breaks as the
/// source has newlines.
pub open spec fn cv_parbreak(t: Seq<NodeData>, i: int) -> GDoc {
    ghardlines(count_nl(t[i].text@))
}

impl PrettyPrinter {
    /// Convert a text node.
    pub fn convert_text(&self, tree: &SyntaxTree, i: usize) -> (r: Doc)
        requires
            i < tree.nodes@.len(),
        ensures
            r@ == cv_text(tree.nodes@, i as int),
    {
        trivia(tree, i)
    }

    /// Convert a text node, allowing it to rewrap at word boundaries.
    pub fn convert_text_wrapped(&self, tree: &SyntaxTree, i: usize) -> (r: Doc)
        requires
            i < tree.nodes@.len(),
        ensures
            r@ == cv_text_wrapped(tree.nodes@, i as int),
    {
        wrap_text(tree.text(i))
    }

    /// Convert a whitespace node.
    pub fn convert_space(&self, tree: &SyntaxTree, ctx: Context, i: usize) -> (r: Doc)
        requires
            i < tree.nodes@.len(),
        ensures
            r@ == cv_space_untyped(*self, tree.nodes@, ctx, i as int),
    {
        self.convert_space_untyped(tree, ctx, i)
    }

    /// Convert a whitespace node, by its raw text.
    pub fn convert_space_untyped(&self, tree: &SyntaxTree, ctx: Context, i: usize) -> (r: Doc)
        requires
            i < tree.nodes@.len(),
        ensures
            r@ == cv_space_untyped(*self, tree.nodes@, ctx, i as int),
    {
        if tree.text_has_nl(i) {
            Doc::hardline()
        } else if matches!(ctx.mode, Mode::Markup) && !self.config.collapse_markup_spaces {
            Doc::str_text(tree.text(i))
        } else {
            Doc::space()
        }
    }

    /// Convert a paragraph break.
    pub fn convert_parbreak(&self, tree: &SyntaxTree, i: usize) -> (r: Doc)
        requires
            i < tree.nodes@.len(),
        ensures
            r@ == cv_parbreak(tree.nodes@, i as int),
    {
        let n = str_count_nl(tree.text(i));
        crate::doc::hardlines(n)
    }
}

} // verus!
