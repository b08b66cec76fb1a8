//! The exposed operation of the layout engine: turn a whole parsed tree
//! into canonically laid-out text, plus the accessor that exposes the
//! constructed layout document itself for debug tooling.

use vstd::prelude::*;
use crate::attr::AttrStore;
use crate::config::Config;
use crate::convert::cv_markup;
use crate::doc::{Doc, GDoc, srender};
use crate::mode::Context;
use crate::printer::PrettyPrinter;
use crate::syntax::SyntaxTree;

verus! {

/// The text the engine produces for a tree: the root markup's document
/// rendered against the configured maximum width.
pub open spec fn spec_format(p: PrettyPrinter, tree: SyntaxTree, root: int) -> Seq<char> {
    srender(
        cv_markup(p, tree.nodes@, Context { mode: crate::mode::Mode::Markup, align_mode: crate::mode::AlignMode::Inner }, root),
        false,
        0,
        p.config.max_width as nat,
        0,
    ).0
}

/// The layout document of the whole tree, before rendering; exposed for
/// debug tooling that prints the pre-render structure.
pub fn layout_doc(printer: &PrettyPrinter, tree: &SyntaxTree, root: usize) -> (r: Doc)
    requires
        tree.wf(),
        root < tree.nodes@.len(),
    ensures
        r@ == cv_markup(
            *printer,
            tree.nodes@,
            Context { mode: crate::mode::Mode::Markup, align_mode: crate::mode::AlignMode::Inner },
            root as int,
        ),
{
    printer.convert_markup(tree, Context::start(), root)
}

/// Format a whole tree: convert the root markup node and render it.
pub fn format(tree: &SyntaxTree, attrs: AttrStore, config: Config, root: usize) -> (r: String)
    requires
        tree.wf(),
        root < tree.nodes@.len(),
        config.valid(),
    ensures
        r@ == spec_format(PrettyPrinter { config, attrs: attrs }, *tree, root as int),
{
    let printer = PrettyPrinter::with_config(attrs, config);
    let doc = layout_doc(&printer, tree, root);
    let out = doc.pretty(printer.config.max_width);
    out
}

} // verus!
