//! The list fold-style engine: one reusable layout for comma-separated
//! constructs, offering three strategies selected by a node's precomputed
//! fold preference.

use vstd::prelude::*;
use crate::doc::{Doc, GDoc, gcat, ggroup, gnest, gflat_alt};

verus! {

/// The layout strategy chosen for a delimited, separator-joined list.
#[derive(Debug, Clone, Copy, PartialEq, Eq, Structural)]
pub enum FoldStyle {
    /// Always one item per line.
    Never,
    /// One line if it fits, else one item per line.
    Single,
    /// One line if it fits, else pack as many items per line as fit.
    Fit,
}

/// The first `k` items joined by `sep`, for the single-line layout.
pub open spec fn gjoin_flat(items: Seq<GDoc>, sep: GDoc, k: int) -> GDoc
    decreases k,
{
    if k <= 0 {
        GDoc::Nil
    } else if k == 1 {
        items[0]
    } else {
        gcat(gcat(gjoin_flat(items, sep, k - 1), sep), items[k - 1])
    }
}

/// The single-line layout: delimiters around the joined items, with an
/// inner space on each side when `bracket_space` is set.
pub open spec fn gflat_list(
    items: Seq<GDoc>,
    sep: GDoc,
    open: GDoc,
    close: GDoc,
    bracket_space: bool,
) -> GDoc {
    let inner = gjoin_flat(items, sep, items.len() as int);
    let a = if bracket_space {
        gcat(open, GDoc::Space)
    } else {
        open
    };
    let b = gcat(a, inner);
    let c = if bracket_space {
        gcat(b, GDoc::Space)
    } else {
        b
    };
    gcat(c, close)
}

/// The first `k` items of the one-per-line layout: each on its own line,
/// each followed by the trailing separator.
pub open spec fn gnever_inner(items: Seq<GDoc>, tsep: GDoc, k: int) -> GDoc
    decreases k,
{
    if k <= 0 {
        GDoc::Nil
    } else {
        gcat(gcat(gcat(gnever_inner(items, tsep, k - 1), GDoc::Hardline), items[k - 1]), tsep)
    }
}

/// The one-per-line layout: delimiters on their own lines, items indented.
pub open spec fn gnever_list(
    items: Seq<GDoc>,
    tsep: GDoc,
    open: GDoc,
    close: GDoc,
    ind: nat,
) -> GDoc {
    gcat(
        gcat(gcat(open, gnest(ind, gnever_inner(items, tsep, items.len() as int))), GDoc::Hardline),
        close,
    )
}

/// The first `k` items of the packed layout: after the first item, each is
/// introduced by the separator and a soft break grouped with the item, so
/// items wrap only where a line would overflow.
pub open spec fn gfit_inner(items: Seq<GDoc>, tsep: GDoc, k: int) -> GDoc
    decreases k,
{
    if k <= 0 {
        GDoc::Nil
    } else if k == 1 {
        gcat(GDoc::Hardline, items[0])
    } else {
        gcat(gfit_inner(items, tsep, k - 1), gcat(tsep, ggroup(gcat(GDoc::Line, items[k - 1]))))
    }
}

/// The packed layout: as many items per line as fit, with a trailing
/// separator, between delimiters on their own lines.
pub open spec fn gfit_list(items: Seq<GDoc>, tsep: GDoc, open: GDoc, close: GDoc, ind: nat) -> GDoc {
    gcat(
        gcat(
            gcat(open, gnest(ind, gcat(gfit_inner(items, tsep, items.len() as int), tsep))),
            GDoc::Hardline,
        ),
        close,
    )
}

/// The document the fold-style engine produces: the bare delimiter pair for
/// an empty list; otherwise the strategy the style picks, where `Single`
/// and `Fit` first try the single-line layout and fall back to their broken
/// layout through a fit test.
pub open spec fn spec_pretty_items(
    items: Seq<GDoc>,
    fsep: GDoc,
    tsep: GDoc,
    open: GDoc,
    close: GDoc,
    bracket_space: bool,
    style: FoldStyle,
    ind: nat,
) -> GDoc {
    if items.len() == 0 {
        gcat(open, close)
    } else {
        match style {
            FoldStyle::Never => gnever_list(items, tsep, open, close, ind),
            FoldStyle::Single => ggroup(
                gflat_alt(
                    gnever_list(items, tsep, open, close, ind),
                    gflat_list(items, fsep, open, close, bracket_space),
                ),
            ),
            FoldStyle::Fit => ggroup(
                gflat_alt(
                    gfit_list(items, tsep, open, close, ind),
                    gflat_list(items, fsep, open, close, bracket_space),
                ),
            ),
        }
    }
}

fn build_flat(items: &Vec<Doc>, fsep: &Doc, open: &Doc, close: &Doc, bracket_space: bool) -> (r:
    Doc)
    requires
        items@.len() > 0,
    ensures
        r@ == gflat_list(
            items@.map_values(|d: Doc| d@),
            fsep@,
            open@,
            close@,
            bracket_space,
        ),
{
    let ghost gitems = items@.map_values(|d: Doc| d@);
    let n = items.len();
    let mut inner = items[0].clone_doc();
    let mut k: usize = 1;
    while k < n
        invariant
            1 <= k <= n,
            n == items@.len(),
            gitems == items@.map_values(|d: Doc| d@),
            inner@ == gjoin_flat(gitems, fsep@, k as int),
        decreases n - k,
    {
        inner = inner.append(fsep.clone_doc()).append(items[k].clone_doc());
        k = k + 1;
    }
    let mut d = open.clone_doc();
    if bracket_space {
        d = d.append(Doc::space());
    }
    d = d.append(inner);
    if bracket_space {
        d = d.append(Doc::space());
    }
    d.append(close.clone_doc())
}

fn build_never(items: &Vec<Doc>, tsep: &Doc, open: &Doc, close: &Doc, ind: usize) -> (r: Doc)
    ensures
        r@ == gnever_list(items@.map_values(|d: Doc| d@), tsep@, open@, close@, ind as nat),
{
    let ghost gitems = items@.map_values(|d: Doc| d@);
    let n = items.len();
    let mut inner = Doc::nil();
    let mut k: usize = 0;
    while k < n
        invariant
            k <= n,
            n == items@.len(),
            gitems == items@.map_values(|d: Doc| d@),
            inner@ == gnever_inner(gitems, tsep@, k as int),
        decreases n - k,
    {
        inner = inner.append(Doc::hardline()).append(items[k].clone_doc()).append(
            tsep.clone_doc(),
        );
        k = k + 1;
    }
    open.clone_doc().append(inner.nest(ind)).append(Doc::hardline()).append(close.clone_doc())
}

fn build_fit(items: &Vec<Doc>, tsep: &Doc, open: &Doc, close: &Doc, ind: usize) -> (r: Doc)
    requires
        items@.len() > 0,
    ensures
        r@ == gfit_list(items@.map_values(|d: Doc| d@), tsep@, open@, close@, ind as nat),
{
    let ghost gitems = items@.map_values(|d: Doc| d@);
    let n = items.len();
    let mut inner = Doc::hardline().append(items[0].clone_doc());
    let mut k: usize = 1;
    while k < n
        invariant
            1 <= k <= n,
            n == items@.len(),
            gitems == items@.map_values(|d: Doc| d@),
            inner@ == gfit_inner(gitems, tsep@, k as int),
        decreases n - k,
    {
        inner = inner.append(
            tsep.clone_doc().append(Doc::line().append(items[k].clone_doc()).group()),
        );
        k = k + 1;
    }
    open.clone_doc().append(inner.append(tsep.clone_doc()).nest(ind)).append(
        Doc::hardline(),
    ).append(close.clone_doc())
}

/// Lay out a delimited, separator-joined list of already-rendered item
/// documents, by the given fold style.
pub fn pretty_items(
    items: &Vec<Doc>,
    fsep: &Doc,
    tsep: &Doc,
    open: &Doc,
    close: &Doc,
    bracket_space: bool,
    style: FoldStyle,
    ind: usize,
) -> (r: Doc)
    ensures
        r@ == spec_pretty_items(
            items@.map_values(|d: Doc| d@),
            fsep@,
            tsep@,
            open@,
            close@,
            bracket_space,
            style,
            ind as nat,
        ),
{
    if items.len() == 0 {
        return open.clone_doc().append(close.clone_doc());
    }
    match style {
        FoldStyle::Never => build_never(items, tsep, open, close, ind),
        FoldStyle::Single => {
            let broken = build_never(items, tsep, open, close, ind);
            let flat = build_flat(items, fsep, open, close, bracket_space);
            broken.flat_alt(flat).group()
        },
        FoldStyle::Fit => {
            let broken = build_fit(items, tsep, open, close, ind);
            let flat = build_flat(items, fsep, open, close, bracket_space);
            broken.flat_alt(flat).group()
        },
    }
}

} // verus!
