//! The document algebra: composable layout values together with the
//! width-fitting renderer that turns a document into text.
//!
//! A `Doc` describes the admissible renderings of a fragment rather than a
//! fixed string.  Rendering walks the document while tracking the current
//! column; each `Group` is first attempted in flat mode and accepted when its
//! first line (up to the next mandatory break or the end of the group) fits
//! in the remaining width budget, otherwise it is rendered broken.  The
//! ghost mirror `GDoc` together with `srender` gives the exact mathematical
//! meaning of every operation.

use vstd::prelude::*;
use crate::width::{display_width_of, str_width};

verus! {

/// Ghost model of a document.
pub ghost enum GDoc {
    /// The empty document.
    Nil,
    /// Literal text without line breaks.
    Text(Seq<char>),
    /// A mandatory line break.
    Hardline,
    /// A soft line break: a space when flat, a line break when broken.
    Line,
    /// A literal space character.
    Space,
    /// Sequential composition.
    Concat(Box<GDoc>, Box<GDoc>),
    /// Indentation increase applied to a sub-document.
    Nest(nat, Box<GDoc>),
    /// A boundary that elects flat or broken rendering as a unit.
    Group(Box<GDoc>),
    /// Two independently authored renderings: broken one first, flat one second.
    FlatAlt(Box<GDoc>, Box<GDoc>),
}

/// An algebraic layout value, built bottom-up during one conversion pass and
/// consumed exactly once by rendering.
pub enum Doc {
    Nil,
    Text(String),
    Hardline,
    Line,
    Space,
    Concat(Box<Doc>, Box<Doc>),
    Nest(usize, Box<Doc>),
    Group(Box<Doc>),
    FlatAlt(Box<Doc>, Box<Doc>),
}

/// The ghost value that a document stands for.
pub open spec fn gview(d: Doc) -> GDoc
    decreases d,
{
    match d {
        Doc::Nil => GDoc::Nil,
        Doc::Text(s) => GDoc::Text(s@),
        Doc::Hardline => GDoc::Hardline,
        Doc::Line => GDoc::Line,
        Doc::Space => GDoc::Space,
        Doc::Concat(a, b) => GDoc::Concat(Box::new(gview(*a)), Box::new(gview(*b))),
        Doc::Nest(n, a) => GDoc::Nest(n as nat, Box::new(gview(*a))),
        Doc::Group(a) => GDoc::Group(Box::new(gview(*a))),
        Doc::FlatAlt(a, b) => GDoc::FlatAlt(Box::new(gview(*a)), Box::new(gview(*b))),
    }
}

impl View for Doc {
    type V = GDoc;

    open spec fn view(&self) -> GDoc {
        gview(*self)
    }
}

/// Addition capped at `usize::MAX`; all width and column arithmetic in the
/// renderer uses it, so that executable and ghost accounts agree exactly.
pub open spec fn satadd(a: nat, b: nat) -> nat {
    if a + b > usize::MAX as nat {
        usize::MAX as nat
    } else {
        (a + b) as nat
    }
}

pub fn sat_add(a: usize, b: usize) -> (r: usize)
    ensures
        r as nat == satadd(a as nat, b as nat),
{
    if a <= usize::MAX - b {
        a + b
    } else {
        usize::MAX
    }
}

/// A sequence of `n` space characters.
pub open spec fn seq_spaces(n: nat) -> Seq<char>
    decreases n,
{
    if n == 0 {
        Seq::empty()
    } else {
        seq_spaces((n - 1) as nat).push(' ')
    }
}

/// Width of the first line of `d` rendered flat, up to the first mandatory
/// break or the end of the document, and whether such a break was met.
pub open spec fn flat_measure(d: GDoc) -> (nat, bool)
    decreases d,
{
    match d {
        GDoc::Nil => (0, false),
        GDoc::Text(s) => (display_width_of(s), false),
        GDoc::Hardline => (0, true),
        GDoc::Line => (1, false),
        GDoc::Space => (1, false),
        GDoc::Concat(a, b) => {
            let ra = flat_measure(*a);
            if ra.1 {
                ra
            } else {
                let rb = flat_measure(*b);
                (satadd(ra.0, rb.0), rb.1)
            }
        },
        GDoc::Nest(_n, a) => flat_measure(*a),
        GDoc::Group(a) => flat_measure(*a),
        GDoc::FlatAlt(_b, f) => flat_measure(*f),
    }
}

/// The meaning of rendering: the text emitted for `d` and the column reached
/// afterwards, given the mode, the current indentation, the maximum width
/// and the starting column.
pub open spec fn srender(d: GDoc, flat: bool, ind: nat, maxw: nat, col: nat) -> (Seq<char>, nat)
    decreases d,
{
    match d {
        GDoc::Nil => (Seq::empty(), col),
        GDoc::Text(s) => (s, satadd(col, display_width_of(s))),
        GDoc::Hardline => (seq!['\n'] + seq_spaces(ind), ind),
        GDoc::Line => {
            if flat {
                (seq![' '], satadd(col, 1))
            } else {
                (seq!['\n'] + seq_spaces(ind), ind)
            }
        },
        GDoc::Space => (seq![' '], satadd(col, 1)),
        GDoc::Concat(a, b) => {
            let ra = srender(*a, flat, ind, maxw, col);
            let rb = srender(*b, flat, ind, maxw, ra.1);
            (ra.0 + rb.0, rb.1)
        },
        GDoc::Nest(n, a) => srender(*a, flat, satadd(ind, n), maxw, col),
        GDoc::Group(a) => {
            if flat {
                srender(*a, true, ind, maxw, col)
            } else {
                let m = flat_measure(*a);
                if satadd(col, m.0) <= maxw {
                    srender(*a, true, ind, maxw, col)
                } else {
                    srender(*a, false, ind, maxw, col)
                }
            }
        },
        GDoc::FlatAlt(b, f) => {
            if flat {
                srender(*f, true, ind, maxw, col)
            } else {
                srender(*b, false, ind, maxw, col)
            }
        },
    }
}

fn push_spaces(out: &mut String, n: usize)
    ensures
        final(out)@ == old(out)@ + seq_spaces(n as nat),
{
    let mut i: usize = 0;
    proof {
        assert(out@ =~= old(out)@ + seq_spaces(0));
    }
    while i < n
        invariant
            i <= n,
            out@ == old(out)@ + seq_spaces(i as nat),
        decreases n - i,
    {
        out.append(" ");
        i = i + 1;
        proof {
            reveal_strlit(" ");
            assert(out@ =~= old(out)@ + seq_spaces(i as nat));
        }
    }
}

impl Doc {
    /// Width of this document's flat first line, and whether it holds a
    /// mandatory break before that line ends.
    fn measure_flat(&self) -> (r: (usize, bool))
        ensures
            r.0 as nat == flat_measure(self@).0,
            r.1 == flat_measure(self@).1,
        decreases *self,
    {
        match self {
            Doc::Nil => (0, false),
            Doc::Text(s) => (str_width(s.as_str()), false),
            Doc::Hardline => (0, true),
            Doc::Line => (1, false),
            Doc::Space => (1, false),
            Doc::Concat(a, b) => {
                let ra = a.measure_flat();
                if ra.1 {
                    ra
                } else {
                    let rb = b.measure_flat();
                    (sat_add(ra.0, rb.0), rb.1)
                }
            },
            Doc::Nest(_n, a) => a.measure_flat(),
            Doc::Group(a) => a.measure_flat(),
            Doc::FlatAlt(_b, f) => f.measure_flat(),
        }
    }

    fn render_into(&self, flat: bool, ind: usize, maxw: usize, col: usize, out: &mut String) -> (c: usize)
        ensures
            final(out)@ == old(out)@ + srender(self@, flat, ind as nat, maxw as nat, col as nat).0,
            c as nat == srender(self@, flat, ind as nat, maxw as nat, col as nat).1,
        decreases *self,
    {
        match self {
            Doc::Nil => {
                proof {
                    assert(out@ =~= old(out)@ + srender(self@, flat, ind as nat, maxw as nat, col as nat).0);
                }
                col
            },
            Doc::Text(s) => {
                let w = str_width(s.as_str());
                out.append(s.as_str());
                sat_add(col, w)
            },
            Doc::Hardline => {
                out.append("\n");
                push_spaces(out, ind);
                proof {
                    reveal_strlit("\n");
                    assert(out@ =~= old(out)@ + srender(self@, flat, ind as nat, maxw as nat, col as nat).0);
                }
                ind
            },
            Doc::Line => {
                if flat {
                    out.append(" ");
                    proof {
                        reveal_strlit(" ");
                        assert(out@ =~= old(out)@ + srender(self@, flat, ind as nat, maxw as nat, col as nat).0);
                    }
                    sat_add(col, 1)
                } else {
                    out.append("\n");
                    push_spaces(out, ind);
                    proof {
                        reveal_strlit("\n");
                        assert(out@ =~= old(out)@ + srender(self@, flat, ind as nat, maxw as nat, col as nat).0);
                    }
                    ind
                }
            },
            Doc::Space => {
                out.append(" ");
                proof {
                    reveal_strlit(" ");
                    assert(out@ =~= old(out)@ + srender(self@, flat, ind as nat, maxw as nat, col as nat).0);
                }
                sat_add(col, 1)
            },
            Doc::Concat(a, b) => {
                let c1 = a.render_into(flat, ind, maxw, col, out);
                let c2 = b.render_into(flat, ind, maxw, c1, out);
                proof {
                    assert(out@ =~= old(out)@ + srender(self@, flat, ind as nat, maxw as nat, col as nat).0);
                }
                c2
            },
            Doc::Nest(n, a) => a.render_into(flat, sat_add(ind, *n), maxw, col, out),
            Doc::Group(a) => {
                if flat {
                    a.render_into(true, ind, maxw, col, out)
                } else {
                    let m = a.measure_flat();
                    if sat_add(col, m.0) <= maxw {
                        a.render_into(true, ind, maxw, col, out)
                    } else {
                        a.render_into(false, ind, maxw, col, out)
                    }
                }
            },
            Doc::FlatAlt(b, f) => {
                if flat {
                    f.render_into(true, ind, maxw, col, out)
                } else {
                    b.render_into(false, ind, maxw, col, out)
                }
            },
        }
    }

    /// Render this document against the given maximum line width.
    pub fn pretty(&self, max_width: usize) -> (r: String)
        ensures
            r@ == srender(self@, false, 0, max_width as nat, 0).0,
    {
        let mut out = String::new();
        let _c = self.render_into(false, 0, max_width, 0, &mut out);
        out
    }

    /// A deep copy; the algebra's values own their text, so reusing a
    /// sub-document in two alternatives copies it.
    pub fn clone_doc(&self) -> (r: Doc)
        ensures
            r@ == self@,
        decreases *self,
    {
        match self {
            Doc::Nil => Doc::Nil,
            Doc::Text(s) => Doc::Text(s.clone()),
            Doc::Hardline => Doc::Hardline,
            Doc::Line => Doc::Line,
            Doc::Space => Doc::Space,
            Doc::Concat(a, b) => Doc::Concat(Box::new(a.clone_doc()), Box::new(b.clone_doc())),
            Doc::Nest(n, a) => Doc::Nest(*n, Box::new(a.clone_doc())),
            Doc::Group(a) => Doc::Group(Box::new(a.clone_doc())),
            Doc::FlatAlt(a, b) => Doc::FlatAlt(Box::new(a.clone_doc()), Box::new(b.clone_doc())),
        }
    }

    /// The empty document.
    pub fn nil() -> (r: Doc)
        ensures
            r@ == GDoc::Nil,
    {
        Doc::Nil
    }

    /// Literal text.
    pub fn text(s: String) -> (r: Doc)
        ensures
            r@ == GDoc::Text(s@),
    {
        Doc::Text(s)
    }

    /// Literal text from a string slice.
    pub fn str_text(s: &str) -> (r: Doc)
        ensures
            r@ == GDoc::Text(s@),
    {
        Doc::Text(s.to_owned())
    }

    /// A mandatory line break.
    pub fn hardline() -> (r: Doc)
        ensures
            r@ == GDoc::Hardline,
    {
        Doc::Hardline
    }

    /// A soft line break.
    pub fn line() -> (r: Doc)
        ensures
            r@ == GDoc::Line,
    {
        Doc::Line
    }

    /// A literal space.
    pub fn space() -> (r: Doc)
        ensures
            r@ == GDoc::Space,
    {
        Doc::Space
    }

    /// Sequential composition.
    pub fn append(self, other: Doc) -> (r: Doc)
        ensures
            r@ == GDoc::Concat(Box::new(self@), Box::new(other@)),
    {
        Doc::Concat(Box::new(self), Box::new(other))
    }

    /// Indentation increase applied to this document.
    pub fn nest(self, n: usize) -> (r: Doc)
        ensures
            r@ == GDoc::Nest(n as nat, Box::new(self@)),
    {
        Doc::Nest(n, Box::new(self))
    }

    /// A grouping boundary rendered fully flat when it fits, else broken.
    pub fn group(self) -> (r: Doc)
        ensures
            r@ == GDoc::Group(Box::new(self@)),
    {
        Doc::Group(Box::new(self))
    }

    /// An explicit pair of renderings: `self` when broken, `flat` when flat.
    pub fn flat_alt(self, flat: Doc) -> (r: Doc)
        ensures
            r@ == GDoc::FlatAlt(Box::new(self@), Box::new(flat@)),
    {
        Doc::FlatAlt(Box::new(self), Box::new(flat))
    }
}

/// Ghost shorthand for sequential composition.
pub open spec fn gcat(a: GDoc, b: GDoc) -> GDoc {
    GDoc::Concat(Box::new(a), Box::new(b))
}

/// Ghost shorthand for a text document.
pub open spec fn gtext(s: Seq<char>) -> GDoc {
    GDoc::Text(s)
}

/// Ghost shorthand for a group.
pub open spec fn ggroup(a: GDoc) -> GDoc {
    GDoc::Group(Box::new(a))
}

/// Ghost shorthand for indentation.
pub open spec fn gnest(n: nat, a: GDoc) -> GDoc {
    GDoc::Nest(n, Box::new(a))
}

/// Ghost shorthand for an explicit broken/flat pair.
pub open spec fn gflat_alt(b: GDoc, f: GDoc) -> GDoc {
    GDoc::FlatAlt(Box::new(b), Box::new(f))
}

/// The ghost value of `n` repeated spaces.
pub open spec fn gspaces(n: nat) -> GDoc
    decreases n,
{
    if n == 0 {
        GDoc::Nil
    } else {
        GDoc::Concat(Box::new(gspaces((n - 1) as nat)), Box::new(GDoc::Space))
    }
}

/// `n` repeated space characters.
pub fn spaces(n: usize) -> (r: Doc)
    ensures
        r@ == gspaces(n as nat),
{
    let mut d = Doc::nil();
    let mut i: usize = 0;
    while i < n
        invariant
            i <= n,
            d@ == gspaces(i as nat),
        decreases n - i,
    {
        d = d.append(Doc::space());
        i = i + 1;
    }
    d
}

/// The ghost value of `n` repeated mandatory breaks.
pub open spec fn ghardlines(n: nat) -> GDoc
    decreases n,
{
    if n == 0 {
        GDoc::Nil
    } else {
        GDoc::Concat(Box::new(ghardlines((n - 1) as nat)), Box::new(GDoc::Hardline))
    }
}

/// `n` repeated mandatory line breaks.
pub fn hardlines(n: usize) -> (r: Doc)
    ensures
        r@ == ghardlines(n as nat),
{
    let mut d = Doc::nil();
    let mut i: usize = 0;
    while i < n
        invariant
            i <= n,
            d@ == ghardlines(i as nat),
        decreases n - i,
    {
        d = d.append(Doc::hardline());
        i = i + 1;
    }
    d
}

} // verus!
