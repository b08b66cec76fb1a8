//! The tree-to-document converter: one conversion rule per syntax
//! construct, recursively composing child documents with the algebra,
//! consulting the attribute store and the context to pick among layout
//! strategies.  Every converter's contract states the exact document it
//! builds, through the `cv_*` ghost mirrors.

use vstd::prelude::*;
use crate::attr::{AttrStore, attrs_of};
use crate::config::Config;
use crate::doc::{Doc, GDoc, gcat, gtext, ggroup, gnest, gflat_alt};
use crate::strutil::{
    spec_lines, trim_start_ws, str_split_lines, str_trim_start_ws, str_is_empty, ends_with_char,
    lemma_lines_len, spec_words, str_split_words,
};
use crate::syntax::{SyntaxTree, NodeData, tree_wf, src_text};

verus! {

/// The converter: the attribute store it consults and the configuration
/// that bounds its layouts.
#[derive(Debug)]
pub struct PrettyPrinter {
    pub config: Config,
    pub attrs: AttrStore,
}

impl PrettyPrinter {
    /// A converter over the given attribute store, with the default
    /// configuration.
    pub fn new(attr_map: AttrStore) -> (r: PrettyPrinter)
        ensures
            r == (PrettyPrinter { config: Config::spec_default(), attrs: attr_map }),
    {
        PrettyPrinter { config: Config::default(), attrs: attr_map }
    }

    /// A converter over the given attribute store and configuration.
    pub fn with_config(attr_map: AttrStore, config: Config) -> (r: PrettyPrinter)
        ensures
            r == (PrettyPrinter { config, attrs: attr_map }),
    {
        PrettyPrinter { config, attrs: attr_map }
    }
}

/// One line of `to_doc`'s output: the segment itself, or the segment
/// without its leading blanks when stripping is on.
pub open spec fn gline_doc(l: Seq<char>, strip: bool) -> GDoc {
    GDoc::Text(if strip { trim_start_ws(l) } else { l })
}

/// The first `k` lines, joined by mandatory breaks.
pub open spec fn gto_doc_lines(ls: Seq<Seq<char>>, strip: bool, k: int) -> GDoc
    decreases k,
{
    if k <= 1 {
        gline_doc(ls[0], strip)
    } else {
        gcat(gcat(gto_doc_lines(ls, strip, k - 1), GDoc::Hardline), gline_doc(ls[k - 1], strip))
    }
}

/// The document for a piece of verbatim text: its lines joined by
/// mandatory breaks, a trailing newline kept as a final break.
pub open spec fn gto_doc(s: Seq<char>, strip: bool) -> GDoc {
    if s.len() == 0 {
        GDoc::Nil
    } else {
        let body = if s.last() == '\n' {
            s.drop_last()
        } else {
            s
        };
        let ls = spec_lines(body);
        let d = gto_doc_lines(ls, strip, ls.len() as int);
        if s.last() == '\n' {
            gcat(d, GDoc::Hardline)
        } else {
            d
        }
    }
}

/// Turn a piece of source text into a document, line by line; when
/// `strip_prefix` is set each line loses its leading blanks.
pub fn to_doc(s: &str, strip_prefix: bool) -> (r: Doc)
    ensures
        r@ == gto_doc(s@, strip_prefix),
{
    if str_is_empty(s) {
        return Doc::nil();
    }
    let trailing = ends_with_char(s, '\n');
    let n = s.unicode_len();
    let body: &str = if trailing {
        s.substring_char(0, n - 1)
    } else {
        s
    };
    proof {
        if trailing {
            assert(body@ =~= s@.drop_last());
        }
        lemma_lines_len(body@);
    }
    let lines = str_split_lines(body);
    let ghost ls = spec_lines(body@);
    proof {
        assert(lines@.map_values(|x: String| x@).len() == ls.len());
        assert(forall|q: int|
            0 <= q < lines@.len() ==> #[trigger] lines@[q]@ == lines@.map_values(
                |x: String| x@,
            )[q]);
    }
    let mut d = line_doc(&lines[0], strip_prefix);
    let m = lines.len();
    let mut k: usize = 1;
    while k < m
        invariant
            1 <= k <= m,
            m == lines@.len(),
            m == ls.len(),
            strip_prefix == strip_prefix,
            forall|q: int| 0 <= q < m ==> #[trigger] lines@[q]@ == ls[q],
            d@ == gto_doc_lines(ls, strip_prefix, k as int),
        decreases m - k,
    {
        d = d.append(Doc::hardline()).append(line_doc(&lines[k], strip_prefix));
        k = k + 1;
    }
    if trailing {
        d = d.append(Doc::hardline());
    }
    d
}

fn line_doc(l: &String, strip: bool) -> (r: Doc)
    ensures
        r@ == gline_doc(l@, strip),
{
    if strip {
        Doc::text(str_trim_start_ws(l.as_str()))
    } else {
        Doc::text(l.clone())
    }
}

/// The document of a leaf token: its exact text, line by line.
pub open spec fn gtrivia(t: Seq<NodeData>, i: int) -> GDoc
    recommends
        0 <= i < t.len(),
{
    gto_doc(t[i].text@, false)
}

/// Emit a token's exact source text.
pub fn trivia(tree: &SyntaxTree, i: usize) -> (r: Doc)
    requires
        i < tree.nodes@.len(),
    ensures
        r@ == gtrivia(tree.nodes@, i as int),
{
    to_doc(tree.text(i), false)
}

/// Words joined by soft breaks; a trailing space keeps one soft break at
/// the end.
pub open spec fn gwrap_words(ws: Seq<Seq<char>>, k: int) -> GDoc
    decreases k,
{
    if k <= 0 {
        GDoc::Nil
    } else if k == 1 {
        GDoc::Text(ws[0])
    } else {
        gcat(gcat(gwrap_words(ws, k - 1), GDoc::Line), GDoc::Text(ws[k - 1]))
    }
}

/// The document of rewrappable prose: its words joined by soft breaks.
pub open spec fn gwrap_text(s: Seq<char>) -> GDoc {
    let ws = spec_words(s);
    let d = gwrap_words(ws, ws.len() as int);
    if s.len() > 0 && s.last() == ' ' {
        gcat(d, GDoc::Line)
    } else {
        d
    }
}

/// Join the words of `text` with soft breaks, so long prose lines may be
/// rewrapped at word boundaries.
pub fn wrap_text(text: &str) -> (r: Doc)
    ensures
        r@ == gwrap_text(text@),
{
    let words = str_split_words(text);
    let ghost ws = spec_words(text@);
    proof {
        assert(words@.map_values(|x: String| x@).len() == ws.len());
        assert(forall|q: int|
            0 <= q < words@.len() ==> #[trigger] words@[q]@ == words@.map_values(
                |x: String| x@,
            )[q]);
    }
    let m = words.len();
    let mut d = Doc::nil();
    let mut k: usize = 0;
    while k < m
        invariant
            k <= m,
            m == words@.len(),
            m == ws.len(),
            forall|q: int| 0 <= q < m ==> #[trigger] words@[q]@ == ws[q],
            d@ == gwrap_words(ws, k as int),
        decreases m - k,
    {
        if k == 0 {
            d = Doc::text(words[0].clone());
        } else {
            d = d.append(Doc::line()).append(Doc::text(words[k].clone()));
        }
        k = k + 1;
    }
    if ends_with_char(text, ' ') {
        d = d.append(Doc::line());
    }
    d
}

impl PrettyPrinter {
    /// Emit the node's original source text verbatim: the escape hatch for
    /// regions whose formatting is disabled.
    pub fn format_disabled(&self, tree: &SyntaxTree, i: usize) -> (r: Doc)
        requires
            tree.wf(),
            i < tree.nodes@.len(),
        ensures
            r@ == GDoc::Text(src_text(tree.nodes@, i as int)),
    {
        Doc::text(tree.source_text(i))
    }

    /// The verbatim document for node `i` when the store disables
    /// formatting there, and nothing otherwise.
    pub fn check_disabled(&self, tree: &SyntaxTree, i: usize) -> (r: Option<Doc>)
        requires
            tree.wf(),
            i < tree.nodes@.len(),
        ensures
            attrs_of(self.attrs.attrs@, i as int).disabled ==> (r matches Option::Some(d) && d@
                == GDoc::Text(src_text(tree.nodes@, i as int))),
            !attrs_of(self.attrs.attrs@, i as int).disabled ==> r is None,
    {
        if self.attrs.disabled(i) {
            Option::Some(self.format_disabled(tree, i))
        } else {
            Option::None
        }
    }
}

} // verus!
