//! The exact documents the converter builds, one ghost mirror per syntax
//! construct.  Every executable converter ensures that its result is the
//! corresponding `cv_*` value, so the whole conversion is pinned down as a
//! mathematical function of the tree, the attribute store, the context and
//! the configuration.

use vstd::prelude::*;
use crate::attr::attrs_of;
use crate::doc::{Doc, GDoc, gcat, gtext, ggroup, gnest, gflat_alt};
use crate::mode::{Mode, AlignMode, Context};
use crate::printer::{PrettyPrinter, gtrivia, gto_doc, trivia, to_doc};
use crate::strutil::{
    has_nl, count_nl, drop_leading, str_drop_leading, str_count_nl, ends_with_char,
    starts_with_char,
};
use crate::syntax::{
    SyntaxTree, NodeData, SyntaxKind, tree_wf, src_text, spec_is_expr_kind, spec_is_pattern_kind,
    spec_is_param_kind, spec_is_op_token, spec_is_comment, spec_is_stmt, spec_has_child_kind,
    sfind_kind, sfind_expr, sfind_pat, sfind_prm, sfind_op, sfind_back_kind, sfind_back_expr,
    is_expr_kind, is_pattern_kind, is_param_kind, is_op_token, is_comment, is_stmt,
};
use crate::text::{cv_text, cv_text_wrapped, cv_space_untyped, cv_parbreak};
use crate::util::{FoldStyle, spec_pretty_items, pretty_items};
use crate::math_align::cv_try_aligned;

verus! {

broadcast use crate::syntax::lemma_sfind_kind_bound, crate::syntax::lemma_sfind_expr_bound,
    crate::syntax::lemma_sfind_pat_bound, crate::syntax::lemma_sfind_prm_bound,
    crate::syntax::lemma_sfind_op_bound, crate::syntax::lemma_sfind_back_kind_bound,
    crate::syntax::lemma_sfind_back_expr_bound;


/// The node exists in a well-formed arena.
pub open spec fn cv_ok(t: Seq<NodeData>, i: int) -> bool {
    tree_wf(t) && 0 <= i < t.len()
}

/// The children of node `i`.
pub open spec fn cs_of(t: Seq<NodeData>, i: int) -> Seq<usize> {
    t[i].children@
}

/// Is formatting disabled for node `i`?
pub open spec fn cv_disabled(p: PrettyPrinter, t: Seq<NodeData>, i: int) -> bool {
    attrs_of(p.attrs.attrs@, i).disabled
}

/// The configured indentation step.
pub open spec fn cv_ind(p: PrettyPrinter) -> nat {
    p.config.indent_width as nat
}

/// The flat separator of comma-joined lists: a comma and a space.
pub open spec fn gsep_comma() -> GDoc {
    gcat(gtext(","@), GDoc::Space)
}

/// `n` empty documents, standing for blank lines a code block keeps.
pub open spec fn gnils(n: nat) -> Seq<GDoc> {
    Seq::new(n, |x: int| GDoc::Nil)
}

/// The document of an identifier: its name.
pub open spec fn cv_ident(t: Seq<NodeData>, i: int) -> GDoc {
    gtext(t[i].text@)
}

/// Is the equation written in block form: a space right after the opening
/// dollar and right before the closing one?
pub open spec fn spec_equation_block(t: Seq<NodeData>, i: int) -> bool {
    let cs = cs_of(t, i);
    cs.len() >= 2 && 0 <= cs[1] < t.len() && 0 <= cs[cs.len() - 2] < t.len() && t[cs[1] as int].kind
        == SyntaxKind::Space && t[cs[cs.len() - 2] as int].kind == SyntaxKind::Space
}

/// Does the raw node carry a language tag: a long enough opening delimiter
/// and a language child?
pub open spec fn spec_raw_has_lang(t: Seq<NodeData>, i: int) -> bool {
    let cs = cs_of(t, i);
    match sfind_kind(t, cs, SyntaxKind::RawDelim, 0) {
        Option::Some(d) => t[cs[d] as int].text@.len() >= 3 && spec_has_child_kind(
            t,
            i,
            SyntaxKind::RawLang,
        ),
        Option::None => false,
    }
}

/// Is the raw node a block: a delimiter of three or more and a newline in
/// its trimmed whitespace?
pub open spec fn spec_raw_block(t: Seq<NodeData>, i: int) -> bool {
    let cs = cs_of(t, i);
    match sfind_kind(t, cs, SyntaxKind::RawDelim, 0) {
        Option::Some(d) => t[cs[d] as int].text@.len() >= 3 && (exists|q: int|
            0 <= q < cs.len() && 0 <= cs[q] < t.len() && (#[trigger] t[cs[q] as int]).kind
                == SyntaxKind::RawTrimmed && has_nl(t[cs[q] as int].text@)),
        Option::None => false,
    }
}

/// Does this markup child end its line?
pub open spec fn mk_break_at(t: Seq<NodeData>, c: int) -> bool {
    let k = t[c].kind;
    ||| (k == SyntaxKind::Space && has_nl(t[c].text@))
    ||| (k == SyntaxKind::Parbreak && has_nl(t[c].text@))
    ||| spec_is_stmt(k)
    ||| k == SyntaxKind::CodeBlock
    ||| (k == SyntaxKind::Equation && spec_equation_block(t, c))
    ||| (k == SyntaxKind::Raw && spec_raw_block(t, c))
}

/// Does this markup child make its line a text line, kept verbatim?
pub open spec fn mk_text_at(t: Seq<NodeData>, c: int) -> bool {
    let k = t[c].kind;
    ||| k == SyntaxKind::Text
    ||| (k == SyntaxKind::Raw && !spec_raw_block(t, c))
    ||| k == SyntaxKind::Strong
    ||| k == SyntaxKind::Emph
}

/// The position at which the line containing child `k` starts.
pub open spec fn mk_ls(t: Seq<NodeData>, cs: Seq<usize>, k: int) -> int
    decreases k,
{
    if k <= 0 {
        0
    } else if 0 <= cs[k - 1] < t.len() && mk_break_at(t, cs[k - 1] as int) {
        k
    } else {
        mk_ls(t, cs, k - 1)
    }
}

/// Does the line containing child `k` hold text, so that the whole line is
/// kept verbatim?
pub open spec fn mk_flag(t: Seq<NodeData>, cs: Seq<usize>, k: int) -> bool {
    exists|j: int|
        0 <= j < cs.len() && mk_ls(t, cs, j) == mk_ls(t, cs, k) && 0 <= cs[j] < t.len()
            && mk_text_at(t, (#[trigger] cs[j]) as int)
}

/// The verbatim flag of every markup child.
pub open spec fn spec_markup_flags(t: Seq<NodeData>, i: int) -> Seq<bool> {
    Seq::new(cs_of(t, i).len(), |k: int| mk_flag(t, cs_of(t, i), k))
}

/// The operator text of a binary construct: its operator tokens' texts,
/// joined by single spaces.
pub open spec fn gop_text(t: Seq<NodeData>, cs: Seq<usize>, k: int) -> Seq<char>
    decreases k,
{
    if k <= 0 {
        Seq::empty()
    } else {
        let prev = gop_text(t, cs, k - 1);
        if 0 <= cs[k - 1] < t.len() && spec_is_op_token(t[cs[k - 1] as int].kind) {
            if prev.len() > 0 {
                prev + seq![' '] + t[cs[k - 1] as int].text@
            } else {
                t[cs[k - 1] as int].text@
            }
        } else {
            prev
        }
    }
}

/// The argument value a call argument stands for, used to decide whether a
/// one-argument call keeps the tight form.
pub open spec fn spec_arg_rhs(t: Seq<NodeData>, c: int) -> Option<int> {
    if t[c].kind == SyntaxKind::Named {
        match sfind_back_expr(t, cs_of(t, c), cs_of(t, c).len() - 1) {
            Option::Some(p) => Option::Some(cs_of(t, c)[p] as int),
            Option::None => Option::None,
        }
    } else if t[c].kind == SyntaxKind::Spread {
        match sfind_expr(t, cs_of(t, c), 0) {
            Option::Some(p) => Option::Some(cs_of(t, c)[p] as int),
            Option::None => Option::None,
        }
    } else {
        Option::Some(c)
    }
}

/// Does some whitespace before the closing parenthesis span lines?
pub open spec fn spec_args_has_nl(t: Seq<NodeData>, i: int) -> bool {
    let cs = cs_of(t, i);
    let limit = match sfind_kind(t, cs, SyntaxKind::RightParen, 0) {
        Option::Some(r) => r,
        Option::None => cs.len() as int,
    };
    exists|q: int|
        0 <= q < limit && 0 <= cs[q] < t.len() && (#[trigger] t[cs[q] as int]).kind
            == SyntaxKind::Space && has_nl(t[cs[q] as int].text@)
}

/// The document of an expression: the construct's own rule inside a fresh
/// group, or the source verbatim where formatting is disabled or the
/// construct is opaque.
pub open spec fn cv_expr(p: PrettyPrinter, t: Seq<NodeData>, ctx: Context, i: int) -> GDoc
    decreases t.len() - i, 14int, 0int, 0int,
{
    if !cv_ok(t, i) {
        GDoc::Nil
    } else if cv_disabled(p, t, i) {
        gtext(src_text(t, i))
    } else {
        let k = t[i].kind;
        ggroup(
            match k {
                SyntaxKind::Text => if p.config.wrap_text && ctx.mode == Mode::Markup {
                    cv_text_wrapped(t, i)
                } else {
                    cv_text(t, i)
                },
                SyntaxKind::Space => cv_space_untyped(p, t, ctx, i),
                SyntaxKind::Linebreak => gtrivia(t, i),
                SyntaxKind::Parbreak => cv_parbreak(t, i),
                SyntaxKind::Escape => gtrivia(t, i),
                SyntaxKind::Shorthand => gtrivia(t, i),
                SyntaxKind::SmartQuote => gtrivia(t, i),
                SyntaxKind::Strong => cv_strong(p, t, ctx, i),
                SyntaxKind::Emph => cv_emph(p, t, ctx, i),
                SyntaxKind::Raw => cv_raw(p, t, ctx, i),
                SyntaxKind::Link => gtrivia(t, i),
                SyntaxKind::Label => gtrivia(t, i),
                SyntaxKind::Ref => cv_ref(p, t, ctx, i),
                SyntaxKind::Heading => cv_heading(p, t, ctx, i),
                SyntaxKind::ListItem => cv_list_item(p, t, ctx, i),
                SyntaxKind::EnumItem => cv_enum_item(p, t, ctx, i),
                SyntaxKind::TermItem => cv_term_item(p, t, ctx, i),
                SyntaxKind::Equation => cv_equation(p, t, ctx, i),
                SyntaxKind::Math => cv_math(p, t, ctx, i),
                SyntaxKind::MathText => gtrivia(t, i),
                SyntaxKind::MathIdent => gtrivia(t, i),
                SyntaxKind::MathShorthand => gtrivia(t, i),
                SyntaxKind::MathAlignPoint => gtrivia(t, i),
                SyntaxKind::MathDelimited => cv_math_delimited(p, t, ctx, i),
                SyntaxKind::MathAttach => cv_math_attach(p, t, ctx, i),
                SyntaxKind::MathPrimes => gtrivia(t, i),
                SyntaxKind::MathFrac => cv_math_frac(p, t, ctx, i),
                SyntaxKind::MathRoot => cv_math_root(p, t, ctx, i),
                SyntaxKind::Ident => cv_ident(t, i),
                SyntaxKind::NoneLit => gtext("none"@),
                SyntaxKind::Auto => gtext("auto"@),
                SyntaxKind::BoolLit => gtrivia(t, i),
                SyntaxKind::IntLit => gtrivia(t, i),
                SyntaxKind::FloatLit => gtrivia(t, i),
                SyntaxKind::Numeric => gtrivia(t, i),
                SyntaxKind::StrLit => gtrivia(t, i),
                SyntaxKind::CodeBlock => cv_code_block(p, t, ctx, i),
                SyntaxKind::ContentBlock => cv_content_block(p, t, ctx, i),
                SyntaxKind::Parenthesized => cv_parenthesized(p, t, ctx, i),
                SyntaxKind::Array => cv_array(p, t, ctx, i),
                SyntaxKind::Dict => cv_dict(p, t, ctx, i),
                SyntaxKind::Unary => cv_unary(p, t, ctx, i),
                SyntaxKind::Binary => cv_binary(p, t, ctx, i),
                SyntaxKind::FieldAccess => cv_field_access(p, t, ctx, i),
                SyntaxKind::FuncCall => cv_func_call(p, t, ctx, i),
                SyntaxKind::Closure => cv_closure(p, t, ctx, i),
                SyntaxKind::LetBinding => cv_let_binding(p, t, ctx, i),
                SyntaxKind::DestructAssignment => cv_destruct_assignment(p, t, ctx, i),
                SyntaxKind::SetRule => cv_set_rule(p, t, ctx, i),
                SyntaxKind::ShowRule => cv_show_rule(p, t, ctx, i),
                SyntaxKind::Contextual => cv_contextual(p, t, ctx, i),
                SyntaxKind::Conditional => cv_conditional(p, t, ctx, i),
                SyntaxKind::WhileLoop => cv_while(p, t, ctx, i),
                SyntaxKind::ForLoop => cv_for(p, t, ctx, i),
                SyntaxKind::ModuleImport => cv_import(p, t, ctx, i),
                SyntaxKind::ModuleInclude => cv_include(p, t, ctx, i),
                SyntaxKind::LoopBreak => gtext("break"@),
                SyntaxKind::LoopContinue => gtext("continue"@),
                SyntaxKind::FuncReturn => cv_return(p, t, ctx, i),
                SyntaxKind::Underscore => gtext("_"@),
                _ => gtext(src_text(t, i)),
            },
        )
    }
}

/// The body of markup from child `k` on, the verbatim flags of each
/// child's line given, appended to `acc`.
pub open spec fn cv_markup_body(
    p: PrettyPrinter,
    t: Seq<NodeData>,
    ctx: Context,
    i: int,
    flags: Seq<bool>,
    k: int,
    acc: GDoc,
) -> GDoc
    decreases t.len() - i, 11int, cs_of(t, i).len() - k, 0int,
{
    if !cv_ok(t, i) || k < 0 || k >= cs_of(t, i).len() {
        acc
    } else {
        let c = cs_of(t, i)[k] as int;
        let kd = t[c].kind;
        let piece = if kd == SyntaxKind::Space {
            cv_space_untyped(p, t, ctx, c)
        } else if kd == SyntaxKind::Parbreak {
            cv_parbreak(t, c)
        } else if 0 <= k < flags.len() && flags[k] {
            gtext(src_text(t, c))
        } else if spec_is_expr_kind(kd) {
            cv_expr(p, t, ctx, c)
        } else {
            gtrivia(t, c)
        };
        cv_markup_body(p, t, ctx, i, flags, k + 1, gcat(acc, piece))
    }
}

/// The document of a markup node: its children in order, where every line
/// that holds prose text is kept verbatim.
pub open spec fn cv_markup(p: PrettyPrinter, t: Seq<NodeData>, ctx: Context, i: int) -> GDoc
    decreases t.len() - i, 12int, 0int, 0int,
{
    if !cv_ok(t, i) {
        GDoc::Nil
    } else {
        cv_markup_body(p, t, ctx, i, spec_markup_flags(t, i), 0, GDoc::Nil)
    }
}

/// The markup body of the first child of kind `k`, or nothing.
pub open spec fn cv_markup_child(
    p: PrettyPrinter,
    t: Seq<NodeData>,
    ctx: Context,
    i: int,
    k: SyntaxKind,
    from: int,
) -> GDoc
    decreases t.len() - i, 11int, 0int, 0int,
{
    if !cv_ok(t, i) {
        GDoc::Nil
    } else {
        match sfind_kind(t, cs_of(t, i), k, from) {
            Option::Some(pos) => cv_markup(p, t, ctx, cs_of(t, i)[pos] as int),
            Option::None => GDoc::Nil,
        }
    }
}

/// Strong content: the body between stars.
pub open spec fn cv_strong(p: PrettyPrinter, t: Seq<NodeData>, ctx: Context, i: int) -> GDoc
    decreases t.len() - i, 12int, 0int, 0int,
{
    if !cv_ok(t, i) {
        GDoc::Nil
    } else {
        gcat(
            gcat(gtext("*"@), cv_markup_child(p, t, ctx, i, SyntaxKind::Markup, 0)),
            gtext("*"@),
        )
    }
}

/// Emphasized content: the body between underscores.
pub open spec fn cv_emph(p: PrettyPrinter, t: Seq<NodeData>, ctx: Context, i: int) -> GDoc
    decreases t.len() - i, 12int, 0int, 0int,
{
    if !cv_ok(t, i) {
        GDoc::Nil
    } else {
        gcat(
            gcat(gtext("_"@), cv_markup_child(p, t, ctx, i, SyntaxKind::Markup, 0)),
            gtext("_"@),
        )
    }
}

/// The raw construct, from child `k` on: delimiters, language tag and
/// lines, with the spacing rules that keep backticks apart.
pub open spec fn cv_raw_loop(
    p: PrettyPrinter,
    t: Seq<NodeData>,
    i: int,
    is_block: bool,
    has_lang: bool,
    k: int,
    opening: bool,
    first_text: bool,
    last_text: Option<int>,
    acc: GDoc,
) -> GDoc
    decreases t.len() - i, 11int, cs_of(t, i).len() - k, 0int,
{
    if !cv_ok(t, i) || k < 0 || k >= cs_of(t, i).len() {
        acc
    } else {
        let c = cs_of(t, i)[k] as int;
        let kd = t[c].kind;
        if kd == SyntaxKind::RawDelim {
            let a0 = if !is_block && !opening && (match last_text {
                Option::Some(lt) => t[lt].text@.len() > 0 && t[lt].text@.last() == '`',
                Option::None => false,
            }) {
                gcat(acc, GDoc::Space)
            } else {
                acc
            };
            let a1 = gcat(a0, gtrivia(t, c));
            let a2 = if is_block && !has_lang && opening {
                gcat(a1, GDoc::Hardline)
            } else {
                a1
            };
            cv_raw_loop(p, t, i, is_block, has_lang, k + 1, false, first_text, last_text, a2)
        } else if kd == SyntaxKind::RawLang {
            let a1 = gcat(acc, gtrivia(t, c));
            let a2 = if is_block {
                gcat(a1, GDoc::Hardline)
            } else {
                gcat(a1, GDoc::Space)
            };
            cv_raw_loop(p, t, i, is_block, has_lang, k + 1, opening, first_text, last_text, a2)
        } else if kd == SyntaxKind::Text {
            let a0 = if first_text && t[c].text@.len() > 0 && t[c].text@[0] == '`' && !is_block
                && !has_lang {
                gcat(acc, GDoc::Space)
            } else {
                acc
            };
            let a1 = gcat(a0, gtrivia(t, c));
            let a2 = if is_block {
                gcat(a1, GDoc::Hardline)
            } else {
                a1
            };
            cv_raw_loop(p, t, i, is_block, has_lang, k + 1, opening, false, Option::Some(c), a2)
        } else {
            cv_raw_loop(p, t, i, is_block, has_lang, k + 1, opening, first_text, last_text, acc)
        }
    }
}

/// Raw text: delimiters, optional language tag, and the lines verbatim.
pub open spec fn cv_raw(p: PrettyPrinter, t: Seq<NodeData>, ctx: Context, i: int) -> GDoc
    decreases t.len() - i, 12int, 0int, 0int,
{
    if !cv_ok(t, i) {
        GDoc::Nil
    } else {
        cv_raw_loop(
            p,
            t,
            i,
            spec_raw_block(t, i),
            spec_raw_has_lang(t, i),
            0,
            true,
            true,
            Option::None,
            GDoc::Nil,
        )
    }
}

/// A reference: the at-sign, the target, and an optional supplement.
pub open spec fn cv_ref(p: PrettyPrinter, t: Seq<NodeData>, ctx: Context, i: int) -> GDoc
    decreases t.len() - i, 12int, 0int, 0int,
{
    if !cv_ok(t, i) {
        GDoc::Nil
    } else {
        let cs = cs_of(t, i);
        let target = match sfind_kind(t, cs, SyntaxKind::RefMarker, 0) {
            Option::Some(m) => gtext(drop_leading(t[cs[m] as int].text@, '@')),
            Option::None => gtext(""@),
        };
        let suppl = match sfind_back_kind(t, cs, SyntaxKind::ContentBlock, cs.len() - 1) {
            Option::Some(s) => cv_content_block(p, t, ctx, cs[s] as int),
            Option::None => GDoc::Nil,
        };
        gcat(gcat(gtext("@"@), target), suppl)
    }
}

/// A heading: its marker, a space, and the body.
pub open spec fn cv_heading(p: PrettyPrinter, t: Seq<NodeData>, ctx: Context, i: int) -> GDoc
    decreases t.len() - i, 12int, 0int, 0int,
{
    if !cv_ok(t, i) {
        GDoc::Nil
    } else {
        let cs = cs_of(t, i);
        let marker = match sfind_kind(t, cs, SyntaxKind::HeadingMarker, 0) {
            Option::Some(m) => gtext(t[cs[m] as int].text@),
            Option::None => gtext("="@),
        };
        gcat(gcat(marker, GDoc::Space), cv_markup_child(p, t, ctx, i, SyntaxKind::Markup, 0))
    }
}

/// A bullet list item: the dash, a space, and the indented body.
pub open spec fn cv_list_item(p: PrettyPrinter, t: Seq<NodeData>, ctx: Context, i: int) -> GDoc
    decreases t.len() - i, 12int, 0int, 0int,
{
    if !cv_ok(t, i) {
        GDoc::Nil
    } else {
        gcat(
            gcat(gtext("-"@), GDoc::Space),
            gnest(cv_ind(p), cv_markup_child(p, t, ctx, i, SyntaxKind::Markup, 0)),
        )
    }
}

/// An enumeration item: its marker, a space, and the indented body.
pub open spec fn cv_enum_item(p: PrettyPrinter, t: Seq<NodeData>, ctx: Context, i: int) -> GDoc
    decreases t.len() - i, 12int, 0int, 0int,
{
    if !cv_ok(t, i) {
        GDoc::Nil
    } else {
        let cs = cs_of(t, i);
        let marker = match sfind_kind(t, cs, SyntaxKind::EnumMarker, 0) {
            Option::Some(m) => gtext(t[cs[m] as int].text@),
            Option::None => gtext("+"@),
        };
        gcat(
            gcat(marker, GDoc::Space),
            gnest(cv_ind(p), cv_markup_child(p, t, ctx, i, SyntaxKind::Markup, 0)),
        )
    }
}

/// A term item: the slash, the term, a colon, and the indented description.
pub open spec fn cv_term_item(p: PrettyPrinter, t: Seq<NodeData>, ctx: Context, i: int) -> GDoc
    decreases t.len() - i, 12int, 0int, 0int,
{
    if !cv_ok(t, i) {
        GDoc::Nil
    } else {
        let cs = cs_of(t, i);
        let term = cv_markup_child(p, t, ctx, i, SyntaxKind::Markup, 0);
        let desc = match sfind_kind(t, cs, SyntaxKind::Markup, 0) {
            Option::Some(m) => cv_markup_child(p, t, ctx, i, SyntaxKind::Markup, m + 1),
            Option::None => GDoc::Nil,
        };
        gcat(
            gcat(
                gcat(gcat(gcat(gtext("/"@), GDoc::Space), term), gtext(":"@)),
                GDoc::Space,
            ),
            gnest(cv_ind(p), desc),
        )
    }
}

/// An equation: dollars around the math body, soft breaks and indentation
/// when the source wrote it in block form.
pub open spec fn cv_equation(p: PrettyPrinter, t: Seq<NodeData>, ctx: Context, i: int) -> GDoc
    decreases t.len() - i, 12int, 0int, 0int,
{
    if !cv_ok(t, i) {
        GDoc::Nil
    } else {
        let cs = cs_of(t, i);
        let block = spec_equation_block(t, i);
        let ctx2 = Context {
            mode: Mode::Math,
            align_mode: if block {
                AlignMode::Inner
            } else {
                AlignMode::Never
            },
        };
        let body = match sfind_kind(t, cs, SyntaxKind::Math, 0) {
            Option::Some(m) => cv_math(p, t, ctx2, cs[m] as int),
            Option::None => GDoc::Nil,
        };
        let d0 = gtext("$"@);
        let d1 = if block {
            gcat(d0, GDoc::Line)
        } else {
            d0
        };
        let d2 = gcat(d1, gnest(cv_ind(p), body));
        let d3 = if block {
            gcat(d2, GDoc::Line)
        } else {
            d2
        };
        gcat(d3, gtext("$"@))
    }
}

/// The sequential rendering of math children from `k` on.
pub open spec fn cv_math_seq(
    p: PrettyPrinter,
    t: Seq<NodeData>,
    ctx: Context,
    i: int,
    k: int,
    acc: GDoc,
) -> GDoc
    decreases t.len() - i, 11int, cs_of(t, i).len() - k, 0int,
{
    if !cv_ok(t, i) || k < 0 || k >= cs_of(t, i).len() {
        acc
    } else {
        let c = cs_of(t, i)[k] as int;
        let piece = if spec_is_expr_kind(t[c].kind) {
            cv_expr(p, t, ctx, c)
        } else if t[c].kind == SyntaxKind::Space {
            cv_space_untyped(p, t, ctx, c)
        } else {
            gtrivia(t, c)
        };
        cv_math_seq(p, t, ctx, i, k + 1, gcat(acc, piece))
    }
}

/// Math content: verbatim when disabled; an alignment grid when one is
/// eligible and fits; the children in sequence otherwise.
pub open spec fn cv_math(p: PrettyPrinter, t: Seq<NodeData>, ctx: Context, i: int) -> GDoc
    decreases t.len() - i, 12int, 0int, 0int,
{
    if !cv_ok(t, i) {
        GDoc::Nil
    } else if cv_disabled(p, t, i) {
        gtext(src_text(t, i))
    } else {
        match cv_try_aligned(p, t, ctx, i) {
            Option::Some(d) => d,
            Option::None => cv_math_seq(p, t, ctx, i, 0, GDoc::Nil),
        }
    }
}

/// Delimited math: on one line when it fits, else broken around the body.
pub open spec fn cv_math_delimited(p: PrettyPrinter, t: Seq<NodeData>, ctx: Context, i: int) -> GDoc
    decreases t.len() - i, 12int, 0int, 0int,
{
    if !cv_ok(t, i) || cs_of(t, i).len() == 0 {
        GDoc::Nil
    } else {
        let cs = cs_of(t, i);
        let open_d = cv_expr(p, t, ctx, cs[0] as int);
        let close_d = cv_expr(p, t, ctx, cs[cs.len() - 1] as int);
        let body = match sfind_kind(t, cs, SyntaxKind::Math, 0) {
            Option::Some(m) => cv_math(p, t, ctx, cs[m] as int),
            Option::None => GDoc::Nil,
        };
        let single = gcat(gcat(open_d, body), close_d);
        let multi = gcat(
            gnest(cv_ind(p), gcat(gcat(gcat(open_d, GDoc::Hardline), body), GDoc::Hardline)),
            close_d,
        );
        gflat_alt(multi, single)
    }
}

/// The position right after the base, when primes stand there.
pub open spec fn spec_attach_prime_pos(t: Seq<NodeData>, cs: Seq<usize>) -> Option<int> {
    match sfind_expr(t, cs, 0) {
        Option::Some(b) => if b + 1 < cs.len() && 0 <= cs[b + 1] < t.len() && t[cs[b
            + 1] as int].kind == SyntaxKind::MathPrimes {
            Option::Some(b + 1)
        } else {
            Option::None
        },
        Option::None => Option::None,
    }
}

/// The position of the expression attached below or above, after the given
/// marker token.
pub open spec fn spec_attach_pos(t: Seq<NodeData>, cs: Seq<usize>, marker: SyntaxKind) -> Option<
    int,
> {
    match sfind_kind(t, cs, marker, 0) {
        Option::Some(u) => sfind_expr(t, cs, u),
        Option::None => Option::None,
    }
}

/// The attachments of a math attach construct, in source order.
pub open spec fn cv_attach_loop(
    p: PrettyPrinter,
    t: Seq<NodeData>,
    ctx: Context,
    i: int,
    prime: Option<int>,
    bottom: Option<int>,
    top: Option<int>,
    k: int,
    acc: GDoc,
) -> GDoc
    decreases t.len() - i, 11int, cs_of(t, i).len() - k, 0int,
{
    if !cv_ok(t, i) || k < 0 || k >= cs_of(t, i).len() {
        acc
    } else {
        let c = cs_of(t, i)[k] as int;
        let a0 = if prime == Option::Some(k) {
            gcat(acc, gtrivia(t, c))
        } else {
            acc
        };
        let a1 = if bottom == Option::Some(k) {
            gcat(gcat(a0, gtext("_"@)), cv_expr(p, t, ctx, c))
        } else {
            a0
        };
        let a2 = if top == Option::Some(k) {
            gcat(gcat(a1, gtext("^"@)), cv_expr(p, t, ctx, c))
        } else {
            a1
        };
        cv_attach_loop(p, t, ctx, i, prime, bottom, top, k + 1, a2)
    }
}

/// A base with attachments: the base, then primes, subscript and
/// superscript in the order the source gives them.
pub open spec fn cv_math_attach(p: PrettyPrinter, t: Seq<NodeData>, ctx: Context, i: int) -> GDoc
    decreases t.len() - i, 12int, 0int, 0int,
{
    if !cv_ok(t, i) {
        GDoc::Nil
    } else {
        let cs = cs_of(t, i);
        let base = match sfind_expr(t, cs, 0) {
            Option::Some(b) => cv_expr(p, t, ctx, cs[b] as int),
            Option::None => GDoc::Nil,
        };
        cv_attach_loop(
            p,
            t,
            ctx,
            i,
            spec_attach_prime_pos(t, cs),
            spec_attach_pos(t, cs, SyntaxKind::Underscore),
            spec_attach_pos(t, cs, SyntaxKind::Hat),
            0,
            base,
        )
    }
}

/// A fraction: numerator, slash, denominator with spaces.
pub open spec fn cv_math_frac(p: PrettyPrinter, t: Seq<NodeData>, ctx: Context, i: int) -> GDoc
    decreases t.len() - i, 12int, 0int, 0int,
{
    if !cv_ok(t, i) {
        GDoc::Nil
    } else {
        let cs = cs_of(t, i);
        let num = match sfind_expr(t, cs, 0) {
            Option::Some(b) => cv_expr(p, t, ctx, cs[b] as int),
            Option::None => GDoc::Nil,
        };
        let den = match sfind_back_expr(t, cs, cs.len() - 1) {
            Option::Some(b) => cv_expr(p, t, ctx, cs[b] as int),
            Option::None => GDoc::Nil,
        };
        gcat(gcat(gcat(gcat(num, GDoc::Space), gtext("/"@)), GDoc::Space), den)
    }
}

/// A root: the radical symbol and the radicand.
pub open spec fn cv_math_root(p: PrettyPrinter, t: Seq<NodeData>, ctx: Context, i: int) -> GDoc
    decreases t.len() - i, 12int, 0int, 0int,
{
    if !cv_ok(t, i) {
        GDoc::Nil
    } else {
        let cs = cs_of(t, i);
        let sym = if cs.len() > 0 && 0 <= cs[0] < t.len() && t[cs[0] as int].text@.len() == 1 && (
        t[cs[0] as int].text@[0] == '\u{221a}' || t[cs[0] as int].text@[0] == '\u{221b}'
            || t[cs[0] as int].text@[0] == '\u{221c}') {
            gtext(t[cs[0] as int].text@)
        } else {
            gtext("\u{221a}"@)
        };
        let rad = match sfind_expr(t, cs, 0) {
            Option::Some(b) => cv_expr(p, t, ctx, cs[b] as int),
            Option::None => GDoc::Nil,
        };
        gcat(sym, rad)
    }
}

/// A contextual expression: the keyword and the body.
pub open spec fn cv_contextual(p: PrettyPrinter, t: Seq<NodeData>, ctx: Context, i: int) -> GDoc
    decreases t.len() - i, 12int, 0int, 0int,
{
    if !cv_ok(t, i) {
        GDoc::Nil
    } else {
        let body = match sfind_expr(t, cs_of(t, i), 0) {
            Option::Some(b) => cv_expr(p, t, ctx, cs_of(t, i)[b] as int),
            Option::None => GDoc::Nil,
        };
        gcat(gcat(gtext("context"@), GDoc::Space), body)
    }
}

/// The items of a code body from child `k` on: expressions, comments with
/// their leading blanks stripped, and one empty item per kept blank line.
pub open spec fn cv_code_items(
    p: PrettyPrinter,
    t: Seq<NodeData>,
    ctx: Context,
    i: int,
    k: int,
    acc: Seq<GDoc>,
) -> Seq<GDoc>
    decreases t.len() - i, 11int, cs_of(t, i).len() - k, 0int,
{
    if !cv_ok(t, i) || k < 0 || k >= cs_of(t, i).len() {
        acc
    } else {
        let c = cs_of(t, i)[k] as int;
        let kd = t[c].kind;
        let acc2 = if spec_is_expr_kind(kd) {
            acc.push(cv_expr(p, t, ctx, c))
        } else if spec_is_comment(kd) {
            acc.push(gto_doc(t[c].text@, true))
        } else if kd == SyntaxKind::Space {
            let m = count_nl(t[c].text@);
            acc + gnils(if m >= 1 {
                (m - 1) as nat
            } else {
                0
            })
        } else {
            acc
        };
        cv_code_items(p, t, ctx, i, k + 1, acc2)
    }
}

/// The items of a code block from child `k` on: the code body's items and
/// the block's own comments.
pub open spec fn cv_code_block_items(
    p: PrettyPrinter,
    t: Seq<NodeData>,
    ctx: Context,
    i: int,
    k: int,
    acc: Seq<GDoc>,
) -> Seq<GDoc>
    decreases t.len() - i, 12int, cs_of(t, i).len() - k, 0int,
{
    if !cv_ok(t, i) || k < 0 || k >= cs_of(t, i).len() {
        acc
    } else {
        let c = cs_of(t, i)[k] as int;
        let kd = t[c].kind;
        let acc2 = if kd == SyntaxKind::Code {
            cv_code_items(p, t, ctx, c, 0, acc)
        } else if spec_is_comment(kd) {
            acc.push(gto_doc(t[c].text@, true))
        } else {
            acc
        };
        cv_code_block_items(p, t, ctx, i, k + 1, acc2)
    }
}

/// A code block: its items between braces, one per line.
pub open spec fn cv_code_block(p: PrettyPrinter, t: Seq<NodeData>, ctx: Context, i: int) -> GDoc
    decreases t.len() - i, 13int, 0int, 0int,
{
    if !cv_ok(t, i) {
        GDoc::Nil
    } else {
        let ctx2 = Context { mode: Mode::Code, ..ctx };
        let items = cv_code_block_items(p, t, ctx2, i, 0, Seq::empty());
        spec_pretty_items(
            items,
            gcat(gtext(";"@), GDoc::Space),
            GDoc::Nil,
            gtext("{"@),
            gtext("}"@),
            true,
            FoldStyle::Never,
            cv_ind(p),
        )
    }
}

/// A content block: the markup body in brackets, grouped and indented.
pub open spec fn cv_content_block(p: PrettyPrinter, t: Seq<NodeData>, ctx: Context, i: int) -> GDoc
    decreases t.len() - i, 12int, 0int, 0int,
{
    if !cv_ok(t, i) {
        GDoc::Nil
    } else {
        let ctx2 = Context { mode: Mode::Markup, ..ctx };
        let content = gnest(
            cv_ind(p),
            ggroup(cv_markup_child(p, t, ctx2, i, SyntaxKind::Markup, 0)),
        );
        gcat(gcat(gtext("["@), content), gtext("]"@))
    }
}

/// A parenthesized expression: flat inside the parentheses when it fits,
/// else broken onto its own indented line.
pub open spec fn cv_parenthesized(p: PrettyPrinter, t: Seq<NodeData>, ctx: Context, i: int) -> GDoc
    decreases t.len() - i, 12int, 0int, 0int,
{
    if !cv_ok(t, i) {
        GDoc::Nil
    } else {
        let inner = match sfind_expr(t, cs_of(t, i), 0) {
            Option::Some(b) => cv_expr(p, t, ctx, cs_of(t, i)[b] as int),
            Option::None => GDoc::Nil,
        };
        let multi = ggroup(gnest(cv_ind(p), gcat(gcat(GDoc::Line, inner), GDoc::Line)));
        gcat(gcat(gtext("("@), gflat_alt(multi, inner)), gtext(")"@))
    }
}

/// The documents of the array items from child `k` on.
pub open spec fn cv_array_items(
    p: PrettyPrinter,
    t: Seq<NodeData>,
    ctx: Context,
    i: int,
    k: int,
    acc: Seq<GDoc>,
) -> Seq<GDoc>
    decreases t.len() - i, 11int, cs_of(t, i).len() - k, 0int,
{
    if !cv_ok(t, i) || k < 0 || k >= cs_of(t, i).len() {
        acc
    } else {
        let c = cs_of(t, i)[k] as int;
        let kd = t[c].kind;
        let acc2 = if spec_is_expr_kind(kd) || kd == SyntaxKind::Spread {
            acc.push(cv_array_item(p, t, ctx, c))
        } else {
            acc
        };
        cv_array_items(p, t, ctx, i, k + 1, acc2)
    }
}

/// An array: one item keeps a disambiguating trailing comma; several fold
/// by the node's preference.
pub open spec fn cv_array(p: PrettyPrinter, t: Seq<NodeData>, ctx: Context, i: int) -> GDoc
    decreases t.len() - i, 12int, 0int, 0int,
{
    if !cv_ok(t, i) {
        GDoc::Nil
    } else {
        let items = cv_array_items(p, t, ctx, i, 0, Seq::empty());
        if items.len() == 1 {
            let single = gcat(gcat(gcat(gtext("("@), items[0]), gtext(","@)), gtext(")"@));
            let multi = ggroup(
                gcat(
                    gcat(
                        gcat(
                            gtext("("@),
                            gnest(cv_ind(p), gcat(gcat(GDoc::Hardline, items[0]), gtext(","@))),
                        ),
                        GDoc::Hardline,
                    ),
                    gtext(")"@),
                ),
            );
            gflat_alt(multi, single)
        } else {
            spec_pretty_items(
                items,
                gsep_comma(),
                gtext(","@),
                gtext("("@),
                gtext(")"@),
                false,
                attrs_of(p.attrs.attrs@, i).fold,
                cv_ind(p),
            )
        }
    }
}

/// One array item: a value or a spread.
pub open spec fn cv_array_item(p: PrettyPrinter, t: Seq<NodeData>, ctx: Context, i: int) -> GDoc
    decreases t.len() - i, 16int, 0int, 0int,
{
    if !cv_ok(t, i) {
        GDoc::Nil
    } else if t[i].kind == SyntaxKind::Spread {
        cv_spread(p, t, ctx, i)
    } else {
        cv_expr(p, t, ctx, i)
    }
}

/// The documents of the dictionary items from child `k` on.
pub open spec fn cv_dict_items(
    p: PrettyPrinter,
    t: Seq<NodeData>,
    ctx: Context,
    i: int,
    k: int,
    acc: Seq<GDoc>,
) -> Seq<GDoc>
    decreases t.len() - i, 11int, cs_of(t, i).len() - k, 0int,
{
    if !cv_ok(t, i) || k < 0 || k >= cs_of(t, i).len() {
        acc
    } else {
        let c = cs_of(t, i)[k] as int;
        let kd = t[c].kind;
        let acc2 = if kd == SyntaxKind::Named || kd == SyntaxKind::Keyed || kd
            == SyntaxKind::Spread {
            acc.push(cv_dict_item(p, t, ctx, c))
        } else {
            acc
        };
        cv_dict_items(p, t, ctx, i, k + 1, acc2)
    }
}

/// A dictionary: its canonical empty form, or its items folded by the
/// node's preference.
pub open spec fn cv_dict(p: PrettyPrinter, t: Seq<NodeData>, ctx: Context, i: int) -> GDoc
    decreases t.len() - i, 12int, 0int, 0int,
{
    if !cv_ok(t, i) {
        GDoc::Nil
    } else {
        let items = cv_dict_items(p, t, ctx, i, 0, Seq::empty());
        if items.len() == 0 {
            gtext("(:)"@)
        } else {
            spec_pretty_items(
                items,
                gsep_comma(),
                gtext(","@),
                gtext("("@),
                gtext(")"@),
                false,
                attrs_of(p.attrs.attrs@, i).fold,
                cv_ind(p),
            )
        }
    }
}

/// One dictionary item: a named pair, a keyed pair, or a spread.
pub open spec fn cv_dict_item(p: PrettyPrinter, t: Seq<NodeData>, ctx: Context, i: int) -> GDoc
    decreases t.len() - i, 16int, 0int, 0int,
{
    if !cv_ok(t, i) {
        GDoc::Nil
    } else if t[i].kind == SyntaxKind::Named {
        cv_named(p, t, ctx, i)
    } else if t[i].kind == SyntaxKind::Keyed {
        cv_keyed(p, t, ctx, i)
    } else {
        cv_spread(p, t, ctx, i)
    }
}

/// A named pair: the name, a colon, an optional hash, and the value.
pub open spec fn cv_named(p: PrettyPrinter, t: Seq<NodeData>, ctx: Context, i: int) -> GDoc
    decreases t.len() - i, 12int, 0int, 0int,
{
    if !cv_ok(t, i) {
        GDoc::Nil
    } else if cv_disabled(p, t, i) {
        gtext(src_text(t, i))
    } else {
        let cs = cs_of(t, i);
        let name = match sfind_kind(t, cs, SyntaxKind::Ident, 0) {
            Option::Some(m) => cv_ident(t, cs[m] as int),
            Option::None => GDoc::Nil,
        };
        let hash = if spec_has_child_kind(t, i, SyntaxKind::Hash) {
            gtext("#"@)
        } else {
            GDoc::Nil
        };
        let value = match sfind_back_expr(t, cs, cs.len() - 1) {
            Option::Some(b) => cv_expr(p, t, ctx, cs[b] as int),
            Option::None => GDoc::Nil,
        };
        gcat(gcat(gcat(gcat(name, gtext(":"@)), GDoc::Space), hash), value)
    }
}

/// A keyed pair: the key, a colon, and the value.
pub open spec fn cv_keyed(p: PrettyPrinter, t: Seq<NodeData>, ctx: Context, i: int) -> GDoc
    decreases t.len() - i, 12int, 0int, 0int,
{
    if !cv_ok(t, i) {
        GDoc::Nil
    } else {
        let cs = cs_of(t, i);
        let key = match sfind_expr(t, cs, 0) {
            Option::Some(b) => cv_expr(p, t, ctx, cs[b] as int),
            Option::None => GDoc::Nil,
        };
        let value = match sfind_back_expr(t, cs, cs.len() - 1) {
            Option::Some(b) => cv_expr(p, t, ctx, cs[b] as int),
            Option::None => GDoc::Nil,
        };
        gcat(gcat(gcat(key, gtext(":"@)), GDoc::Space), value)
    }
}

/// A spread: two dots and the sink.
pub open spec fn cv_spread(p: PrettyPrinter, t: Seq<NodeData>, ctx: Context, i: int) -> GDoc
    decreases t.len() - i, 12int, 0int, 0int,
{
    if !cv_ok(t, i) {
        GDoc::Nil
    } else {
        let cs = cs_of(t, i);
        let sink = match sfind_kind(t, cs, SyntaxKind::Ident, 0) {
            Option::Some(m) => cv_ident(t, cs[m] as int),
            Option::None => match sfind_expr(t, cs, 0) {
                Option::Some(b) => cv_expr(p, t, ctx, cs[b] as int),
                Option::None => GDoc::Nil,
            },
        };
        gcat(gtext(".."@), sink)
    }
}

/// A unary operation: the operator, a space after a word operator, and the
/// operand.
pub open spec fn cv_unary(p: PrettyPrinter, t: Seq<NodeData>, ctx: Context, i: int) -> GDoc
    decreases t.len() - i, 12int, 0int, 0int,
{
    if !cv_ok(t, i) {
        GDoc::Nil
    } else {
        let cs = cs_of(t, i);
        let op = match sfind_op(t, cs, 0) {
            Option::Some(o) => if t[cs[o] as int].kind == SyntaxKind::Not {
                gtext("not "@)
            } else {
                gtext(t[cs[o] as int].text@)
            },
            Option::None => gtext("+"@),
        };
        let rhs = match sfind_back_expr(t, cs, cs.len() - 1) {
            Option::Some(b) => cv_expr(p, t, ctx, cs[b] as int),
            Option::None => GDoc::Nil,
        };
        gcat(op, rhs)
    }
}

/// A binary operation: a single space around the operator.
pub open spec fn cv_binary(p: PrettyPrinter, t: Seq<NodeData>, ctx: Context, i: int) -> GDoc
    decreases t.len() - i, 12int, 0int, 0int,
{
    if !cv_ok(t, i) {
        GDoc::Nil
    } else {
        let cs = cs_of(t, i);
        let lhs = match sfind_expr(t, cs, 0) {
            Option::Some(b) => cv_expr(p, t, ctx, cs[b] as int),
            Option::None => GDoc::Nil,
        };
        let rhs = match sfind_back_expr(t, cs, cs.len() - 1) {
            Option::Some(b) => cv_expr(p, t, ctx, cs[b] as int),
            Option::None => GDoc::Nil,
        };
        gcat(
            gcat(gcat(gcat(lhs, GDoc::Space), gtext(gop_text(t, cs, cs.len() as int))), GDoc::Space),
            rhs,
        )
    }
}

/// A field access: the target, a dot, the field name.
pub open spec fn cv_field_access(p: PrettyPrinter, t: Seq<NodeData>, ctx: Context, i: int) -> GDoc
    decreases t.len() - i, 12int, 0int, 0int,
{
    if !cv_ok(t, i) {
        GDoc::Nil
    } else {
        let cs = cs_of(t, i);
        let target = match sfind_expr(t, cs, 0) {
            Option::Some(b) => cv_expr(p, t, ctx, cs[b] as int),
            Option::None => GDoc::Nil,
        };
        let field = match sfind_back_kind(t, cs, SyntaxKind::Ident, cs.len() - 1) {
            Option::Some(m) => cv_ident(t, cs[m] as int),
            Option::None => GDoc::Nil,
        };
        gcat(target, gcat(gtext("."@), field))
    }
}

/// The parenthesized arguments of a call from child `k` on, up to `limit`:
/// their documents, whether any spans lines, and the last argument seen.
pub open spec fn cv_paren_args_loop(
    p: PrettyPrinter,
    t: Seq<NodeData>,
    ctx: Context,
    i: int,
    limit: int,
    k: int,
    acc: Seq<GDoc>,
    multi: bool,
    last: Option<int>,
) -> (Seq<GDoc>, bool, Option<int>)
    decreases t.len() - i, 11int, cs_of(t, i).len() - k, 0int,
{
    if !cv_ok(t, i) || k < 0 || k >= cs_of(t, i).len() || k >= limit {
        (acc, multi, last)
    } else {
        let c = cs_of(t, i)[k] as int;
        let kd = t[c].kind;
        if spec_is_expr_kind(kd) || kd == SyntaxKind::Named || kd == SyntaxKind::Spread {
            cv_paren_args_loop(
                p,
                t,
                ctx,
                i,
                limit,
                k + 1,
                acc.push(cv_arg(p, t, ctx, c)),
                multi || attrs_of(p.attrs.attrs@, c).multiline,
                Option::Some(c),
            )
        } else {
            cv_paren_args_loop(p, t, ctx, i, limit, k + 1, acc, multi, last)
        }
    }
}

/// The parenthesized arguments of a call: their documents, whether the
/// tight one-line form is preferred (no arguments, or one argument that is
/// not itself a call), and whether the source already spans lines.
pub open spec fn cv_paren_args(p: PrettyPrinter, t: Seq<NodeData>, ctx: Context, i: int) -> (
    Seq<GDoc>,
    bool,
    bool,
)
    decreases t.len() - i, 12int, 0int, 0int,
{
    if !cv_ok(t, i) {
        (Seq::empty(), true, false)
    } else {
        let cs = cs_of(t, i);
        let limit = match sfind_kind(t, cs, SyntaxKind::RightParen, 0) {
            Option::Some(r) => r,
            Option::None => cs.len() as int,
        };
        let r = cv_paren_args_loop(
            p,
            t,
            ctx,
            i,
            limit,
            0,
            Seq::empty(),
            spec_args_has_nl(t, i),
            Option::None,
        );
        let tighter = r.0.len() == 0 || (r.0.len() == 1 && (match r.2 {
            Option::Some(a) => match spec_arg_rhs(t, a) {
                Option::Some(rhs) => 0 <= rhs < t.len() && t[rhs].kind != SyntaxKind::FuncCall,
                Option::None => true,
            },
            Option::None => true,
        }));
        (r.0, tighter, r.1)
    }
}

/// The arguments standing after the closing parenthesis, or all trailing
/// content blocks of a call without parentheses, concatenated.
pub open spec fn cv_additional_args_loop(
    p: PrettyPrinter,
    t: Seq<NodeData>,
    ctx: Context,
    i: int,
    k: int,
    acc: GDoc,
) -> GDoc
    decreases t.len() - i, 11int, cs_of(t, i).len() - k, 0int,
{
    if !cv_ok(t, i) || k < 0 || k >= cs_of(t, i).len() {
        acc
    } else {
        let c = cs_of(t, i)[k] as int;
        let kd = t[c].kind;
        let acc2 = if spec_is_expr_kind(kd) || kd == SyntaxKind::Named || kd == SyntaxKind::Spread {
            gcat(acc, cv_arg(p, t, ctx, c))
        } else {
            acc
        };
        cv_additional_args_loop(p, t, ctx, i, k + 1, acc2)
    }
}

/// The trailing arguments of a call, as one group.
pub open spec fn cv_additional_args(
    p: PrettyPrinter,
    t: Seq<NodeData>,
    ctx: Context,
    i: int,
    has_paren: bool,
) -> GDoc
    decreases t.len() - i, 12int, 0int, 0int,
{
    if !cv_ok(t, i) {
        GDoc::Nil
    } else {
        let cs = cs_of(t, i);
        let start = if has_paren {
            match sfind_kind(t, cs, SyntaxKind::RightParen, 0) {
                Option::Some(r) => r + 1,
                Option::None => cs.len() as int,
            }
        } else {
            match sfind_kind(t, cs, SyntaxKind::ContentBlock, 0) {
                Option::Some(cb) => cb,
                Option::None => cs.len() as int,
            }
        };
        ggroup(cv_additional_args_loop(p, t, ctx, i, start, GDoc::Nil))
    }
}

/// One call argument: positional, named, or spread.
pub open spec fn cv_arg(p: PrettyPrinter, t: Seq<NodeData>, ctx: Context, i: int) -> GDoc
    decreases t.len() - i, 16int, 0int, 0int,
{
    if !cv_ok(t, i) {
        GDoc::Nil
    } else if t[i].kind == SyntaxKind::Named {
        cv_named(p, t, ctx, i)
    } else if t[i].kind == SyntaxKind::Spread {
        cv_spread(p, t, ctx, i)
    } else {
        cv_expr(p, t, ctx, i)
    }
}

/// A function call: the callee, then the argument list in tight form for
/// zero or one simple argument, in folded form otherwise; the arguments
/// keep one per line when the source already spans lines; trailing content
/// blocks follow.
pub open spec fn cv_func_call(p: PrettyPrinter, t: Seq<NodeData>, ctx: Context, i: int) -> GDoc
    decreases t.len() - i, 12int, 0int, 0int,
{
    if !cv_ok(t, i) {
        GDoc::Nil
    } else {
        let cs = cs_of(t, i);
        let callee = match sfind_expr(t, cs, 0) {
            Option::Some(b) => cv_expr(p, t, ctx, cs[b] as int),
            Option::None => GDoc::Nil,
        };
        match sfind_back_kind(t, cs, SyntaxKind::Args, cs.len() - 1) {
            Option::None => callee,
            Option::Some(ap) => {
                let a = cs[ap] as int;
                if cv_disabled(p, t, a) {
                    gcat(callee, gtext(src_text(t, a)))
                } else {
                    let has_paren = spec_has_child_kind(t, a, SyntaxKind::LeftParen)
                        || spec_has_child_kind(t, a, SyntaxKind::RightParen);
                    let d = if has_paren {
                        let r = cv_paren_args(p, t, ctx, a);
                        if r.1 {
                            gcat(
                                gcat(
                                    gcat(callee, gtext("("@)),
                                    if r.0.len() > 0 {
                                        r.0[0]
                                    } else {
                                        GDoc::Nil
                                    },
                                ),
                                gtext(")"@),
                            )
                        } else {
                            gcat(
                                callee,
                                spec_pretty_items(
                                    r.0,
                                    gsep_comma(),
                                    gtext(","@),
                                    gtext("("@),
                                    gtext(")"@),
                                    false,
                                    if r.2 {
                                        FoldStyle::Never
                                    } else {
                                        FoldStyle::Fit
                                    },
                                    cv_ind(p),
                                ),
                            )
                        }
                    } else {
                        callee
                    };
                    gcat(d, cv_additional_args(p, t, ctx, a, has_paren))
                }
            },
        }
    }
}

/// The documents of the parameters from child `k` on.
pub open spec fn cv_params_items(
    p: PrettyPrinter,
    t: Seq<NodeData>,
    ctx: Context,
    i: int,
    k: int,
    acc: Seq<GDoc>,
) -> Seq<GDoc>
    decreases t.len() - i, 11int, cs_of(t, i).len() - k, 0int,
{
    if !cv_ok(t, i) || k < 0 || k >= cs_of(t, i).len() {
        acc
    } else {
        let c = cs_of(t, i)[k] as int;
        let acc2 = if spec_is_param_kind(t[c].kind) {
            acc.push(cv_param(p, t, ctx, c))
        } else {
            acc
        };
        cv_params_items(p, t, ctx, i, k + 1, acc2)
    }
}

/// One parameter: positional pattern, named default, or sink.
pub open spec fn cv_param(p: PrettyPrinter, t: Seq<NodeData>, ctx: Context, i: int) -> GDoc
    decreases t.len() - i, 18int, 0int, 0int,
{
    if !cv_ok(t, i) {
        GDoc::Nil
    } else if t[i].kind == SyntaxKind::Named {
        cv_named(p, t, ctx, i)
    } else if t[i].kind == SyntaxKind::Spread {
        cv_spread(p, t, ctx, i)
    } else {
        cv_pattern(p, t, ctx, i)
    }
}

/// A binding pattern: a placeholder, a destructuring, a parenthesized
/// pattern, or a plain expression.
pub open spec fn cv_pattern(p: PrettyPrinter, t: Seq<NodeData>, ctx: Context, i: int) -> GDoc
    decreases t.len() - i, 16int, 0int, 0int,
{
    if !cv_ok(t, i) {
        GDoc::Nil
    } else if t[i].kind == SyntaxKind::Underscore {
        gtext("_"@)
    } else if t[i].kind == SyntaxKind::Destructuring {
        cv_destructuring(p, t, ctx, i)
    } else if t[i].kind == SyntaxKind::Parenthesized {
        cv_parenthesized(p, t, ctx, i)
    } else {
        cv_expr(p, t, ctx, i)
    }
}

/// A closure: a named function keeps its name before the parameter list; a
/// lambda with one plain positional parameter drops the parentheses.
pub open spec fn cv_closure(p: PrettyPrinter, t: Seq<NodeData>, ctx: Context, i: int) -> GDoc
    decreases t.len() - i, 13int, 0int, 0int,
{
    if !cv_ok(t, i) {
        GDoc::Nil
    } else {
        let cs = cs_of(t, i);
        let body = match sfind_back_expr(t, cs, cs.len() - 1) {
            Option::Some(b) => cv_expr(p, t, ctx, cs[b] as int),
            Option::None => GDoc::Nil,
        };
        match sfind_kind(t, cs, SyntaxKind::Params, 0) {
            Option::None => body,
            Option::Some(pp) => {
                let pn = cs[pp] as int;
                let items = cv_params_items(p, t, ctx, pn, 0, Seq::empty());
                let arg_list = spec_pretty_items(
                    items,
                    gsep_comma(),
                    gtext(","@),
                    gtext("("@),
                    gtext(")"@),
                    false,
                    attrs_of(p.attrs.attrs@, pn).fold,
                    cv_ind(p),
                );
                if cs.len() > 0 && 0 <= cs[0] < t.len() && t[cs[0] as int].kind
                    == SyntaxKind::Ident {
                    gcat(
                        gcat(
                            gcat(gcat(gcat(cv_ident(t, cs[0] as int), arg_list), GDoc::Space),
                            gtext("="@)),
                            GDoc::Space,
                        ),
                        body,
                    )
                } else {
                    let single = match sfind_prm(t, cs_of(t, pn), 0) {
                        Option::Some(fp) => items.len() == 1 && spec_is_pattern_kind(
                            t[cs_of(t, pn)[fp] as int].kind,
                        ) && t[cs_of(t, pn)[fp] as int].kind != SyntaxKind::Destructuring,
                        Option::None => false,
                    };
                    let head = if single {
                        items[0]
                    } else {
                        arg_list
                    };
                    gcat(gcat(gcat(gcat(head, GDoc::Space), gtext("=>"@)), GDoc::Space), body)
                }
            },
        }
    }
}

/// The documents of destructuring items from child `k` on.
pub open spec fn cv_destructuring_items(
    p: PrettyPrinter,
    t: Seq<NodeData>,
    ctx: Context,
    i: int,
    k: int,
    acc: Seq<GDoc>,
) -> Seq<GDoc>
    decreases t.len() - i, 11int, cs_of(t, i).len() - k, 0int,
{
    if !cv_ok(t, i) || k < 0 || k >= cs_of(t, i).len() {
        acc
    } else {
        let c = cs_of(t, i)[k] as int;
        let acc2 = if spec_is_param_kind(t[c].kind) {
            acc.push(cv_destructuring_item(p, t, ctx, c))
        } else {
            acc
        };
        cv_destructuring_items(p, t, ctx, i, k + 1, acc2)
    }
}

/// One destructuring item: a sink, a named pair, or a pattern.
pub open spec fn cv_destructuring_item(p: PrettyPrinter, t: Seq<NodeData>, ctx: Context, i: int) -> GDoc
    decreases t.len() - i, 18int, 0int, 0int,
{
    if !cv_ok(t, i) {
        GDoc::Nil
    } else if t[i].kind == SyntaxKind::Spread {
        cv_spread(p, t, ctx, i)
    } else if t[i].kind == SyntaxKind::Named {
        cv_named(p, t, ctx, i)
    } else {
        cv_pattern(p, t, ctx, i)
    }
}

/// A destructuring: one plain pattern keeps a disambiguating trailing
/// comma; several items pack as many per line as fit.
pub open spec fn cv_destructuring(p: PrettyPrinter, t: Seq<NodeData>, ctx: Context, i: int) -> GDoc
    decreases t.len() - i, 12int, 0int, 0int,
{
    if !cv_ok(t, i) {
        GDoc::Nil
    } else {
        let cs = cs_of(t, i);
        let items = cv_destructuring_items(p, t, ctx, i, 0, Seq::empty());
        let first_plain = match sfind_prm(t, cs, 0) {
            Option::Some(fp) => spec_is_pattern_kind(t[cs[fp] as int].kind),
            Option::None => false,
        };
        if items.len() == 1 && first_plain {
            gcat(gcat(gtext("("@), items[0]), gtext(",)"@))
        } else {
            spec_pretty_items(
                items,
                gsep_comma(),
                gtext(","@),
                gtext("("@),
                gtext(")"@),
                false,
                FoldStyle::Fit,
                cv_ind(p),
            )
        }
    }
}

/// A let binding: the keyword, then a function definition, or a pattern
/// with an optional initializer.
pub open spec fn cv_let_binding(p: PrettyPrinter, t: Seq<NodeData>, ctx: Context, i: int) -> GDoc
    decreases t.len() - i, 12int, 0int, 0int,
{
    if !cv_ok(t, i) {
        GDoc::Nil
    } else {
        let cs = cs_of(t, i);
        let base = gcat(gtext("let"@), GDoc::Space);
        match sfind_pat(t, cs, 0) {
            Option::None => base,
            Option::Some(pp) => {
                let c = cs[pp] as int;
                if t[c].kind == SyntaxKind::Closure {
                    gcat(base, cv_expr(p, t, ctx, c))
                } else {
                    let d = gcat(base, ggroup(cv_pattern(p, t, ctx, c)));
                    let init = if spec_is_expr_kind(t[c].kind) {
                        sfind_expr(t, cs, pp + 1)
                    } else {
                        sfind_expr(t, cs, 0)
                    };
                    match init {
                        Option::Some(e) => gcat(
                            gcat(gcat(gcat(d, GDoc::Space), gtext("="@)), GDoc::Space),
                            cv_expr(p, t, ctx, cs[e] as int),
                        ),
                        Option::None => d,
                    }
                }
            },
        }
    }
}

/// A destructuring assignment: the pattern, an equals sign, the value.
pub open spec fn cv_destruct_assignment(
    p: PrettyPrinter,
    t: Seq<NodeData>,
    ctx: Context,
    i: int,
) -> GDoc
    decreases t.len() - i, 12int, 0int, 0int,
{
    if !cv_ok(t, i) {
        GDoc::Nil
    } else {
        let cs = cs_of(t, i);
        let pat = match sfind_pat(t, cs, 0) {
            Option::Some(pp) => cv_pattern(p, t, ctx, cs[pp] as int),
            Option::None => GDoc::Nil,
        };
        let value = match sfind_back_expr(t, cs, cs.len() - 1) {
            Option::Some(b) => cv_expr(p, t, ctx, cs[b] as int),
            Option::None => GDoc::Nil,
        };
        gcat(gcat(gcat(gcat(pat, GDoc::Space), gtext("="@)), GDoc::Space), value)
    }
}

/// A set rule: the keyword, the target, its arguments on one line when
/// they fit, and an optional condition.
pub open spec fn cv_set_rule(p: PrettyPrinter, t: Seq<NodeData>, ctx: Context, i: int) -> GDoc
    decreases t.len() - i, 13int, 0int, 0int,
{
    if !cv_ok(t, i) {
        GDoc::Nil
    } else {
        let cs = cs_of(t, i);
        let target = match sfind_expr(t, cs, 0) {
            Option::Some(b) => cv_expr(p, t, ctx, cs[b] as int),
            Option::None => GDoc::Nil,
        };
        let argdocs = match sfind_back_kind(t, cs, SyntaxKind::Args, cs.len() - 1) {
            Option::Some(ap) => cv_paren_args(p, t, ctx, cs[ap] as int).0,
            Option::None => Seq::empty(),
        };
        let d = gcat(
            gcat(gcat(gtext("set"@), GDoc::Space), target),
            spec_pretty_items(
                argdocs,
                gsep_comma(),
                gtext(","@),
                gtext("("@),
                gtext(")"@),
                false,
                FoldStyle::Single,
                cv_ind(p),
            ),
        );
        match sfind_kind(t, cs, SyntaxKind::If, 0) {
            Option::Some(f) => match sfind_expr(t, cs, f) {
                Option::Some(e) => gcat(
                    gcat(gcat(gcat(d, GDoc::Space), gtext("if"@)), GDoc::Space),
                    cv_expr(p, t, ctx, cs[e] as int),
                ),
                Option::None => d,
            },
            Option::None => d,
        }
    }
}

/// A show rule: the keyword, an optional selector, a colon, and the
/// transformation.
pub open spec fn cv_show_rule(p: PrettyPrinter, t: Seq<NodeData>, ctx: Context, i: int) -> GDoc
    decreases t.len() - i, 12int, 0int, 0int,
{
    if !cv_ok(t, i) {
        GDoc::Nil
    } else {
        let cs = cs_of(t, i);
        let colon = sfind_kind(t, cs, SyntaxKind::Colon, 0);
        let d0 = gtext("show"@);
        let d1 = match (sfind_expr(t, cs, 0), colon) {
            (Option::Some(sp), Option::Some(cp)) => if sp < cp {
                gcat(gcat(d0, GDoc::Space), cv_expr(p, t, ctx, cs[sp] as int))
            } else {
                d0
            },
            _ => d0,
        };
        let transform = match sfind_back_expr(t, cs, cs.len() - 1) {
            Option::Some(b) => cv_expr(p, t, ctx, cs[b] as int),
            Option::None => GDoc::Nil,
        };
        gcat(gcat(gcat(d1, gtext(":"@)), GDoc::Space), transform)
    }
}

/// A conditional, child by child: keywords and comments in place, then the
/// condition, the branch, and an optional alternative.
pub open spec fn cv_cond_loop(
    p: PrettyPrinter,
    t: Seq<NodeData>,
    ctx: Context,
    i: int,
    has_else: bool,
    k: int,
    state: int,
    acc: GDoc,
) -> GDoc
    decreases t.len() - i, 11int, cs_of(t, i).len() - k, 0int,
{
    if !cv_ok(t, i) || k < 0 || k >= cs_of(t, i).len() {
        acc
    } else {
        let c = cs_of(t, i)[k] as int;
        let kd = t[c].kind;
        if kd == SyntaxKind::If {
            cv_cond_loop(
                p, t, ctx, i, has_else, k + 1, state,
                gcat(gcat(acc, gtext("if"@)), GDoc::Space),
            )
        } else if kd == SyntaxKind::Else {
            cv_cond_loop(
                p, t, ctx, i, has_else, k + 1, state,
                gcat(gcat(acc, gtext("else"@)), GDoc::Space),
            )
        } else if kd == SyntaxKind::BlockComment {
            cv_cond_loop(
                p, t, ctx, i, has_else, k + 1, state,
                gcat(gcat(acc, gtrivia(t, c)), GDoc::Space),
            )
        } else if kd == SyntaxKind::LineComment {
            cv_cond_loop(
                p, t, ctx, i, has_else, k + 1, state,
                gcat(gcat(acc, gtrivia(t, c)), GDoc::Hardline),
            )
        } else if spec_is_expr_kind(kd) {
            if state == 0 {
                cv_cond_loop(
                    p, t, ctx, i, has_else, k + 1, 1,
                    gcat(gcat(acc, cv_expr(p, t, ctx, c)), GDoc::Space),
                )
            } else if state == 1 {
                let a1 = gcat(acc, ggroup(cv_expr(p, t, ctx, c)));
                if has_else {
                    cv_cond_loop(p, t, ctx, i, has_else, k + 1, 2, gcat(a1, GDoc::Space))
                } else {
                    cv_cond_loop(p, t, ctx, i, has_else, k + 1, 1, a1)
                }
            } else {
                cv_cond_loop(
                    p, t, ctx, i, has_else, k + 1, state,
                    gcat(acc, ggroup(cv_expr(p, t, ctx, c))),
                )
            }
        } else {
            cv_cond_loop(p, t, ctx, i, has_else, k + 1, state, acc)
        }
    }
}

/// A conditional expression.
pub open spec fn cv_conditional(p: PrettyPrinter, t: Seq<NodeData>, ctx: Context, i: int) -> GDoc
    decreases t.len() - i, 12int, 0int, 0int,
{
    if !cv_ok(t, i) {
        GDoc::Nil
    } else {
        cv_cond_loop(
            p,
            t,
            ctx,
            i,
            spec_has_child_kind(t, i, SyntaxKind::Else),
            0,
            0,
            GDoc::Nil,
        )
    }
}

/// A while loop, child by child: the keyword, comments, the condition and
/// the body.
pub open spec fn cv_while_loop(
    p: PrettyPrinter,
    t: Seq<NodeData>,
    ctx: Context,
    i: int,
    k: int,
    state: int,
    acc: GDoc,
) -> GDoc
    decreases t.len() - i, 11int, cs_of(t, i).len() - k, 0int,
{
    if !cv_ok(t, i) || k < 0 || k >= cs_of(t, i).len() {
        acc
    } else {
        let c = cs_of(t, i)[k] as int;
        let kd = t[c].kind;
        if kd == SyntaxKind::While {
            cv_while_loop(
                p, t, ctx, i, k + 1, state, gcat(gcat(acc, gtext("while"@)), GDoc::Space),
            )
        } else if kd == SyntaxKind::BlockComment {
            cv_while_loop(p, t, ctx, i, k + 1, state, gcat(gcat(acc, gtrivia(t, c)), GDoc::Space))
        } else if kd == SyntaxKind::LineComment {
            cv_while_loop(
                p, t, ctx, i, k + 1, state, gcat(gcat(acc, gtrivia(t, c)), GDoc::Hardline),
            )
        } else if spec_is_expr_kind(kd) {
            let a1 = gcat(acc, cv_expr(p, t, ctx, c));
            if state == 0 {
                cv_while_loop(p, t, ctx, i, k + 1, 1, gcat(a1, GDoc::Space))
            } else {
                cv_while_loop(p, t, ctx, i, k + 1, state, a1)
            }
        } else {
            cv_while_loop(p, t, ctx, i, k + 1, state, acc)
        }
    }
}

/// A while loop.
pub open spec fn cv_while(p: PrettyPrinter, t: Seq<NodeData>, ctx: Context, i: int) -> GDoc
    decreases t.len() - i, 12int, 0int, 0int,
{
    if !cv_ok(t, i) {
        GDoc::Nil
    } else {
        cv_while_loop(p, t, ctx, i, 0, 0, GDoc::Nil)
    }
}

/// A for loop, child by child: keywords and comments in place, then the
/// pattern, the iterated expression, and the body.
pub open spec fn cv_for_loop(
    p: PrettyPrinter,
    t: Seq<NodeData>,
    ctx: Context,
    i: int,
    k: int,
    state: int,
    acc: GDoc,
) -> GDoc
    decreases t.len() - i, 11int, cs_of(t, i).len() - k, 0int,
{
    if !cv_ok(t, i) || k < 0 || k >= cs_of(t, i).len() {
        acc
    } else {
        let c = cs_of(t, i)[k] as int;
        let kd = t[c].kind;
        if kd == SyntaxKind::For {
            cv_for_loop(p, t, ctx, i, k + 1, state, gcat(gcat(acc, gtext("for"@)), GDoc::Space))
        } else if kd == SyntaxKind::In {
            cv_for_loop(p, t, ctx, i, k + 1, state, gcat(gcat(acc, gtext("in"@)), GDoc::Space))
        } else if kd == SyntaxKind::BlockComment {
            cv_for_loop(p, t, ctx, i, k + 1, state, gcat(gcat(acc, gtrivia(t, c)), GDoc::Space))
        } else if kd == SyntaxKind::LineComment {
            cv_for_loop(p, t, ctx, i, k + 1, state, gcat(gcat(acc, gtrivia(t, c)), GDoc::Hardline))
        } else if state == 0 && spec_is_pattern_kind(kd) {
            cv_for_loop(
                p, t, ctx, i, k + 1, 1, gcat(gcat(acc, cv_pattern(p, t, ctx, c)), GDoc::Space),
            )
        } else if state == 1 && spec_is_expr_kind(kd) {
            cv_for_loop(
                p, t, ctx, i, k + 1, 2, gcat(gcat(acc, cv_expr(p, t, ctx, c)), GDoc::Space),
            )
        } else if state == 2 && spec_is_expr_kind(kd) {
            cv_for_loop(p, t, ctx, i, k + 1, state, gcat(acc, cv_expr(p, t, ctx, c)))
        } else {
            cv_for_loop(p, t, ctx, i, k + 1, state, acc)
        }
    }
}

/// A for loop.
pub open spec fn cv_for(p: PrettyPrinter, t: Seq<NodeData>, ctx: Context, i: int) -> GDoc
    decreases t.len() - i, 12int, 0int, 0int,
{
    if !cv_ok(t, i) {
        GDoc::Nil
    } else {
        cv_for_loop(p, t, ctx, i, 0, 0, GDoc::Nil)
    }
}

/// One import item: verbatim, or renamed with the keyword between.
pub open spec fn cv_import_item(p: PrettyPrinter, t: Seq<NodeData>, ctx: Context, i: int) -> GDoc
    decreases t.len() - i, 16int, 0int, 0int,
{
    if !cv_ok(t, i) {
        GDoc::Nil
    } else if t[i].kind == SyntaxKind::RenamedImportItem {
        let cs = cs_of(t, i);
        let orig = if cs.len() > 0 {
            gtext(src_text(t, cs[0] as int))
        } else {
            GDoc::Nil
        };
        let newname = match sfind_back_kind(t, cs, SyntaxKind::Ident, cs.len() - 1) {
            Option::Some(m) => cv_ident(t, cs[m] as int),
            Option::None => GDoc::Nil,
        };
        gcat(gcat(gcat(gcat(orig, GDoc::Space), gtext("as"@)), GDoc::Space), newname)
    } else {
        gtext(src_text(t, i))
    }
}

/// The import items joined by commas, from child `k` on.
pub open spec fn cv_import_items_loop(
    p: PrettyPrinter,
    t: Seq<NodeData>,
    ctx: Context,
    i: int,
    k: int,
    started: bool,
    acc: GDoc,
) -> GDoc
    decreases t.len() - i, 11int, cs_of(t, i).len() - k, 0int,
{
    if !cv_ok(t, i) || k < 0 || k >= cs_of(t, i).len() {
        acc
    } else {
        let c = cs_of(t, i)[k] as int;
        let kd = t[c].kind;
        if kd == SyntaxKind::Ident || kd == SyntaxKind::ImportItemPath || kd
            == SyntaxKind::RenamedImportItem {
            let item = cv_import_item(p, t, ctx, c);
            let a2 = if started {
                gcat(gcat(acc, gsep_comma()), item)
            } else {
                item
            };
            cv_import_items_loop(p, t, ctx, i, k + 1, true, a2)
        } else {
            cv_import_items_loop(p, t, ctx, i, k + 1, started, acc)
        }
    }
}

/// A module import: the source, an optional new name, and an optional
/// import list or wildcard.
pub open spec fn cv_import(p: PrettyPrinter, t: Seq<NodeData>, ctx: Context, i: int) -> GDoc
    decreases t.len() - i, 12int, 0int, 0int,
{
    if !cv_ok(t, i) {
        GDoc::Nil
    } else {
        let cs = cs_of(t, i);
        let source = match sfind_expr(t, cs, 0) {
            Option::Some(b) => cv_expr(p, t, ctx, cs[b] as int),
            Option::None => GDoc::Nil,
        };
        let d0 = gcat(gcat(gtext("import"@), GDoc::Space), source);
        let d1 = match sfind_kind(t, cs, SyntaxKind::As, 0) {
            Option::Some(ap) => match sfind_kind(t, cs, SyntaxKind::Ident, ap) {
                Option::Some(m) => gcat(
                    gcat(gcat(gcat(d0, GDoc::Space), gtext("as"@)), GDoc::Space),
                    cv_ident(t, cs[m] as int),
                ),
                Option::None => d0,
            },
            Option::None => d0,
        };
        let star = sfind_kind(t, cs, SyntaxKind::Star, 0);
        let itemsn = sfind_kind(t, cs, SyntaxKind::ImportItems, 0);
        let imports = match (star, itemsn) {
            (Option::Some(sp), Option::Some(ip)) => if sp < ip {
                Option::Some(gtext("*"@))
            } else {
                Option::Some(cv_import_items_loop(p, t, ctx, cs[ip] as int, 0, false, GDoc::Nil))
            },
            (Option::Some(_sp), Option::None) => Option::Some(gtext("*"@)),
            (Option::None, Option::Some(ip)) => Option::Some(
                cv_import_items_loop(p, t, ctx, cs[ip] as int, 0, false, GDoc::Nil),
            ),
            (Option::None, Option::None) => Option::None,
        };
        match imports {
            Option::Some(im) => gcat(gcat(gcat(d1, gtext(":"@)), GDoc::Space), ggroup(im)),
            Option::None => d1,
        }
    }
}

/// A module include: the keyword and the source.
pub open spec fn cv_include(p: PrettyPrinter, t: Seq<NodeData>, ctx: Context, i: int) -> GDoc
    decreases t.len() - i, 12int, 0int, 0int,
{
    if !cv_ok(t, i) {
        GDoc::Nil
    } else {
        let source = match sfind_expr(t, cs_of(t, i), 0) {
            Option::Some(b) => cv_expr(p, t, ctx, cs_of(t, i)[b] as int),
            Option::None => GDoc::Nil,
        };
        gcat(gcat(gtext("include"@), GDoc::Space), source)
    }
}

/// A return: the keyword and an optional value.
pub open spec fn cv_return(p: PrettyPrinter, t: Seq<NodeData>, ctx: Context, i: int) -> GDoc
    decreases t.len() - i, 12int, 0int, 0int,
{
    if !cv_ok(t, i) {
        GDoc::Nil
    } else {
        let base = gcat(gtext("return"@), GDoc::Space);
        match sfind_expr(t, cs_of(t, i), 0) {
            Option::Some(b) => gcat(base, cv_expr(p, t, ctx, cs_of(t, i)[b] as int)),
            Option::None => base,
        }
    }
}

impl PrettyPrinter {
    /// Convert an identifier.
    pub fn convert_ident(&self, tree: &SyntaxTree, i: usize) -> (r: Doc)
        requires
            i < tree.nodes@.len(),
        ensures
            r@ == cv_ident(tree.nodes@, i as int),
    {
        Doc::str_text(tree.text(i))
    }

    /// Convert a placeholder pattern.
    pub fn convert_underscore(&self, tree: &SyntaxTree, i: usize) -> (r: Doc)
        requires
            i < tree.nodes@.len(),
        ensures
            r@ == gtext("_"@),
    {
        Doc::str_text("_")
    }

    /// The markup body of the first child of the given kind, or nothing.
    fn convert_markup_child(
        &self,
        tree: &SyntaxTree,
        ctx: Context,
        i: usize,
        k: SyntaxKind,
        from: usize,
    ) -> (r: Doc)
        requires
            tree.wf(),
            i < tree.nodes@.len(),
        ensures
            r@ == cv_markup_child(*self, tree.nodes@, ctx, i as int, k, from as int),
        decreases tree.nodes@.len() - i, 11int, 0int, 0int,
    {
        match tree.find_kind_from(i, k, from) {
            Option::Some(pos) => self.convert_markup(tree, ctx, tree.child(i, pos)),
            Option::None => Doc::nil(),
        }
    }

    /// Convert strong content.
    pub fn convert_strong(&self, tree: &SyntaxTree, ctx: Context, i: usize) -> (r: Doc)
        requires
            tree.wf(),
            i < tree.nodes@.len(),
        ensures
            r@ == cv_strong(*self, tree.nodes@, ctx, i as int),
        decreases tree.nodes@.len() - i, 12int, 0int, 0int,
    {
        let body = self.convert_markup_child(tree, ctx, i, SyntaxKind::Markup, 0);
        Doc::str_text("*").append(body).append(Doc::str_text("*"))
    }

    /// Convert emphasized content.
    pub fn convert_emph(&self, tree: &SyntaxTree, ctx: Context, i: usize) -> (r: Doc)
        requires
            tree.wf(),
            i < tree.nodes@.len(),
        ensures
            r@ == cv_emph(*self, tree.nodes@, ctx, i as int),
        decreases tree.nodes@.len() - i, 12int, 0int, 0int,
    {
        let body = self.convert_markup_child(tree, ctx, i, SyntaxKind::Markup, 0);
        Doc::str_text("_").append(body).append(Doc::str_text("_"))
    }

    /// Convert a reference.
    pub fn convert_ref(&self, tree: &SyntaxTree, ctx: Context, i: usize) -> (r: Doc)
        requires
            tree.wf(),
            i < tree.nodes@.len(),
        ensures
            r@ == cv_ref(*self, tree.nodes@, ctx, i as int),
        decreases tree.nodes@.len() - i, 12int, 0int, 0int,
    {
        let target = match tree.find_kind_from(i, SyntaxKind::RefMarker, 0) {
            Option::Some(m) => Doc::text(str_drop_leading(tree.text(tree.child(i, m)), '@')),
            Option::None => Doc::str_text(""),
        };
        let suppl = match tree.rfind_kind(i, SyntaxKind::ContentBlock) {
            Option::Some(s) => self.convert_content_block(tree, ctx, tree.child(i, s)),
            Option::None => Doc::nil(),
        };
        Doc::str_text("@").append(target).append(suppl)
    }

    /// Convert a heading.
    pub fn convert_heading(&self, tree: &SyntaxTree, ctx: Context, i: usize) -> (r: Doc)
        requires
            tree.wf(),
            i < tree.nodes@.len(),
        ensures
            r@ == cv_heading(*self, tree.nodes@, ctx, i as int),
        decreases tree.nodes@.len() - i, 12int, 0int, 0int,
    {
        let marker = match tree.find_kind_from(i, SyntaxKind::HeadingMarker, 0) {
            Option::Some(m) => Doc::str_text(tree.text(tree.child(i, m))),
            Option::None => Doc::str_text("="),
        };
        marker.append(Doc::space()).append(
            self.convert_markup_child(tree, ctx, i, SyntaxKind::Markup, 0),
        )
    }

    /// Convert a bullet list item.
    pub fn convert_list_item(&self, tree: &SyntaxTree, ctx: Context, i: usize) -> (r: Doc)
        requires
            tree.wf(),
            i < tree.nodes@.len(),
        ensures
            r@ == cv_list_item(*self, tree.nodes@, ctx, i as int),
        decreases tree.nodes@.len() - i, 12int, 0int, 0int,
    {
        let body = self.convert_markup_child(tree, ctx, i, SyntaxKind::Markup, 0);
        Doc::str_text("-").append(Doc::space()).append(body.nest(self.config.indent_width))
    }

    /// Convert an enumeration item.
    pub fn convert_enum_item(&self, tree: &SyntaxTree, ctx: Context, i: usize) -> (r: Doc)
        requires
            tree.wf(),
            i < tree.nodes@.len(),
        ensures
            r@ == cv_enum_item(*self, tree.nodes@, ctx, i as int),
        decreases tree.nodes@.len() - i, 12int, 0int, 0int,
    {
        let marker = match tree.find_kind_from(i, SyntaxKind::EnumMarker, 0) {
            Option::Some(m) => Doc::str_text(tree.text(tree.child(i, m))),
            Option::None => Doc::str_text("+"),
        };
        let body = self.convert_markup_child(tree, ctx, i, SyntaxKind::Markup, 0);
        marker.append(Doc::space()).append(body.nest(self.config.indent_width))
    }

    /// Convert a term item.
    pub fn convert_term_item(&self, tree: &SyntaxTree, ctx: Context, i: usize) -> (r: Doc)
        requires
            tree.wf(),
            i < tree.nodes@.len(),
        ensures
            r@ == cv_term_item(*self, tree.nodes@, ctx, i as int),
        decreases tree.nodes@.len() - i, 12int, 0int, 0int,
    {
        let term = self.convert_markup_child(tree, ctx, i, SyntaxKind::Markup, 0);
        let nn = tree.num_children(i);
        let desc = match tree.find_kind_from(i, SyntaxKind::Markup, 0) {
            Option::Some(m) => self.convert_markup_child(tree, ctx, i, SyntaxKind::Markup, m + 1),
            Option::None => Doc::nil(),
        };
        Doc::str_text("/").append(Doc::space()).append(term).append(Doc::str_text(":")).append(
            Doc::space(),
        ).append(desc.nest(self.config.indent_width))
    }

    /// Is the equation written in block form?
    fn equation_block(&self, tree: &SyntaxTree, i: usize) -> (b: bool)
        requires
            tree.wf(),
            i < tree.nodes@.len(),
        ensures
            b == spec_equation_block(tree.nodes@, i as int),
    {
        let n = tree.num_children(i);
        n >= 2 && tree.kind(tree.child(i, 1)) == SyntaxKind::Space && tree.kind(
            tree.child(i, n - 2),
        ) == SyntaxKind::Space
    }

    /// Convert an equation.
    pub fn convert_equation(&self, tree: &SyntaxTree, ctx: Context, i: usize) -> (r: Doc)
        requires
            tree.wf(),
            i < tree.nodes@.len(),
        ensures
            r@ == cv_equation(*self, tree.nodes@, ctx, i as int),
        decreases tree.nodes@.len() - i, 12int, 0int, 0int,
    {
        let block = self.equation_block(tree, i);
        let ctx2 = Context {
            mode: Mode::Math,
            align_mode: if block {
                AlignMode::Inner
            } else {
                AlignMode::Never
            },
        };
        let body = match tree.find_kind_from(i, SyntaxKind::Math, 0) {
            Option::Some(m) => self.convert_math(tree, ctx2, tree.child(i, m)),
            Option::None => Doc::nil(),
        };
        let mut d = Doc::str_text("$");
        if block {
            d = d.append(Doc::line());
        }
        d = d.append(body.nest(self.config.indent_width));
        if block {
            d = d.append(Doc::line());
        }
        d.append(Doc::str_text("$"))
    }

    /// Convert a contextual expression.
    pub fn convert_contextual(&self, tree: &SyntaxTree, ctx: Context, i: usize) -> (r: Doc)
        requires
            tree.wf(),
            i < tree.nodes@.len(),
        ensures
            r@ == cv_contextual(*self, tree.nodes@, ctx, i as int),
        decreases tree.nodes@.len() - i, 12int, 0int, 0int,
    {
        let body = match tree.find_expr_from(i, 0) {
            Option::Some(b) => self.convert_expr(tree, ctx, tree.child(i, b)),
            Option::None => Doc::nil(),
        };
        Doc::str_text("context").append(Doc::space()).append(body)
    }

    /// Convert a module include.
    pub fn convert_include(&self, tree: &SyntaxTree, ctx: Context, i: usize) -> (r: Doc)
        requires
            tree.wf(),
            i < tree.nodes@.len(),
        ensures
            r@ == cv_include(*self, tree.nodes@, ctx, i as int),
        decreases tree.nodes@.len() - i, 12int, 0int, 0int,
    {
        let source = match tree.find_expr_from(i, 0) {
            Option::Some(b) => self.convert_expr(tree, ctx, tree.child(i, b)),
            Option::None => Doc::nil(),
        };
        Doc::str_text("include").append(Doc::space()).append(source)
    }

    /// Convert a return.
    pub fn convert_return(&self, tree: &SyntaxTree, ctx: Context, i: usize) -> (r: Doc)
        requires
            tree.wf(),
            i < tree.nodes@.len(),
        ensures
            r@ == cv_return(*self, tree.nodes@, ctx, i as int),
        decreases tree.nodes@.len() - i, 12int, 0int, 0int,
    {
        let base = Doc::str_text("return").append(Doc::space());
        match tree.find_expr_from(i, 0) {
            Option::Some(b) => base.append(self.convert_expr(tree, ctx, tree.child(i, b))),
            Option::None => base,
        }
    }

    /// Convert a keyed pair.
    pub fn convert_keyed(&self, tree: &SyntaxTree, ctx: Context, i: usize) -> (r: Doc)
        requires
            tree.wf(),
            i < tree.nodes@.len(),
        ensures
            r@ == cv_keyed(*self, tree.nodes@, ctx, i as int),
        decreases tree.nodes@.len() - i, 12int, 0int, 0int,
    {
        let key = match tree.find_expr_from(i, 0) {
            Option::Some(b) => self.convert_expr(tree, ctx, tree.child(i, b)),
            Option::None => Doc::nil(),
        };
        let value = match tree.rfind_expr(i) {
            Option::Some(b) => self.convert_expr(tree, ctx, tree.child(i, b)),
            Option::None => Doc::nil(),
        };
        key.append(Doc::str_text(":")).append(Doc::space()).append(value)
    }

    /// Convert a named pair.
    pub fn convert_named(&self, tree: &SyntaxTree, ctx: Context, i: usize) -> (r: Doc)
        requires
            tree.wf(),
            i < tree.nodes@.len(),
        ensures
            r@ == cv_named(*self, tree.nodes@, ctx, i as int),
        decreases tree.nodes@.len() - i, 12int, 0int, 0int,
    {
        if self.attrs.disabled(i) {
            return self.format_disabled(tree, i);
        }
        let name = match tree.find_kind_from(i, SyntaxKind::Ident, 0) {
            Option::Some(m) => self.convert_ident(tree, tree.child(i, m)),
            Option::None => Doc::nil(),
        };
        let hash = if tree.has_child_kind(i, SyntaxKind::Hash) {
            Doc::str_text("#")
        } else {
            Doc::nil()
        };
        let value = match tree.rfind_expr(i) {
            Option::Some(b) => self.convert_expr(tree, ctx, tree.child(i, b)),
            Option::None => Doc::nil(),
        };
        name.append(Doc::str_text(":")).append(Doc::space()).append(hash).append(value)
    }

    /// Convert a spread.
    pub fn convert_spread(&self, tree: &SyntaxTree, ctx: Context, i: usize) -> (r: Doc)
        requires
            tree.wf(),
            i < tree.nodes@.len(),
        ensures
            r@ == cv_spread(*self, tree.nodes@, ctx, i as int),
        decreases tree.nodes@.len() - i, 12int, 0int, 0int,
    {
        let sink = match tree.find_kind_from(i, SyntaxKind::Ident, 0) {
            Option::Some(m) => self.convert_ident(tree, tree.child(i, m)),
            Option::None => match tree.find_expr_from(i, 0) {
                Option::Some(b) => self.convert_expr(tree, ctx, tree.child(i, b)),
                Option::None => Doc::nil(),
            },
        };
        Doc::str_text("..").append(sink)
    }

    /// Convert a unary operation.
    pub fn convert_unary(&self, tree: &SyntaxTree, ctx: Context, i: usize) -> (r: Doc)
        requires
            tree.wf(),
            i < tree.nodes@.len(),
        ensures
            r@ == cv_unary(*self, tree.nodes@, ctx, i as int),
        decreases tree.nodes@.len() - i, 12int, 0int, 0int,
    {
        let op = match tree.find_op_from(i, 0) {
            Option::Some(o) => {
                let c = tree.child(i, o);
                if tree.kind(c) == SyntaxKind::Not {
                    Doc::str_text("not ")
                } else {
                    Doc::str_text(tree.text(c))
                }
            },
            Option::None => Doc::str_text("+"),
        };
        let rhs = match tree.rfind_expr(i) {
            Option::Some(b) => self.convert_expr(tree, ctx, tree.child(i, b)),
            Option::None => Doc::nil(),
        };
        op.append(rhs)
    }

    /// The operator tokens' texts joined by single spaces.
    fn op_text(&self, tree: &SyntaxTree, i: usize) -> (r: String)
        requires
            tree.wf(),
            i < tree.nodes@.len(),
        ensures
            r@ == gop_text(
                tree.nodes@,
                tree.nodes@[i as int].children@,
                tree.nodes@[i as int].children@.len() as int,
            ),
    {
        let ghost t = tree.nodes@;
        let ghost cs = t[i as int].children@;
        let n = tree.num_children(i);
        let mut r = String::new();
        let mut k: usize = 0;
        while k < n
            invariant
                k <= n,
                tree.wf(),
                i < t.len(),
                t == tree.nodes@,
                cs == t[i as int].children@,
                n == cs.len(),
                r@ == gop_text(t, cs, k as int),
            decreases n - k,
        {
            let c = tree.child(i, k);
            if is_op_token(tree.kind(c)) {
                if r.as_str().unicode_len() > 0 {
                    r.append(" ");
                    r.append(tree.text(c));
                    proof {
                        reveal_strlit(" ");
                        assert(r@ =~= gop_text(t, cs, k + 1));
                    }
                } else {
                    r.append(tree.text(c));
                    proof {
                        assert(r@ =~= gop_text(t, cs, k + 1));
                    }
                }
            }
            k = k + 1;
        }
        r
    }

    /// Convert a binary operation.
    pub fn convert_binary(&self, tree: &SyntaxTree, ctx: Context, i: usize) -> (r: Doc)
        requires
            tree.wf(),
            i < tree.nodes@.len(),
        ensures
            r@ == cv_binary(*self, tree.nodes@, ctx, i as int),
        decreases tree.nodes@.len() - i, 12int, 0int, 0int,
    {
        let lhs = match tree.find_expr_from(i, 0) {
            Option::Some(b) => self.convert_expr(tree, ctx, tree.child(i, b)),
            Option::None => Doc::nil(),
        };
        let rhs = match tree.rfind_expr(i) {
            Option::Some(b) => self.convert_expr(tree, ctx, tree.child(i, b)),
            Option::None => Doc::nil(),
        };
        lhs.append(Doc::space()).append(Doc::text(self.op_text(tree, i))).append(
            Doc::space(),
        ).append(rhs)
    }

    /// Convert a field access.
    pub fn convert_field_access(&self, tree: &SyntaxTree, ctx: Context, i: usize) -> (r: Doc)
        requires
            tree.wf(),
            i < tree.nodes@.len(),
        ensures
            r@ == cv_field_access(*self, tree.nodes@, ctx, i as int),
        decreases tree.nodes@.len() - i, 12int, 0int, 0int,
    {
        let target = match tree.find_expr_from(i, 0) {
            Option::Some(b) => self.convert_expr(tree, ctx, tree.child(i, b)),
            Option::None => Doc::nil(),
        };
        let field = match tree.rfind_kind(i, SyntaxKind::Ident) {
            Option::Some(m) => self.convert_ident(tree, tree.child(i, m)),
            Option::None => Doc::nil(),
        };
        target.append(Doc::str_text(".").append(field))
    }

    /// Convert a fraction.
    pub fn convert_math_frac(&self, tree: &SyntaxTree, ctx: Context, i: usize) -> (r: Doc)
        requires
            tree.wf(),
            i < tree.nodes@.len(),
        ensures
            r@ == cv_math_frac(*self, tree.nodes@, ctx, i as int),
        decreases tree.nodes@.len() - i, 12int, 0int, 0int,
    {
        let num = match tree.find_expr_from(i, 0) {
            Option::Some(b) => self.convert_expr(tree, ctx, tree.child(i, b)),
            Option::None => Doc::nil(),
        };
        let den = match tree.rfind_expr(i) {
            Option::Some(b) => self.convert_expr(tree, ctx, tree.child(i, b)),
            Option::None => Doc::nil(),
        };
        num.append(Doc::space()).append(Doc::str_text("/")).append(Doc::space()).append(den)
    }

    /// Convert a root.
    pub fn convert_math_root(&self, tree: &SyntaxTree, ctx: Context, i: usize) -> (r: Doc)
        requires
            tree.wf(),
            i < tree.nodes@.len(),
        ensures
            r@ == cv_math_root(*self, tree.nodes@, ctx, i as int),
        decreases tree.nodes@.len() - i, 12int, 0int, 0int,
    {
        let n = tree.num_children(i);
        let mut sym = Doc::str_text("\u{221a}");
        if n > 0 {
            let c = tree.child(i, 0);
            let txt = tree.text(c);
            if txt.unicode_len() == 1 {
                let ch = txt.get_char(0);
                if ch == '\u{221a}' || ch == '\u{221b}' || ch == '\u{221c}' {
                    sym = Doc::str_text(txt);
                }
            }
        }
        let rad = match tree.find_expr_from(i, 0) {
            Option::Some(b) => self.convert_expr(tree, ctx, tree.child(i, b)),
            Option::None => Doc::nil(),
        };
        sym.append(rad)
    }

    /// Convert delimited math.
    pub fn convert_math_delimited(&self, tree: &SyntaxTree, ctx: Context, i: usize) -> (r: Doc)
        requires
            tree.wf(),
            i < tree.nodes@.len(),
        ensures
            r@ == cv_math_delimited(*self, tree.nodes@, ctx, i as int),
        decreases tree.nodes@.len() - i, 12int, 0int, 0int,
    {
        let n = tree.num_children(i);
        if n == 0 {
            return Doc::nil();
        }
        let open1 = self.convert_expr(tree, ctx, tree.child(i, 0));
        let open2 = self.convert_expr(tree, ctx, tree.child(i, 0));
        let close1 = self.convert_expr(tree, ctx, tree.child(i, n - 1));
        let close2 = self.convert_expr(tree, ctx, tree.child(i, n - 1));
        let body1 = match tree.find_kind_from(i, SyntaxKind::Math, 0) {
            Option::Some(m) => self.convert_math(tree, ctx, tree.child(i, m)),
            Option::None => Doc::nil(),
        };
        let body2 = match tree.find_kind_from(i, SyntaxKind::Math, 0) {
            Option::Some(m) => self.convert_math(tree, ctx, tree.child(i, m)),
            Option::None => Doc::nil(),
        };
        let single = open1.append(body1).append(close1);
        let multi = open2.append(Doc::hardline()).append(body2).append(Doc::hardline()).nest(
            self.config.indent_width,
        ).append(close2);
        multi.flat_alt(single)
    }

    /// Convert a parenthesized expression.
    pub fn convert_parenthesized(&self, tree: &SyntaxTree, ctx: Context, i: usize) -> (r: Doc)
        requires
            tree.wf(),
            i < tree.nodes@.len(),
        ensures
            r@ == cv_parenthesized(*self, tree.nodes@, ctx, i as int),
        decreases tree.nodes@.len() - i, 12int, 0int, 0int,
    {
        let inner1 = match tree.find_expr_from(i, 0) {
            Option::Some(b) => self.convert_expr(tree, ctx, tree.child(i, b)),
            Option::None => Doc::nil(),
        };
        let inner2 = match tree.find_expr_from(i, 0) {
            Option::Some(b) => self.convert_expr(tree, ctx, tree.child(i, b)),
            Option::None => Doc::nil(),
        };
        let multi = Doc::line().append(inner1).append(Doc::line()).nest(
            self.config.indent_width,
        ).group();
        Doc::str_text("(").append(multi.flat_alt(inner2)).append(Doc::str_text(")"))
    }

    /// Convert a content block.
    pub fn convert_content_block(&self, tree: &SyntaxTree, ctx: Context, i: usize) -> (r: Doc)
        requires
            tree.wf(),
            i < tree.nodes@.len(),
        ensures
            r@ == cv_content_block(*self, tree.nodes@, ctx, i as int),
        decreases tree.nodes@.len() - i, 12int, 0int, 0int,
    {
        let ctx2 = Context { mode: Mode::Markup, ..ctx };
        let content = self.convert_markup_child(tree, ctx2, i, SyntaxKind::Markup, 0).group().nest(
            self.config.indent_width,
        );
        Doc::str_text("[").append(content).append(Doc::str_text("]"))
    }

    /// Convert one array item.
    pub fn convert_array_item(&self, tree: &SyntaxTree, ctx: Context, i: usize) -> (r: Doc)
        requires
            tree.wf(),
            i < tree.nodes@.len(),
        ensures
            r@ == cv_array_item(*self, tree.nodes@, ctx, i as int),
        decreases tree.nodes@.len() - i, 16int, 0int, 0int,
    {
        if tree.kind(i) == SyntaxKind::Spread {
            self.convert_spread(tree, ctx, i)
        } else {
            self.convert_expr(tree, ctx, i)
        }
    }

    /// Convert one dictionary item.
    pub fn convert_dict_item(&self, tree: &SyntaxTree, ctx: Context, i: usize) -> (r: Doc)
        requires
            tree.wf(),
            i < tree.nodes@.len(),
        ensures
            r@ == cv_dict_item(*self, tree.nodes@, ctx, i as int),
        decreases tree.nodes@.len() - i, 16int, 0int, 0int,
    {
        if tree.kind(i) == SyntaxKind::Named {
            self.convert_named(tree, ctx, i)
        } else if tree.kind(i) == SyntaxKind::Keyed {
            self.convert_keyed(tree, ctx, i)
        } else {
            self.convert_spread(tree, ctx, i)
        }
    }

    /// Convert one call argument.
    pub fn convert_arg(&self, tree: &SyntaxTree, ctx: Context, i: usize) -> (r: Doc)
        requires
            tree.wf(),
            i < tree.nodes@.len(),
        ensures
            r@ == cv_arg(*self, tree.nodes@, ctx, i as int),
        decreases tree.nodes@.len() - i, 16int, 0int, 0int,
    {
        if tree.kind(i) == SyntaxKind::Named {
            self.convert_named(tree, ctx, i)
        } else if tree.kind(i) == SyntaxKind::Spread {
            self.convert_spread(tree, ctx, i)
        } else {
            self.convert_expr(tree, ctx, i)
        }
    }

    /// Convert a binding pattern.
    pub fn convert_pattern(&self, tree: &SyntaxTree, ctx: Context, i: usize) -> (r: Doc)
        requires
            tree.wf(),
            i < tree.nodes@.len(),
        ensures
            r@ == cv_pattern(*self, tree.nodes@, ctx, i as int),
        decreases tree.nodes@.len() - i, 16int, 0int, 0int,
    {
        if tree.kind(i) == SyntaxKind::Underscore {
            self.convert_underscore(tree, i)
        } else if tree.kind(i) == SyntaxKind::Destructuring {
            self.convert_destructuring(tree, ctx, i)
        } else if tree.kind(i) == SyntaxKind::Parenthesized {
            self.convert_parenthesized(tree, ctx, i)
        } else {
            self.convert_expr(tree, ctx, i)
        }
    }

    /// Convert one parameter.
    pub fn convert_param(&self, tree: &SyntaxTree, ctx: Context, i: usize) -> (r: Doc)
        requires
            tree.wf(),
            i < tree.nodes@.len(),
        ensures
            r@ == cv_param(*self, tree.nodes@, ctx, i as int),
        decreases tree.nodes@.len() - i, 18int, 0int, 0int,
    {
        if tree.kind(i) == SyntaxKind::Named {
            self.convert_named(tree, ctx, i)
        } else if tree.kind(i) == SyntaxKind::Spread {
            self.convert_spread(tree, ctx, i)
        } else {
            self.convert_pattern(tree, ctx, i)
        }
    }

    /// Convert one destructuring item.
    pub fn convert_destructuring_item(&self, tree: &SyntaxTree, ctx: Context, i: usize) -> (r: Doc)
        requires
            tree.wf(),
            i < tree.nodes@.len(),
        ensures
            r@ == cv_destructuring_item(*self, tree.nodes@, ctx, i as int),
        decreases tree.nodes@.len() - i, 18int, 0int, 0int,
    {
        if tree.kind(i) == SyntaxKind::Spread {
            self.convert_spread(tree, ctx, i)
        } else if tree.kind(i) == SyntaxKind::Named {
            self.convert_named(tree, ctx, i)
        } else {
            self.convert_pattern(tree, ctx, i)
        }
    }

    /// Convert one import item.
    pub fn convert_import_item(&self, tree: &SyntaxTree, ctx: Context, i: usize) -> (r: Doc)
        requires
            tree.wf(),
            i < tree.nodes@.len(),
        ensures
            r@ == cv_import_item(*self, tree.nodes@, ctx, i as int),
        decreases tree.nodes@.len() - i, 16int, 0int, 0int,
    {
        if tree.kind(i) == SyntaxKind::RenamedImportItem {
            let orig = if tree.num_children(i) > 0 {
                Doc::text(tree.source_text(tree.child(i, 0)))
            } else {
                Doc::nil()
            };
            let newname = match tree.rfind_kind(i, SyntaxKind::Ident) {
                Option::Some(m) => self.convert_ident(tree, tree.child(i, m)),
                Option::None => Doc::nil(),
            };
            orig.append(Doc::space()).append(Doc::str_text("as")).append(Doc::space()).append(
                newname,
            )
        } else {
            Doc::text(tree.source_text(i))
        }
    }

    /// Convert an expression: dispatch on the construct's kind, the result
    /// wrapped in its own group so sibling layout decisions compose.
    #[verifier::rlimit(100)]
    pub fn convert_expr(&self, tree: &SyntaxTree, ctx: Context, i: usize) -> (r: Doc)
        requires
            tree.wf(),
            i < tree.nodes@.len(),
        ensures
            r@ == cv_expr(*self, tree.nodes@, ctx, i as int),
        decreases tree.nodes@.len() - i, 14int, 0int, 0int,
    {
        if let Option::Some(res) = self.check_disabled(tree, i) {
            return res;
        }
        let inner = match tree.kind(i) {
            SyntaxKind::Text => if self.config.wrap_text && ctx.mode == Mode::Markup {
                self.convert_text_wrapped(tree, i)
            } else {
                self.convert_text(tree, i)
            },
            SyntaxKind::Space => self.convert_space_untyped(tree, ctx, i),
            SyntaxKind::Linebreak => trivia(tree, i),
            SyntaxKind::Parbreak => self.convert_parbreak(tree, i),
            SyntaxKind::Escape => trivia(tree, i),
            SyntaxKind::Shorthand => trivia(tree, i),
            SyntaxKind::SmartQuote => trivia(tree, i),
            SyntaxKind::Strong => self.convert_strong(tree, ctx, i),
            SyntaxKind::Emph => self.convert_emph(tree, ctx, i),
            SyntaxKind::Raw => self.convert_raw(tree, ctx, i),
            SyntaxKind::Link => trivia(tree, i),
            SyntaxKind::Label => trivia(tree, i),
            SyntaxKind::Ref => self.convert_ref(tree, ctx, i),
            SyntaxKind::Heading => self.convert_heading(tree, ctx, i),
            SyntaxKind::ListItem => self.convert_list_item(tree, ctx, i),
            SyntaxKind::EnumItem => self.convert_enum_item(tree, ctx, i),
            SyntaxKind::TermItem => self.convert_term_item(tree, ctx, i),
            SyntaxKind::Equation => self.convert_equation(tree, ctx, i),
            SyntaxKind::Math => self.convert_math(tree, ctx, i),
            SyntaxKind::MathText => trivia(tree, i),
            SyntaxKind::MathIdent => trivia(tree, i),
            SyntaxKind::MathShorthand => trivia(tree, i),
            SyntaxKind::MathAlignPoint => trivia(tree, i),
            SyntaxKind::MathDelimited => self.convert_math_delimited(tree, ctx, i),
            SyntaxKind::MathAttach => self.convert_math_attach(tree, ctx, i),
            SyntaxKind::MathPrimes => trivia(tree, i),
            SyntaxKind::MathFrac => self.convert_math_frac(tree, ctx, i),
            SyntaxKind::MathRoot => self.convert_math_root(tree, ctx, i),
            SyntaxKind::Ident => self.convert_ident(tree, i),
            SyntaxKind::NoneLit => Doc::str_text("none"),
            SyntaxKind::Auto => Doc::str_text("auto"),
            SyntaxKind::BoolLit => trivia(tree, i),
            SyntaxKind::IntLit => trivia(tree, i),
            SyntaxKind::FloatLit => trivia(tree, i),
            SyntaxKind::Numeric => trivia(tree, i),
            SyntaxKind::StrLit => trivia(tree, i),
            SyntaxKind::CodeBlock => self.convert_code_block(tree, ctx, i),
            SyntaxKind::ContentBlock => self.convert_content_block(tree, ctx, i),
            SyntaxKind::Parenthesized => self.convert_parenthesized(tree, ctx, i),
            SyntaxKind::Array => self.convert_array(tree, ctx, i),
            SyntaxKind::Dict => self.convert_dict(tree, ctx, i),
            SyntaxKind::Unary => self.convert_unary(tree, ctx, i),
            SyntaxKind::Binary => self.convert_binary(tree, ctx, i),
            SyntaxKind::FieldAccess => self.convert_field_access(tree, ctx, i),
            SyntaxKind::FuncCall => self.convert_func_call(tree, ctx, i),
            SyntaxKind::Closure => self.convert_closure(tree, ctx, i),
            SyntaxKind::LetBinding => self.convert_let_binding(tree, ctx, i),
            SyntaxKind::DestructAssignment => self.convert_destruct_assignment(tree, ctx, i),
            SyntaxKind::SetRule => self.convert_set_rule(tree, ctx, i),
            SyntaxKind::ShowRule => self.convert_show_rule(tree, ctx, i),
            SyntaxKind::Contextual => self.convert_contextual(tree, ctx, i),
            SyntaxKind::Conditional => self.convert_conditional(tree, ctx, i),
            SyntaxKind::WhileLoop => self.convert_while(tree, ctx, i),
            SyntaxKind::ForLoop => self.convert_for(tree, ctx, i),
            SyntaxKind::ModuleImport => self.convert_import(tree, ctx, i),
            SyntaxKind::ModuleInclude => self.convert_include(tree, ctx, i),
            SyntaxKind::LoopBreak => Doc::str_text("break"),
            SyntaxKind::LoopContinue => Doc::str_text("continue"),
            SyntaxKind::FuncReturn => self.convert_return(tree, ctx, i),
            SyntaxKind::Underscore => Doc::str_text("_"),
            _ => self.format_disabled(tree, i),
        };
        inner.group()
    }

    /// Does this markup child end its line?
    fn mk_break_exec(&self, tree: &SyntaxTree, c: usize) -> (b: bool)
        requires
            tree.wf(),
            c < tree.nodes@.len(),
        ensures
            b == mk_break_at(tree.nodes@, c as int),
    {
        let k = tree.kind(c);
        if k == SyntaxKind::Space || k == SyntaxKind::Parbreak {
            tree.text_has_nl(c)
        } else if is_stmt(k) {
            true
        } else if k == SyntaxKind::CodeBlock {
            true
        } else if k == SyntaxKind::Equation {
            self.equation_block(tree, c)
        } else if k == SyntaxKind::Raw {
            self.raw_block(tree, c)
        } else {
            false
        }
    }

    /// Does this markup child make its line a text line?
    fn mk_text_exec(&self, tree: &SyntaxTree, c: usize) -> (b: bool)
        requires
            tree.wf(),
            c < tree.nodes@.len(),
        ensures
            b == mk_text_at(tree.nodes@, c as int),
    {
        let k = tree.kind(c);
        if k == SyntaxKind::Text || k == SyntaxKind::Strong || k == SyntaxKind::Emph {
            true
        } else if k == SyntaxKind::Raw {
            !self.raw_block(tree, c)
        } else {
            false
        }
    }

    /// The verbatim flag of every markup child: whether the line a child
    /// belongs to holds prose text.
    fn markup_flags(&self, tree: &SyntaxTree, i: usize) -> (r: Vec<bool>)
        requires
            tree.wf(),
            i < tree.nodes@.len(),
        ensures
            r@ == spec_markup_flags(tree.nodes@, i as int),
    {
        let ghost t = tree.nodes@;
        let ghost cs = t[i as int].children@;
        let n = tree.num_children(i);
        let mut lsv: Vec<usize> = Vec::new();
        let mut k: usize = 0;
        while k < n
            invariant
                k <= n,
                tree.wf(),
                i < t.len(),
                t == tree.nodes@,
                cs == t[i as int].children@,
                n == cs.len(),
                lsv@.len() == k,
                forall|q: int| 0 <= q < k ==> #[trigger] lsv@[q] as int == mk_ls(t, cs, q),
            decreases n - k,
        {
            let v: usize = if k == 0 {
                0
            } else if self.mk_break_exec(tree, tree.child(i, k - 1)) {
                k
            } else {
                lsv[k - 1]
            };
            lsv.push(v);
            k = k + 1;
        }
        let mut flags: Vec<bool> = Vec::new();
        let mut k2: usize = 0;
        while k2 < n
            invariant
                k2 <= n,
                tree.wf(),
                i < t.len(),
                t == tree.nodes@,
                cs == t[i as int].children@,
                n == cs.len(),
                lsv@.len() == n,
                forall|q: int| 0 <= q < n ==> #[trigger] lsv@[q] as int == mk_ls(t, cs, q),
                flags@.len() == k2,
                forall|q: int| 0 <= q < k2 ==> #[trigger] flags@[q] == mk_flag(t, cs, q),
            decreases n - k2,
        {
            let mut found = false;
            let mut j: usize = 0;
            while j < n
                invariant
                    j <= n,
                    k2 < n,
                    tree.wf(),
                    i < t.len(),
                    t == tree.nodes@,
                    cs == t[i as int].children@,
                    n == cs.len(),
                    lsv@.len() == n,
                    forall|q: int| 0 <= q < n ==> #[trigger] lsv@[q] as int == mk_ls(t, cs, q),
                    !found ==> forall|q: int|
                        0 <= q < j ==> !(mk_ls(t, cs, q) == mk_ls(t, cs, k2 as int) && 0 <= cs[q]
                            < t.len() && mk_text_at(t, (#[trigger] cs[q]) as int)),
                    found ==> mk_flag(t, cs, k2 as int),
                decreases n - j,
            {
                if lsv[j] == lsv[k2] {
                    let c = tree.child(i, j);
                    if self.mk_text_exec(tree, c) {
                        proof {
                            assert(mk_ls(t, cs, j as int) == mk_ls(t, cs, k2 as int) && 0 <= cs[
                                j as int] < t.len() && mk_text_at(t, cs[j as int] as int));
                        }
                        found = true;
                    }
                }
                j = j + 1;
            }
            flags.push(found);
            k2 = k2 + 1;
        }
        proof {
            assert(flags@ =~= spec_markup_flags(t, i as int));
        }
        flags
    }

    /// Convert markup: the children in order, with every prose-text line
    /// kept verbatim.
    pub fn convert_markup(&self, tree: &SyntaxTree, ctx: Context, i: usize) -> (r: Doc)
        requires
            tree.wf(),
            i < tree.nodes@.len(),
        ensures
            r@ == cv_markup(*self, tree.nodes@, ctx, i as int),
        decreases tree.nodes@.len() - i, 12int, 0int, 0int,
    {
        let ghost t = tree.nodes@;
        let ghost cs = t[i as int].children@;
        let flags = self.markup_flags(tree, i);
        let ghost gflags = spec_markup_flags(t, i as int);
        let n = tree.num_children(i);
        let mut d = Doc::nil();
        let mut k: usize = 0;
        while k < n
            invariant
                k <= n,
                tree.wf(),
                i < t.len(),
                t == tree.nodes@,
                cs == t[i as int].children@,
                n == cs.len(),
                flags@ == gflags,
                flags@.len() == n,
                cv_markup_body(*self, t, ctx, i as int, gflags, k as int, d@) == cv_markup_body(
                    *self,
                    t,
                    ctx,
                    i as int,
                    gflags,
                    0,
                    GDoc::Nil,
                ),
            decreases n - k,
        {
            let c = tree.child(i, k);
            let kd = tree.kind(c);
            let piece = if kd == SyntaxKind::Space {
                self.convert_space_untyped(tree, ctx, c)
            } else if kd == SyntaxKind::Parbreak {
                self.convert_parbreak(tree, c)
            } else if flags[k] {
                self.format_disabled(tree, c)
            } else if is_expr_kind(kd) {
                self.convert_expr(tree, ctx, c)
            } else {
                trivia(tree, c)
            };
            d = d.append(piece);
            k = k + 1;
        }
        d
    }

    /// Convert an array.
    pub fn convert_array(&self, tree: &SyntaxTree, ctx: Context, i: usize) -> (r: Doc)
        requires
            tree.wf(),
            i < tree.nodes@.len(),
        ensures
            r@ == cv_array(*self, tree.nodes@, ctx, i as int),
        decreases tree.nodes@.len() - i, 12int, 0int, 0int,
    {
        let ghost t = tree.nodes@;
        let ghost cs = t[i as int].children@;
        let n = tree.num_children(i);
        let mut items: Vec<Doc> = Vec::new();
        proof {
            assert(items@.map_values(|d: Doc| d@) =~= Seq::<GDoc>::empty());
        }
        let mut k: usize = 0;
        while k < n
            invariant
                k <= n,
                tree.wf(),
                i < t.len(),
                t == tree.nodes@,
                cs == t[i as int].children@,
                n == cs.len(),
                cv_array_items(*self, t, ctx, i as int, k as int, items@.map_values(|d: Doc| d@))
                    == cv_array_items(*self, t, ctx, i as int, 0, Seq::empty()),
            decreases n - k,
        {
            let c = tree.child(i, k);
            let kd = tree.kind(c);
            if is_expr_kind(kd) || kd == SyntaxKind::Spread {
                let ghost before = items@.map_values(|d: Doc| d@);
                let item = self.convert_array_item(tree, ctx, c);
                let ghost gitem = item@;
                items.push(item);
                proof {
                    assert(items@.map_values(|d: Doc| d@) =~= before.push(gitem));
                }
            }
            k = k + 1;
        }
        let ghost gitems = items@.map_values(|d: Doc| d@);
        if items.len() == 1 {
            let item1 = self.convert_array_item_at(tree, ctx, i, &items, 0);
            let item2 = items[0].clone_doc();
            let single = Doc::str_text("(").append(item2).append(Doc::str_text(",")).append(
                Doc::str_text(")"),
            );
            let multi = Doc::str_text("(").append(
                Doc::hardline().append(item1).append(Doc::str_text(",")).nest(
                    self.config.indent_width,
                ),
            ).append(Doc::hardline()).append(Doc::str_text(")")).group();
            multi.flat_alt(single)
        } else {
            pretty_items(
                &items,
                &Doc::str_text(",").append(Doc::space()),
                &Doc::str_text(","),
                &Doc::str_text("("),
                &Doc::str_text(")"),
                false,
                self.attrs.fold_preference(i),
                self.config.indent_width,
            )
        }
    }

    /// A copy of one already-converted item document.
    fn convert_array_item_at(
        &self,
        tree: &SyntaxTree,
        ctx: Context,
        i: usize,
        items: &Vec<Doc>,
        k: usize,
    ) -> (r: Doc)
        requires
            k < items@.len(),
        ensures
            r@ == items@.map_values(|d: Doc| d@)[k as int],
    {
        items[k].clone_doc()
    }

    /// Convert a dictionary.
    pub fn convert_dict(&self, tree: &SyntaxTree, ctx: Context, i: usize) -> (r: Doc)
        requires
            tree.wf(),
            i < tree.nodes@.len(),
        ensures
            r@ == cv_dict(*self, tree.nodes@, ctx, i as int),
            cv_dict_items(*self, tree.nodes@, ctx, i as int, 0, Seq::empty()).len() == 0 ==> r@
                == gtext("(:)"@),
        decreases tree.nodes@.len() - i, 12int, 0int, 0int,
    {
        let ghost t = tree.nodes@;
        let ghost cs = t[i as int].children@;
        let n = tree.num_children(i);
        let mut items: Vec<Doc> = Vec::new();
        proof {
            assert(items@.map_values(|d: Doc| d@) =~= Seq::<GDoc>::empty());
        }
        let mut k: usize = 0;
        while k < n
            invariant
                k <= n,
                tree.wf(),
                i < t.len(),
                t == tree.nodes@,
                cs == t[i as int].children@,
                n == cs.len(),
                cv_dict_items(*self, t, ctx, i as int, k as int, items@.map_values(|d: Doc| d@))
                    == cv_dict_items(*self, t, ctx, i as int, 0, Seq::empty()),
            decreases n - k,
        {
            let c = tree.child(i, k);
            let kd = tree.kind(c);
            if kd == SyntaxKind::Named || kd == SyntaxKind::Keyed || kd == SyntaxKind::Spread {
                let ghost before = items@.map_values(|d: Doc| d@);
                let item = self.convert_dict_item(tree, ctx, c);
                let ghost gitem = item@;
                items.push(item);
                proof {
                    assert(items@.map_values(|d: Doc| d@) =~= before.push(gitem));
                }
            }
            k = k + 1;
        }
        if items.len() == 0 {
            Doc::str_text("(:)")
        } else {
            pretty_items(
                &items,
                &Doc::str_text(",").append(Doc::space()),
                &Doc::str_text(","),
                &Doc::str_text("("),
                &Doc::str_text(")"),
                false,
                self.attrs.fold_preference(i),
                self.config.indent_width,
            )
        }
    }

    /// Does the raw node carry a language tag?
    fn raw_has_lang(&self, tree: &SyntaxTree, i: usize) -> (b: bool)
        requires
            tree.wf(),
            i < tree.nodes@.len(),
        ensures
            b == spec_raw_has_lang(tree.nodes@, i as int),
    {
        match tree.find_kind_from(i, SyntaxKind::RawDelim, 0) {
            Option::Some(d) => tree.text(tree.child(i, d)).unicode_len() >= 3
                && tree.has_child_kind(i, SyntaxKind::RawLang),
            Option::None => false,
        }
    }

    /// Is the raw node a block?
    fn raw_block(&self, tree: &SyntaxTree, i: usize) -> (b: bool)
        requires
            tree.wf(),
            i < tree.nodes@.len(),
        ensures
            b == spec_raw_block(tree.nodes@, i as int),
    {
        let ghost t = tree.nodes@;
        let ghost cs = t[i as int].children@;
        match tree.find_kind_from(i, SyntaxKind::RawDelim, 0) {
            Option::None => false,
            Option::Some(d) => {
                if tree.text(tree.child(i, d)).unicode_len() < 3 {
                    return false;
                }
                let n = tree.num_children(i);
                let mut j: usize = 0;
                while j < n
                    invariant
                        j <= n,
                        tree.wf(),
                        i < t.len(),
                        t == tree.nodes@,
                        cs == t[i as int].children@,
                        n == cs.len(),
                        sfind_kind(t, cs, SyntaxKind::RawDelim, 0) == Option::Some(d as int),
                        d < cs.len(),
                        0 <= cs[d as int] < t.len(),
                        t[cs[d as int] as int].text@.len() >= 3,
                        forall|q: int|
                            0 <= q < j ==> !(0 <= cs[q] < t.len() && (#[trigger] t[cs[
                            q] as int]).kind == SyntaxKind::RawTrimmed && has_nl(
                                t[cs[q] as int].text@,
                            )),
                    decreases n - j,
                {
                    let c = tree.child(i, j);
                    if tree.kind(c) == SyntaxKind::RawTrimmed && tree.text_has_nl(c) {
                        proof {
                            assert(0 <= cs[j as int] < t.len() && t[cs[j as int] as int].kind
                                == SyntaxKind::RawTrimmed && has_nl(t[cs[j as int] as int].text@));
                            assert(exists|q: int|
                                0 <= q < cs.len() && 0 <= cs[q] < t.len() && (#[trigger] t[cs[
                                q] as int]).kind == SyntaxKind::RawTrimmed && has_nl(
                                    t[cs[q] as int].text@,
                                ));
                            assert(spec_raw_block(t, i as int));
                        }
                        return true;
                    }
                    j = j + 1;
                }
                false
            },
        }
    }

    /// Convert raw text.
    #[verifier::rlimit(60)]
    pub fn convert_raw(&self, tree: &SyntaxTree, ctx: Context, i: usize) -> (r: Doc)
        requires
            tree.wf(),
            i < tree.nodes@.len(),
        ensures
            r@ == cv_raw(*self, tree.nodes@, ctx, i as int),
        decreases tree.nodes@.len() - i, 12int, 0int, 0int,
    {
        let ghost t = tree.nodes@;
        let ghost cs = t[i as int].children@;
        let is_block = self.raw_block(tree, i);
        let has_lang = self.raw_has_lang(tree, i);
        let n = tree.num_children(i);
        let mut d = Doc::nil();
        let mut opening = true;
        let mut first_text = true;
        let mut last_text: Option<usize> = Option::None;
        let ghost mut glast: Option<int> = Option::None;
        let mut k: usize = 0;
        while k < n
            invariant
                k <= n,
                tree.wf(),
                i < t.len(),
                t == tree.nodes@,
                cs == t[i as int].children@,
                n == cs.len(),
                is_block == spec_raw_block(t, i as int),
                has_lang == spec_raw_has_lang(t, i as int),
                glast == (match last_text {
                    Option::Some(c) => Option::Some(c as int),
                    Option::None => Option::<int>::None,
                }),
                (last_text matches Option::Some(c) ==> c < t.len()),
                cv_raw_loop(
                    *self,
                    t,
                    i as int,
                    is_block,
                    has_lang,
                    k as int,
                    opening,
                    first_text,
                    glast,
                    d@,
                ) == cv_raw_loop(
                    *self,
                    t,
                    i as int,
                    is_block,
                    has_lang,
                    0,
                    true,
                    true,
                    Option::<int>::None,
                    GDoc::Nil,
                ),
            decreases n - k,
        {
            let c = tree.child(i, k);
            let kd = tree.kind(c);
            if kd == SyntaxKind::RawDelim {
                if !is_block && !opening {
                    if let Option::Some(lt) = last_text {
                        if ends_with_char(tree.text(lt), '`') {
                            d = d.append(Doc::space());
                        }
                    }
                }
                d = d.append(trivia(tree, c));
                if is_block && !has_lang && opening {
                    d = d.append(Doc::hardline());
                }
                opening = false;
            } else if kd == SyntaxKind::RawLang {
                d = d.append(trivia(tree, c));
                if is_block {
                    d = d.append(Doc::hardline());
                } else {
                    d = d.append(Doc::space());
                }
            } else if kd == SyntaxKind::Text {
                if first_text && !is_block && !has_lang && starts_with_char(tree.text(c), '`') {
                    d = d.append(Doc::space());
                }
                first_text = false;
                last_text = Option::Some(c);
                proof {
                    glast = Option::Some(c as int);
                }
                d = d.append(trivia(tree, c));
                if is_block {
                    d = d.append(Doc::hardline());
                }
            }
            k = k + 1;
        }
        d
    }

    /// The items of a code body, appended to `items`.
    fn convert_code(&self, tree: &SyntaxTree, ctx: Context, i: usize, items: &mut Vec<Doc>)
        requires
            tree.wf(),
            i < tree.nodes@.len(),
        ensures
            final(items)@.map_values(|d: Doc| d@) == cv_code_items(
                *self,
                tree.nodes@,
                ctx,
                i as int,
                0,
                old(items)@.map_values(|d: Doc| d@),
            ),
        decreases tree.nodes@.len() - i, 12int, 0int, 0int,
    {
        let ghost t = tree.nodes@;
        let ghost cs = t[i as int].children@;
        let n = tree.num_children(i);
        let mut k: usize = 0;
        while k < n
            invariant
                k <= n,
                tree.wf(),
                i < t.len(),
                t == tree.nodes@,
                cs == t[i as int].children@,
                n == cs.len(),
                cv_code_items(*self, t, ctx, i as int, k as int, items@.map_values(|d: Doc| d@))
                    == cv_code_items(
                    *self,
                    t,
                    ctx,
                    i as int,
                    0,
                    old(items)@.map_values(|d: Doc| d@),
                ),
            decreases n - k,
        {
            let c = tree.child(i, k);
            let kd = tree.kind(c);
            if is_expr_kind(kd) {
                let ghost before = items@.map_values(|d: Doc| d@);
                let item = self.convert_expr(tree, ctx, c);
                let ghost gitem = item@;
                items.push(item);
                proof {
                    assert(items@.map_values(|d: Doc| d@) =~= before.push(gitem));
                }
            } else if is_comment(kd) {
                let ghost before = items@.map_values(|d: Doc| d@);
                let item = to_doc(tree.text(c), true);
                let ghost gitem = item@;
                items.push(item);
                proof {
                    assert(items@.map_values(|d: Doc| d@) =~= before.push(gitem));
                }
            } else if kd == SyntaxKind::Space {
                let m = str_count_nl(tree.text(c));
                let blanks = if m >= 1 {
                    m - 1
                } else {
                    0
                };
                let ghost before = items@.map_values(|d: Doc| d@);
                let mut b: usize = 0;
                while b < blanks
                    invariant
                        b <= blanks,
                        items@.map_values(|d: Doc| d@) =~= before + gnils(b as nat),
                    decreases blanks - b,
                {
                    let ghost mid = items@.map_values(|d: Doc| d@);
                    items.push(Doc::nil());
                    proof {
                        assert(items@.map_values(|d: Doc| d@) =~= mid.push(GDoc::Nil));
                        assert(gnils((b + 1) as nat) =~= gnils(b as nat).push(GDoc::Nil));
                        assert(items@.map_values(|d: Doc| d@) =~= before + gnils((b + 1) as nat));
                    }
                    b = b + 1;
                }
                proof {
                    assert(items@.map_values(|d: Doc| d@) =~= before + gnils(
                        if count_nl(t[c as int].text@) >= 1 {
                            (count_nl(t[c as int].text@) - 1) as nat
                        } else {
                            0nat
                        },
                    ));
                }
            }
            k = k + 1;
        }
    }

    /// Convert a code block.
    pub fn convert_code_block(&self, tree: &SyntaxTree, ctx: Context, i: usize) -> (r: Doc)
        requires
            tree.wf(),
            i < tree.nodes@.len(),
        ensures
            r@ == cv_code_block(*self, tree.nodes@, ctx, i as int),
        decreases tree.nodes@.len() - i, 13int, 0int, 0int,
    {
        let ghost t = tree.nodes@;
        let ghost cs = t[i as int].children@;
        let ctx2 = Context { mode: Mode::Code, ..ctx };
        let n = tree.num_children(i);
        let mut items: Vec<Doc> = Vec::new();
        proof {
            assert(items@.map_values(|d: Doc| d@) =~= Seq::<GDoc>::empty());
        }
        let mut k: usize = 0;
        while k < n
            invariant
                k <= n,
                tree.wf(),
                i < t.len(),
                t == tree.nodes@,
                cs == t[i as int].children@,
                n == cs.len(),
                ctx2 == (Context { mode: Mode::Code, ..ctx }),
                cv_code_block_items(
                    *self,
                    t,
                    ctx2,
                    i as int,
                    k as int,
                    items@.map_values(|d: Doc| d@),
                ) == cv_code_block_items(*self, t, ctx2, i as int, 0, Seq::empty()),
            decreases n - k,
        {
            let c = tree.child(i, k);
            let kd = tree.kind(c);
            if kd == SyntaxKind::Code {
                self.convert_code(tree, ctx2, c, &mut items);
            } else if is_comment(kd) {
                let ghost before = items@.map_values(|d: Doc| d@);
                let item = to_doc(tree.text(c), true);
                let ghost gitem = item@;
                items.push(item);
                proof {
                    assert(items@.map_values(|d: Doc| d@) =~= before.push(gitem));
                }
            }
            k = k + 1;
        }
        pretty_items(
            &items,
            &Doc::str_text(";").append(Doc::space()),
            &Doc::nil(),
            &Doc::str_text("{"),
            &Doc::str_text("}"),
            true,
            FoldStyle::Never,
            self.config.indent_width,
        )
    }

    /// The parenthesized arguments of a call: their documents, whether the
    /// tight form is preferred, and whether the source already spans lines.
    pub fn convert_parenthesized_args(&self, tree: &SyntaxTree, ctx: Context, i: usize) -> (r: (
        Vec<Doc>,
        bool,
        bool,
    ))
        requires
            tree.wf(),
            i < tree.nodes@.len(),
        ensures
            ({
                let g = cv_paren_args(*self, tree.nodes@, ctx, i as int);
                r.0@.map_values(|d: Doc| d@) == g.0 && r.1 == g.1 && r.2 == g.2
            }),
        decreases tree.nodes@.len() - i, 12int, 0int, 0int,
    {
        let ghost t = tree.nodes@;
        let ghost cs = t[i as int].children@;
        let n = tree.num_children(i);
        let limit: usize = match tree.find_kind_from(i, SyntaxKind::RightParen, 0) {
            Option::Some(r) => r,
            Option::None => n,
        };
        let mut multi = self.args_has_nl(tree, i, limit);
        let mut items: Vec<Doc> = Vec::new();
        proof {
            assert(items@.map_values(|d: Doc| d@) =~= Seq::<GDoc>::empty());
        }
        let mut last: Option<usize> = Option::None;
        let ghost mut glast: Option<int> = Option::None;
        let mut k: usize = 0;
        while k < n && k < limit
            invariant
                k <= n,
                tree.wf(),
                i < t.len(),
                t == tree.nodes@,
                cs == t[i as int].children@,
                n == cs.len(),
                limit <= n || limit == n,
                glast == (match last {
                    Option::Some(c) => Option::Some(c as int),
                    Option::None => Option::<int>::None,
                }),
                (last matches Option::Some(c) ==> c < t.len()),
                cv_paren_args_loop(
                    *self,
                    t,
                    ctx,
                    i as int,
                    limit as int,
                    k as int,
                    items@.map_values(|d: Doc| d@),
                    multi,
                    glast,
                ) == cv_paren_args_loop(
                    *self,
                    t,
                    ctx,
                    i as int,
                    limit as int,
                    0,
                    Seq::empty(),
                    spec_args_has_nl(t, i as int),
                    Option::<int>::None,
                ),
            decreases n - k,
        {
            let c = tree.child(i, k);
            let kd = tree.kind(c);
            if is_expr_kind(kd) || kd == SyntaxKind::Named || kd == SyntaxKind::Spread {
                let ghost before = items@.map_values(|d: Doc| d@);
                let item = self.convert_arg(tree, ctx, c);
                let ghost gitem = item@;
                items.push(item);
                multi = multi || self.attrs.is_multiline(c);
                last = Option::Some(c);
                proof {
                    glast = Option::Some(c as int);
                    assert(items@.map_values(|d: Doc| d@) =~= before.push(gitem));
                }
            }
            k = k + 1;
        }
        let tighter = if items.len() == 0 {
            true
        } else if items.len() == 1 {
            match last {
                Option::Some(a) => {
                    match self.arg_rhs(tree, a) {
                        Option::Some(rhs) => tree.kind(rhs) != SyntaxKind::FuncCall,
                        Option::None => true,
                    }
                },
                Option::None => true,
            }
        } else {
            false
        };
        (items, tighter, multi)
    }

    /// The argument value a call argument stands for.
    fn arg_rhs(&self, tree: &SyntaxTree, c: usize) -> (r: Option<usize>)
        requires
            tree.wf(),
            c < tree.nodes@.len(),
        ensures
            ({
                let g = spec_arg_rhs(tree.nodes@, c as int);
                match r {
                    Option::Some(x) => g == Option::Some(x as int) && x < tree.nodes@.len(),
                    Option::None => g is None,
                }
            }),
    {
        if tree.kind(c) == SyntaxKind::Named {
            match tree.rfind_expr(c) {
                Option::Some(p) => Option::Some(tree.child(c, p)),
                Option::None => Option::None,
            }
        } else if tree.kind(c) == SyntaxKind::Spread {
            match tree.find_expr_from(c, 0) {
                Option::Some(p) => Option::Some(tree.child(c, p)),
                Option::None => Option::None,
            }
        } else {
            Option::Some(c)
        }
    }

    /// Does some whitespace before position `limit` span lines?
    fn args_has_nl(&self, tree: &SyntaxTree, i: usize, limit: usize) -> (b: bool)
        requires
            tree.wf(),
            i < tree.nodes@.len(),
            ({
                let s = sfind_kind(
                    tree.nodes@,
                    tree.nodes@[i as int].children@,
                    SyntaxKind::RightParen,
                    0,
                );
                match s {
                    Option::Some(rp) => limit as int == rp,
                    Option::None => limit == tree.nodes@[i as int].children@.len(),
                }
            }),
        ensures
            b == spec_args_has_nl(tree.nodes@, i as int),
    {
        let ghost t = tree.nodes@;
        let ghost cs = t[i as int].children@;
        let n = tree.num_children(i);
        let mut j: usize = 0;
        while j < n && j < limit
            invariant
                j <= n,
                tree.wf(),
                i < t.len(),
                t == tree.nodes@,
                cs == t[i as int].children@,
                n == cs.len(),
                limit <= n,
                (match sfind_kind(t, cs, SyntaxKind::RightParen, 0) {
                    Option::Some(rp) => limit as int == rp,
                    Option::None => limit == cs.len(),
                }),
                forall|q: int|
                    0 <= q < j ==> !(0 <= cs[q] < t.len() && (#[trigger] t[cs[q] as int]).kind
                        == SyntaxKind::Space && has_nl(t[cs[q] as int].text@)),
            decreases n - j,
        {
            let c = tree.child(i, j);
            if tree.kind(c) == SyntaxKind::Space && tree.text_has_nl(c) {
                proof {
                    let glimit = (match sfind_kind(t, cs, SyntaxKind::RightParen, 0) {
                        Option::Some(r) => r,
                        Option::None => cs.len() as int,
                    });
                    assert(limit as int == glimit);
                    assert(0 <= j < glimit && 0 <= cs[j as int] < t.len() && t[cs[
                    j as int] as int].kind == SyntaxKind::Space && has_nl(
                        t[cs[j as int] as int].text@,
                    ));
                    assert(spec_args_has_nl(t, i as int));
                }
                return true;
            }
            j = j + 1;
        }
        false
    }

    /// Convert the arguments after the closing parenthesis, or the
    /// trailing content blocks.
    pub fn convert_additional_args(
        &self,
        tree: &SyntaxTree,
        ctx: Context,
        i: usize,
        has_paren: bool,
    ) -> (r: Doc)
        requires
            tree.wf(),
            i < tree.nodes@.len(),
        ensures
            r@ == cv_additional_args(*self, tree.nodes@, ctx, i as int, has_paren),
        decreases tree.nodes@.len() - i, 12int, 0int, 0int,
    {
        let ghost t = tree.nodes@;
        let ghost cs = t[i as int].children@;
        let n = tree.num_children(i);
        let start: usize = if has_paren {
            match tree.find_kind_from(i, SyntaxKind::RightParen, 0) {
                Option::Some(r) => r + 1,
                Option::None => n,
            }
        } else {
            match tree.find_kind_from(i, SyntaxKind::ContentBlock, 0) {
                Option::Some(cb) => cb,
                Option::None => n,
            }
        };
        let mut d = Doc::nil();
        let mut k = start;
        while k < n
            invariant
                start <= k <= n || (start > n && k == start),
                tree.wf(),
                i < t.len(),
                t == tree.nodes@,
                cs == t[i as int].children@,
                n == cs.len(),
                cv_additional_args_loop(*self, t, ctx, i as int, k as int, d@)
                    == cv_additional_args_loop(*self, t, ctx, i as int, start as int, GDoc::Nil),
            decreases n - k,
        {
            let c = tree.child(i, k);
            let kd = tree.kind(c);
            if is_expr_kind(kd) || kd == SyntaxKind::Named || kd == SyntaxKind::Spread {
                d = d.append(self.convert_arg(tree, ctx, c));
            }
            k = k + 1;
        }
        d.group()
    }

    /// Convert a function call.
    pub fn convert_func_call(&self, tree: &SyntaxTree, ctx: Context, i: usize) -> (r: Doc)
        requires
            tree.wf(),
            i < tree.nodes@.len(),
        ensures
            r@ == cv_func_call(*self, tree.nodes@, ctx, i as int),
        decreases tree.nodes@.len() - i, 12int, 0int, 0int,
    {
        let callee = match tree.find_expr_from(i, 0) {
            Option::Some(b) => self.convert_expr(tree, ctx, tree.child(i, b)),
            Option::None => Doc::nil(),
        };
        match tree.rfind_kind(i, SyntaxKind::Args) {
            Option::None => callee,
            Option::Some(ap) => {
                let a = tree.child(i, ap);
                if let Option::Some(res) = self.check_disabled(tree, a) {
                    return callee.append(res);
                }
                let has_paren = tree.has_child_kind(a, SyntaxKind::LeftParen)
                    || tree.has_child_kind(a, SyntaxKind::RightParen);
                let d = if has_paren {
                    let (args, tighter, multiline) = self.convert_parenthesized_args(tree, ctx, a);
                    if tighter {
                        let first = if args.len() > 0 {
                            args[0].clone_doc()
                        } else {
                            Doc::nil()
                        };
                        callee.append(Doc::str_text("(")).append(first).append(Doc::str_text(")"))
                    } else {
                        callee.append(
                            pretty_items(
                                &args,
                                &Doc::str_text(",").append(Doc::space()),
                                &Doc::str_text(","),
                                &Doc::str_text("("),
                                &Doc::str_text(")"),
                                false,
                                if multiline {
                                    FoldStyle::Never
                                } else {
                                    FoldStyle::Fit
                                },
                                self.config.indent_width,
                            ),
                        )
                    }
                } else {
                    callee
                };
                d.append(self.convert_additional_args(tree, ctx, a, has_paren))
            },
        }
    }

    /// The documents of the parameters of a parameter list.
    fn convert_params(&self, tree: &SyntaxTree, ctx: Context, i: usize) -> (r: Vec<Doc>)
        requires
            tree.wf(),
            i < tree.nodes@.len(),
        ensures
            r@.map_values(|d: Doc| d@) == cv_params_items(
                *self,
                tree.nodes@,
                ctx,
                i as int,
                0,
                Seq::empty(),
            ),
        decreases tree.nodes@.len() - i, 12int, 0int, 0int,
    {
        let ghost t = tree.nodes@;
        let ghost cs = t[i as int].children@;
        let n = tree.num_children(i);
        let mut items: Vec<Doc> = Vec::new();
        proof {
            assert(items@.map_values(|d: Doc| d@) =~= Seq::<GDoc>::empty());
        }
        let mut k: usize = 0;
        while k < n
            invariant
                k <= n,
                tree.wf(),
                i < t.len(),
                t == tree.nodes@,
                cs == t[i as int].children@,
                n == cs.len(),
                cv_params_items(*self, t, ctx, i as int, k as int, items@.map_values(|d: Doc| d@))
                    == cv_params_items(*self, t, ctx, i as int, 0, Seq::empty()),
            decreases n - k,
        {
            let c = tree.child(i, k);
            if is_param_kind(tree.kind(c)) {
                let ghost before = items@.map_values(|d: Doc| d@);
                let item = self.convert_param(tree, ctx, c);
                let ghost gitem = item@;
                items.push(item);
                proof {
                    assert(items@.map_values(|d: Doc| d@) =~= before.push(gitem));
                }
            }
            k = k + 1;
        }
        items
    }

    /// Convert a closure.
    pub fn convert_closure(&self, tree: &SyntaxTree, ctx: Context, i: usize) -> (r: Doc)
        requires
            tree.wf(),
            i < tree.nodes@.len(),
        ensures
            r@ == cv_closure(*self, tree.nodes@, ctx, i as int),
        decreases tree.nodes@.len() - i, 13int, 0int, 0int,
    {
        let body = match tree.rfind_expr(i) {
            Option::Some(b) => self.convert_expr(tree, ctx, tree.child(i, b)),
            Option::None => Doc::nil(),
        };
        match tree.find_kind_from(i, SyntaxKind::Params, 0) {
            Option::None => body,
            Option::Some(pp) => {
                let pn = tree.child(i, pp);
                let items = self.convert_params(tree, ctx, pn);
                let arg_list = pretty_items(
                    &items,
                    &Doc::str_text(",").append(Doc::space()),
                    &Doc::str_text(","),
                    &Doc::str_text("("),
                    &Doc::str_text(")"),
                    false,
                    self.attrs.fold_preference(pn),
                    self.config.indent_width,
                );
                let named = tree.num_children(i) > 0 && tree.kind(tree.child(i, 0))
                    == SyntaxKind::Ident;
                if named {
                    let name = self.convert_ident(tree, tree.child(i, 0));
                    name.append(arg_list).append(Doc::space()).append(Doc::str_text("=")).append(
                        Doc::space(),
                    ).append(body)
                } else {
                    let single = match tree.find_prm_from(pn, 0) {
                        Option::Some(fp) => {
                            let fc = tree.child(pn, fp);
                            items.len() == 1 && is_pattern_kind(tree.kind(fc)) && tree.kind(fc)
                                != SyntaxKind::Destructuring
                        },
                        Option::None => false,
                    };
                    let head = if single {
                        items[0].clone_doc()
                    } else {
                        arg_list
                    };
                    head.append(Doc::space()).append(Doc::str_text("=>")).append(
                        Doc::space(),
                    ).append(body)
                }
            },
        }
    }

    /// Convert a destructuring.
    pub fn convert_destructuring(&self, tree: &SyntaxTree, ctx: Context, i: usize) -> (r: Doc)
        requires
            tree.wf(),
            i < tree.nodes@.len(),
        ensures
            r@ == cv_destructuring(*self, tree.nodes@, ctx, i as int),
        decreases tree.nodes@.len() - i, 12int, 0int, 0int,
    {
        let ghost t = tree.nodes@;
        let ghost cs = t[i as int].children@;
        let n = tree.num_children(i);
        let mut items: Vec<Doc> = Vec::new();
        proof {
            assert(items@.map_values(|d: Doc| d@) =~= Seq::<GDoc>::empty());
        }
        let mut k: usize = 0;
        while k < n
            invariant
                k <= n,
                tree.wf(),
                i < t.len(),
                t == tree.nodes@,
                cs == t[i as int].children@,
                n == cs.len(),
                cv_destructuring_items(
                    *self,
                    t,
                    ctx,
                    i as int,
                    k as int,
                    items@.map_values(|d: Doc| d@),
                ) == cv_destructuring_items(*self, t, ctx, i as int, 0, Seq::empty()),
            decreases n - k,
        {
            let c = tree.child(i, k);
            if is_param_kind(tree.kind(c)) {
                let ghost before = items@.map_values(|d: Doc| d@);
                let item = self.convert_destructuring_item(tree, ctx, c);
                let ghost gitem = item@;
                items.push(item);
                proof {
                    assert(items@.map_values(|d: Doc| d@) =~= before.push(gitem));
                }
            }
            k = k + 1;
        }
        let first_plain = match tree.find_prm_from(i, 0) {
            Option::Some(fp) => is_pattern_kind(tree.kind(tree.child(i, fp))),
            Option::None => false,
        };
        if items.len() == 1 && first_plain {
            let item = items[0].clone_doc();
            Doc::str_text("(").append(item).append(Doc::str_text(",)"))
        } else {
            pretty_items(
                &items,
                &Doc::str_text(",").append(Doc::space()),
                &Doc::str_text(","),
                &Doc::str_text("("),
                &Doc::str_text(")"),
                false,
                FoldStyle::Fit,
                self.config.indent_width,
            )
        }
    }

    /// Convert a let binding.
    pub fn convert_let_binding(&self, tree: &SyntaxTree, ctx: Context, i: usize) -> (r: Doc)
        requires
            tree.wf(),
            i < tree.nodes@.len(),
        ensures
            r@ == cv_let_binding(*self, tree.nodes@, ctx, i as int),
        decreases tree.nodes@.len() - i, 12int, 0int, 0int,
    {
        let base = Doc::str_text("let").append(Doc::space());
        match tree.find_pattern_from(i, 0) {
            Option::None => base,
            Option::Some(pp) => {
                let nn = tree.num_children(i);
                let c = tree.child(i, pp);
                if tree.kind(c) == SyntaxKind::Closure {
                    base.append(self.convert_expr(tree, ctx, c))
                } else {
                    let d = base.append(self.convert_pattern(tree, ctx, c).group());
                    let init = if is_expr_kind(tree.kind(c)) {
                        tree.find_expr_from(i, pp + 1)
                    } else {
                        tree.find_expr_from(i, 0)
                    };
                    match init {
                        Option::Some(e) => d.append(Doc::space()).append(
                            Doc::str_text("="),
                        ).append(Doc::space()).append(
                            self.convert_expr(tree, ctx, tree.child(i, e)),
                        ),
                        Option::None => d,
                    }
                }
            },
        }
    }

    /// Convert a destructuring assignment.
    pub fn convert_destruct_assignment(&self, tree: &SyntaxTree, ctx: Context, i: usize) -> (r:
        Doc)
        requires
            tree.wf(),
            i < tree.nodes@.len(),
        ensures
            r@ == cv_destruct_assignment(*self, tree.nodes@, ctx, i as int),
        decreases tree.nodes@.len() - i, 12int, 0int, 0int,
    {
        let pat = match tree.find_pattern_from(i, 0) {
            Option::Some(pp) => self.convert_pattern(tree, ctx, tree.child(i, pp)),
            Option::None => Doc::nil(),
        };
        let value = match tree.rfind_expr(i) {
            Option::Some(b) => self.convert_expr(tree, ctx, tree.child(i, b)),
            Option::None => Doc::nil(),
        };
        pat.append(Doc::space()).append(Doc::str_text("=")).append(Doc::space()).append(value)
    }

    /// Convert a set rule.
    pub fn convert_set_rule(&self, tree: &SyntaxTree, ctx: Context, i: usize) -> (r: Doc)
        requires
            tree.wf(),
            i < tree.nodes@.len(),
        ensures
            r@ == cv_set_rule(*self, tree.nodes@, ctx, i as int),
        decreases tree.nodes@.len() - i, 13int, 0int, 0int,
    {
        let target = match tree.find_expr_from(i, 0) {
            Option::Some(b) => self.convert_expr(tree, ctx, tree.child(i, b)),
            Option::None => Doc::nil(),
        };
        let args: Vec<Doc> = match tree.rfind_kind(i, SyntaxKind::Args) {
            Option::Some(ap) => {
                let (a, _t, _m) = self.convert_parenthesized_args(tree, ctx, tree.child(i, ap));
                a
            },
            Option::None => Vec::new(),
        };
        let d = Doc::str_text("set").append(Doc::space()).append(target).append(
            pretty_items(
                &args,
                &Doc::str_text(",").append(Doc::space()),
                &Doc::str_text(","),
                &Doc::str_text("("),
                &Doc::str_text(")"),
                false,
                FoldStyle::Single,
                self.config.indent_width,
            ),
        );
        match tree.find_kind_from(i, SyntaxKind::If, 0) {
            Option::Some(f) => match tree.find_expr_from(i, f) {
                Option::Some(e) => d.append(Doc::space()).append(Doc::str_text("if")).append(
                    Doc::space(),
                ).append(self.convert_expr(tree, ctx, tree.child(i, e))),
                Option::None => d,
            },
            Option::None => d,
        }
    }

    /// Convert a show rule.
    pub fn convert_show_rule(&self, tree: &SyntaxTree, ctx: Context, i: usize) -> (r: Doc)
        requires
            tree.wf(),
            i < tree.nodes@.len(),
        ensures
            r@ == cv_show_rule(*self, tree.nodes@, ctx, i as int),
        decreases tree.nodes@.len() - i, 12int, 0int, 0int,
    {
        let colon = tree.find_kind_from(i, SyntaxKind::Colon, 0);
        let sel = tree.find_expr_from(i, 0);
        let mut d = Doc::str_text("show");
        if let (Option::Some(sp), Option::Some(cp)) = (sel, colon) {
            if sp < cp {
                d = d.append(Doc::space()).append(self.convert_expr(tree, ctx, tree.child(i, sp)));
            }
        }
        let transform = match tree.rfind_expr(i) {
            Option::Some(b) => self.convert_expr(tree, ctx, tree.child(i, b)),
            Option::None => Doc::nil(),
        };
        d.append(Doc::str_text(":")).append(Doc::space()).append(transform)
    }

    /// Convert a conditional.
    pub fn convert_conditional(&self, tree: &SyntaxTree, ctx: Context, i: usize) -> (r: Doc)
        requires
            tree.wf(),
            i < tree.nodes@.len(),
        ensures
            r@ == cv_conditional(*self, tree.nodes@, ctx, i as int),
        decreases tree.nodes@.len() - i, 12int, 0int, 0int,
    {
        let ghost t = tree.nodes@;
        let ghost cs = t[i as int].children@;
        let has_else = tree.has_child_kind(i, SyntaxKind::Else);
        let n = tree.num_children(i);
        let mut d = Doc::nil();
        let mut state: usize = 0;
        let mut k: usize = 0;
        while k < n
            invariant
                k <= n,
                tree.wf(),
                i < t.len(),
                t == tree.nodes@,
                cs == t[i as int].children@,
                n == cs.len(),
                has_else == spec_has_child_kind(t, i as int, SyntaxKind::Else),
                cv_cond_loop(*self, t, ctx, i as int, has_else, k as int, state as int, d@)
                    == cv_cond_loop(*self, t, ctx, i as int, has_else, 0, 0, GDoc::Nil),
            decreases n - k,
        {
            let c = tree.child(i, k);
            let kd = tree.kind(c);
            if kd == SyntaxKind::If {
                d = d.append(Doc::str_text("if")).append(Doc::space());
            } else if kd == SyntaxKind::Else {
                d = d.append(Doc::str_text("else")).append(Doc::space());
            } else if kd == SyntaxKind::BlockComment {
                d = d.append(trivia(tree, c)).append(Doc::space());
            } else if kd == SyntaxKind::LineComment {
                d = d.append(trivia(tree, c)).append(Doc::hardline());
            } else if is_expr_kind(kd) {
                if state == 0 {
                    d = d.append(self.convert_expr(tree, ctx, c)).append(Doc::space());
                    state = 1;
                } else if state == 1 {
                    d = d.append(self.convert_expr(tree, ctx, c).group());
                    if has_else {
                        d = d.append(Doc::space());
                        state = 2;
                    }
                } else {
                    d = d.append(self.convert_expr(tree, ctx, c).group());
                }
            }
            k = k + 1;
        }
        d
    }

    /// Convert a while loop.
    pub fn convert_while(&self, tree: &SyntaxTree, ctx: Context, i: usize) -> (r: Doc)
        requires
            tree.wf(),
            i < tree.nodes@.len(),
        ensures
            r@ == cv_while(*self, tree.nodes@, ctx, i as int),
        decreases tree.nodes@.len() - i, 12int, 0int, 0int,
    {
        let ghost t = tree.nodes@;
        let ghost cs = t[i as int].children@;
        let n = tree.num_children(i);
        let mut d = Doc::nil();
        let mut state: usize = 0;
        let mut k: usize = 0;
        while k < n
            invariant
                k <= n,
                tree.wf(),
                i < t.len(),
                t == tree.nodes@,
                cs == t[i as int].children@,
                n == cs.len(),
                cv_while_loop(*self, t, ctx, i as int, k as int, state as int, d@)
                    == cv_while_loop(*self, t, ctx, i as int, 0, 0, GDoc::Nil),
            decreases n - k,
        {
            let c = tree.child(i, k);
            let kd = tree.kind(c);
            if kd == SyntaxKind::While {
                d = d.append(Doc::str_text("while")).append(Doc::space());
            } else if kd == SyntaxKind::BlockComment {
                d = d.append(trivia(tree, c)).append(Doc::space());
            } else if kd == SyntaxKind::LineComment {
                d = d.append(trivia(tree, c)).append(Doc::hardline());
            } else if is_expr_kind(kd) {
                d = d.append(self.convert_expr(tree, ctx, c));
                if state == 0 {
                    d = d.append(Doc::space());
                    state = 1;
                }
            }
            k = k + 1;
        }
        d
    }

    /// Convert a for loop.
    pub fn convert_for(&self, tree: &SyntaxTree, ctx: Context, i: usize) -> (r: Doc)
        requires
            tree.wf(),
            i < tree.nodes@.len(),
        ensures
            r@ == cv_for(*self, tree.nodes@, ctx, i as int),
        decreases tree.nodes@.len() - i, 12int, 0int, 0int,
    {
        let ghost t = tree.nodes@;
        let ghost cs = t[i as int].children@;
        let n = tree.num_children(i);
        let mut d = Doc::nil();
        let mut state: usize = 0;
        let mut k: usize = 0;
        while k < n
            invariant
                k <= n,
                tree.wf(),
                i < t.len(),
                t == tree.nodes@,
                cs == t[i as int].children@,
                n == cs.len(),
                cv_for_loop(*self, t, ctx, i as int, k as int, state as int, d@) == cv_for_loop(
                    *self,
                    t,
                    ctx,
                    i as int,
                    0,
                    0,
                    GDoc::Nil,
                ),
            decreases n - k,
        {
            let c = tree.child(i, k);
            let kd = tree.kind(c);
            if kd == SyntaxKind::For {
                d = d.append(Doc::str_text("for")).append(Doc::space());
            } else if kd == SyntaxKind::In {
                d = d.append(Doc::str_text("in")).append(Doc::space());
            } else if kd == SyntaxKind::BlockComment {
                d = d.append(trivia(tree, c)).append(Doc::space());
            } else if kd == SyntaxKind::LineComment {
                d = d.append(trivia(tree, c)).append(Doc::hardline());
            } else if state == 0 && is_pattern_kind(kd) {
                d = d.append(self.convert_pattern(tree, ctx, c)).append(Doc::space());
                state = 1;
            } else if state == 1 && is_expr_kind(kd) {
                d = d.append(self.convert_expr(tree, ctx, c)).append(Doc::space());
                state = 2;
            } else if state == 2 && is_expr_kind(kd) {
                d = d.append(self.convert_expr(tree, ctx, c));
            }
            k = k + 1;
        }
        d
    }

    /// The import items of an import list, joined by commas.
    fn convert_import_items(&self, tree: &SyntaxTree, ctx: Context, i: usize) -> (r: Doc)
        requires
            tree.wf(),
            i < tree.nodes@.len(),
        ensures
            r@ == cv_import_items_loop(
                *self,
                tree.nodes@,
                ctx,
                i as int,
                0,
                false,
                GDoc::Nil,
            ),
        decreases tree.nodes@.len() - i, 12int, 0int, 0int,
    {
        let ghost t = tree.nodes@;
        let ghost cs = t[i as int].children@;
        let n = tree.num_children(i);
        let mut d = Doc::nil();
        let mut started = false;
        let mut k: usize = 0;
        while k < n
            invariant
                k <= n,
                tree.wf(),
                i < t.len(),
                t == tree.nodes@,
                cs == t[i as int].children@,
                n == cs.len(),
                cv_import_items_loop(*self, t, ctx, i as int, k as int, started, d@)
                    == cv_import_items_loop(*self, t, ctx, i as int, 0, false, GDoc::Nil),
            decreases n - k,
        {
            let c = tree.child(i, k);
            let kd = tree.kind(c);
            if kd == SyntaxKind::Ident || kd == SyntaxKind::ImportItemPath || kd
                == SyntaxKind::RenamedImportItem {
                let item = self.convert_import_item(tree, ctx, c);
                if started {
                    d = d.append(Doc::str_text(",").append(Doc::space())).append(item);
                } else {
                    d = item;
                }
                started = true;
            }
            k = k + 1;
        }
        d
    }

    /// Convert a module import.
    pub fn convert_import(&self, tree: &SyntaxTree, ctx: Context, i: usize) -> (r: Doc)
        requires
            tree.wf(),
            i < tree.nodes@.len(),
        ensures
            r@ == cv_import(*self, tree.nodes@, ctx, i as int),
        decreases tree.nodes@.len() - i, 12int, 0int, 0int,
    {
        let source = match tree.find_expr_from(i, 0) {
            Option::Some(b) => self.convert_expr(tree, ctx, tree.child(i, b)),
            Option::None => Doc::nil(),
        };
        let mut d = Doc::str_text("import").append(Doc::space()).append(source);
        if let Option::Some(ap) = tree.find_kind_from(i, SyntaxKind::As, 0) {
            if let Option::Some(m) = tree.find_kind_from(i, SyntaxKind::Ident, ap) {
                d = d.append(Doc::space()).append(Doc::str_text("as")).append(
                    Doc::space(),
                ).append(self.convert_ident(tree, tree.child(i, m)));
            }
        }
        let star = tree.find_kind_from(i, SyntaxKind::Star, 0);
        let itemsn = tree.find_kind_from(i, SyntaxKind::ImportItems, 0);
        let imports: Option<Doc> = match (star, itemsn) {
            (Option::Some(sp), Option::Some(ip)) => if sp < ip {
                Option::Some(Doc::str_text("*"))
            } else {
                Option::Some(self.convert_import_items(tree, ctx, tree.child(i, ip)))
            },
            (Option::Some(_sp), Option::None) => Option::Some(Doc::str_text("*")),
            (Option::None, Option::Some(ip)) => Option::Some(
                self.convert_import_items(tree, ctx, tree.child(i, ip)),
            ),
            (Option::None, Option::None) => Option::None,
        };
        match imports {
            Option::Some(im) => d.append(Doc::str_text(":")).append(Doc::space()).append(
                im.group(),
            ),
            Option::None => d,
        }
    }

    /// Convert a base with attachments.
    pub fn convert_math_attach(&self, tree: &SyntaxTree, ctx: Context, i: usize) -> (r: Doc)
        requires
            tree.wf(),
            i < tree.nodes@.len(),
        ensures
            r@ == cv_math_attach(*self, tree.nodes@, ctx, i as int),
        decreases tree.nodes@.len() - i, 12int, 0int, 0int,
    {
        let ghost t = tree.nodes@;
        let ghost cs = t[i as int].children@;
        let n = tree.num_children(i);
        let base_pos = tree.find_expr_from(i, 0);
        let prime: Option<usize> = match base_pos {
            Option::Some(b) => {
                if b + 1 < n && tree.kind(tree.child(i, b + 1)) == SyntaxKind::MathPrimes {
                    Option::Some(b + 1)
                } else {
                    Option::None
                }
            },
            Option::None => Option::None,
        };
        let bottom: Option<usize> = match tree.find_kind_from(i, SyntaxKind::Underscore, 0) {
            Option::Some(u) => tree.find_expr_from(i, u),
            Option::None => Option::None,
        };
        let top: Option<usize> = match tree.find_kind_from(i, SyntaxKind::Hat, 0) {
            Option::Some(u) => tree.find_expr_from(i, u),
            Option::None => Option::None,
        };
        let ghost gprime: Option<int> = match prime {
            Option::Some(x) => Option::Some(x as int),
            Option::None => Option::None,
        };
        let ghost gbottom: Option<int> = match bottom {
            Option::Some(x) => Option::Some(x as int),
            Option::None => Option::None,
        };
        let ghost gtop: Option<int> = match top {
            Option::Some(x) => Option::Some(x as int),
            Option::None => Option::None,
        };
        proof {
            assert(gprime == spec_attach_prime_pos(t, cs));
            assert(gbottom == spec_attach_pos(t, cs, SyntaxKind::Underscore));
            assert(gtop == spec_attach_pos(t, cs, SyntaxKind::Hat));
        }
        let mut d = match base_pos {
            Option::Some(b) => self.convert_expr(tree, ctx, tree.child(i, b)),
            Option::None => Doc::nil(),
        };
        let mut k: usize = 0;
        while k < n
            invariant
                k <= n,
                tree.wf(),
                i < t.len(),
                t == tree.nodes@,
                cs == t[i as int].children@,
                n == cs.len(),
                gprime == (match prime {
                    Option::Some(x) => Option::Some(x as int),
                    Option::None => Option::<int>::None,
                }),
                gbottom == (match bottom {
                    Option::Some(x) => Option::Some(x as int),
                    Option::None => Option::<int>::None,
                }),
                gtop == (match top {
                    Option::Some(x) => Option::Some(x as int),
                    Option::None => Option::<int>::None,
                }),
                cv_attach_loop(*self, t, ctx, i as int, gprime, gbottom, gtop, k as int, d@)
                    == cv_attach_loop(
                    *self,
                    t,
                    ctx,
                    i as int,
                    spec_attach_prime_pos(t, cs),
                    spec_attach_pos(t, cs, SyntaxKind::Underscore),
                    spec_attach_pos(t, cs, SyntaxKind::Hat),
                    0,
                    (match sfind_expr(t, cs, 0) {
                        Option::Some(b) => cv_expr(*self, t, ctx, cs[b] as int),
                        Option::None => GDoc::Nil,
                    }),
                ),
            decreases n - k,
        {
            let c = tree.child(i, k);
            if prime == Option::Some(k) {
                d = d.append(trivia(tree, c));
            }
            if bottom == Option::Some(k) {
                d = d.append(Doc::str_text("_")).append(self.convert_expr(tree, ctx, c));
            }
            if top == Option::Some(k) {
                d = d.append(Doc::str_text("^")).append(self.convert_expr(tree, ctx, c));
            }
            k = k + 1;
        }
        d
    }
}

} // verus!
