use typstyle::attr::{AttrStore, Attributes};
use typstyle::config::{Config, StyleArgs};
use typstyle::math_align::{Cell, RawRow};
use typstyle::mode::Context;
use typstyle::printer::{to_doc, PrettyPrinter};
use typstyle::syntax::{NodeData, SyntaxKind, SyntaxTree};

use typst_syntax::SyntaxKind as K;

fn map_kind(k: K) -> SyntaxKind {
    match k {
        K::Markup => SyntaxKind::Markup,
        K::Space => SyntaxKind::Space,
        K::Linebreak => SyntaxKind::Linebreak,
        K::Parbreak => SyntaxKind::Parbreak,
        K::Text => SyntaxKind::Text,
        K::Escape => SyntaxKind::Escape,
        K::Shorthand => SyntaxKind::Shorthand,
        K::SmartQuote => SyntaxKind::SmartQuote,
        K::Strong => SyntaxKind::Strong,
        K::Emph => SyntaxKind::Emph,
        K::Raw => SyntaxKind::Raw,
        K::RawDelim => SyntaxKind::RawDelim,
        K::RawLang => SyntaxKind::RawLang,
        K::RawTrimmed => SyntaxKind::RawTrimmed,
        K::Link => SyntaxKind::Link,
        K::Label => SyntaxKind::Label,
        K::Ref => SyntaxKind::Ref,
        K::RefMarker => SyntaxKind::RefMarker,
        K::Heading => SyntaxKind::Heading,
        K::HeadingMarker => SyntaxKind::HeadingMarker,
        K::ListItem => SyntaxKind::ListItem,
        K::ListMarker => SyntaxKind::ListMarker,
        K::EnumItem => SyntaxKind::EnumItem,
        K::EnumMarker => SyntaxKind::EnumMarker,
        K::TermItem => SyntaxKind::TermItem,
        K::TermMarker => SyntaxKind::TermMarker,
        K::Equation => SyntaxKind::Equation,
        K::Math => SyntaxKind::Math,
        K::MathText => SyntaxKind::MathText,
        K::MathIdent => SyntaxKind::MathIdent,
        K::MathShorthand => SyntaxKind::MathShorthand,
        K::MathAlignPoint => SyntaxKind::MathAlignPoint,
        K::MathDelimited => SyntaxKind::MathDelimited,
        K::MathAttach => SyntaxKind::MathAttach,
        K::MathPrimes => SyntaxKind::MathPrimes,
        K::MathFrac => SyntaxKind::MathFrac,
        K::MathRoot => SyntaxKind::MathRoot,
        K::Ident => SyntaxKind::Ident,
        K::None => SyntaxKind::NoneLit,
        K::Auto => SyntaxKind::Auto,
        K::Bool => SyntaxKind::BoolLit,
        K::Int => SyntaxKind::IntLit,
        K::Float => SyntaxKind::FloatLit,
        K::Numeric => SyntaxKind::Numeric,
        K::Str => SyntaxKind::StrLit,
        K::CodeBlock => SyntaxKind::CodeBlock,
        K::Code => SyntaxKind::Code,
        K::ContentBlock => SyntaxKind::ContentBlock,
        K::Parenthesized => SyntaxKind::Parenthesized,
        K::Array => SyntaxKind::Array,
        K::Dict => SyntaxKind::Dict,
        K::Unary => SyntaxKind::Unary,
        K::Binary => SyntaxKind::Binary,
        K::FieldAccess => SyntaxKind::FieldAccess,
        K::FuncCall => SyntaxKind::FuncCall,
        K::Closure => SyntaxKind::Closure,
        K::LetBinding => SyntaxKind::LetBinding,
        K::DestructAssignment => SyntaxKind::DestructAssignment,
        K::SetRule => SyntaxKind::SetRule,
        K::ShowRule => SyntaxKind::ShowRule,
        K::Contextual => SyntaxKind::Contextual,
        K::Conditional => SyntaxKind::Conditional,
        K::WhileLoop => SyntaxKind::WhileLoop,
        K::ForLoop => SyntaxKind::ForLoop,
        K::ModuleImport => SyntaxKind::ModuleImport,
        K::ModuleInclude => SyntaxKind::ModuleInclude,
        K::LoopBreak => SyntaxKind::LoopBreak,
        K::LoopContinue => SyntaxKind::LoopContinue,
        K::FuncReturn => SyntaxKind::FuncReturn,
        K::Args => SyntaxKind::Args,
        K::Params => SyntaxKind::Params,
        K::Named => SyntaxKind::Named,
        K::Keyed => SyntaxKind::Keyed,
        K::Spread => SyntaxKind::Spread,
        K::Destructuring => SyntaxKind::Destructuring,
        K::Underscore => SyntaxKind::Underscore,
        K::ImportItems => SyntaxKind::ImportItems,
        K::ImportItemPath => SyntaxKind::ImportItemPath,
        K::RenamedImportItem => SyntaxKind::RenamedImportItem,
        K::LineComment => SyntaxKind::LineComment,
        K::BlockComment => SyntaxKind::BlockComment,
        K::Hash => SyntaxKind::Hash,
        K::LeftParen => SyntaxKind::LeftParen,
        K::RightParen => SyntaxKind::RightParen,
        K::Colon => SyntaxKind::Colon,
        K::Star => SyntaxKind::Star,
        K::As => SyntaxKind::As,
        K::If => SyntaxKind::If,
        K::Else => SyntaxKind::Else,
        K::While => SyntaxKind::While,
        K::For => SyntaxKind::For,
        K::In => SyntaxKind::In,
        K::Not => SyntaxKind::Not,
        K::Hat => SyntaxKind::Hat,
        K::Error => SyntaxKind::Error,
        _ => SyntaxKind::Other,
    }
}

fn build_arena(node: &typst_syntax::SyntaxNode, nodes: &mut Vec<NodeData>) -> usize {
    let idx = nodes.len();
    nodes.push(NodeData {
        kind: map_kind(node.kind()),
        text: node.leaf_text().to_string(),
        children: Vec::new(),
    });
    let mut cs = Vec::new();
    for ch in node.children() {
        cs.push(build_arena(ch, nodes));
    }
    nodes[idx].children = cs;
    idx
}

fn infer_attrs(tree: &SyntaxTree) -> AttrStore {
    let n = tree.nodes.len();
    let mut attrs = vec![Attributes::default(); n];
    for i in (0..n).rev() {
        let mut marker = tree.nodes[i].kind == SyntaxKind::MathAlignPoint;
        for &c in &tree.nodes[i].children {
            if attrs[c].align_marker {
                marker = true;
            }
        }
        attrs[i].align_marker = marker;
    }
    AttrStore::new(attrs)
}

fn parse_to_tree(src: &str) -> SyntaxTree {
    let root = typst_syntax::parse(src);
    let mut nodes = Vec::new();
    build_arena(&root, &mut nodes);
    SyntaxTree::new(nodes).expect("parser output forms a well-ordered arena")
}

fn fmt(src: &str) -> String {
    fmt_width(src, 80)
}

fn fmt_width(src: &str, width: usize) -> String {
    let tree = parse_to_tree(src);
    let attrs = infer_attrs(&tree);
    let config = Config::from_style(&StyleArgs {
        line_width: width,
        indent_width: 2,
        no_reorder_import_items: false,
        wrap_text: false,
    });
    typstyle::format_api::format(&tree, attrs, config, 0)
}

fn strip_ws(s: &str) -> String {
    s.chars().filter(|c| !c.is_whitespace()).collect()
}

#[test]
fn test_to_doc() {
    let tests = [
        "command can take a directory as an argument to use as the book",
        "123\n456\n789",
        "123\n4567\n789\n",
        "123\n4568\n789\n",
    ];
    for test in tests.into_iter() {
        let doc = to_doc(test, false);
        assert_eq!(doc.pretty(120), test);
    }
}

#[test]
fn convert_markup() {
    let tests = [r"=== --open

When you use the `--open` flag, typst-book will open the rendered book in
your default web browser after building it."];
    for test in tests.into_iter() {
        let tree = parse_to_tree(test);
        let printer = PrettyPrinter::new(AttrStore::new_empty());
        let doc = printer.convert_markup(&tree, Context::start(), 0);
        assert_eq!(doc.pretty(120), *test);
    }
}

#[test]
fn convert_func_call() {
    let tests = [r#"#link("http://example.com")[test]"#];
    for test in tests.into_iter() {
        let tree = parse_to_tree(test);
        let printer = PrettyPrinter::new(AttrStore::new_empty());
        let doc = printer.convert_markup(&tree, Context::start(), 0);
        assert_eq!(doc.pretty(120), *test);
    }
}

#[test]
fn idempotent_on_formatted_output() {
    for src in [
        "= Title\n\nSome prose here.",
        "#let x = (1, 2, 3)",
        "#f(a, b)",
        "$ a &= b \\ c &= d $",
        "#if true [yes] else [no]",
    ] {
        let once = fmt(src);
        let twice = fmt(&once);
        assert_eq!(once, twice, "second pass changed the output for {src:?}");
    }
}

#[test]
fn meaning_preserved_modulo_whitespace() {
    for src in [
        "#let add2 = (a, b) => a + b",
        "#f(a, b)[content]",
        "- one\n- two",
        "#for x in (1, 2) [#x]",
        "#import \"a.typ\": x, y",
    ] {
        let out = fmt(src);
        assert_eq!(strip_ws(src), strip_ws(&out), "content changed for {src:?}");
    }
}

#[test]
fn width_bound_on_breakable_input() {
    let src = "#foo(aaaa, bbbb, cccc, dddd, eeee, ffff, gggg, hhhh)";
    let out = fmt_width(src, 20);
    for line in out.lines() {
        assert!(
            unicode_width::UnicodeWidthStr::width(line) <= 20,
            "line {line:?} too wide in {out:?}"
        );
    }
}

#[test]
fn grid_bails_out_when_too_wide() {
    // The column count alone exceeds the width, so no grid may be built;
    // the fallback must still format the content.
    let src = "$ aaaa &= bbbb &= cccc \\ d &= e &= f $";
    let out = fmt_width(src, 3);
    assert_eq!(strip_ws(src), strip_ws(&out));
    // And a narrow grid still fits and aligns.
    let ok = fmt_width("$ a &= b \\ c &= d $", 80);
    let second = fmt_width(&ok, 80);
    assert_eq!(ok, second);
}

#[test]
fn column_alignment_two_rows() {
    let out = fmt("$ a &= b \\ c &= d $");
    let lines: Vec<&str> = out.lines().collect();
    assert_eq!(lines.len(), 2, "expected two rows in {out:?}");
    let c0 = lines[0].find('=').expect("first relation");
    let c1 = lines[1].find('=').expect("second relation");
    assert_eq!(c0, c1, "relation symbols not aligned in {out:?}");
    assert!(lines[0].ends_with('\\'), "first row carries the continuation");
    assert!(!lines[1].contains('\\'), "last row carries no continuation");
}

#[test]
fn fold_style_selection_for_calls() {
    assert_eq!(fmt("#name()"), "#name()");
    assert_eq!(fmt("#name(arg)"), "#name(arg)");
    let multi = "#name(\n  a,\n  b,\n)";
    assert_eq!(fmt(multi), multi, "source-multiline arguments stay one per line");
}

#[test]
fn comment_row_stays_isolated() {
    let nodes = vec![
        NodeData {
            kind: SyntaxKind::Math,
            text: String::new(),
            children: vec![1, 2, 3, 4, 5, 6],
        },
        NodeData { kind: SyntaxKind::LineComment, text: "// note".to_string(), children: vec![] },
        NodeData { kind: SyntaxKind::Space, text: "\n".to_string(), children: vec![] },
        NodeData { kind: SyntaxKind::MathText, text: "a".to_string(), children: vec![] },
        NodeData { kind: SyntaxKind::MathAlignPoint, text: "&".to_string(), children: vec![] },
        NodeData { kind: SyntaxKind::MathText, text: "b".to_string(), children: vec![] },
        NodeData { kind: SyntaxKind::Linebreak, text: "\\".to_string(), children: vec![] },
    ];
    let tree = SyntaxTree::new(nodes).expect("well-ordered arena");
    let printer = PrettyPrinter::new(infer_attrs(&tree));
    let raw = typstyle::math_align::collect_aligned(&printer, &tree, 0);
    // the leading comment forms a row of its own and is never merged into
    // an adjacent data cell
    assert!(matches!(raw.rows[0], typstyle::math_align::RawRow::Comment(1)));
    match &raw.rows[1] {
        typstyle::math_align::RawRow::Cells(cells) => {
            assert_eq!(cells.len(), 2);
            for cell in cells {
                assert!(!cell.contains(&1));
            }
        },
        typstyle::math_align::RawRow::Comment(_) => panic!("expected a data row"),
    }
    assert!(raw.has_trailing_backslash);
}

#[test]
fn empty_dict_renders_canonically() {
    assert_eq!(fmt("#(:)"), "#(:)");
    assert_eq!(fmt("#()"), "#()");
    assert_ne!(fmt("#(:)"), fmt("#()"));
}

#[test]
fn measured_cell_widths() {
    let single = Cell::SingleLine("ab".to_string(), 3);
    assert_eq!(single.max_width(), 3);
    assert_eq!(single.width(), 3);
    let multi = Cell::MultiLine(vec![("long".to_string(), 5), ("x".to_string(), 2)]);
    assert_eq!(multi.max_width(), 5);
    assert_eq!(multi.width(), 2);
    assert_eq!(Cell::Empty.max_width(), 0);
    assert_eq!(Cell::Empty.width(), 0);
}

#[test]
fn raw_row_cell_counts() {
    let cells = RawRow::Cells(vec![vec![1, 2], vec![3]]);
    assert_eq!(cells.len(), 2);
    let comment = RawRow::Comment(7);
    assert_eq!(comment.len(), 0);
}
