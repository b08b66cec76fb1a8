//! The syntax tree as the converter consumes it: an index-based arena of
//! immutable nodes, each carrying a kind tag, its leaf text, and the arena
//! indices of its ordered children.  Children always carry indices greater
//! than their parent's, which a well-formedness check establishes once; every
//! recursive walk terminates by that order.  The arena index of a node is
//! also its key into the attribute store.

use vstd::prelude::*;
use crate::strutil::{has_nl, str_has_nl};

verus! {

/// The closed set of syntax constructs the converter distinguishes.  Kinds
/// the layout rules do not inspect map to `Other` and render verbatim.
#[derive(Debug, Clone, Copy, PartialEq, Eq, Structural)]
pub enum SyntaxKind {
    Markup,
    Space,
    Linebreak,
    Parbreak,
    Text,
    Escape,
    Shorthand,
    SmartQuote,
    Strong,
    Emph,
    Raw,
    RawDelim,
    RawLang,
    RawTrimmed,
    Link,
    Label,
    Ref,
    RefMarker,
    Heading,
    HeadingMarker,
    ListItem,
    ListMarker,
    EnumItem,
    EnumMarker,
    TermItem,
    TermMarker,
    Equation,
    Math,
    MathText,
    MathIdent,
    MathFieldAccess,
    MathShorthand,
    MathAlignPoint,
    MathCall,
    MathDelimited,
    MathAttach,
    MathPrimes,
    MathFrac,
    MathRoot,
    Ident,
    NoneLit,
    Auto,
    BoolLit,
    IntLit,
    FloatLit,
    Numeric,
    StrLit,
    CodeBlock,
    Code,
    ContentBlock,
    Parenthesized,
    Array,
    Dict,
    Unary,
    Binary,
    FieldAccess,
    FuncCall,
    Closure,
    LetBinding,
    DestructAssignment,
    SetRule,
    ShowRule,
    Contextual,
    Conditional,
    WhileLoop,
    ForLoop,
    ModuleImport,
    ModuleInclude,
    LoopBreak,
    LoopContinue,
    FuncReturn,
    Args,
    Params,
    Named,
    Keyed,
    Spread,
    Destructuring,
    Underscore,
    ImportItems,
    ImportItemPath,
    RenamedImportItem,
    LineComment,
    BlockComment,
    Hash,
    LeftParen,
    RightParen,
    Colon,
    Star,
    As,
    If,
    Else,
    While,
    For,
    In,
    Not,
    Hat,
    Error,
    Other,
}

/// Is this the kind of an expression construct?
pub open spec fn spec_is_expr_kind(k: SyntaxKind) -> bool {
    ||| k == SyntaxKind::Linebreak
    ||| k == SyntaxKind::Parbreak
    ||| k == SyntaxKind::Text
    ||| k == SyntaxKind::Escape
    ||| k == SyntaxKind::Shorthand
    ||| k == SyntaxKind::SmartQuote
    ||| k == SyntaxKind::Strong
    ||| k == SyntaxKind::Emph
    ||| k == SyntaxKind::Raw
    ||| k == SyntaxKind::Link
    ||| k == SyntaxKind::Label
    ||| k == SyntaxKind::Ref
    ||| k == SyntaxKind::Heading
    ||| k == SyntaxKind::ListItem
    ||| k == SyntaxKind::EnumItem
    ||| k == SyntaxKind::TermItem
    ||| k == SyntaxKind::Equation
    ||| k == SyntaxKind::Math
    ||| k == SyntaxKind::MathText
    ||| k == SyntaxKind::MathIdent
    ||| k == SyntaxKind::MathFieldAccess
    ||| k == SyntaxKind::MathShorthand
    ||| k == SyntaxKind::MathAlignPoint
    ||| k == SyntaxKind::MathCall
    ||| k == SyntaxKind::MathDelimited
    ||| k == SyntaxKind::MathAttach
    ||| k == SyntaxKind::MathPrimes
    ||| k == SyntaxKind::MathFrac
    ||| k == SyntaxKind::MathRoot
    ||| k == SyntaxKind::Ident
    ||| k == SyntaxKind::NoneLit
    ||| k == SyntaxKind::Auto
    ||| k == SyntaxKind::BoolLit
    ||| k == SyntaxKind::IntLit
    ||| k == SyntaxKind::FloatLit
    ||| k == SyntaxKind::Numeric
    ||| k == SyntaxKind::StrLit
    ||| k == SyntaxKind::CodeBlock
    ||| k == SyntaxKind::ContentBlock
    ||| k == SyntaxKind::Parenthesized
    ||| k == SyntaxKind::Array
    ||| k == SyntaxKind::Dict
    ||| k == SyntaxKind::Unary
    ||| k == SyntaxKind::Binary
    ||| k == SyntaxKind::FieldAccess
    ||| k == SyntaxKind::FuncCall
    ||| k == SyntaxKind::Closure
    ||| k == SyntaxKind::LetBinding
    ||| k == SyntaxKind::DestructAssignment
    ||| k == SyntaxKind::SetRule
    ||| k == SyntaxKind::ShowRule
    ||| k == SyntaxKind::Contextual
    ||| k == SyntaxKind::Conditional
    ||| k == SyntaxKind::WhileLoop
    ||| k == SyntaxKind::ForLoop
    ||| k == SyntaxKind::ModuleImport
    ||| k == SyntaxKind::ModuleInclude
    ||| k == SyntaxKind::LoopBreak
    ||| k == SyntaxKind::LoopContinue
    ||| k == SyntaxKind::FuncReturn
}

pub fn is_expr_kind(k: SyntaxKind) -> (b: bool)
    ensures
        b == spec_is_expr_kind(k),
{
    match k {
        SyntaxKind::Linebreak | SyntaxKind::Parbreak | SyntaxKind::Text | SyntaxKind::Escape
        | SyntaxKind::Shorthand | SyntaxKind::SmartQuote | SyntaxKind::Strong | SyntaxKind::Emph
        | SyntaxKind::Raw | SyntaxKind::Link | SyntaxKind::Label | SyntaxKind::Ref
        | SyntaxKind::Heading | SyntaxKind::ListItem | SyntaxKind::EnumItem | SyntaxKind::TermItem
        | SyntaxKind::Equation | SyntaxKind::Math | SyntaxKind::MathText | SyntaxKind::MathIdent
        | SyntaxKind::MathFieldAccess | SyntaxKind::MathShorthand | SyntaxKind::MathAlignPoint
        | SyntaxKind::MathCall | SyntaxKind::MathDelimited | SyntaxKind::MathAttach
        | SyntaxKind::MathPrimes | SyntaxKind::MathFrac | SyntaxKind::MathRoot | SyntaxKind::Ident
        | SyntaxKind::NoneLit | SyntaxKind::Auto | SyntaxKind::BoolLit | SyntaxKind::IntLit
        | SyntaxKind::FloatLit | SyntaxKind::Numeric | SyntaxKind::StrLit | SyntaxKind::CodeBlock
        | SyntaxKind::ContentBlock | SyntaxKind::Parenthesized | SyntaxKind::Array
        | SyntaxKind::Dict | SyntaxKind::Unary | SyntaxKind::Binary | SyntaxKind::FieldAccess
        | SyntaxKind::FuncCall | SyntaxKind::Closure | SyntaxKind::LetBinding
        | SyntaxKind::DestructAssignment | SyntaxKind::SetRule | SyntaxKind::ShowRule
        | SyntaxKind::Contextual | SyntaxKind::Conditional | SyntaxKind::WhileLoop
        | SyntaxKind::ForLoop | SyntaxKind::ModuleImport | SyntaxKind::ModuleInclude
        | SyntaxKind::LoopBreak | SyntaxKind::LoopContinue | SyntaxKind::FuncReturn => true,
        _ => false,
    }
}

/// Is this the kind of a statement, which ends a markup line?
pub open spec fn spec_is_stmt(k: SyntaxKind) -> bool {
    ||| k == SyntaxKind::LetBinding
    ||| k == SyntaxKind::SetRule
    ||| k == SyntaxKind::ShowRule
    ||| k == SyntaxKind::ModuleImport
    ||| k == SyntaxKind::ModuleInclude
}

pub fn is_stmt(k: SyntaxKind) -> (b: bool)
    ensures
        b == spec_is_stmt(k),
{
    match k {
        SyntaxKind::LetBinding | SyntaxKind::SetRule | SyntaxKind::ShowRule
        | SyntaxKind::ModuleImport | SyntaxKind::ModuleInclude => true,
        _ => false,
    }
}

/// Is this the kind of a binding pattern?
pub open spec fn spec_is_pattern_kind(k: SyntaxKind) -> bool {
    ||| spec_is_expr_kind(k)
    ||| k == SyntaxKind::Underscore
    ||| k == SyntaxKind::Destructuring
}

pub fn is_pattern_kind(k: SyntaxKind) -> (b: bool)
    ensures
        b == spec_is_pattern_kind(k),
{
    is_expr_kind(k) || matches!(k, SyntaxKind::Underscore | SyntaxKind::Destructuring)
}

/// Is this the kind of something a parameter list may hold?
pub open spec fn spec_is_param_kind(k: SyntaxKind) -> bool {
    ||| spec_is_pattern_kind(k)
    ||| k == SyntaxKind::Named
    ||| k == SyntaxKind::Spread
}

pub fn is_param_kind(k: SyntaxKind) -> (b: bool)
    ensures
        b == spec_is_param_kind(k),
{
    is_pattern_kind(k) || matches!(k, SyntaxKind::Named | SyntaxKind::Spread)
}

/// Is this an operator token: not an expression, not whitespace, not a
/// comment?
pub open spec fn spec_is_op_token(k: SyntaxKind) -> bool {
    &&& !spec_is_expr_kind(k)
    &&& k != SyntaxKind::Space
    &&& !spec_is_comment(k)
}

pub fn is_op_token(k: SyntaxKind) -> (b: bool)
    ensures
        b == spec_is_op_token(k),
{
    !is_expr_kind(k) && !matches!(k, SyntaxKind::Space | SyntaxKind::LineComment | SyntaxKind::BlockComment)
}

/// Is this a comment token?
pub open spec fn spec_is_comment(k: SyntaxKind) -> bool {
    k == SyntaxKind::LineComment || k == SyntaxKind::BlockComment
}

pub fn is_comment(k: SyntaxKind) -> (b: bool)
    ensures
        b == spec_is_comment(k),
{
    matches!(k, SyntaxKind::LineComment | SyntaxKind::BlockComment)
}

/// One node of the arena: its kind, its leaf text (empty for inner nodes),
/// and the arena indices of its children in source order.
#[derive(Debug, Clone)]
pub struct NodeData {
    pub kind: SyntaxKind,
    pub text: String,
    pub children: Vec<usize>,
}

/// Every child index points further right in the arena and stays in range.
pub open spec fn tree_wf(t: Seq<NodeData>) -> bool {
    forall|i: int, k: int|
        0 <= i < t.len() && 0 <= k < t[i].children@.len() ==> i < #[trigger] t[i].children@[k]
            < t.len()
}

/// A parsed file as an arena of nodes; index 0 is the root.
#[derive(Debug)]
pub struct SyntaxTree {
    pub nodes: Vec<NodeData>,
}

impl SyntaxTree {
    /// The arena is well-formed: all child links point rightwards, in range.
    pub open spec fn wf(&self) -> bool {
        tree_wf(self.nodes@)
    }

    /// Wrap a node table, after checking that its child links are in order.
    pub fn new(nodes: Vec<NodeData>) -> (r: Option<SyntaxTree>)
        ensures
            match r {
                Some(t) => t.wf() && t.nodes@ == nodes@,
                None => !tree_wf(nodes@),
            },
    {
        let n = nodes.len();
        let mut i: usize = 0;
        while i < n
            invariant
                i <= n,
                n == nodes@.len(),
                forall|a: int, k: int|
                    0 <= a < i && 0 <= k < nodes@[a].children@.len() ==> a
                        < #[trigger] nodes@[a].children@[k] < n,
            decreases n - i,
        {
            let m = nodes[i].children.len();
            let mut k: usize = 0;
            while k < m
                invariant
                    k <= m,
                    i < n,
                    n == nodes@.len(),
                    m == nodes@[i as int].children@.len(),
                    forall|q: int|
                        0 <= q < k ==> i < #[trigger] nodes@[i as int].children@[q] < n,
                decreases m - k,
            {
                let c = nodes[i].children[k];
                if c <= i || c >= n {
                    return None;
                }
                k = k + 1;
            }
            i = i + 1;
        }
        Some(SyntaxTree { nodes })
    }

    /// Number of nodes.
    pub fn len(&self) -> (r: usize)
        ensures
            r == self.nodes@.len(),
    {
        self.nodes.len()
    }

    /// The kind of node `i`.
    pub fn kind(&self, i: usize) -> (r: SyntaxKind)
        requires
            i < self.nodes@.len(),
        ensures
            r == self.nodes@[i as int].kind,
    {
        self.nodes[i].kind
    }

    /// The leaf text of node `i`.
    pub fn text(&self, i: usize) -> (r: &str)
        requires
            i < self.nodes@.len(),
        ensures
            r@ == self.nodes@[i as int].text@,
    {
        self.nodes[i].text.as_str()
    }

    /// Number of children of node `i`.
    pub fn num_children(&self, i: usize) -> (r: usize)
        requires
            i < self.nodes@.len(),
        ensures
            r == self.nodes@[i as int].children@.len(),
    {
        self.nodes[i].children.len()
    }

    /// The `k`-th child of node `i`.
    pub fn child(&self, i: usize, k: usize) -> (r: usize)
        requires
            self.wf(),
            i < self.nodes@.len(),
            k < self.nodes@[i as int].children@.len(),
        ensures
            r == self.nodes@[i as int].children@[k as int],
            i < r < self.nodes@.len(),
    {
        self.nodes[i].children[k]
    }
}

/// First position at or after `j` in `cs` whose node has kind `k`.
pub open spec fn sfind_kind(t: Seq<NodeData>, cs: Seq<usize>, k: SyntaxKind, j: int) -> Option<int>
    decreases cs.len() - j,
{
    if j < 0 || j >= cs.len() {
        Option::None
    } else if 0 <= cs[j] < t.len() && t[cs[j] as int].kind == k {
        Option::Some(j)
    } else {
        sfind_kind(t, cs, k, j + 1)
    }
}

/// Last position at or before `j` in `cs` whose node has kind `k`.
pub open spec fn sfind_back_kind(t: Seq<NodeData>, cs: Seq<usize>, k: SyntaxKind, j: int) -> Option<int>
    decreases j + 1,
{
    if j < 0 || j >= cs.len() {
        Option::None
    } else if 0 <= cs[j] < t.len() && t[cs[j] as int].kind == k {
        Option::Some(j)
    } else {
        sfind_back_kind(t, cs, k, j - 1)
    }
}

pub proof fn lemma_sfind_kind_found(t: Seq<NodeData>, cs: Seq<usize>, k: SyntaxKind, j: int, m: int)
    requires
        0 <= j <= m < cs.len(),
        0 <= cs[m] < t.len(),
        t[cs[m] as int].kind == k,
        forall|q: int| j <= q < m ==> !(0 <= cs[q] < t.len() && (#[trigger] t[cs[q] as int]).kind == k),
    ensures
        sfind_kind(t, cs, k, j) == Option::Some(m),
    decreases m - j,
{
    if j < m {
        lemma_sfind_kind_found(t, cs, k, j + 1, m);
    }
}

pub proof fn lemma_sfind_kind_none(t: Seq<NodeData>, cs: Seq<usize>, k: SyntaxKind, j: int)
    requires
        forall|q: int| j <= q < cs.len() ==> !(0 <= cs[q] < t.len() && (#[trigger] t[cs[q] as int]).kind == k),
    ensures
        sfind_kind(t, cs, k, j) is None,
    decreases cs.len() - j,
{
    if 0 <= j && j < cs.len() {
        lemma_sfind_kind_none(t, cs, k, j + 1);
    }
}

pub proof fn lemma_sfind_back_kind_found(t: Seq<NodeData>, cs: Seq<usize>, k: SyntaxKind, j: int, m: int)
    requires
        0 <= m <= j < cs.len(),
        0 <= cs[m] < t.len(),
        t[cs[m] as int].kind == k,
        forall|q: int| m < q <= j ==> !(0 <= cs[q] < t.len() && (#[trigger] t[cs[q] as int]).kind == k),
    ensures
        sfind_back_kind(t, cs, k, j) == Option::Some(m),
    decreases j - m,
{
    if m < j {
        lemma_sfind_back_kind_found(t, cs, k, j - 1, m);
    }
}

pub proof fn lemma_sfind_back_kind_none(t: Seq<NodeData>, cs: Seq<usize>, k: SyntaxKind, j: int)
    requires
        forall|q: int| 0 <= q <= j ==> !(0 <= cs[q] < t.len() && (#[trigger] t[cs[q] as int]).kind == k),
    ensures
        sfind_back_kind(t, cs, k, j) is None,
    decreases j + 1,
{
    if 0 <= j && j < cs.len() {
        lemma_sfind_back_kind_none(t, cs, k, j - 1);
    }
}

/// First position at or after `j` in `cs` whose node is an expression.
pub open spec fn sfind_expr(t: Seq<NodeData>, cs: Seq<usize>, j: int) -> Option<int>
    decreases cs.len() - j,
{
    if j < 0 || j >= cs.len() {
        Option::None
    } else if 0 <= cs[j] < t.len() && spec_is_expr_kind(t[cs[j] as int].kind) {
        Option::Some(j)
    } else {
        sfind_expr(t, cs, j + 1)
    }
}

/// Last position at or before `j` in `cs` whose node is an expression.
pub open spec fn sfind_back_expr(t: Seq<NodeData>, cs: Seq<usize>, j: int) -> Option<int>
    decreases j + 1,
{
    if j < 0 || j >= cs.len() {
        Option::None
    } else if 0 <= cs[j] < t.len() && spec_is_expr_kind(t[cs[j] as int].kind) {
        Option::Some(j)
    } else {
        sfind_back_expr(t, cs, j - 1)
    }
}

pub proof fn lemma_sfind_expr_found(t: Seq<NodeData>, cs: Seq<usize>, j: int, m: int)
    requires
        0 <= j <= m < cs.len(),
        0 <= cs[m] < t.len(),
        spec_is_expr_kind(t[cs[m] as int].kind),
        forall|q: int| j <= q < m ==> !(0 <= cs[q] < t.len() && spec_is_expr_kind((#[trigger] t[cs[q] as int]).kind)),
    ensures
        sfind_expr(t, cs, j) == Option::Some(m),
    decreases m - j,
{
    if j < m {
        lemma_sfind_expr_found(t, cs, j + 1, m);
    }
}

pub proof fn lemma_sfind_expr_none(t: Seq<NodeData>, cs: Seq<usize>, j: int)
    requires
        forall|q: int| j <= q < cs.len() ==> !(0 <= cs[q] < t.len() && spec_is_expr_kind((#[trigger] t[cs[q] as int]).kind)),
    ensures
        sfind_expr(t, cs, j) is None,
    decreases cs.len() - j,
{
    if 0 <= j && j < cs.len() {
        lemma_sfind_expr_none(t, cs, j + 1);
    }
}

pub proof fn lemma_sfind_back_expr_found(t: Seq<NodeData>, cs: Seq<usize>, j: int, m: int)
    requires
        0 <= m <= j < cs.len(),
        0 <= cs[m] < t.len(),
        spec_is_expr_kind(t[cs[m] as int].kind),
        forall|q: int| m < q <= j ==> !(0 <= cs[q] < t.len() && spec_is_expr_kind((#[trigger] t[cs[q] as int]).kind)),
    ensures
        sfind_back_expr(t, cs, j) == Option::Some(m),
    decreases j - m,
{
    if m < j {
        lemma_sfind_back_expr_found(t, cs, j - 1, m);
    }
}

pub proof fn lemma_sfind_back_expr_none(t: Seq<NodeData>, cs: Seq<usize>, j: int)
    requires
        forall|q: int| 0 <= q <= j ==> !(0 <= cs[q] < t.len() && spec_is_expr_kind((#[trigger] t[cs[q] as int]).kind)),
    ensures
        sfind_back_expr(t, cs, j) is None,
    decreases j + 1,
{
    if 0 <= j && j < cs.len() {
        lemma_sfind_back_expr_none(t, cs, j - 1);
    }
}

/// First position at or after `j` in `cs` whose node is an operator token.
pub open spec fn sfind_op(t: Seq<NodeData>, cs: Seq<usize>, j: int) -> Option<int>
    decreases cs.len() - j,
{
    if j < 0 || j >= cs.len() {
        Option::None
    } else if 0 <= cs[j] < t.len() && spec_is_op_token(t[cs[j] as int].kind) {
        Option::Some(j)
    } else {
        sfind_op(t, cs, j + 1)
    }
}

/// Last position at or before `j` in `cs` whose node is an operator token.
pub open spec fn sfind_back_op(t: Seq<NodeData>, cs: Seq<usize>, j: int) -> Option<int>
    decreases j + 1,
{
    if j < 0 || j >= cs.len() {
        Option::None
    } else if 0 <= cs[j] < t.len() && spec_is_op_token(t[cs[j] as int].kind) {
        Option::Some(j)
    } else {
        sfind_back_op(t, cs, j - 1)
    }
}

pub proof fn lemma_sfind_op_found(t: Seq<NodeData>, cs: Seq<usize>, j: int, m: int)
    requires
        0 <= j <= m < cs.len(),
        0 <= cs[m] < t.len(),
        spec_is_op_token(t[cs[m] as int].kind),
        forall|q: int| j <= q < m ==> !(0 <= cs[q] < t.len() && spec_is_op_token((#[trigger] t[cs[q] as int]).kind)),
    ensures
        sfind_op(t, cs, j) == Option::Some(m),
    decreases m - j,
{
    if j < m {
        lemma_sfind_op_found(t, cs, j + 1, m);
    }
}

pub proof fn lemma_sfind_op_none(t: Seq<NodeData>, cs: Seq<usize>, j: int)
    requires
        forall|q: int| j <= q < cs.len() ==> !(0 <= cs[q] < t.len() && spec_is_op_token((#[trigger] t[cs[q] as int]).kind)),
    ensures
        sfind_op(t, cs, j) is None,
    decreases cs.len() - j,
{
    if 0 <= j && j < cs.len() {
        lemma_sfind_op_none(t, cs, j + 1);
    }
}

pub proof fn lemma_sfind_back_op_found(t: Seq<NodeData>, cs: Seq<usize>, j: int, m: int)
    requires
        0 <= m <= j < cs.len(),
        0 <= cs[m] < t.len(),
        spec_is_op_token(t[cs[m] as int].kind),
        forall|q: int| m < q <= j ==> !(0 <= cs[q] < t.len() && spec_is_op_token((#[trigger] t[cs[q] as int]).kind)),
    ensures
        sfind_back_op(t, cs, j) == Option::Some(m),
    decreases j - m,
{
    if m < j {
        lemma_sfind_back_op_found(t, cs, j - 1, m);
    }
}

pub proof fn lemma_sfind_back_op_none(t: Seq<NodeData>, cs: Seq<usize>, j: int)
    requires
        forall|q: int| 0 <= q <= j ==> !(0 <= cs[q] < t.len() && spec_is_op_token((#[trigger] t[cs[q] as int]).kind)),
    ensures
        sfind_back_op(t, cs, j) is None,
    decreases j + 1,
{
    if 0 <= j && j < cs.len() {
        lemma_sfind_back_op_none(t, cs, j - 1);
    }
}

/// First position at or after `j` in `cs` whose node may stand in a parameter list.
pub open spec fn sfind_prm(t: Seq<NodeData>, cs: Seq<usize>, j: int) -> Option<int>
    decreases cs.len() - j,
{
    if j < 0 || j >= cs.len() {
        Option::None
    } else if 0 <= cs[j] < t.len() && spec_is_param_kind(t[cs[j] as int].kind) {
        Option::Some(j)
    } else {
        sfind_prm(t, cs, j + 1)
    }
}

/// Last position at or before `j` in `cs` whose node may stand in a parameter list.
pub open spec fn sfind_back_prm(t: Seq<NodeData>, cs: Seq<usize>, j: int) -> Option<int>
    decreases j + 1,
{
    if j < 0 || j >= cs.len() {
        Option::None
    } else if 0 <= cs[j] < t.len() && spec_is_param_kind(t[cs[j] as int].kind) {
        Option::Some(j)
    } else {
        sfind_back_prm(t, cs, j - 1)
    }
}

pub proof fn lemma_sfind_prm_found(t: Seq<NodeData>, cs: Seq<usize>, j: int, m: int)
    requires
        0 <= j <= m < cs.len(),
        0 <= cs[m] < t.len(),
        spec_is_param_kind(t[cs[m] as int].kind),
        forall|q: int| j <= q < m ==> !(0 <= cs[q] < t.len() && spec_is_param_kind((#[trigger] t[cs[q] as int]).kind)),
    ensures
        sfind_prm(t, cs, j) == Option::Some(m),
    decreases m - j,
{
    if j < m {
        lemma_sfind_prm_found(t, cs, j + 1, m);
    }
}

pub proof fn lemma_sfind_prm_none(t: Seq<NodeData>, cs: Seq<usize>, j: int)
    requires
        forall|q: int| j <= q < cs.len() ==> !(0 <= cs[q] < t.len() && spec_is_param_kind((#[trigger] t[cs[q] as int]).kind)),
    ensures
        sfind_prm(t, cs, j) is None,
    decreases cs.len() - j,
{
    if 0 <= j && j < cs.len() {
        lemma_sfind_prm_none(t, cs, j + 1);
    }
}

pub proof fn lemma_sfind_back_prm_found(t: Seq<NodeData>, cs: Seq<usize>, j: int, m: int)
    requires
        0 <= m <= j < cs.len(),
        0 <= cs[m] < t.len(),
        spec_is_param_kind(t[cs[m] as int].kind),
        forall|q: int| m < q <= j ==> !(0 <= cs[q] < t.len() && spec_is_param_kind((#[trigger] t[cs[q] as int]).kind)),
    ensures
        sfind_back_prm(t, cs, j) == Option::Some(m),
    decreases j - m,
{
    if m < j {
        lemma_sfind_back_prm_found(t, cs, j - 1, m);
    }
}

pub proof fn lemma_sfind_back_prm_none(t: Seq<NodeData>, cs: Seq<usize>, j: int)
    requires
        forall|q: int| 0 <= q <= j ==> !(0 <= cs[q] < t.len() && spec_is_param_kind((#[trigger] t[cs[q] as int]).kind)),
    ensures
        sfind_back_prm(t, cs, j) is None,
    decreases j + 1,
{
    if 0 <= j && j < cs.len() {
        lemma_sfind_back_prm_none(t, cs, j - 1);
    }
}

/// First position at or after `j` in `cs` whose node is a binding pattern.
pub open spec fn sfind_pat(t: Seq<NodeData>, cs: Seq<usize>, j: int) -> Option<int>
    decreases cs.len() - j,
{
    if j < 0 || j >= cs.len() {
        Option::None
    } else if 0 <= cs[j] < t.len() && spec_is_pattern_kind(t[cs[j] as int].kind) {
        Option::Some(j)
    } else {
        sfind_pat(t, cs, j + 1)
    }
}

/// Last position at or before `j` in `cs` whose node is a binding pattern.
pub open spec fn sfind_back_pat(t: Seq<NodeData>, cs: Seq<usize>, j: int) -> Option<int>
    decreases j + 1,
{
    if j < 0 || j >= cs.len() {
        Option::None
    } else if 0 <= cs[j] < t.len() && spec_is_pattern_kind(t[cs[j] as int].kind) {
        Option::Some(j)
    } else {
        sfind_back_pat(t, cs, j - 1)
    }
}

pub proof fn lemma_sfind_pat_found(t: Seq<NodeData>, cs: Seq<usize>, j: int, m: int)
    requires
        0 <= j <= m < cs.len(),
        0 <= cs[m] < t.len(),
        spec_is_pattern_kind(t[cs[m] as int].kind),
        forall|q: int| j <= q < m ==> !(0 <= cs[q] < t.len() && spec_is_pattern_kind((#[trigger] t[cs[q] as int]).kind)),
    ensures
        sfind_pat(t, cs, j) == Option::Some(m),
    decreases m - j,
{
    if j < m {
        lemma_sfind_pat_found(t, cs, j + 1, m);
    }
}

pub proof fn lemma_sfind_pat_none(t: Seq<NodeData>, cs: Seq<usize>, j: int)
    requires
        forall|q: int| j <= q < cs.len() ==> !(0 <= cs[q] < t.len() && spec_is_pattern_kind((#[trigger] t[cs[q] as int]).kind)),
    ensures
        sfind_pat(t, cs, j) is None,
    decreases cs.len() - j,
{
    if 0 <= j && j < cs.len() {
        lemma_sfind_pat_none(t, cs, j + 1);
    }
}

pub proof fn lemma_sfind_back_pat_found(t: Seq<NodeData>, cs: Seq<usize>, j: int, m: int)
    requires
        0 <= m <= j < cs.len(),
        0 <= cs[m] < t.len(),
        spec_is_pattern_kind(t[cs[m] as int].kind),
        forall|q: int| m < q <= j ==> !(0 <= cs[q] < t.len() && spec_is_pattern_kind((#[trigger] t[cs[q] as int]).kind)),
    ensures
        sfind_back_pat(t, cs, j) == Option::Some(m),
    decreases j - m,
{
    if m < j {
        lemma_sfind_back_pat_found(t, cs, j - 1, m);
    }
}

pub proof fn lemma_sfind_back_pat_none(t: Seq<NodeData>, cs: Seq<usize>, j: int)
    requires
        forall|q: int| 0 <= q <= j ==> !(0 <= cs[q] < t.len() && spec_is_pattern_kind((#[trigger] t[cs[q] as int]).kind)),
    ensures
        sfind_back_pat(t, cs, j) is None,
    decreases j + 1,
{
    if 0 <= j && j < cs.len() {
        lemma_sfind_back_pat_none(t, cs, j - 1);
    }
}

/// A found position lies inside the child list.
pub broadcast proof fn lemma_sfind_kind_bound(t: Seq<NodeData>, cs: Seq<usize>, k: SyntaxKind, j: int)
    ensures
        (#[trigger] sfind_kind(t, cs, k, j)) matches Option::Some(b) ==> 0 <= b < cs.len(),
    decreases cs.len() - j,
{
    if !(j < 0 || j >= cs.len()) {
        lemma_sfind_kind_bound(t, cs, k, j + 1);
    }
}

/// A found position lies inside the child list.
pub broadcast proof fn lemma_sfind_expr_bound(t: Seq<NodeData>, cs: Seq<usize>, j: int)
    ensures
        (#[trigger] sfind_expr(t, cs, j)) matches Option::Some(b) ==> 0 <= b < cs.len(),
    decreases cs.len() - j,
{
    if !(j < 0 || j >= cs.len()) {
        lemma_sfind_expr_bound(t, cs, j + 1);
    }
}

/// A found position lies inside the child list.
pub broadcast proof fn lemma_sfind_pat_bound(t: Seq<NodeData>, cs: Seq<usize>, j: int)
    ensures
        (#[trigger] sfind_pat(t, cs, j)) matches Option::Some(b) ==> 0 <= b < cs.len(),
    decreases cs.len() - j,
{
    if !(j < 0 || j >= cs.len()) {
        lemma_sfind_pat_bound(t, cs, j + 1);
    }
}

/// A found position lies inside the child list.
pub broadcast proof fn lemma_sfind_prm_bound(t: Seq<NodeData>, cs: Seq<usize>, j: int)
    ensures
        (#[trigger] sfind_prm(t, cs, j)) matches Option::Some(b) ==> 0 <= b < cs.len(),
    decreases cs.len() - j,
{
    if !(j < 0 || j >= cs.len()) {
        lemma_sfind_prm_bound(t, cs, j + 1);
    }
}

/// A found position lies inside the child list.
pub broadcast proof fn lemma_sfind_op_bound(t: Seq<NodeData>, cs: Seq<usize>, j: int)
    ensures
        (#[trigger] sfind_op(t, cs, j)) matches Option::Some(b) ==> 0 <= b < cs.len(),
    decreases cs.len() - j,
{
    if !(j < 0 || j >= cs.len()) {
        lemma_sfind_op_bound(t, cs, j + 1);
    }
}

/// A found position lies inside the child list.
pub broadcast proof fn lemma_sfind_back_kind_bound(t: Seq<NodeData>, cs: Seq<usize>, k: SyntaxKind, j: int)
    ensures
        (#[trigger] sfind_back_kind(t, cs, k, j)) matches Option::Some(b) ==> 0 <= b < cs.len(),
    decreases j + 1,
{
    if !(j < 0 || j >= cs.len()) {
        lemma_sfind_back_kind_bound(t, cs, k, j - 1);
    }
}

/// A found position lies inside the child list.
pub broadcast proof fn lemma_sfind_back_expr_bound(t: Seq<NodeData>, cs: Seq<usize>, j: int)
    ensures
        (#[trigger] sfind_back_expr(t, cs, j)) matches Option::Some(b) ==> 0 <= b < cs.len(),
    decreases j + 1,
{
    if !(j < 0 || j >= cs.len()) {
        lemma_sfind_back_expr_bound(t, cs, j - 1);
    }
}

/// Does node `i` have a child of kind `k`?
pub open spec fn spec_has_child_kind(t: Seq<NodeData>, i: int, k: SyntaxKind) -> bool {
    exists|q: int|
        0 <= q < t[i].children@.len() && 0 <= t[i].children@[q] < t.len() && (#[trigger] t[(
        t[i].children@[q]) as int]).kind == k
}

/// Verbatim source text of the subtree rooted at `i`: its leaf text for a
/// leaf, the concatenation of its children's source text otherwise.
pub open spec fn src_text(t: Seq<NodeData>, i: int) -> Seq<char>
    decreases t.len() - i, t[i].children@.len() + 1,
{
    if !(tree_wf(t) && 0 <= i < t.len()) {
        Seq::empty()
    } else if t[i].children@.len() == 0 {
        t[i].text@
    } else {
        src_text_children(t, i, 0)
    }
}

/// Concatenated source text of children `k..` of node `i`.
pub open spec fn src_text_children(t: Seq<NodeData>, i: int, k: int) -> Seq<char>
    decreases t.len() - i, t[i].children@.len() - k,
{
    if !(tree_wf(t) && 0 <= i < t.len() && 0 <= k) {
        Seq::empty()
    } else if k >= t[i].children@.len() {
        Seq::empty()
    } else {
        src_text(t, t[i].children@[k] as int) + src_text_children(t, i, k + 1)
    }
}

impl SyntaxTree {
    fn source_text_into(&self, i: usize, out: &mut String)
        requires
            self.wf(),
            i < self.nodes@.len(),
        ensures
            final(out)@ == old(out)@ + src_text(self.nodes@, i as int),
        decreases self.nodes@.len() - i,
    {
        let ghost t = self.nodes@;
        let n = self.num_children(i);
        if n == 0 {
            out.append(self.text(i));
        } else {
            let mut k: usize = 0;
            proof {
                assert(out@ + src_text_children(t, i as int, 0) =~= old(out)@
                    + src_text_children(t, i as int, 0));
            }
            while k < n
                invariant
                    k <= n,
                    self.wf(),
                    i < self.nodes@.len(),
                    t == self.nodes@,
                    n == t[i as int].children@.len(),
                    out@ + src_text_children(t, i as int, k as int) == old(out)@
                        + src_text_children(t, i as int, 0),
                decreases n - k,
            {
                let c = self.child(i, k);
                self.source_text_into(c, out);
                proof {
                    assert(out@ + src_text_children(t, i as int, k + 1) =~= old(out)@
                        + src_text_children(t, i as int, 0));
                }
                k = k + 1;
            }
        }
    }

    /// Verbatim source text of the subtree rooted at `i`.
    pub fn source_text(&self, i: usize) -> (r: String)
        requires
            self.wf(),
            i < self.nodes@.len(),
        ensures
            r@ == src_text(self.nodes@, i as int),
    {
        let mut out = String::new();
        self.source_text_into(i, &mut out);
        out
    }

    /// Position of the first child of `i` at or after position `from`
    /// that has kind `k`.
    pub fn find_kind_from(&self, i: usize, k: SyntaxKind, from: usize) -> (r: Option<usize>)
        requires
            self.wf(),
            i < self.nodes@.len(),
        ensures
            ({
                let s = sfind_kind(self.nodes@, self.nodes@[i as int].children@, k, from as int);
                match r {
                    Option::Some(p) => s == Option::Some(p as int) && p
                        < self.nodes@[i as int].children@.len(),
                    Option::None => s is None,
                }
            }),
    {
        let ghost t = self.nodes@;
        let ghost cs = self.nodes@[i as int].children@;
        let n = self.num_children(i);
        let mut j = from;
        while j < n
            invariant
                from <= j <= n || (from > n && j == from),
                self.wf(),
                i < t.len(),
                t == self.nodes@,
                cs == t[i as int].children@,
                n == cs.len(),
                forall|q: int|
                    from <= q < j ==> !(0 <= cs[q] < t.len() && ((#[trigger] t[cs[q] as int]).kind == k)),
            decreases n - j,
        {
            let c = self.child(i, j);
            if self.kind(c) == k {
                proof {
                    lemma_sfind_kind_found(t, cs, k, from as int, j as int);
                }
                return Option::Some(j);
            }
            j = j + 1;
        }
        proof {
            lemma_sfind_kind_none(t, cs, k, from as int);
        }
        Option::None
    }

    /// Position of the first child of `i` at or after position `from`
    /// that is an expression.
    pub fn find_expr_from(&self, i: usize, from: usize) -> (r: Option<usize>)
        requires
            self.wf(),
            i < self.nodes@.len(),
        ensures
            ({
                let s = sfind_expr(self.nodes@, self.nodes@[i as int].children@, from as int);
                match r {
                    Option::Some(p) => s == Option::Some(p as int) && p
                        < self.nodes@[i as int].children@.len(),
                    Option::None => s is None,
                }
            }),
    {
        let ghost t = self.nodes@;
        let ghost cs = self.nodes@[i as int].children@;
        let n = self.num_children(i);
        let mut j = from;
        while j < n
            invariant
                from <= j <= n || (from > n && j == from),
                self.wf(),
                i < t.len(),
                t == self.nodes@,
                cs == t[i as int].children@,
                n == cs.len(),
                forall|q: int|
                    from <= q < j ==> !(0 <= cs[q] < t.len() && spec_is_expr_kind((#[trigger] t[cs[q] as int]).kind)),
            decreases n - j,
        {
            let c = self.child(i, j);
            if is_expr_kind(self.kind(c)) {
                proof {
                    lemma_sfind_expr_found(t, cs, from as int, j as int);
                }
                return Option::Some(j);
            }
            j = j + 1;
        }
        proof {
            lemma_sfind_expr_none(t, cs, from as int);
        }
        Option::None
    }

    /// Position of the first child of `i` at or after position `from`
    /// that is an operator token.
    pub fn find_op_from(&self, i: usize, from: usize) -> (r: Option<usize>)
        requires
            self.wf(),
            i < self.nodes@.len(),
        ensures
            ({
                let s = sfind_op(self.nodes@, self.nodes@[i as int].children@, from as int);
                match r {
                    Option::Some(p) => s == Option::Some(p as int) && p
                        < self.nodes@[i as int].children@.len(),
                    Option::None => s is None,
                }
            }),
    {
        let ghost t = self.nodes@;
        let ghost cs = self.nodes@[i as int].children@;
        let n = self.num_children(i);
        let mut j = from;
        while j < n
            invariant
                from <= j <= n || (from > n && j == from),
                self.wf(),
                i < t.len(),
                t == self.nodes@,
                cs == t[i as int].children@,
                n == cs.len(),
                forall|q: int|
                    from <= q < j ==> !(0 <= cs[q] < t.len() && spec_is_op_token((#[trigger] t[cs[q] as int]).kind)),
            decreases n - j,
        {
            let c = self.child(i, j);
            if is_op_token(self.kind(c)) {
                proof {
                    lemma_sfind_op_found(t, cs, from as int, j as int);
                }
                return Option::Some(j);
            }
            j = j + 1;
        }
        proof {
            lemma_sfind_op_none(t, cs, from as int);
        }
        Option::None
    }

    /// Position of the first child of `i` at or after position `from`
    /// that is a parameter item.
    pub fn find_prm_from(&self, i: usize, from: usize) -> (r: Option<usize>)
        requires
            self.wf(),
            i < self.nodes@.len(),
        ensures
            ({
                let s = sfind_prm(self.nodes@, self.nodes@[i as int].children@, from as int);
                match r {
                    Option::Some(p) => s == Option::Some(p as int) && p
                        < self.nodes@[i as int].children@.len(),
                    Option::None => s is None,
                }
            }),
    {
        let ghost t = self.nodes@;
        let ghost cs = self.nodes@[i as int].children@;
        let n = self.num_children(i);
        let mut j = from;
        while j < n
            invariant
                from <= j <= n || (from > n && j == from),
                self.wf(),
                i < t.len(),
                t == self.nodes@,
                cs == t[i as int].children@,
                n == cs.len(),
                forall|q: int|
                    from <= q < j ==> !(0 <= cs[q] < t.len() && spec_is_param_kind((#[trigger] t[cs[q] as int]).kind)),
            decreases n - j,
        {
            let c = self.child(i, j);
            if is_param_kind(self.kind(c)) {
                proof {
                    lemma_sfind_prm_found(t, cs, from as int, j as int);
                }
                return Option::Some(j);
            }
            j = j + 1;
        }
        proof {
            lemma_sfind_prm_none(t, cs, from as int);
        }
        Option::None
    }

    /// Position of the first child of `i` at or after position `from`
    /// that is a binding pattern.
    pub fn find_pattern_from(&self, i: usize, from: usize) -> (r: Option<usize>)
        requires
            self.wf(),
            i < self.nodes@.len(),
        ensures
            ({
                let s = sfind_pat(self.nodes@, self.nodes@[i as int].children@, from as int);
                match r {
                    Option::Some(p) => s == Option::Some(p as int) && p
                        < self.nodes@[i as int].children@.len(),
                    Option::None => s is None,
                }
            }),
    {
        let ghost t = self.nodes@;
        let ghost cs = self.nodes@[i as int].children@;
        let n = self.num_children(i);
        let mut j = from;
        while j < n
            invariant
                from <= j <= n || (from > n && j == from),
                self.wf(),
                i < t.len(),
                t == self.nodes@,
                cs == t[i as int].children@,
                n == cs.len(),
                forall|q: int|
                    from <= q < j ==> !(0 <= cs[q] < t.len() && spec_is_pattern_kind((#[trigger] t[cs[q] as int]).kind)),
            decreases n - j,
        {
            let c = self.child(i, j);
            if is_pattern_kind(self.kind(c)) {
                proof {
                    lemma_sfind_pat_found(t, cs, from as int, j as int);
                }
                return Option::Some(j);
            }
            j = j + 1;
        }
        proof {
            lemma_sfind_pat_none(t, cs, from as int);
        }
        Option::None
    }

    /// Position of the last child of `i` that has kind `k`.
    pub fn rfind_kind(&self, i: usize, k: SyntaxKind) -> (r: Option<usize>)
        requires
            self.wf(),
            i < self.nodes@.len(),
        ensures
            ({
                let cs = self.nodes@[i as int].children@;
                let s = sfind_back_kind(self.nodes@, cs, k, cs.len() - 1);
                match r {
                    Option::Some(p) => s == Option::Some(p as int) && p < cs.len(),
                    Option::None => s is None,
                }
            }),
    {
        let ghost t = self.nodes@;
        let ghost cs = self.nodes@[i as int].children@;
        let n = self.num_children(i);
        let mut j = n;
        while j > 0
            invariant
                j <= n,
                self.wf(),
                i < t.len(),
                t == self.nodes@,
                cs == t[i as int].children@,
                n == cs.len(),
                forall|q: int|
                    j <= q < n ==> !(0 <= cs[q] < t.len() && ((#[trigger] t[cs[q] as int]).kind == k)),
            decreases j,
        {
            j = j - 1;
            let c = self.child(i, j);
            if self.kind(c) == k {
                proof {
                    lemma_sfind_back_kind_found(t, cs, k, cs.len() - 1, j as int);
                }
                return Option::Some(j);
            }
        }
        proof {
            lemma_sfind_back_kind_none(t, cs, k, cs.len() - 1);
        }
        Option::None
    }

    /// Position of the last child of `i` that is an expression.
    pub fn rfind_expr(&self, i: usize, ) -> (r: Option<usize>)
        requires
            self.wf(),
            i < self.nodes@.len(),
        ensures
            ({
                let cs = self.nodes@[i as int].children@;
                let s = sfind_back_expr(self.nodes@, cs, cs.len() - 1);
                match r {
                    Option::Some(p) => s == Option::Some(p as int) && p < cs.len(),
                    Option::None => s is None,
                }
            }),
    {
        let ghost t = self.nodes@;
        let ghost cs = self.nodes@[i as int].children@;
        let n = self.num_children(i);
        let mut j = n;
        while j > 0
            invariant
                j <= n,
                self.wf(),
                i < t.len(),
                t == self.nodes@,
                cs == t[i as int].children@,
                n == cs.len(),
                forall|q: int|
                    j <= q < n ==> !(0 <= cs[q] < t.len() && spec_is_expr_kind((#[trigger] t[cs[q] as int]).kind)),
            decreases j,
        {
            j = j - 1;
            let c = self.child(i, j);
            if is_expr_kind(self.kind(c)) {
                proof {
                    lemma_sfind_back_expr_found(t, cs, cs.len() - 1, j as int);
                }
                return Option::Some(j);
            }
        }
        proof {
            lemma_sfind_back_expr_none(t, cs, cs.len() - 1);
        }
        Option::None
    }

    /// Does node `i` have a child of kind `k`?
    pub fn has_child_kind(&self, i: usize, k: SyntaxKind) -> (b: bool)
        requires
            self.wf(),
            i < self.nodes@.len(),
        ensures
            b == spec_has_child_kind(self.nodes@, i as int, k),
    {
        let ghost t = self.nodes@;
        let ghost cs = self.nodes@[i as int].children@;
        let n = self.num_children(i);
        let mut j: usize = 0;
        while j < n
            invariant
                j <= n,
                self.wf(),
                i < t.len(),
                t == self.nodes@,
                cs == t[i as int].children@,
                n == cs.len(),
                forall|q: int|
                    0 <= q < j ==> !(0 <= cs[q] < t.len() && (#[trigger] t[(cs[q]) as int]).kind
                        == k),
            decreases n - j,
        {
            let c = self.child(i, j);
            if self.kind(c) == k {
                return true;
            }
            j = j + 1;
        }
        false
    }

    /// Does the leaf text of node `i` contain a newline?
    pub fn text_has_nl(&self, i: usize) -> (b: bool)
        requires
            i < self.nodes@.len(),
        ensures
            b == has_nl(self.nodes@[i as int].text@),
    {
        str_has_nl(self.text(i))
    }
}

} // verus!
