//! The formatting context: an immutable snapshot of the current syntactic
//! mode and alignment permission, passed by value into each recursive
//! conversion call.  A child that needs different settings derives a new
//! value instead of mutating shared state, so restoration on every exit
//! path is automatic.

use vstd::prelude::*;

verus! {

/// Current syntactic mode.
#[derive(Debug, Default, Clone, Copy, PartialEq, Eq, Structural)]
pub enum Mode {
    /// Prose.
    #[default]
    Markup,
    /// Scripting.
    Code,
    /// Mathematical content.
    Math,
}

/// Current alignment permission for tabular math constructs.
#[derive(Debug, Default, Clone, Copy, PartialEq, Eq, Structural)]
pub enum AlignMode {
    /// Alignment grids may be attempted here.
    #[default]
    Inner,
    /// Inside a grid already; nested content joins the outer grid's cells.
    Outer,
    /// Alignment grids must not be attempted here.
    Never,
}

/// The immutable formatting context threaded through the conversion.
#[derive(Debug, Default, Clone, Copy, PartialEq, Eq, Structural)]
pub struct Context {
    pub mode: Mode,
    pub align_mode: AlignMode,
}

impl Context {
    /// The context at the root of a document: markup mode, alignment allowed.
    pub fn start() -> (r: Context)
        ensures
            r == (Context { mode: Mode::Markup, align_mode: AlignMode::Inner }),
    {
        Context { mode: Mode::Markup, align_mode: AlignMode::Inner }
    }

    /// The same context with another mode.
    pub fn with_mode(self, mode: Mode) -> (r: Context)
        ensures
            r == (Context { mode, ..self }),
    {
        Context { mode, ..self }
    }

    /// The same context with another alignment permission.
    pub fn aligned(self, align_mode: AlignMode) -> (r: Context)
        ensures
            r == (Context { align_mode, ..self }),
    {
        Context { align_mode, ..self }
    }
}

} // verus!
