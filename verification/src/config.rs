//! Configuration of the layout engine, and the plain argument records that
//! a command-line front end fills in.

use vstd::prelude::*;

verus! {

/// The recognized configuration options of the layout engine.
#[derive(Debug, Clone, Copy, PartialEq, Eq, Structural)]
pub struct Config {
    /// Maximum display width of a produced line; at least 1.
    pub max_width: usize,
    /// Spaces added per nesting level.
    pub indent_width: usize,
    /// Fold redundant whitespace inside prose to single spaces.
    pub collapse_markup_spaces: bool,
    /// Allow rewrapping long prose lines at word boundaries.
    pub wrap_text: bool,
    /// Reorder import items alphabetically; handled outside the core.
    pub reorder_import_items: bool,
}

impl Config {
    /// The configuration is usable by the engine.
    pub open spec fn valid(&self) -> bool {
        self.max_width >= 1
    }

    /// The default configuration.
    pub open spec fn spec_default() -> Config {
        Config {
            max_width: 80,
            indent_width: 2,
            collapse_markup_spaces: false,
            wrap_text: false,
            reorder_import_items: true,
        }
    }
}

impl Default for Config {
    fn default() -> (r: Config)
        ensures
            r == Config::spec_default(),
            r.valid(),
    {
        Config {
            max_width: 80,
            indent_width: 2,
            collapse_markup_spaces: false,
            wrap_text: false,
            reorder_import_items: true,
        }
    }
}

/// Style options as a command line presents them.
#[derive(Debug, Clone, Copy, PartialEq, Eq, Structural)]
pub struct StyleArgs {
    /// Maximum width of each line.
    pub line_width: usize,
    /// Number of spaces per indentation level.
    pub indent_width: usize,
    /// Disable alphabetical reordering of import items.
    pub no_reorder_import_items: bool,
    /// Wrap text in markup to fit within the line width.
    pub wrap_text: bool,
}

impl Default for StyleArgs {
    fn default() -> (r: StyleArgs)
        ensures
            r == (StyleArgs {
                line_width: 80,
                indent_width: 2,
                no_reorder_import_items: false,
                wrap_text: false,
            }),
    {
        StyleArgs {
            line_width: 80,
            indent_width: 2,
            no_reorder_import_items: false,
            wrap_text: false,
        }
    }
}

impl Config {
    /// The engine configuration that a set of style arguments asks for.
    /// A line width of zero is raised to the smallest usable width.
    pub fn from_style(style: &StyleArgs) -> (r: Config)
        ensures
            r.max_width == if style.line_width >= 1 { style.line_width } else { 1 },
            r.indent_width == style.indent_width,
            r.collapse_markup_spaces == style.wrap_text,
            r.wrap_text == style.wrap_text,
            r.reorder_import_items == !style.no_reorder_import_items,
            r.valid(),
    {
        Config {
            max_width: if style.line_width >= 1 { style.line_width } else { 1 },
            indent_width: style.indent_width,
            collapse_markup_spaces: style.wrap_text,
            wrap_text: style.wrap_text,
            reorder_import_items: !style.no_reorder_import_items,
        }
    }
}

/// Debugging switches of the front end.
#[derive(Debug, Default, Clone, Copy, PartialEq, Eq, Structural)]
pub struct DebugArgs {
    /// Print the syntax tree of the input file.
    pub ast: bool,
    /// Print the layout document before rendering.
    pub pretty_doc: bool,
    /// Show elapsed time taken by the formatter.
    pub timing: bool,
}

/// Logging switches of the front end.
#[derive(Debug, Default, Clone, Copy, PartialEq, Eq, Structural)]
pub struct LogLevelArgs {
    /// Enable verbose logging.
    pub verbose: bool,
    /// Print diagnostics, but nothing else.
    pub quiet: bool,
}

} // verus!
