//! The attribute store: read-only, per-node formatting hints computed
//! before conversion begins, keyed by the node's index in the tree arena.
//! A node absent from the store has default, permissive attributes.

use vstd::prelude::*;
use crate::util::FoldStyle;

verus! {

/// Precomputed formatting hints of one node.
#[derive(Debug, Clone, Copy, PartialEq, Eq, Structural)]
pub struct Attributes {
    /// Formatting is disabled here: emit the node's source text verbatim.
    pub disabled: bool,
    /// Which list layout strategy this node prefers.
    pub fold: FoldStyle,
    /// The node's source already spans multiple lines.
    pub multiline: bool,
    /// The node contains an alignment marker.
    pub align_marker: bool,
    /// The node may be laid out as an alignment grid.
    pub align_eligible: bool,
}

impl Default for Attributes {
    /// The permissive attributes of a node absent from the store.
    fn default() -> (r: Attributes)
        ensures
            r == Attributes::permissive(),
    {
        Attributes {
            disabled: false,
            fold: FoldStyle::Fit,
            multiline: false,
            align_marker: false,
            align_eligible: true,
        }
    }
}

impl Attributes {
    /// The attributes assumed for a node the store does not cover.
    pub open spec fn permissive() -> Attributes {
        Attributes {
            disabled: false,
            fold: FoldStyle::Fit,
            multiline: false,
            align_marker: false,
            align_eligible: true,
        }
    }
}

/// The attributes of node `i` in a store `a`, permissive out of range.
pub open spec fn attrs_of(a: Seq<Attributes>, i: int) -> Attributes {
    if 0 <= i < a.len() {
        a[i]
    } else {
        Attributes::permissive()
    }
}

/// Per-node attributes, indexed by the node's arena index.
#[derive(Debug)]
pub struct AttrStore {
    pub attrs: Vec<Attributes>,
}

impl AttrStore {
    /// A store that answers permissively for every node.
    pub fn new_empty() -> (r: AttrStore)
        ensures
            r.attrs@.len() == 0,
    {
        AttrStore { attrs: Vec::new() }
    }

    /// A store over the given per-node attribute table.
    pub fn new(attrs: Vec<Attributes>) -> (r: AttrStore)
        ensures
            r.attrs@ == attrs@,
    {
        AttrStore { attrs }
    }

    /// The attributes of node `i`.
    pub fn get(&self, i: usize) -> (r: Attributes)
        ensures
            r == attrs_of(self.attrs@, i as int),
    {
        if i < self.attrs.len() {
            self.attrs[i]
        } else {
            Attributes::default()
        }
    }

    /// Is formatting disabled for node `i`?
    pub fn disabled(&self, i: usize) -> (r: bool)
        ensures
            r == attrs_of(self.attrs@, i as int).disabled,
    {
        self.get(i).disabled
    }

    /// The fold preference of node `i`.
    pub fn fold_preference(&self, i: usize) -> (r: FoldStyle)
        ensures
            r == attrs_of(self.attrs@, i as int).fold,
    {
        self.get(i).fold
    }

    /// Does the source of node `i` already span multiple lines?
    pub fn is_multiline(&self, i: usize) -> (r: bool)
        ensures
            r == attrs_of(self.attrs@, i as int).multiline,
    {
        self.get(i).multiline
    }

    /// Does node `i` contain an alignment marker?
    pub fn has_alignment_marker(&self, i: usize) -> (r: bool)
        ensures
            r == attrs_of(self.attrs@, i as int).align_marker,
    {
        self.get(i).align_marker
    }

    /// May node `i` be laid out as an alignment grid?
    pub fn alignment_eligible(&self, i: usize) -> (r: bool)
        ensures
            r == attrs_of(self.attrs@, i as int).align_eligible,
    {
        self.get(i).align_eligible
    }

    /// Is a grid worth attempting for math node `i`: eligible, and an
    /// alignment marker is present.
    pub fn can_align_in_math(&self, i: usize) -> (r: bool)
        ensures
            r == (attrs_of(self.attrs@, i as int).align_eligible
                && attrs_of(self.attrs@, i as int).align_marker),
    {
        let a = self.get(i);
        a.align_eligible && a.align_marker
    }
}

} // verus!
