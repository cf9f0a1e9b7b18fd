//! Selection regions of a view: a region is a pair of byte offsets into
//! the text, the anchor (`start`) and the active end (`end`).

use vstd::prelude::*;

verus! {

/// A horizontal position, in bytes from the start of a line, that a
/// region tries to keep while moving vertically.
pub type HorizPos = usize;

/// Which side of a line break a caret sits on when the break falls on its
/// offset.
#[derive(Debug, Clone, Copy, PartialEq, Eq, Structural)]
pub enum Affinity {
    Downstream,
    Upstream,
}

impl Default for Affinity {
    fn default() -> (a: Affinity)
        ensures
            a == Affinity::Downstream,
    {
        Affinity::Downstream
    }
}

/// How a selection moves when text is inserted at its edges.
#[derive(Debug, Clone, Copy, PartialEq, Eq, Structural)]
pub enum InsertDrift {
    /// Inserted text goes inside the region.
    Inside,
    /// Inserted text goes outside the region.
    Outside,
    /// Carets move past inserted text; other edges stay.
    Default,
}

/// A region of a selection.
#[derive(Debug, Clone, Copy, PartialEq, Eq, Structural)]
pub struct SelRegion {
    /// The inactive edge of the region.
    pub start: usize,
    /// The active edge of the region, where the caret is drawn.
    pub end: usize,
    /// The horizontal position kept across vertical motions.
    pub horiz: Option<HorizPos>,
    /// The affinity of the caret.
    pub affinity: Affinity,
}

impl SelRegion {
    pub open spec fn new_spec(start: usize, end: usize) -> SelRegion {
        SelRegion { start, end, horiz: None, affinity: Affinity::Downstream }
    }

    pub open spec fn is_caret_spec(self) -> bool {
        self.start == self.end
    }

    pub open spec fn is_upstream_spec(self) -> bool {
        self.affinity == Affinity::Upstream
    }

    pub open spec fn spec_min(self) -> usize {
        if self.start <= self.end { self.start } else { self.end }
    }

    pub open spec fn spec_max(self) -> usize {
        if self.start <= self.end { self.end } else { self.start }
    }

    /// A region from `start` to `end`, with no horizontal position and the
    /// default affinity.
    pub fn new(start: usize, end: usize) -> (r: SelRegion)
        ensures
            r == (SelRegion { start, end, horiz: None, affinity: Affinity::Downstream }),
    {
        SelRegion { start, end, horiz: None, affinity: Affinity::default() }
    }

    /// An empty region at `pos`.
    pub fn caret(pos: usize) -> (r: SelRegion)
        ensures
            r == (SelRegion { start: pos, end: pos, horiz: None, affinity: Affinity::Downstream }),
    {
        SelRegion::new(pos, pos)
    }

    /// The region with its horizontal position replaced.
    pub fn with_horiz(self, horiz: Option<HorizPos>) -> (r: SelRegion)
        ensures
            r == (SelRegion { horiz, ..self }),
    {
        SelRegion { horiz, ..self }
    }

    /// The region with its affinity replaced.
    pub fn with_affinity(self, affinity: Affinity) -> (r: SelRegion)
        ensures
            r == (SelRegion { affinity, ..self }),
    {
        SelRegion { affinity, ..self }
    }

    /// The smaller edge of the region.
    pub fn min(self) -> (m: usize)
        ensures
            m == self.spec_min(),
    {
        if self.start <= self.end { self.start } else { self.end }
    }

    /// The larger edge of the region.
    pub fn max(self) -> (m: usize)
        ensures
            m == self.spec_max(),
    {
        if self.start <= self.end { self.end } else { self.start }
    }

    /// Whether the region is empty.
    pub fn is_caret(self) -> (b: bool)
        ensures
            b == self.is_caret_spec(),
    {
        self.start == self.end
    }

    /// Whether the caret sits upstream of a line break.
    pub fn is_upstream(self) -> (b: bool)
        ensures
            b == self.is_upstream_spec(),
    {
        self.affinity == Affinity::Upstream
    }
}

} // verus!
