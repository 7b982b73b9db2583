//! Monitor geometry: pixel rectangles and the virtual-desktop union.

use vstd::prelude::*;

verus! {

/// Coordinates this crate accepts, in pixels. Real display arrangements sit
/// well inside +/- 2^30, and the bound keeps every difference of two
/// coordinates inside `i64`.
pub const COORD_LIMIT: i64 = 0x4000_0000;

/// A pixel rectangle `(left, top, right, bottom)` inside the virtual desktop.
#[derive(Clone, Copy, Debug, PartialEq, Eq, Structural)]
pub struct Rect {
    pub left: i64,
    pub top: i64,
    pub right: i64,
    pub bottom: i64,
}

impl Rect {
    /// A rectangle that does not extend past the coordinate limit.
    pub open spec fn in_range(self) -> bool {
        &&& -COORD_LIMIT <= self.left <= COORD_LIMIT
        &&& -COORD_LIMIT <= self.top <= COORD_LIMIT
        &&& -COORD_LIMIT <= self.right <= COORD_LIMIT
        &&& -COORD_LIMIT <= self.bottom <= COORD_LIMIT
    }

    /// Left edge at or before the right edge, top at or above the bottom.
    pub open spec fn well_formed(self) -> bool {
        self.left <= self.right && self.top <= self.bottom
    }

    /// `other` lies entirely inside `self`.
    pub open spec fn spec_contains(self, other: Rect) -> bool {
        &&& self.left <= other.left
        &&& self.top <= other.top
        &&& other.right <= self.right
        &&& other.bottom <= self.bottom
    }

    pub fn new(left: i64, top: i64, right: i64, bottom: i64) -> (r: Rect)
        ensures
            r == (Rect { left, top, right, bottom }),
    {
        Rect { left, top, right, bottom }
    }

    pub fn width(&self) -> (w: i64)
        requires
            self.in_range(),
        ensures
            w == self.right - self.left,
    {
        self.right - self.left
    }

    pub fn height(&self) -> (h: i64)
        requires
            self.in_range(),
        ensures
            h == self.bottom - self.top,
    {
        self.bottom - self.top
    }

    pub fn contains(&self, other: &Rect) -> (r: bool)
        ensures
            r == self.spec_contains(*other),
    {
        self.left <= other.left && self.top <= other.top && other.right <= self.right
            && other.bottom <= self.bottom
    }
}

/// One connected display: its position in the enumeration order and its
/// pixel bounds. A descriptor is an immutable snapshot; hot-plug means
/// re-enumerating from scratch.
#[derive(Clone, Copy, Debug, PartialEq, Eq, Structural)]
pub struct MonitorDescriptor {
    pub index: u32,
    pub bounds: Rect,
}

impl MonitorDescriptor {
    pub open spec fn wf(self) -> bool {
        self.bounds.in_range() && self.bounds.well_formed()
    }
}

/// Every descriptor in the slice is well formed and within range.
pub open spec fn monitors_wf(monitors: Seq<MonitorDescriptor>) -> bool {
    forall|i: int| 0 <= i < monitors.len() ==> (#[trigger] monitors[i]).wf()
}

/// Decide at run time whether a monitor list is well formed.
pub fn check_monitors_wf(monitors: &Vec<MonitorDescriptor>) -> (r: bool)
    ensures
        r == monitors_wf(monitors@),
{
    let mut i: usize = 0;
    while i < monitors.len()
        invariant
            0 <= i <= monitors@.len(),
            forall|j: int| 0 <= j < i ==> (#[trigger] monitors@[j]).wf(),
        decreases monitors@.len() - i,
    {
        let b = monitors[i].bounds;
        let ok = -COORD_LIMIT <= b.left && b.left <= COORD_LIMIT && -COORD_LIMIT <= b.top && b.top
            <= COORD_LIMIT && -COORD_LIMIT <= b.right && b.right <= COORD_LIMIT && -COORD_LIMIT
            <= b.bottom && b.bottom <= COORD_LIMIT && b.left <= b.right && b.top <= b.bottom;
        if !ok {
            return false;
        }
        i = i + 1;
    }
    true
}

/// The bounds assumed when display enumeration fails or reports nothing:
/// one monitor covering the default full-HD desktop.
pub fn default_virtual_bounds() -> (r: Rect)
    ensures
        r == (Rect { left: 0, top: 0, right: 1920, bottom: 1080 }),
{
    Rect { left: 0, top: 0, right: 1920, bottom: 1080 }
}

/// The union of all monitor bounds: the smallest rectangle containing every
/// display. Enumeration failure is the caller's concern; an empty slice
/// falls back to `default_virtual_bounds`.
pub fn virtual_bounds(monitors: &Vec<MonitorDescriptor>) -> (r: Rect)
    requires
        monitors_wf(monitors@),
    ensures
        monitors@.len() == 0 ==> r == (Rect { left: 0, top: 0, right: 1920, bottom: 1080 }),
        monitors@.len() > 0 ==> {
            &&& forall|i: int|
                0 <= i < monitors@.len() ==> r.spec_contains(#[trigger] monitors@[i].bounds)
            &&& exists|i: int| 0 <= i < monitors@.len() && r.left == (#[trigger] monitors@[i]).bounds.left
            &&& exists|i: int| 0 <= i < monitors@.len() && r.top == (#[trigger] monitors@[i]).bounds.top
            &&& exists|i: int|
                0 <= i < monitors@.len() && r.right == (#[trigger] monitors@[i]).bounds.right
            &&& exists|i: int|
                0 <= i < monitors@.len() && r.bottom == (#[trigger] monitors@[i]).bounds.bottom
        },
        r.in_range() && r.well_formed(),
{
    if monitors.len() == 0 {
        return default_virtual_bounds();
    }
    let first = monitors[0].bounds;
    let mut r = first;
    let mut k: usize = 1;
    while k < monitors.len()
        invariant
            1 <= k <= monitors@.len(),
            monitors_wf(monitors@),
            forall|i: int| 0 <= i < k ==> r.spec_contains(#[trigger] monitors@[i].bounds),
            exists|i: int| 0 <= i < k && r.left == (#[trigger] monitors@[i]).bounds.left,
            exists|i: int| 0 <= i < k && r.top == (#[trigger] monitors@[i]).bounds.top,
            exists|i: int| 0 <= i < k && r.right == (#[trigger] monitors@[i]).bounds.right,
            exists|i: int| 0 <= i < k && r.bottom == (#[trigger] monitors@[i]).bounds.bottom,
            r.in_range() && r.well_formed(),
        decreases monitors@.len() - k,
    {
        let b = monitors[k].bounds;
        if b.left < r.left {
            r.left = b.left;
        }
        if b.top < r.top {
            r.top = b.top;
        }
        if b.right > r.right {
            r.right = b.right;
        }
        if b.bottom > r.bottom {
            r.bottom = b.bottom;
        }
        k = k + 1;
    }
    r
}

} // verus!
