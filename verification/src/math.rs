use vstd::prelude::*;

verus! {

/// A 2D integer coordinate, copied by value.
#[derive(Copy, Clone, Debug, PartialEq, Eq, Structural)]
pub struct Pos {
    pub x: i32,
    pub y: i32,
}

/// A 2D unsigned extent: the dimensions of a canvas or viewport.
#[derive(Copy, Clone, Debug, PartialEq, Eq, Structural)]
pub struct Size {
    pub width: u16,
    pub height: u16,
}

/// A half-open interval `[start, end)` over the integers; it is
/// non-degenerate exactly when `end > start`.
#[derive(Copy, Clone, Debug, PartialEq, Eq, Structural)]
pub struct Line {
    pub start: i32,
    /// Exclusive; must exceed `start` for a non-degenerate interval.
    pub end: i32,
}

/// A pair of half-open intervals: the x-extent and y-extent of a rectangle.
#[derive(Copy, Clone, Debug, PartialEq, Eq, Structural)]
pub struct Rect {
    pub x: Line,
    pub y: Line,
}

impl Pos {
    pub fn new(x: i32, y: i32) -> (r: Self)
        ensures
            r == (Pos { x, y }),
    {
        Pos { x, y }
    }
}

impl Size {
    pub fn new(width: u16, height: u16) -> (r: Self)
        ensures
            r == (Size { width, height }),
    {
        Size { width, height }
    }
}

impl Line {
    /// Whether the integer `v` lies inside the half-open interval.
    pub open spec fn spec_contains(self, v: int) -> bool {
        self.start <= v < self.end
    }

    /// The intersection of two half-open intervals: `None` when it is empty.
    pub open spec fn spec_intersect(self, other: Line) -> Option<Line> {
        let s = if self.start >= other.start {
            self.start
        } else {
            other.start
        };
        let e = if self.end <= other.end {
            self.end
        } else {
            other.end
        };
        if s >= e {
            None
        } else {
            Some(Line { start: s, end: e })
        }
    }

    /// `start` is inclusive, `end` is exclusive.
    pub fn new(start: i32, end: i32) -> (r: Line)
        ensures
            r == (Line { start, end }),
    {
        Line { start, end }
    }

    pub fn range(self) -> (r: core::ops::Range<i32>)
        ensures
            r.start == self.start,
            r.end == self.end,
    {
        self.start..self.end
    }

    /// Returns `None` if the size of the interval is not greater than 0
    /// (if `start >= end`).
    pub fn new_checked(start: i32, end: i32) -> (r: Option<Line>)
        ensures
            r == if start >= end {
                None::<Line>
            } else {
                Some(Line { start, end })
            },
    {
        if start >= end {
            return None;
        }
        Some(Line { start, end })
    }

    pub fn intersect(self, other: Line) -> (r: Option<Line>)
        ensures
            r == self.spec_intersect(other),
    {
        let start: i32 = if self.start >= other.start {
            self.start
        } else {
            other.start
        };
        let end: i32 = if self.end <= other.end {
            self.end
        } else {
            other.end
        };
        Line::new_checked(start, end)
    }

    pub fn size(self) -> (r: i32)
        requires
            i32::MIN <= self.end - self.start <= i32::MAX,
        ensures
            r == self.end - self.start,
    {
        self.end - self.start
    }

    pub fn translate(self, amount: i32) -> (r: Self)
        requires
            i32::MIN <= self.start + amount <= i32::MAX,
            i32::MIN <= self.end + amount <= i32::MAX,
        ensures
            r.start == self.start + amount,
            r.end == self.end + amount,
    {
        Self { start: self.start + amount, end: self.end + amount }
    }

    /// A point lies in the intersection of two intervals exactly when it lies
    /// in both; in particular an empty intersection means no common point.
    pub proof fn lemma_intersect_contains(self, other: Line, v: int)
        ensures
            match self.spec_intersect(other) {
                Some(l) => l.spec_contains(v) <==> (self.spec_contains(v)
                    && other.spec_contains(v)),
                None => !(self.spec_contains(v) && other.spec_contains(v)),
            },
    {
    }
}

impl Rect {
    /// Whether the point `(x, y)` lies inside the rectangle.
    pub open spec fn spec_contains(self, x: int, y: int) -> bool {
        self.x.spec_contains(x) && self.y.spec_contains(y)
    }

    /// The intersection of two rectangles: `None` when either axis is empty.
    pub open spec fn spec_intersect(self, other: Rect) -> Option<Rect> {
        match (self.x.spec_intersect(other.x), self.y.spec_intersect(other.y)) {
            (Some(x), Some(y)) => Some(Rect { x, y }),
            _ => None,
        }
    }

    pub fn intersect(self, other: Self) -> (r: Option<Self>)
        ensures
            r == self.spec_intersect(other),
    {
        let x: Option<Line> = self.x.intersect(other.x);
        let y: Option<Line> = self.y.intersect(other.y);
        match (x, y) {
            (Some(x), Some(y)) => Some(Rect { x, y }),
            _ => None,
        }
    }

    pub fn size(self) -> (r: Size)
        requires
            0 <= self.x.end - self.x.start <= u16::MAX,
            0 <= self.y.end - self.y.start <= u16::MAX,
        ensures
            r.width == self.x.end - self.x.start,
            r.height == self.y.end - self.y.start,
    {
        Size::new((self.x.end - self.x.start) as u16, (self.y.end - self.y.start) as u16)
    }

    /// A point lies in the intersection of two rectangles exactly when it
    /// lies in both; an empty intersection means no common point.
    pub proof fn lemma_intersect_contains(self, other: Rect, x: int, y: int)
        ensures
            match self.spec_intersect(other) {
                Some(r) => r.spec_contains(x, y) <==> (self.spec_contains(x, y)
                    && other.spec_contains(x, y)),
                None => !(self.spec_contains(x, y) && other.spec_contains(x, y)),
            },
    {
    }
}

} // verus!
