//! Glyph outlines.

use crate::number::Double;
use vstd::prelude::*;

verus! {

/// A place in the plane.
#[derive(Clone, Copy, Debug, PartialEq, Eq, Structural)]
pub struct Point {
    pub x: Double,
    pub y: Double,
}

impl Point {
    /// The place of two patterns.
    pub fn of_bits(x: u64, y: u64) -> (r: Point)
        ensures
            r == (Point { x: Double { bits: x }, y: Double { bits: y } }),
    {
        Point { x: Double { bits: x }, y: Double { bits: y } }
    }
}

/// One step of an outline.
#[derive(Clone, Copy, Debug, PartialEq, Eq, Structural)]
pub enum PathEl {
    /// Starts a contour.
    MoveTo(Point),
    /// A straight line to a point.
    LineTo(Point),
    /// A quadratic curve over a control point to a point.
    QuadTo(Point, Point),
    /// A cubic curve over two control points to a point.
    CurveTo(Point, Point, Point),
    /// Closes the contour.
    ClosePath,
}

impl PathEl {
    /// Where a step ends; closing a contour ends nowhere new.
    pub open spec fn end(self) -> Option<Point> {
        match self {
            PathEl::MoveTo(p) => Some(p),
            PathEl::LineTo(p) => Some(p),
            PathEl::QuadTo(_, p) => Some(p),
            PathEl::CurveTo(_, _, p) => Some(p),
            PathEl::ClosePath => None,
        }
    }

    /// Where a step ends; closing a contour ends nowhere new.
    pub fn end_point(self) -> (r: Option<Point>)
        ensures
            r == self.end(),
    {
        match self {
            PathEl::MoveTo(p) => Some(p),
            PathEl::LineTo(p) => Some(p),
            PathEl::QuadTo(_, p) => Some(p),
            PathEl::CurveTo(_, _, p) => Some(p),
            PathEl::ClosePath => None,
        }
    }

    /// Whether a step draws something.
    pub open spec fn draws(self) -> bool {
        self is LineTo || self is QuadTo || self is CurveTo
    }

    /// Whether a step draws something.
    pub fn is_drawn(self) -> (r: bool)
        ensures
            r == self.draws(),
    {
        match self {
            PathEl::LineTo(_) => true,
            PathEl::QuadTo(_, _) => true,
            PathEl::CurveTo(_, _, _) => true,
            PathEl::MoveTo(_) => false,
            PathEl::ClosePath => false,
        }
    }
}

/// The outline of a glyph, in font units.
#[derive(Clone, Debug)]
pub struct Outline {
    pub elements: Vec<PathEl>,
}

impl View for Outline {
    type V = Seq<PathEl>;

    open spec fn view(&self) -> Seq<PathEl> {
        self.elements@
    }
}

/// What an outline holds, if there is one.
pub open spec fn outline_view(outline: Option<Outline>) -> Option<Seq<PathEl>> {
    match outline {
        Some(outline) => Some(outline@),
        None => None,
    }
}

/// Whether an outline has geometry: whether some step of it draws.
pub open spec fn has_geometry(outline: Seq<PathEl>) -> bool {
    exists|i: int| 0 <= i < outline.len() && (#[trigger] outline[i]).draws()
}

impl Outline {
    /// Whether some step of the outline draws.
    pub fn draws(&self) -> (r: bool)
        ensures
            r == has_geometry(self@),
    {
        let mut i: usize = 0;
        while i < self.elements.len()
            invariant
                i <= self@.len(),
                forall|j: int| 0 <= j < i ==> !(#[trigger] self@[j]).draws(),
            decreases self@.len() - i,
        {
            if self.elements[i].is_drawn() {
                assert(self@[i as int].draws());
                return true;
            }
            i += 1;
        }
        false
    }
}

} // verus!
