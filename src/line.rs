//! A single freehand stroke: its points and its style.
use vstd::prelude::*;

use crate::geometry::{point_from_canvas, point_to_canvas, Point, Rect};

verus! {

/// Colour and width of a stroke.
#[derive(Clone, Copy, Debug, PartialEq, Eq, Structural)]
pub struct Stroke {
    pub r: u8,
    pub g: u8,
    pub b: u8,
    pub a: u8,
    /// Width, in thousandths of a canvas unit.
    pub width: u32,
}

/// Direction in which points are carried between a client's canvas and the
/// normalized space.
#[derive(Clone, Copy, Debug, PartialEq, Eq, Structural)]
pub enum MergeMode {
    /// From the client's canvas space into the normalized space.
    FromCanvas,
    /// From the normalized space into the client's canvas space.
    ToCanvas,
}

/// Where `p` lands: mapped through `rect` in direction `mode`, or left as it is
/// when there is no rectangle.
pub open spec fn transform_point(p: Point, rect: Option<Rect>, mode: MergeMode) -> Point {
    match rect {
        None => p,
        Some(r) => match mode {
            MergeMode::FromCanvas => point_from_canvas(p, r),
            MergeMode::ToCanvas => point_to_canvas(p, r),
        },
    }
}

/// A rectangle that a transform can use: none, or one with positive extents.
pub open spec fn usable_rect(rect: Option<Rect>) -> bool {
    match rect {
        None => true,
        Some(r) => r.is_valid(),
    }
}

/// Mathematical model of a line.
pub ghost struct LineView {
    pub points: Seq<Point>,
    pub stroke: Stroke,
}

impl LineView {
    /// This line with every point transformed.
    pub open spec fn transformed(self, rect: Option<Rect>, mode: MergeMode) -> LineView {
        LineView {
            points: self.points.map_values(|p: Point| transform_point(p, rect, mode)),
            stroke: self.stroke,
        }
    }
}

/// An ordered sequence of points drawn with one stroke style.
#[derive(Clone, Debug)]
pub struct Line {
    pub points: Vec<Point>,
    pub stroke: Stroke,
}

impl View for Line {
    type V = LineView;

    open spec fn view(&self) -> LineView {
        LineView { points: self.points@, stroke: self.stroke }
    }
}

impl Line {
    /// An empty line drawn with `stroke`.
    pub fn new(stroke: Stroke) -> (r: Line)
        ensures
            r@.points == Seq::<Point>::empty(),
            r@.stroke == stroke,
    {
        Line { points: Vec::new(), stroke }
    }

    /// A copy of this line with every point transformed.
    pub fn transformed(&self, rect: Option<Rect>, mode: MergeMode) -> (r: Line)
        requires
            usable_rect(rect),
        ensures
            r@ == self@.transformed(rect, mode),
    {
        let mut points: Vec<Point> = Vec::new();
        let n = self.points.len();
        for i in 0..n
            invariant
                n == self.points.len(),
                usable_rect(rect),
                points@.len() == i,
                forall|j: int|
                    0 <= j < i ==> points@[j] == transform_point(self.points@[j], rect, mode),
        {
            let p = self.points[i];
            let q = match rect {
                None => p,
                Some(r) => match mode {
                    MergeMode::FromCanvas => p.from_canvas(&r),
                    MergeMode::ToCanvas => p.to_canvas(&r),
                },
            };
            points.push(q);
        }
        let r = Line { points, stroke: self.stroke };
        assert(r@.points =~= self@.transformed(rect, mode).points);
        r
    }

    /// Takes every point from the canvas space of `canvas_rect` into the normalized space.
    pub fn from_canvas(&mut self, canvas_rect: &Rect)
        requires
            canvas_rect.is_valid(),
        ensures
            final(self)@ == old(self)@.transformed(Some(*canvas_rect), MergeMode::FromCanvas),
    {
        *self = self.transformed(Some(*canvas_rect), MergeMode::FromCanvas);
    }

    /// Takes every point from the normalized space into the canvas space of `canvas_rect`.
    pub fn to_canvas(&mut self, canvas_rect: &Rect)
        requires
            canvas_rect.is_valid(),
        ensures
            final(self)@ == old(self)@.transformed(Some(*canvas_rect), MergeMode::ToCanvas),
    {
        *self = self.transformed(Some(*canvas_rect), MergeMode::ToCanvas);
    }
}

} // verus!
