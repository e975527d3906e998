//! The numbers of a drawing, as the library receives them.
//!
//! The library places no point itself. Whoever computes the points hands
//! each coordinate over as the text that is to stand in the drawing.

use vstd::prelude::*;

verus! {

/// A point of the drawing.
#[derive(Debug, PartialEq, Eq)]
pub struct Point {
    pub x: String,
    pub y: String,
}

/// A point as plain text.
pub struct PointView {
    pub x: Seq<char>,
    pub y: Seq<char>,
}

impl View for Point {
    type V = PointView;

    open spec fn view(&self) -> PointView {
        PointView { x: self.x@, y: self.y@ }
    }
}

impl DeepView for Point {
    type V = PointView;

    open spec fn deep_view(&self) -> PointView {
        self@
    }
}

/// The marker of a gap: a stretch of a sector's baseline that its profile
/// does not reach, from one end of the stretch to the other, and for each
/// end the point half-way between it and the disc's centre.
#[derive(Debug, PartialEq, Eq)]
pub struct Marker {
    pub from: Point,
    pub to: Point,
    pub from_inner: Point,
    pub to_inner: Point,
}

/// A marker as plain text.
pub struct MarkerView {
    pub from: PointView,
    pub to: PointView,
    pub from_inner: PointView,
    pub to_inner: PointView,
}

impl View for Marker {
    type V = MarkerView;

    open spec fn view(&self) -> MarkerView {
        MarkerView {
            from: self.from@,
            to: self.to@,
            from_inner: self.from_inner@,
            to_inner: self.to_inner@,
        }
    }
}

impl DeepView for Marker {
    type V = MarkerView;

    open spec fn deep_view(&self) -> MarkerView {
        self@
    }
}

/// A tooth: a triangle between the right corner of a sector's baseline and
/// two points a little way from the sector's corners toward the centre.
#[derive(Debug, PartialEq, Eq)]
pub struct Tooth {
    /// The point near the right corner.
    pub right: Point,
    /// The point near the left corner.
    pub left: Point,
    /// The right corner itself.
    pub corner: Point,
}

/// A tooth as plain text.
pub struct ToothView {
    pub right: PointView,
    pub left: PointView,
    pub corner: PointView,
}

impl View for Tooth {
    type V = ToothView;

    open spec fn view(&self) -> ToothView {
        ToothView { right: self.right@, left: self.left@, corner: self.corner@ }
    }
}

impl DeepView for Tooth {
    type V = ToothView;

    open spec fn deep_view(&self) -> ToothView {
        self@
    }
}

/// Where a sector's label stands and by how many degrees it is turned.
#[derive(Debug, PartialEq, Eq)]
pub struct Label {
    pub anchor: Point,
    pub turn: String,
}

/// A label's place as plain text.
pub struct LabelView {
    pub anchor: PointView,
    pub turn: Seq<char>,
}

impl View for Label {
    type V = LabelView;

    open spec fn view(&self) -> LabelView {
        LabelView { anchor: self.anchor@, turn: self.turn@ }
    }
}

impl DeepView for Label {
    type V = LabelView;

    open spec fn deep_view(&self) -> LabelView {
        self@
    }
}

/// The numbers of one sector.
#[derive(Debug, PartialEq, Eq)]
pub struct SectorGeometry {
    /// For each pair of the sector's profile, in order, the point that it
    /// places.
    pub vertices: Vec<Point>,
    /// The marker at the left edge, where the plan asks for one.
    pub left_marker: Option<Marker>,
    /// The marker at the right edge, where the plan asks for one.
    pub right_marker: Option<Marker>,
    /// The tooth, where the plan asks for one.
    pub tooth: Option<Tooth>,
    /// The label's place, where the plan asks for a label.
    pub label: Option<Label>,
    /// By how many degrees the sector's gradient is turned.
    pub gradient_turn: String,
}

/// The numbers of one sector as plain text.
pub struct SectorGeometryView {
    pub vertices: Seq<PointView>,
    pub left_marker: Option<MarkerView>,
    pub right_marker: Option<MarkerView>,
    pub tooth: Option<ToothView>,
    pub label: Option<LabelView>,
    pub gradient_turn: Seq<char>,
}

impl View for SectorGeometry {
    type V = SectorGeometryView;

    open spec fn view(&self) -> SectorGeometryView {
        SectorGeometryView {
            vertices: self.vertices.deep_view(),
            left_marker: self.left_marker.deep_view(),
            right_marker: self.right_marker.deep_view(),
            tooth: self.tooth.deep_view(),
            label: self.label.deep_view(),
            gradient_turn: self.gradient_turn@,
        }
    }
}

impl DeepView for SectorGeometry {
    type V = SectorGeometryView;

    open spec fn deep_view(&self) -> SectorGeometryView {
        self@
    }
}

/// The numbers of a whole drawing.
#[derive(Debug, PartialEq, Eq)]
pub struct Geometry {
    /// One entry for each sector, in the order of the strokes.
    pub sectors: Vec<SectorGeometry>,
    /// The outline of each hole, as the corners of a polygon: first that of
    /// the centre hole, then those of the four alignment holes, each kind
    /// only where the disc has it.
    pub holes: Vec<Vec<Point>>,
}

/// The numbers of a whole drawing as plain text.
pub struct GeometryView {
    pub sectors: Seq<SectorGeometryView>,
    pub holes: Seq<Seq<PointView>>,
}

impl View for Geometry {
    type V = GeometryView;

    open spec fn view(&self) -> GeometryView {
        GeometryView { sectors: self.sectors.deep_view(), holes: self.holes.deep_view() }
    }
}

impl DeepView for Geometry {
    type V = GeometryView;

    open spec fn deep_view(&self) -> GeometryView {
        self@
    }
}

} // verus!
