//! The description of a disc, as its designer wrote it down.

use vstd::prelude::*;

verus! {

/// A length in millimetres that the library carries without computing with
/// it: a single-precision number, held as its 32-bit pattern (sign bit first,
/// then eight bits of exponent, then the fraction).
#[derive(Debug, Clone, Copy, PartialEq, Eq)]
pub struct Measure {
    pub bits: u32,
}

/// Whether the number with this bit pattern is greater than zero: the sign
/// bit is clear, and the rest is neither all zero (the number zero) nor
/// beyond the pattern of infinity (no number at all).
pub open spec fn is_positive(bits: u32) -> bool {
    0 < bits <= 0x7f80_0000
}

impl Measure {
    /// Tells whether the length is greater than zero.
    pub fn positive(&self) -> (yes: bool)
        ensures
            yes == is_positive(self.bits),
    {
        0 < self.bits && self.bits <= 0x7f80_0000
    }
}

/// What a designer says of a disc. The order of the strokes is the order of
/// the sectors round the disc, and their number is the number of sectors.
pub struct Settings {
    /// For each sector its name and its profile, in this order.
    pub strokes: Vec<[String; 2]>,
    /// The diameter of the disc.
    pub diameter_mm: usize,
    /// The radius of the hole at the centre; the disc has one only where
    /// this is greater than zero.
    pub center_circle_radius_mm: Measure,
    /// The radius of each of the four alignment holes.
    pub outer_circles_radius_mm: Measure,
    /// How far apart the alignment holes stand; the disc has them only where
    /// this is greater than zero.
    pub outer_circles_margin_mm: Measure,
    /// How many corners a hole's outline gets for each millimetre of its
    /// circumference.
    pub vertices_per_millimeter: usize,
    /// Whether a tooth is cut at each sector's boundary.
    pub generate_tooth: bool,
    /// Whether a marker is drawn where a profile stops short of an edge.
    pub generate_gaps: bool,
    /// Whether each sector is labelled with its stroke's name.
    pub display_stroke_names: bool,
}

/// The settings as plain values.
pub struct SettingsView {
    pub strokes: Seq<Seq<Seq<char>>>,
    pub diameter_mm: nat,
    pub center_circle_radius_mm: u32,
    pub outer_circles_radius_mm: u32,
    pub outer_circles_margin_mm: u32,
    pub vertices_per_millimeter: nat,
    pub generate_tooth: bool,
    pub generate_gaps: bool,
    pub display_stroke_names: bool,
}

impl View for Settings {
    type V = SettingsView;

    open spec fn view(&self) -> SettingsView {
        SettingsView {
            strokes: self.strokes.deep_view(),
            diameter_mm: self.diameter_mm as nat,
            center_circle_radius_mm: self.center_circle_radius_mm.bits,
            outer_circles_radius_mm: self.outer_circles_radius_mm.bits,
            outer_circles_margin_mm: self.outer_circles_margin_mm.bits,
            vertices_per_millimeter: self.vertices_per_millimeter as nat,
            generate_tooth: self.generate_tooth,
            generate_gaps: self.generate_gaps,
            display_stroke_names: self.display_stroke_names,
        }
    }
}

impl SettingsView {
    /// The number of sectors.
    pub open spec fn sectors(self) -> nat {
        self.strokes.len()
    }

    /// The name of the stroke of sector `i`.
    pub open spec fn name(self, i: int) -> Seq<char> {
        self.strokes[i][0]
    }

    /// The profile of sector `i`, as written.
    pub open spec fn profile(self, i: int) -> Seq<char> {
        self.strokes[i][1]
    }

    /// Whether the disc has a hole at its centre.
    pub open spec fn center_hole(self) -> bool {
        is_positive(self.center_circle_radius_mm)
    }

    /// Whether the disc has its four alignment holes.
    pub open spec fn alignment_holes(self) -> bool {
        is_positive(self.outer_circles_margin_mm)
    }
}

impl Settings {
    /// The name of the stroke of sector `i`.
    pub(crate) fn name(&self, i: usize) -> (name: &String)
        requires
            i < self.strokes@.len(),
        ensures
            name@ == self@.name(i as int),
    {
        assert(self.strokes.deep_view()[i as int] == self.strokes@[i as int].deep_view());
        assert(self.strokes@[i as int].deep_view()[0] == self.strokes@[i as int]@[0]@);
        &self.strokes[i][0]
    }

    /// The profile of sector `i`, as written.
    pub(crate) fn profile(&self, i: usize) -> (profile: &String)
        requires
            i < self.strokes@.len(),
        ensures
            profile@ == self@.profile(i as int),
    {
        assert(self.strokes.deep_view()[i as int] == self.strokes@[i as int].deep_view());
        assert(self.strokes@[i as int].deep_view()[1] == self.strokes@[i as int]@[1]@);
        &self.strokes[i][1]
    }
}

} // verus!
