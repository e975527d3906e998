//! What has to be computed for a disc before it can be drawn.

use vstd::prelude::*;
use crate::circle::{corner_count, count_corners, MIN_VERTICES};
use crate::error::Error;
use crate::profile::{closes_early, fault_of, opens_late, tokens_of, Profile, TokenView};
use crate::scan::{first_true, lemma_first_true_at};
use crate::settings::{Measure, Settings, SettingsView};

verus! {

/// What one sector needs.
pub struct SectorPlan {
    /// The sector's profile; each of its pairs needs a point.
    pub profile: Profile,
    /// Whether a marker is drawn at the sector's left edge.
    pub left_marker: bool,
    /// Whether a marker is drawn at the sector's right edge.
    pub right_marker: bool,
    /// Whether a tooth is cut at the sector's boundary.
    pub tooth: bool,
    /// Whether the sector is labelled.
    pub label: bool,
}

/// A sector's plan as plain values.
pub struct SectorPlanView {
    pub tokens: Seq<TokenView>,
    pub left_marker: bool,
    pub right_marker: bool,
    pub tooth: bool,
    pub label: bool,
}

impl View for SectorPlan {
    type V = SectorPlanView;

    open spec fn view(&self) -> SectorPlanView {
        SectorPlanView {
            tokens: self.profile@,
            left_marker: self.left_marker,
            right_marker: self.right_marker,
            tooth: self.tooth,
            label: self.label,
        }
    }
}

impl DeepView for SectorPlan {
    type V = SectorPlanView;

    open spec fn deep_view(&self) -> SectorPlanView {
        self@
    }
}

/// Where the centre of a hole lies along one axis, seen from the centre of
/// the disc.
#[derive(Debug, Clone, Copy, PartialEq, Eq)]
pub enum Shift {
    /// At the centre of the disc.
    Centred,
    /// Half the margin before the centre: to the left, or above.
    Before,
    /// Half the margin after the centre: to the right, or below.
    After,
}

/// A hole that the disc needs: a circle of the given radius, where its
/// centre lies, and how many corners its outline has.
#[derive(Debug, Clone, Copy, PartialEq, Eq)]
pub struct HolePlan {
    pub radius: Measure,
    pub across: Shift,
    pub down: Shift,
    pub vertices: usize,
}

/// What a disc needs.
pub struct Plan {
    /// One plan for each sector, in the order of the strokes.
    pub sectors: Vec<SectorPlan>,
    /// The radius of the disc, in whole millimetres: half its diameter,
    /// rounded down.
    pub radius_mm: usize,
    /// The holes of the disc, in the order in which they are drawn.
    pub holes: Vec<HolePlan>,
}

/// A disc's plan as plain values.
pub struct PlanView {
    pub sectors: Seq<SectorPlanView>,
    pub radius_mm: nat,
    pub holes: Seq<HolePlan>,
}

impl View for Plan {
    type V = PlanView;

    open spec fn view(&self) -> PlanView {
        PlanView {
            sectors: self.sectors.deep_view(),
            radius_mm: self.radius_mm as nat,
            holes: self.holes@,
        }
    }
}

/// The hole at the centre of the disc.
pub open spec fn center_hole_of(radius: Measure, vertices: usize) -> HolePlan {
    HolePlan { radius, across: Shift::Centred, down: Shift::Centred, vertices }
}

/// The four alignment holes, at the corners of a square round the centre
/// of the disc whose side is the margin: top left, top right, bottom
/// right, bottom left.
pub open spec fn alignment_holes_of(radius: Measure, vertices: usize) -> Seq<HolePlan> {
    seq![
        HolePlan { radius, across: Shift::Before, down: Shift::Before, vertices },
        HolePlan { radius, across: Shift::After, down: Shift::Before, vertices },
        HolePlan { radius, across: Shift::After, down: Shift::After, vertices },
        HolePlan { radius, across: Shift::Before, down: Shift::After, vertices },
    ]
}

/// The number of corners that the settings give a hole of the given
/// radius.
pub open spec fn corners_of(settings: SettingsView, radius: u32) -> Option<nat> {
    corner_count(settings.vertices_per_millimeter, radius)
}

/// What is wrong with a number of corners for the hole of the given index,
/// if anything: a hole needs three corners, and no more than the machine
/// can number.
pub open spec fn corners_fault(count: Option<nat>, hole: usize) -> Option<Error> {
    match count {
        None => Some(Error::TooManyVertices { hole }),
        Some(n) => if n < MIN_VERTICES {
            Some(Error::TooFewVertices { hole })
        } else if n > usize::MAX {
            Some(Error::TooManyVertices { hole })
        } else {
            None
        },
    }
}

/// The index of the first alignment hole among the holes.
pub open spec fn first_alignment_hole(settings: SettingsView) -> usize {
    if settings.center_hole() {
        1
    } else {
        0
    }
}

/// What is wrong with the holes that the settings ask for, if anything.
/// The four alignment holes are alike, so that a fault of theirs is one of
/// the first of them.
pub open spec fn holes_fault(settings: SettingsView) -> Option<Error> {
    let center = corners_fault(corners_of(settings, settings.center_circle_radius_mm), 0);
    let alignment = corners_fault(
        corners_of(settings, settings.outer_circles_radius_mm),
        first_alignment_hole(settings),
    );
    if settings.center_hole() && center is Some {
        center
    } else if settings.alignment_holes() && alignment is Some {
        alignment
    } else {
        None
    }
}

/// The holes of a disc: the one at the centre where its radius is greater
/// than zero, then the four alignment holes where their margin is greater
/// than zero, each with the number of corners that the settings give it.
pub open spec fn holes_of(settings: SettingsView) -> Seq<HolePlan> {
    (if settings.center_hole() {
        seq![
            center_hole_of(
                Measure { bits: settings.center_circle_radius_mm },
                corners_of(settings, settings.center_circle_radius_mm)->0 as usize,
            ),
        ]
    } else {
        Seq::empty()
    }) + (if settings.alignment_holes() {
        alignment_holes_of(
            Measure { bits: settings.outer_circles_radius_mm },
            corners_of(settings, settings.outer_circles_radius_mm)->0 as usize,
        )
    } else {
        Seq::empty()
    })
}

/// The tokens of the profile of sector `i`.
pub open spec fn sector_tokens(settings: SettingsView, i: int) -> Seq<TokenView> {
    tokens_of(settings.profile(i), i as nat)
}

/// For each sector, whether its profile has a fault.
pub open spec fn faulty(settings: SettingsView) -> Seq<bool> {
    Seq::new(settings.sectors(), |i: int| fault_of(sector_tokens(settings, i)) is Some)
}

/// The plan of sector `i`: a marker at an edge where markers are wanted and
/// the profile stops short of that edge; a tooth and a label where the
/// settings ask for them.
pub open spec fn sector_plan_of(settings: SettingsView, i: int) -> SectorPlanView {
    let tokens = sector_tokens(settings, i);
    SectorPlanView {
        tokens,
        left_marker: settings.generate_gaps && opens_late(tokens),
        right_marker: settings.generate_gaps && closes_early(tokens),
        tooth: settings.generate_tooth,
        label: settings.display_stroke_names,
    }
}

/// The plan of a disc, or the reason why it has none: settings without a
/// stroke have none, and so have settings with a faulty profile, the first
/// of which is named, and settings that ask for a hole with too few
/// corners or too many.
pub open spec fn plan_of(settings: SettingsView) -> Result<PlanView, Error> {
    let bad = first_true(faulty(settings));
    if settings.sectors() == 0 {
        Err(Error::NoStrokes)
    } else if bad < settings.sectors() {
        Err(Error::Profile { sector: bad as usize, fault: fault_of(sector_tokens(settings, bad))->0 })
    } else if holes_fault(settings) is Some {
        Err(holes_fault(settings)->0)
    } else {
        Ok(
            PlanView {
                sectors: Seq::new(settings.sectors(), |i: int| sector_plan_of(settings, i)),
                radius_mm: settings.diameter_mm / 2,
                holes: holes_of(settings),
            },
        )
    }
}

fn checked_corners(density: usize, radius: Measure, hole: usize) -> (result: Result<usize, Error>)
    ensures
        match result {
            Ok(n) => corners_fault(corner_count(density as nat, radius.bits), hole) is None
                && corner_count(density as nat, radius.bits) == Some(n as nat),
            Err(error) => corners_fault(corner_count(density as nat, radius.bits), hole) == Some(
                error,
            ),
        },
{
    match count_corners(density, radius) {
        None => Err(Error::TooManyVertices { hole }),
        Some(n) => if n < MIN_VERTICES {
            Err(Error::TooFewVertices { hole })
        } else {
            Ok(n)
        },
    }
}

/// Plans the holes of the disc that the settings describe. They are
/// refused exactly where `holes_fault` finds a fault, and with that fault.
pub fn plan_holes(settings: &Settings) -> (result: Result<Vec<HolePlan>, Error>)
    ensures
        match result {
            Ok(holes) => holes_fault(settings@) is None && holes@ == holes_of(settings@),
            Err(error) => holes_fault(settings@) == Some(error),
        },
{
    let density = settings.vertices_per_millimeter;
    let mut holes: Vec<HolePlan> = Vec::new();
    if settings.center_circle_radius_mm.positive() {
        let radius = settings.center_circle_radius_mm;
        let vertices = match checked_corners(density, radius, 0) {
            Ok(vertices) => vertices,
            Err(error) => {
                return Err(error);
            },
        };
        holes.push(HolePlan { radius, across: Shift::Centred, down: Shift::Centred, vertices });
    }
    if settings.outer_circles_margin_mm.positive() {
        let radius = settings.outer_circles_radius_mm;
        let vertices = match checked_corners(density, radius, holes.len()) {
            Ok(vertices) => vertices,
            Err(error) => {
                return Err(error);
            },
        };
        holes.push(HolePlan { radius, across: Shift::Before, down: Shift::Before, vertices });
        holes.push(HolePlan { radius, across: Shift::After, down: Shift::Before, vertices });
        holes.push(HolePlan { radius, across: Shift::After, down: Shift::After, vertices });
        holes.push(HolePlan { radius, across: Shift::Before, down: Shift::After, vertices });
    }
    assert(holes@ =~= holes_of(settings@));
    Ok(holes)
}

/// Plans the disc that the settings describe.
pub fn plan(settings: &Settings) -> (result: Result<Plan, Error>)
    ensures
        match result {
            Ok(plan) => plan_of(settings@) == Ok::<PlanView, Error>(plan@),
            Err(error) => plan_of(settings@) == Err::<PlanView, Error>(error),
        },
{
    let n: usize = settings.strokes.len();
    assert(settings@.sectors() == n);
    if n == 0 {
        return Err(Error::NoStrokes);
    }
    let mut sectors: Vec<SectorPlan> = Vec::new();
    let mut i: usize = 0;
    while i < n
        invariant
            n == settings.strokes@.len(),
            n == settings@.sectors(),
            i <= n,
            sectors@.len() == i,
            forall|j: int| 0 <= j < i ==> !faulty(settings@)[j],
            forall|j: int| 0 <= j < i ==> (#[trigger] sectors@[j])@ == sector_plan_of(settings@, j),
        decreases n - i,
    {
        match Profile::parse(settings.profile(i).as_str(), i) {
            Err(fault) => {
                proof {
                    assert(faulty(settings@)[i as int]);
                    lemma_first_true_at(faulty(settings@), i as int);
                }
                return Err(Error::Profile { sector: i, fault });
            },
            Ok(profile) => {
                let left_marker = settings.generate_gaps && profile.starts_late();
                let right_marker = settings.generate_gaps && profile.ends_early();
                sectors.push(
                    SectorPlan {
                        profile,
                        left_marker,
                        right_marker,
                        tooth: settings.generate_tooth,
                        label: settings.display_stroke_names,
                    },
                );
            },
        }
        i += 1;
    }
    proof {
        lemma_first_true_at(faulty(settings@), n as int);
    }
    let holes = match plan_holes(settings) {
        Ok(holes) => holes,
        Err(error) => {
            return Err(error);
        },
    };
    let plan = Plan { sectors, radius_mm: settings.diameter_mm / 2, holes };
    proof {
        lemma_first_true_at(faulty(settings@), n as int);
        let wanted = Seq::new(settings@.sectors(), |i: int| sector_plan_of(settings@, i));
        assert forall|j: int| 0 <= j < n implies plan.sectors.deep_view()[j] == wanted[j] by {
            assert(plan.sectors.deep_view()[j] == plan.sectors@[j]@);
        }
        assert(plan.sectors.deep_view() =~= wanted);
    }
    Ok(plan)
}

} // verus!
