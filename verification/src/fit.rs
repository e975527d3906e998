//! Whether the numbers that were handed over are those that a plan asks for.

use vstd::prelude::*;
use crate::error::Error;
use crate::geometry::{Geometry, GeometryView, PointView, SectorGeometry, SectorGeometryView};
use crate::circle::MIN_VERTICES;
use crate::plan::{HolePlan, Plan, PlanView, SectorPlan, SectorPlanView};
use crate::profile::pair_count;
use crate::scan::{first_true, lemma_first_true, lemma_first_true_at};

verus! {

/// Whether a sector's numbers are what its plan asks for: one point for each
/// pair of the profile, and a marker, a tooth and a label's place exactly
/// where the plan wants one.
pub open spec fn sector_fits(plan: SectorPlanView, sector: SectorGeometryView) -> bool {
    &&& sector.vertices.len() == pair_count(plan.tokens)
    &&& sector.left_marker is Some <==> plan.left_marker
    &&& sector.right_marker is Some <==> plan.right_marker
    &&& sector.tooth is Some <==> plan.tooth
    &&& sector.label is Some <==> plan.label
}

/// For each sector of the plan, whether the numbers given for it fail to
/// fit.
pub open spec fn misshapen(plan: PlanView, geometry: GeometryView) -> Seq<bool> {
    Seq::new(plan.sectors.len(), |i: int| !sector_fits(plan.sectors[i], geometry.sectors[i]))
}

/// Whether the outline of a hole is what its plan asks for: it has the
/// corners that the plan counts, and three of them at the least.
pub open spec fn hole_fits(plan: HolePlan, outline: Seq<PointView>) -> bool {
    outline.len() == plan.vertices && outline.len() >= MIN_VERTICES
}

/// For each hole of the geometry, whether its outline fails to fit.
pub open spec fn misbored(plan: PlanView, geometry: GeometryView) -> Seq<bool> {
    Seq::new(geometry.holes.len(), |h: int| !hole_fits(plan.holes[h], geometry.holes[h]))
}

/// What keeps the geometry from fitting the plan, if anything: the sectors
/// are looked at first, then the holes, and of several faults of a kind the
/// first is named.
pub open spec fn misfit_of(plan: PlanView, geometry: GeometryView) -> Option<Error> {
    let sector = first_true(misshapen(plan, geometry));
    let hole = first_true(misbored(plan, geometry));
    if geometry.sectors.len() != plan.sectors.len() {
        Some(Error::SectorCount)
    } else if sector < plan.sectors.len() {
        Some(Error::SectorShape { sector: sector as usize })
    } else if geometry.holes.len() != plan.holes.len() {
        Some(Error::HoleCount)
    } else if hole < geometry.holes.len() {
        Some(Error::HoleShape { hole: hole as usize })
    } else {
        None
    }
}

/// What a fitting geometry holds: an entry for each sector that is what the
/// sector's plan asks for, and for each hole of the disc an outline with
/// the corners that the plan counts, three at the least.
pub proof fn lemma_fitting(plan: PlanView, geometry: GeometryView)
    requires
        misfit_of(plan, geometry) is None,
    ensures
        geometry.sectors.len() == plan.sectors.len(),
        forall|i: int|
            0 <= i < plan.sectors.len() ==> sector_fits(
                #[trigger] plan.sectors[i],
                geometry.sectors[i],
            ),
        geometry.holes.len() == plan.holes.len(),
        forall|h: int| 0 <= h < geometry.holes.len() ==> (#[trigger] geometry.holes[h]).len() >= MIN_VERTICES,
        forall|h: int|
            0 <= h < geometry.holes.len() ==> (#[trigger] geometry.holes[h]).len()
                == plan.holes[h].vertices,
{
    let sectors = misshapen(plan, geometry);
    let holes = misbored(plan, geometry);
    lemma_first_true(sectors);
    lemma_first_true(holes);
    assert forall|i: int| 0 <= i < plan.sectors.len() implies sector_fits(
        #[trigger] plan.sectors[i],
        geometry.sectors[i],
    ) by {
        assert(!sectors[i]);
    }
    assert forall|h: int| 0 <= h < geometry.holes.len() implies hole_fits(
        plan.holes[h],
        #[trigger] geometry.holes[h],
    ) by {
        assert(!holes[h]);
    }
}

/// Tells whether a sector's numbers are what its plan asks for.
pub fn fits(plan: &SectorPlan, sector: &SectorGeometry) -> (yes: bool)
    ensures
        yes == sector_fits(plan@, sector@),
{
    sector.vertices.len() == plan.profile.pairs() && sector.left_marker.is_some()
        == plan.left_marker && sector.right_marker.is_some() == plan.right_marker
        && sector.tooth.is_some() == plan.tooth && sector.label.is_some() == plan.label
}

/// Says what keeps the geometry from fitting the plan, if anything.
pub fn misfit(plan: &Plan, geometry: &Geometry) -> (fault: Option<Error>)
    ensures
        fault == misfit_of(plan@, geometry@),
{
    let n: usize = plan.sectors.len();
    if geometry.sectors.len() != n {
        return Some(Error::SectorCount);
    }
    let mut i: usize = 0;
    while i < n
        invariant
            n == plan.sectors@.len(),
            n == geometry.sectors@.len(),
            i <= n,
            forall|j: int| 0 <= j < i ==> !misshapen(plan@, geometry@)[j],
        decreases n - i,
    {
        assert(plan@.sectors[i as int] == plan.sectors@[i as int]@);
        assert(geometry@.sectors[i as int] == geometry.sectors@[i as int]@);
        if !fits(&plan.sectors[i], &geometry.sectors[i]) {
            proof {
                lemma_first_true_at(misshapen(plan@, geometry@), i as int);
            }
            return Some(Error::SectorShape { sector: i });
        }
        i += 1;
    }
    proof {
        lemma_first_true_at(misshapen(plan@, geometry@), n as int);
    }
    let m: usize = geometry.holes.len();
    if m != plan.holes.len() {
        return Some(Error::HoleCount);
    }
    let mut h: usize = 0;
    while h < m
        invariant
            m == geometry.holes@.len(),
            m == plan@.holes.len(),
            geometry@.sectors.len() == plan@.sectors.len(),
            first_true(misshapen(plan@, geometry@)) == plan@.sectors.len(),
            h <= m,
            forall|j: int| 0 <= j < h ==> !misbored(plan@, geometry@)[j],
        decreases m - h,
    {
        assert(geometry@.holes[h as int] == geometry.holes@[h as int].deep_view());
        let corners = geometry.holes[h].len();
        if corners != plan.holes[h].vertices || corners < MIN_VERTICES {
            proof {
                lemma_first_true_at(misbored(plan@, geometry@), h as int);
            }
            return Some(Error::HoleShape { hole: h });
        }
        h += 1;
    }
    proof {
        lemma_first_true_at(misbored(plan@, geometry@), m as int);
    }
    None
}

} // verus!
