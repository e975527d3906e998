//! Path data: the text that draws the disc's outline, its holes, the markers
//! of its gaps and its teeth.

use vstd::prelude::*;
use crate::error::Error;
use crate::circle::MIN_VERTICES;
use crate::fit::{lemma_fitting, misfit, misfit_of, sector_fits};
use crate::geometry::{
    Geometry,
    GeometryView,
    Marker,
    MarkerView,
    Point,
    PointView,
    SectorGeometry,
    SectorGeometryView,
    Tooth,
    ToothView,
};
use crate::plan::{Plan, PlanView};
use crate::profile::{pair_count, Profile, Token, TokenView};
use crate::text::lemma_flatten_step;

verus! {

/// The two coordinates of a point, with a comma between them.
pub open spec fn coords(p: PointView) -> Seq<char> {
    p.x + ","@ + p.y
}

/// A point's coordinates between two given texts.
pub open spec fn step_text(before: Seq<char>, p: PointView, after: Seq<char>) -> Seq<char> {
    before + coords(p) + after
}

/// A point of a sector's trace: its coordinates between two spaces.
pub open spec fn vertex_text(p: PointView) -> Seq<char> {
    step_text(" "@, p, " "@)
}

/// What token `k` of a profile adds to its sector's trace: a literal adds
/// itself, and a pair adds the point that stands for it, which among the
/// given points has the place that the pair has among the pairs.
pub open spec fn trace_piece(tokens: Seq<TokenView>, vertices: Seq<PointView>, k: int) -> Seq<
    char,
> {
    match tokens[k] {
        TokenView::Literal(word) => word,
        TokenView::Pair { value, position } => vertex_text(
            vertices[pair_count(tokens.take(k)) as int],
        ),
    }
}

/// What each token of a profile adds to the trace, in order.
pub open spec fn trace_pieces(tokens: Seq<TokenView>, vertices: Seq<PointView>) -> Seq<Seq<char>> {
    Seq::new(tokens.len(), |k: int| trace_piece(tokens, vertices, k))
}

/// The trace of a sector: its profile with each pair replaced by the point
/// that stands for it.
pub open spec fn trace_text(tokens: Seq<TokenView>, vertices: Seq<PointView>) -> Seq<char> {
    trace_pieces(tokens, vertices).flatten()
}

/// The edges of a hole's outline: a line to each corner, the first included.
pub open spec fn hole_edges(points: Seq<PointView>) -> Seq<Seq<char>> {
    Seq::new(points.len(), |k: int| step_text("L "@, points[k], " "@))
}

/// The outline of a hole: a closed polygon through its corners.
pub open spec fn hole_text(points: Seq<PointView>) -> Seq<char> {
    step_text("M "@, points[0], " "@) + hole_edges(points).flatten() + "z"@
}

/// The marker of a gap: from the inner point of its first end out to that
/// end, along the baseline to the other end, in to that end's inner point,
/// and back.
pub open spec fn marker_text(m: MarkerView) -> Seq<char> {
    step_text(" M "@, m.from_inner, " "@) + step_text(" L "@, m.from, " "@) + step_text(
        " L "@,
        m.to,
        " "@,
    ) + step_text(" L "@, m.to_inner, " "@) + step_text(" L "@, m.from_inner, " "@)
}

/// A tooth: a closed triangle.
pub open spec fn tooth_text(t: ToothView) -> Seq<char> {
    step_text(" M "@, t.right, " L "@) + step_text(Seq::empty(), t.left, " L "@) + step_text(
        Seq::empty(),
        t.corner,
        " z"@,
    )
}

/// The markers of one sector: the left one, then the right one, as far as
/// the sector has them.
pub open spec fn sector_markers_text(sector: SectorGeometryView) -> Seq<char> {
    (match sector.left_marker {
        Some(m) => marker_text(m),
        None => Seq::empty(),
    }) + (match sector.right_marker {
        Some(m) => marker_text(m),
        None => Seq::empty(),
    })
}

/// The number of markers of one sector.
pub open spec fn marker_count(sector: SectorGeometryView) -> nat {
    (if sector.left_marker is Some {
        1nat
    } else {
        0nat
    }) + (if sector.right_marker is Some {
        1nat
    } else {
        0nat
    })
}

/// The tooth of one sector, if it has one.
pub open spec fn sector_tooth_text(sector: SectorGeometryView) -> Seq<char> {
    match sector.tooth {
        Some(t) => tooth_text(t),
        None => Seq::empty(),
    }
}

/// For each sector its markers.
pub open spec fn marker_texts(sectors: Seq<SectorGeometryView>) -> Seq<Seq<char>> {
    Seq::new(sectors.len(), |i: int| sector_markers_text(sectors[i]))
}

/// For each sector its tooth.
pub open spec fn tooth_texts(sectors: Seq<SectorGeometryView>) -> Seq<Seq<char>> {
    Seq::new(sectors.len(), |i: int| sector_tooth_text(sectors[i]))
}

/// For each sector its trace.
pub open spec fn traces(plan: PlanView, geometry: GeometryView) -> Seq<Seq<char>> {
    Seq::new(
        plan.sectors.len(),
        |i: int| trace_text(plan.sectors[i].tokens, geometry.sectors[i].vertices),
    )
}

/// For each hole its outline.
pub open spec fn hole_texts(holes: Seq<Seq<PointView>>) -> Seq<Seq<char>> {
    Seq::new(holes.len(), |h: int| hole_text(holes[h]))
}

/// The path of all markers, sector after sector.
pub open spec fn markers_text(sectors: Seq<SectorGeometryView>) -> Seq<char> {
    marker_texts(sectors).flatten()
}

/// The path of all teeth, sector after sector.
pub open spec fn teeth_text(sectors: Seq<SectorGeometryView>) -> Seq<char> {
    tooth_texts(sectors).flatten()
}

/// The path of the disc: the traces of all sectors, one carrying on the
/// other, closed as one shape, and after it the outline of each hole.
pub open spec fn outline_text(plan: PlanView, geometry: GeometryView) -> Seq<char> {
    traces(plan, geometry).flatten() + "z "@ + hole_texts(geometry.holes).flatten()
}

/// Whether `s` ends with `tail`.
pub open spec fn ends_with(s: Seq<char>, tail: Seq<char>) -> bool {
    s.len() >= tail.len() && s.subrange(s.len() - tail.len(), s.len() as int) == tail
}

/// Whether a path ends with the command that closes a shape, or with that
/// command and a space.
pub open spec fn closes(path: Seq<char>) -> bool {
    ends_with(path, "z"@) || ends_with(path, "z "@)
}

/// Before any place of a profile there are no more pairs than in the whole
/// profile.
pub proof fn lemma_pairs_before(tokens: Seq<TokenView>, k: int)
    requires
        0 <= k <= tokens.len(),
    ensures
        pair_count(tokens.take(k)) <= pair_count(tokens),
    decreases tokens.len(),
{
    if k == tokens.len() {
        assert(tokens.take(k) =~= tokens);
    } else {
        assert(tokens.drop_last().take(k) =~= tokens.take(k));
        lemma_pairs_before(tokens.drop_last(), k);
    }
}

/// The disc's path is closed whatever the disc is and whatever it is drawn
/// with: it ends with the closing command of the sectors' shape or with
/// that of the last hole.
pub proof fn lemma_outline_closes(plan: PlanView, geometry: GeometryView)
    ensures
        closes(outline_text(plan, geometry)),
{
    reveal_strlit("z");
    reveal_strlit("z ");
    let path = outline_text(plan, geometry);
    let sectors = traces(plan, geometry).flatten();
    let holes = hole_texts(geometry.holes);
    if holes.len() == 0 {
        assert(holes.flatten() =~= Seq::<char>::empty());
        assert(path =~= sectors + "z "@);
        assert(path.subrange(path.len() - 2, path.len() as int) =~= "z "@);
    } else {
        let last = geometry.holes.last();
        let before = step_text("M "@, last[0], " "@) + hole_edges(last).flatten();
        assert(holes =~= holes.drop_last().push(hole_text(last)));
        holes.drop_last().lemma_flatten_push(hole_text(last));
        assert(path =~= sectors + "z "@ + holes.drop_last().flatten() + before + "z"@);
        assert(path.subrange(path.len() - 1, path.len() as int) =~= "z"@);
    }
}

fn write_step(out: &mut String, before: &str, p: &Point, after: &str)
    ensures
        final(out)@ == old(out)@ + step_text(before@, p@, after@),
{
    out.append(before);
    out.append(p.x.as_str());
    out.append(",");
    out.append(p.y.as_str());
    out.append(after);
    assert(out@ =~= old(out)@ + step_text(before@, p@, after@));
}

fn write_trace(out: &mut String, tokens: &Vec<Token>, vertices: &Vec<Point>)
    requires
        vertices@.len() == pair_count(tokens.deep_view()),
    ensures
        final(out)@ == old(out)@ + trace_text(tokens.deep_view(), vertices.deep_view()),
{
    let ghost all = tokens.deep_view();
    let ghost points = vertices.deep_view();
    let ghost pieces = trace_pieces(all, points);
    let n: usize = tokens.len();
    let count: usize = vertices.len();
    let mut seen: usize = 0;
    let mut k: usize = 0;
    proof {
        assert(all.take(0) =~= Seq::empty());
        assert(pieces.take(0) =~= Seq::empty());
        assert(out@ =~= old(out)@ + pieces.take(0).flatten());
    }
    while k < n
        invariant
            n == tokens@.len(),
            all == tokens.deep_view(),
            points == vertices.deep_view(),
            pieces == trace_pieces(all, points),
            count == vertices@.len(),
            count == pair_count(all),
            k <= n,
            seen == pair_count(all.take(k as int)),
            out@ == old(out)@ + pieces.take(k as int).flatten(),
        decreases n - k,
    {
        proof {
            lemma_flatten_step(pieces, k as int);
            lemma_pairs_before(all, k + 1);
            assert(all.take(k + 1).drop_last() =~= all.take(k as int));
            assert(all.take(k + 1).last() == all[k as int]);
            assert(all[k as int] == tokens@[k as int]@);
        }
        let ghost before = out@;
        match &tokens[k] {
            Token::Literal(word) => {
                out.append(word.as_str());
            },
            Token::Pair { .. } => {
                assert(points[seen as int] == vertices@[seen as int]@);
                write_step(out, " ", &vertices[seen], " ");
                seen += 1;
            },
        }
        proof {
            assert(out@ == before + pieces[k as int]);
            assert(out@ =~= old(out)@ + (pieces.take(k as int).flatten() + pieces[k as int]));
        }
        k += 1;
    }
    assert(pieces.take(n as int) =~= pieces);
}

fn write_hole(out: &mut String, points: &Vec<Point>)
    requires
        points@.len() >= 1,
    ensures
        final(out)@ == old(out)@ + hole_text(points.deep_view()),
{
    let ghost all = points.deep_view();
    let ghost edges = hole_edges(all);
    let n: usize = points.len();
    assert(all[0] == points@[0]@);
    write_step(out, "M ", &points[0], " ");
    let ghost start = out@;
    let mut k: usize = 0;
    proof {
        assert(edges.take(0) =~= Seq::empty());
        assert(out@ =~= start + edges.take(0).flatten());
    }
    while k < n
        invariant
            n == points@.len(),
            all == points.deep_view(),
            edges == hole_edges(all),
            k <= n,
            out@ == start + edges.take(k as int).flatten(),
        decreases n - k,
    {
        proof {
            lemma_flatten_step(edges, k as int);
            assert(all[k as int] == points@[k as int]@);
        }
        write_step(out, "L ", &points[k], " ");
        assert(out@ =~= start + (edges.take(k as int).flatten() + edges[k as int]));
        k += 1;
    }
    out.append("z");
    proof {
        assert(edges.take(n as int) =~= edges);
        assert(out@ =~= old(out)@ + hole_text(all));
    }
}

fn write_marker(out: &mut String, m: &Marker)
    ensures
        final(out)@ == old(out)@ + marker_text(m@),
{
    write_step(out, " M ", &m.from_inner, " ");
    write_step(out, " L ", &m.from, " ");
    write_step(out, " L ", &m.to, " ");
    write_step(out, " L ", &m.to_inner, " ");
    write_step(out, " L ", &m.from_inner, " ");
    assert(out@ =~= old(out)@ + marker_text(m@));
}

fn write_tooth(out: &mut String, t: &Tooth)
    ensures
        final(out)@ == old(out)@ + tooth_text(t@),
{
    write_step(out, " M ", &t.right, " L ");
    write_step(out, "", &t.left, " L ");
    write_step(out, "", &t.corner, " z");
    proof {
        reveal_strlit("");
        assert(""@ =~= Seq::<char>::empty());
        assert(out@ =~= old(out)@ + tooth_text(t@));
    }
}

fn write_sector_markers(out: &mut String, sector: &SectorGeometry)
    ensures
        final(out)@ == old(out)@ + sector_markers_text(sector@),
{
    match &sector.left_marker {
        Some(m) => {
            write_marker(out, m);
        },
        None => {},
    }
    match &sector.right_marker {
        Some(m) => {
            write_marker(out, m);
        },
        None => {},
    }
    assert(out@ =~= old(out)@ + sector_markers_text(sector@));
}

/// Writes the trace of a sector: its profile with each pair replaced by the
/// point that stands for it. There is no trace unless there is exactly one
/// point for each pair.
pub fn trace(profile: &Profile, vertices: &Vec<Point>) -> (path: Option<String>)
    ensures
        path is Some <==> vertices@.len() == pair_count(profile@),
        path is Some ==> path->0@ == trace_text(profile@, vertices.deep_view()),
{
    if vertices.len() != profile.pairs() {
        return None;
    }
    let mut out = String::new();
    write_trace(&mut out, profile.tokens(), vertices);
    assert(out@ =~= trace_text(profile@, vertices.deep_view()));
    Some(out)
}

/// Writes the outline of a hole. There is none for fewer than three
/// corners.
pub fn hole(points: &Vec<Point>) -> (path: Option<String>)
    ensures
        path is Some <==> points@.len() >= MIN_VERTICES,
        path is Some ==> path->0@ == hole_text(points.deep_view()),
{
    if points.len() < MIN_VERTICES {
        return None;
    }
    let mut out = String::new();
    write_hole(&mut out, points);
    assert(out@ =~= hole_text(points.deep_view()));
    Some(out)
}

/// Writes the marker of a gap.
pub fn marker(m: &Marker) -> (path: String)
    ensures
        path@ == marker_text(m@),
{
    let mut out = String::new();
    write_marker(&mut out, m);
    assert(out@ =~= marker_text(m@));
    out
}

/// Writes a tooth.
pub fn tooth(t: &Tooth) -> (path: String)
    ensures
        path@ == tooth_text(t@),
{
    let mut out = String::new();
    write_tooth(&mut out, t);
    assert(out@ =~= tooth_text(t@));
    out
}

/// Writes the markers of all sectors as one path.
pub fn markers(geometry: &Geometry) -> (path: String)
    ensures
        path@ == markers_text(geometry@.sectors),
{
    let ghost pieces = marker_texts(geometry@.sectors);
    let n: usize = geometry.sectors.len();
    let mut out = String::new();
    let mut i: usize = 0;
    proof {
        assert(pieces.take(0) =~= Seq::empty());
        assert(out@ =~= pieces.take(0).flatten());
    }
    while i < n
        invariant
            n == geometry.sectors@.len(),
            pieces == marker_texts(geometry@.sectors),
            i <= n,
            out@ == pieces.take(i as int).flatten(),
        decreases n - i,
    {
        proof {
            lemma_flatten_step(pieces, i as int);
            assert(geometry@.sectors[i as int] == geometry.sectors@[i as int]@);
        }
        write_sector_markers(&mut out, &geometry.sectors[i]);
        i += 1;
    }
    assert(pieces.take(n as int) =~= pieces);
    out
}

/// Writes the teeth of all sectors as one path.
pub fn teeth(geometry: &Geometry) -> (path: String)
    ensures
        path@ == teeth_text(geometry@.sectors),
{
    let ghost pieces = tooth_texts(geometry@.sectors);
    let n: usize = geometry.sectors.len();
    let mut out = String::new();
    let mut i: usize = 0;
    proof {
        assert(pieces.take(0) =~= Seq::empty());
        assert(out@ =~= pieces.take(0).flatten());
    }
    while i < n
        invariant
            n == geometry.sectors@.len(),
            pieces == tooth_texts(geometry@.sectors),
            i <= n,
            out@ == pieces.take(i as int).flatten(),
        decreases n - i,
    {
        proof {
            lemma_flatten_step(pieces, i as int);
            assert(geometry@.sectors[i as int] == geometry.sectors@[i as int]@);
        }
        let ghost before = out@;
        match &geometry.sectors[i].tooth {
            Some(t) => {
                write_tooth(&mut out, t);
            },
            None => {},
        }
        assert(out@ =~= before + pieces[i as int]);
        i += 1;
    }
    assert(pieces.take(n as int) =~= pieces);
    out
}

/// Writes the path of the disc: the traces of all sectors, closed as one
/// shape, and the outlines of the holes. The path is refused exactly where
/// the geometry does not fit the plan, and with the fault that `misfit_of`
/// names. A path that is written ends with a closing command.
pub fn outline(plan: &Plan, geometry: &Geometry) -> (result: Result<String, Error>)
    ensures
        match result {
            Ok(path) => misfit_of(plan@, geometry@) is None && path@ == outline_text(
                plan@,
                geometry@,
            ) && closes(path@),
            Err(fault) => misfit_of(plan@, geometry@) == Some(fault),
        },
{
    match misfit(plan, geometry) {
        Some(fault) => {
            return Err(fault);
        },
        None => {},
    }
    let ghost sector_pieces = traces(plan@, geometry@);
    let ghost hole_pieces = hole_texts(geometry@.holes);
    let n: usize = plan.sectors.len();
    let mut out = String::new();
    let mut i: usize = 0;
    proof {
        lemma_fitting(plan@, geometry@);
        assert(sector_pieces.take(0) =~= Seq::empty());
        assert(out@ =~= sector_pieces.take(0).flatten());
    }
    while i < n
        invariant
            n == plan.sectors@.len(),
            n == geometry.sectors@.len(),
            sector_pieces == traces(plan@, geometry@),
            forall|j: int|
                0 <= j < n ==> sector_fits(#[trigger] plan@.sectors[j], geometry@.sectors[j]),
            i <= n,
            out@ == sector_pieces.take(i as int).flatten(),
        decreases n - i,
    {
        proof {
            lemma_flatten_step(sector_pieces, i as int);
            assert(plan@.sectors[i as int] == plan.sectors@[i as int]@);
            assert(geometry@.sectors[i as int] == geometry.sectors@[i as int]@);
            assert(sector_fits(plan@.sectors[i as int], geometry@.sectors[i as int]));
        }
        write_trace(&mut out, plan.sectors[i].profile.tokens(), &geometry.sectors[i].vertices);
        i += 1;
    }
    assert(sector_pieces.take(n as int) =~= sector_pieces);
    out.append("z ");
    let ghost start = out@;
    let m: usize = geometry.holes.len();
    let mut h: usize = 0;
    proof {
        assert(hole_pieces.take(0) =~= Seq::empty());
        assert(out@ =~= start + hole_pieces.take(0).flatten());
    }
    while h < m
        invariant
            m == geometry.holes@.len(),
            hole_pieces == hole_texts(geometry@.holes),
            forall|j: int| 0 <= j < m ==> (#[trigger] geometry@.holes[j]).len() >= MIN_VERTICES,
            h <= m,
            out@ == start + hole_pieces.take(h as int).flatten(),
        decreases m - h,
    {
        proof {
            lemma_flatten_step(hole_pieces, h as int);
            assert(geometry@.holes[h as int] == geometry.holes@[h as int].deep_view());
            assert(geometry@.holes[h as int].len() >= MIN_VERTICES);
        }
        write_hole(&mut out, &geometry.holes[h]);
        assert(out@ =~= start + (hole_pieces.take(h as int).flatten() + hole_pieces[h as int]));
        h += 1;
    }
    proof {
        assert(hole_pieces.take(m as int) =~= hole_pieces);
        assert(out@ =~= outline_text(plan@, geometry@));
        lemma_outline_closes(plan@, geometry@);
    }
    Ok(out)
}

} // verus!
