//! The drawing as a whole: one document that holds the disc, its overlays
//! and its labels.

use vstd::prelude::*;
use crate::error::Error;
use crate::fit::{lemma_fitting, misfit_of, sector_fits};
use crate::geometry::{Geometry, GeometryView, Label, LabelView, SectorGeometryView};
use crate::path::{
    closes,
    coords,
    lemma_outline_closes,
    marker_count,
    markers,
    markers_text,
    outline,
    outline_text,
    teeth,
    teeth_text,
};
use crate::circle::{corner_count, MIN_VERTICES};
use crate::plan::{holes_of, plan, plan_of, sector_plan_of, sector_tokens, PlanView};
use crate::profile::{closes_early, end_of, left_edge, opens_late, right_edge, start_of};
use crate::settings::{Settings, SettingsView};
use crate::text::{decimal, format_decimal, lemma_flatten_step};

verus! {

/// The opening of the document: a root as wide and as high as the disc, in
/// millimetres, and in it a group that scales millimetres to the
/// document's own unit.
pub open spec fn head_text(diameter_mm: nat) -> Seq<char> {
    "<svg style='height:"@ + decimal(diameter_mm) + "mm;width:"@ + decimal(diameter_mm)
        + "mm;'><g transform='scale(3.543307)'>"@
}

/// The end of the document.
pub open spec fn foot_text() -> Seq<char> {
    "</g></svg>"@
}

/// The gradient of sector `i`, turned by the given angle. It runs from white
/// to white and so changes nothing that is seen.
pub open spec fn gradient_text(i: nat, turn: Seq<char>) -> Seq<char> {
    "<defs><linearGradient id='verlauf"@ + decimal(i)
        + "' x1='0%' y1='0%' x2='100%' y2='0%' gradientTransform='rotate("@ + turn
        + ")'><stop offset='0%' stop-color='#fff' /><stop offset='100%' stop-color='#fff' /></linearGradient></defs>"@
}

/// A label: the name of a stroke, centred on its anchor and turned.
pub open spec fn label_text(label: LabelView, name: Seq<char>) -> Seq<char> {
    "<text text-anchor='middle' stroke='#000' transform='translate("@ + coords(label.anchor)
        + ") rotate("@ + label.turn + ")'>"@ + name + "</text>"@
}

/// The layer that fills the disc. Where shapes of the path lie within one
/// another, every other one is left out, so that the holes stay open.
pub open spec fn fill_text(path: Seq<char>) -> Seq<char> {
    "<path d='"@ + path + "' stroke='none' fill='#ddd' fill-rule='evenodd'/>"@
}

/// The layer of the markers: drawn in grey, not filled.
pub open spec fn gaps_text(path: Seq<char>) -> Seq<char> {
    "<path d='"@ + path + "' stroke='#999' fill='none' />"@
}

/// The layer of the teeth: drawn in black, not filled.
pub open spec fn tooth_layer_text(path: Seq<char>) -> Seq<char> {
    "<path d='"@ + path + "' stroke='#000' fill='none' />"@
}

/// For each sector its gradient.
pub open spec fn gradient_texts(sectors: Seq<SectorGeometryView>) -> Seq<Seq<char>> {
    Seq::new(sectors.len(), |i: int| gradient_text(i as nat, sectors[i].gradient_turn))
}

/// The label of sector `i`, if it has one.
pub open spec fn sector_label_text(
    settings: SettingsView,
    sectors: Seq<SectorGeometryView>,
    i: int,
) -> Seq<char> {
    match sectors[i].label {
        Some(label) => label_text(label, settings.name(i)),
        None => Seq::empty(),
    }
}

/// For each sector its label.
pub open spec fn label_texts(settings: SettingsView, sectors: Seq<SectorGeometryView>) -> Seq<
    Seq<char>,
> {
    Seq::new(sectors.len(), |i: int| sector_label_text(settings, sectors, i))
}

/// What lies over the disc: the markers, the teeth and the labels, each
/// only where the settings ask for it.
pub open spec fn overlays_text(settings: SettingsView, geometry: GeometryView) -> Seq<char> {
    (if settings.generate_gaps {
        gaps_text(markers_text(geometry.sectors))
    } else {
        Seq::empty()
    }) + (if settings.generate_tooth {
        tooth_layer_text(teeth_text(geometry.sectors))
    } else {
        Seq::empty()
    }) + (if settings.display_stroke_names {
        label_texts(settings, geometry.sectors).flatten()
    } else {
        Seq::empty()
    })
}

/// The document: the gradients of the sectors, the filled disc, and what
/// lies over it.
pub open spec fn document_text(
    settings: SettingsView,
    plan: PlanView,
    geometry: GeometryView,
) -> Seq<char> {
    head_text(settings.diameter_mm) + gradient_texts(geometry.sectors).flatten() + fill_text(
        outline_text(plan, geometry),
    ) + overlays_text(settings, geometry) + foot_text()
}

/// The drawing of a disc, or the reason why there is none: the settings
/// must have a plan, and the geometry must fit it.
pub open spec fn drawing_of(settings: SettingsView, geometry: GeometryView) -> Result<
    Seq<char>,
    Error,
> {
    match plan_of(settings) {
        Err(error) => Err(error),
        Ok(plan) => match misfit_of(plan, geometry) {
            Some(error) => Err(error),
            None => Ok(document_text(settings, plan, geometry)),
        },
    }
}

/// Markers follow the edges. In a drawing, a sector has a marker on its left
/// exactly where markers are wanted and its profile's first position is
/// anything but the left edge as written, and one on its right exactly
/// where markers are wanted and its profile's last position is anything but
/// the right edge as written: one marker for each side that is short, and
/// no other.
pub proof fn lemma_markers_follow_edges(settings: SettingsView, geometry: GeometryView, i: int)
    requires
        drawing_of(settings, geometry) is Ok,
        0 <= i < settings.sectors(),
    ensures
        geometry.sectors[i].left_marker is Some <==> settings.generate_gaps && start_of(
            sector_tokens(settings, i),
        ) != left_edge(),
        geometry.sectors[i].right_marker is Some <==> settings.generate_gaps && end_of(
            sector_tokens(settings, i),
        ) != right_edge(),
        marker_count(geometry.sectors[i]) == (if settings.generate_gaps && opens_late(
            sector_tokens(settings, i),
        ) {
            1nat
        } else {
            0nat
        }) + (if settings.generate_gaps && closes_early(sector_tokens(settings, i)) {
            1nat
        } else {
            0nat
        }),
{
    let plan = plan_of(settings)->Ok_0;
    lemma_fitting(plan, geometry);
    assert(plan.sectors[i] == sector_plan_of(settings, i));
    assert(sector_fits(plan.sectors[i], geometry.sectors[i]));
}

/// In a drawing there is one outline for each hole that the settings ask
/// for, and each has the corners that the density gives a circle of the
/// hole's radius, three at the least.
pub proof fn lemma_holes_have_their_corners(settings: SettingsView, geometry: GeometryView, h: int)
    requires
        drawing_of(settings, geometry) is Ok,
        0 <= h < geometry.holes.len(),
    ensures
        geometry.holes.len() == holes_of(settings).len(),
        geometry.holes[h].len() >= MIN_VERTICES,
        corner_count(settings.vertices_per_millimeter, holes_of(settings)[h].radius.bits) == Some(
            geometry.holes[h].len(),
        ),
{
    let plan = plan_of(settings)->Ok_0;
    lemma_fitting(plan, geometry);
    assert(plan.holes == holes_of(settings));
    assert(geometry.holes[h].len() == plan.holes[h].vertices);
}

/// Settings without a stroke have no drawing, whatever the geometry.
pub proof fn lemma_no_strokes_no_drawing(settings: SettingsView, geometry: GeometryView)
    requires
        settings.sectors() == 0,
    ensures
        drawing_of(settings, geometry) == Err::<Seq<char>, Error>(Error::NoStrokes),
{
}

/// The disc of a drawing is closed whatever else is drawn: the filled layer
/// of the document holds the path of the disc, and that path ends with a
/// closing command.
pub proof fn lemma_disc_is_closed(settings: SettingsView, plan: PlanView, geometry: GeometryView)
    ensures
        closes(outline_text(plan, geometry)),
        document_text(settings, plan, geometry) == head_text(settings.diameter_mm)
            + gradient_texts(geometry.sectors).flatten() + fill_text(outline_text(plan, geometry))
            + overlays_text(settings, geometry) + foot_text(),
{
    lemma_outline_closes(plan, geometry);
}

fn write_head(out: &mut String, diameter_mm: usize)
    ensures
        final(out)@ == old(out)@ + head_text(diameter_mm as nat),
{
    let size = format_decimal(diameter_mm);
    out.append("<svg style='height:");
    out.append(size.as_str());
    out.append("mm;width:");
    out.append(size.as_str());
    out.append("mm;'><g transform='scale(3.543307)'>");
    assert(out@ =~= old(out)@ + head_text(diameter_mm as nat));
}

fn write_gradient(out: &mut String, i: usize, turn: &str)
    ensures
        final(out)@ == old(out)@ + gradient_text(i as nat, turn@),
{
    let index = format_decimal(i);
    out.append("<defs><linearGradient id='verlauf");
    out.append(index.as_str());
    out.append("' x1='0%' y1='0%' x2='100%' y2='0%' gradientTransform='rotate(");
    out.append(turn);
    out.append(
        ")'><stop offset='0%' stop-color='#fff' /><stop offset='100%' stop-color='#fff' /></linearGradient></defs>",
    );
    assert(out@ =~= old(out)@ + gradient_text(i as nat, turn@));
}

fn write_label(out: &mut String, label: &Label, name: &str)
    ensures
        final(out)@ == old(out)@ + label_text(label@, name@),
{
    out.append("<text text-anchor='middle' stroke='#000' transform='translate(");
    out.append(label.anchor.x.as_str());
    out.append(",");
    out.append(label.anchor.y.as_str());
    out.append(") rotate(");
    out.append(label.turn.as_str());
    out.append(")'>");
    out.append(name);
    out.append("</text>");
    assert(out@ =~= old(out)@ + label_text(label@, name@));
}

fn write_gradients(out: &mut String, geometry: &Geometry)
    ensures
        final(out)@ == old(out)@ + gradient_texts(geometry@.sectors).flatten(),
{
    let ghost pieces = gradient_texts(geometry@.sectors);
    let n: usize = geometry.sectors.len();
    let mut i: usize = 0;
    proof {
        assert(pieces.take(0) =~= Seq::empty());
        assert(out@ =~= old(out)@ + pieces.take(0).flatten());
    }
    while i < n
        invariant
            n == geometry.sectors@.len(),
            pieces == gradient_texts(geometry@.sectors),
            i <= n,
            out@ == old(out)@ + pieces.take(i as int).flatten(),
        decreases n - i,
    {
        proof {
            lemma_flatten_step(pieces, i as int);
            assert(geometry@.sectors[i as int] == geometry.sectors@[i as int]@);
        }
        write_gradient(out, i, geometry.sectors[i].gradient_turn.as_str());
        assert(out@ =~= old(out)@ + (pieces.take(i as int).flatten() + pieces[i as int]));
        i += 1;
    }
    assert(pieces.take(n as int) =~= pieces);
}

fn write_labels(out: &mut String, settings: &Settings, geometry: &Geometry)
    requires
        geometry.sectors@.len() == settings.strokes@.len(),
    ensures
        final(out)@ == old(out)@ + label_texts(settings@, geometry@.sectors).flatten(),
{
    let ghost pieces = label_texts(settings@, geometry@.sectors);
    let n: usize = geometry.sectors.len();
    let mut i: usize = 0;
    proof {
        assert(pieces.take(0) =~= Seq::empty());
        assert(out@ =~= old(out)@ + pieces.take(0).flatten());
    }
    while i < n
        invariant
            n == geometry.sectors@.len(),
            n == settings.strokes@.len(),
            pieces == label_texts(settings@, geometry@.sectors),
            i <= n,
            out@ == old(out)@ + pieces.take(i as int).flatten(),
        decreases n - i,
    {
        proof {
            lemma_flatten_step(pieces, i as int);
            assert(geometry@.sectors[i as int] == geometry.sectors@[i as int]@);
        }
        let ghost before = out@;
        match &geometry.sectors[i].label {
            Some(label) => {
                write_label(out, label, settings.name(i).as_str());
            },
            None => {},
        }
        assert(out@ =~= before + pieces[i as int]);
        assert(out@ =~= old(out)@ + (pieces.take(i as int).flatten() + pieces[i as int]));
        i += 1;
    }
    assert(pieces.take(n as int) =~= pieces);
}

/// Writes the gradients of all sectors, one after the other.
pub fn gradients(geometry: &Geometry) -> (text: String)
    ensures
        text@ == gradient_texts(geometry@.sectors).flatten(),
{
    let mut out = String::new();
    write_gradients(&mut out, geometry);
    assert(out@ =~= gradient_texts(geometry@.sectors).flatten());
    out
}

/// Writes the labels of all sectors, one after the other, each with the
/// name of its stroke. There are none unless the geometry holds one entry
/// for each stroke.
pub fn labels(settings: &Settings, geometry: &Geometry) -> (text: Option<String>)
    ensures
        text is Some <==> geometry@.sectors.len() == settings@.sectors(),
        text is Some ==> text->0@ == label_texts(settings@, geometry@.sectors).flatten(),
{
    if geometry.sectors.len() != settings.strokes.len() {
        return None;
    }
    let mut out = String::new();
    write_labels(&mut out, settings, geometry);
    assert(out@ =~= label_texts(settings@, geometry@.sectors).flatten());
    Some(out)
}

/// Draws the disc that the settings describe, with the numbers of the
/// geometry. There is a drawing exactly where the settings have a plan and
/// the geometry fits it; where there is none, the error is the one that
/// `plan_of` or `misfit_of` names, and nothing is written.
pub fn draw(settings: &Settings, geometry: &Geometry) -> (result: Result<String, Error>)
    ensures
        match result {
            Ok(document) => drawing_of(settings@, geometry@) == Ok::<Seq<char>, Error>(document@),
            Err(error) => drawing_of(settings@, geometry@) == Err::<Seq<char>, Error>(error),
        },
{
    let plan = match plan(settings) {
        Ok(plan) => plan,
        Err(error) => {
            return Err(error);
        },
    };
    let path = match outline(&plan, geometry) {
        Ok(path) => path,
        Err(error) => {
            return Err(error);
        },
    };
    proof {
        lemma_fitting(plan@, geometry@);
    }
    let mut out = String::new();
    write_head(&mut out, settings.diameter_mm);
    write_gradients(&mut out, geometry);
    out.append("<path d='");
    out.append(path.as_str());
    out.append("' stroke='none' fill='#ddd' fill-rule='evenodd'/>");
    let ghost filled = out@;
    assert(filled =~= head_text(settings@.diameter_mm) + gradient_texts(
        geometry@.sectors,
    ).flatten() + fill_text(outline_text(plan@, geometry@)));
    if settings.generate_gaps {
        let gaps = markers(geometry);
        out.append("<path d='");
        out.append(gaps.as_str());
        out.append("' stroke='#999' fill='none' />");
    }
    let ghost marked = out@;
    assert(marked =~= filled + (if settings.generate_gaps {
        gaps_text(markers_text(geometry@.sectors))
    } else {
        Seq::empty()
    }));
    if settings.generate_tooth {
        let cut = teeth(geometry);
        out.append("<path d='");
        out.append(cut.as_str());
        out.append("' stroke='#000' fill='none' />");
    }
    let ghost cut = out@;
    assert(cut =~= marked + (if settings.generate_tooth {
        tooth_layer_text(teeth_text(geometry@.sectors))
    } else {
        Seq::empty()
    }));
    if settings.display_stroke_names {
        write_labels(&mut out, settings, geometry);
    }
    let ghost named = out@;
    assert(named =~= cut + (if settings.display_stroke_names {
        label_texts(settings@, geometry@.sectors).flatten()
    } else {
        Seq::empty()
    }));
    out.append("</g></svg>");
    assert(out@ =~= document_text(settings@, plan@, geometry@));
    Ok(out)
}

} // verus!
