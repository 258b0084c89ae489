//! Writing a whole Scorify score as a MusicXML document.
use vstd::prelude::*;

use crate::durations::MUSICXML_DIVISIONS;
use crate::error::ConvertError;
use crate::model::{events_view, EventView, Score, ScoreView, TimedEvent};
use crate::musicxml_parts::{
    clef_to_musicxml, emit_barline, key_to_musicxml, push_xml_escaped, spec_barline_xml,
    spec_clef_to_musicxml, spec_key_to_musicxml, spec_time_to_musicxml, spec_xml_escape,
    time_to_musicxml,
};
use crate::musicxml_writer::{
    emit_mid_measure_controls, emit_voice_xml, lemma_tie_set_empty, mid_controls, mid_controls_message, spec_emit_voice_xml,
    voice_message,
};
use crate::scorify_music::{MeasureView, ParsedStaffMeasure};
use crate::scorify_score::{parts_view, parts_well_formed, PartSpec, PartStaff, PartStaffView, PartView};
use crate::text::{chars_eq_str, decimal, int_text, push_chars, push_int, push_str, push_usize, str_to_chars};

verus! {

// ---------------------------------------------------------------------------
// One staff in one measure
// ---------------------------------------------------------------------------

/// The `<backup>` line that returns to the start of a measure of `n` ticks.
pub open spec fn backup_xml(n: int) -> Seq<char> {
    "      <backup><duration>"@ + int_text(n) + "</duration></backup>\n"@
}

/// The text of a written voice, without the ties it leaves open.
pub open spec fn voice_text(r: Option<(Seq<char>, Set<Seq<char>>)>) -> Option<Seq<char>> {
    match r {
        Some((a, _)) => Some(a),
        None => None,
    }
}

/// One staff of one measure: its voices in order, numbered from 1, the
/// first one with the staff's clef and time changes and the second after a
/// `<backup>`; a measure without notes writes only the changes at its start.
/// Ties start afresh in each staff of each measure.
#[verifier::opaque]
pub open spec fn spec_staff_measure_xml(m: MeasureView, staff: Option<usize>) -> Option<Seq<char>> {
    let fresh = Set::<Seq<char>>::empty();
    if m.voice_one.len() > 0 && m.voice_two.len() > 0 {
        match spec_emit_voice_xml(m.voice_one, m.controls, m.length, 1, staff, fresh) {
            Some((a, t)) => match spec_emit_voice_xml(m.voice_two, seq![], m.length, 2, staff, t) {
                Some((b, _)) => Some(a + backup_xml(m.length) + b),
                None => None,
            },
            None => None,
        }
    } else if m.voice_one.len() > 0 {
        voice_text(spec_emit_voice_xml(m.voice_one, m.controls, m.length, 1, staff, fresh))
    } else if m.voice_two.len() > 0 {
        voice_text(spec_emit_voice_xml(m.voice_two, m.controls, m.length, 1, staff, fresh))
    } else {
        mid_controls(m.controls, 0, None)
    }
}

/// The message of a staff of a measure that cannot be written.
pub open spec fn staff_measure_message(m: MeasureView, staff: Option<usize>) -> Seq<char> {
    let fresh = Set::<Seq<char>>::empty();
    if m.voice_one.len() > 0 && m.voice_two.len() > 0 {
        match spec_emit_voice_xml(m.voice_one, m.controls, m.length, 1, staff, fresh) {
            Some((_, t)) => voice_message(m.voice_two, seq![], 2, staff, t),
            None => voice_message(m.voice_one, m.controls, 1, staff, fresh),
        }
    } else if m.voice_one.len() > 0 {
        voice_message(m.voice_one, m.controls, 1, staff, fresh)
    } else if m.voice_two.len() > 0 {
        voice_message(m.voice_two, m.controls, 1, staff, fresh)
    } else {
        mid_controls_message(m.controls, 0, 0, None)
    }
}

/// Writes one staff of one measure.
pub fn emit_staff_measure(out: &mut Vec<char>, measure: &ParsedStaffMeasure, staff_number: Option<usize>) -> (r:
    Result<(), ConvertError>)
    ensures
        match r {
            Ok(_) => spec_staff_measure_xml(measure@, staff_number) is Some && final(out)@ == old(out)@
                + spec_staff_measure_xml(measure@, staff_number).unwrap(),
            Err(e) => spec_staff_measure_xml(measure@, staff_number) is None && (e matches ConvertError::InvalidScorify(m)
                && m@ == staff_measure_message(measure@, staff_number)),
        },
{
    reveal(spec_staff_measure_xml);
    let ghost start = out@;
    let ghost m = measure@;
    let mut ties: Vec<Vec<char>> = Vec::new();
    proof {
        lemma_tie_set_empty(ties@);
    }
    let has_one = measure.voice_one.len() > 0;
    let has_two = measure.voice_two.len() > 0;
    if has_one && has_two {
        emit_voice_xml(out, measure.voice_one.as_slice(), measure.controls.as_slice(), measure.length, 1, staff_number, &mut ties)?;
        let ghost a = out@.skip(start.len() as int);
        assert(out@ =~= start + a);
        push_str(out, "      <backup><duration>");
        push_int(out, measure.length);
        push_str(out, "</duration></backup>\n");
        assert(out@ =~= start + a + backup_xml(m.length));
        let none: Vec<TimedEvent> = Vec::new();
        assert(events_view(none@) =~= Seq::<EventView>::empty());
        let ghost mid = out@;
        emit_voice_xml(out, measure.voice_two.as_slice(), none.as_slice(), measure.length, 2, staff_number, &mut ties)?;
        assert(out@ =~= start + spec_staff_measure_xml(m, staff_number).unwrap());
    } else if has_one {
        emit_voice_xml(out, measure.voice_one.as_slice(), measure.controls.as_slice(), measure.length, 1, staff_number, &mut ties)?;
    } else if has_two {
        emit_voice_xml(out, measure.voice_two.as_slice(), measure.controls.as_slice(), measure.length, 1, staff_number, &mut ties)?;
    } else {
        emit_mid_measure_controls(out, measure.controls.as_slice(), 0, None)?;
    }
    Ok(())
}

// ---------------------------------------------------------------------------
// The attributes of the first measure
// ---------------------------------------------------------------------------

/// The `<key>` element of the score's key, if it has one.
pub open spec fn key_xml(key: Option<Seq<char>>) -> Option<Seq<char>> {
    match key {
        None => Some(seq![]),
        Some(k) => match spec_key_to_musicxml(k) {
            Some((fifths, mode)) => Some(
                "<key><fifths>"@ + int_text(fifths) + "</fifths>"@ + match mode {
                    Some(m) => "<mode>"@ + m + "</mode>"@,
                    None => seq![],
                } + "</key>"@,
            ),
            None => None,
        },
    }
}

/// The `<time>` element of the score's time signature, if it has one.
pub open spec fn opt_time_xml(time: Option<Seq<char>>) -> Option<Seq<char>> {
    match time {
        None => Some(seq![]),
        Some(t) => spec_time_to_musicxml(t),
    }
}

/// The `<staves>` element of a part with more than one staff.
pub open spec fn staves_xml(n: nat) -> Seq<char> {
    if n > 1 {
        "<staves>"@ + decimal(n) + "</staves>"@
    } else {
        seq![]
    }
}

/// The clefs of the staves, numbered when the part has several staves.
pub open spec fn clefs_xml(staves: Seq<PartStaffView>, multi: bool) -> Option<Seq<char>>
    decreases staves.len(),
{
    if staves.len() == 0 {
        Some(seq![])
    } else {
        match clefs_xml(staves.drop_last(), multi) {
            Some(t) => match spec_clef_to_musicxml(
                staves.last().clef,
                if multi {
                    Some(staves.last().staff_number as usize)
                } else {
                    None
                },
            ) {
                Some(c) => Some(t + c),
                None => None,
            },
            None => None,
        }
    }
}

/// The clef and time changes at the start of measure `mi` of each staff.
pub open spec fn opening_controls_xml(staves: Seq<PartStaffView>, mi: int) -> Option<Seq<char>>
    decreases staves.len(),
{
    if staves.len() == 0 {
        Some(seq![])
    } else {
        match opening_controls_xml(staves.drop_last(), mi) {
            Some(t) => match mid_controls(staves.last().measures[mi].controls, 0, None) {
                Some(c) => Some(t + c),
                None => None,
            },
            None => None,
        }
    }
}

/// The `<attributes>` line of a part's first measure, then the clef and time
/// changes at the start of that measure in each staff.
#[verifier::opaque]
pub open spec fn spec_initial_attributes(part: PartView, score: ScoreView, mi: int) -> Option<Seq<char>> {
    match (
        key_xml(score.key),
        opt_time_xml(score.time),
        clefs_xml(part.staves, part.staves.len() > 1),
        opening_controls_xml(part.staves, mi),
    ) {
        (Some(k), Some(t), Some(c), Some(o)) => Some(
            "      <attributes>"@ + "<divisions>"@ + int_text(MUSICXML_DIVISIONS as int) + "</divisions>"@ + k + t
                + staves_xml(part.staves.len()) + c + "</attributes>\n"@ + o,
        ),
        _ => None,
    }
}

/// The message of the first staff, from `i` on, whose clef cannot be written.
pub open spec fn clefs_message(staves: Seq<PartStaffView>, i: int) -> Seq<char>
    decreases staves.len() - i,
{
    if i < 0 || i >= staves.len() {
        seq![]
    } else if crate::musicxml_parts::clef_body(staves[i].clef) is None {
        "unsupported clef '"@ + staves[i].clef + "'"@
    } else {
        clefs_message(staves, i + 1)
    }
}

/// The message of the first staff, from `i` on, whose changes at the start
/// of measure `mi` cannot be written.
pub open spec fn opening_message(staves: Seq<PartStaffView>, i: int, mi: int) -> Seq<char>
    decreases staves.len() - i,
{
    if i < 0 || i >= staves.len() {
        seq![]
    } else if mid_controls(staves[i].measures[mi].controls, 0, None) is None {
        mid_controls_message(staves[i].measures[mi].controls, 0, 0, None)
    } else {
        opening_message(staves, i + 1, mi)
    }
}

/// The message of the attributes of a part's first measure that cannot be written.
pub open spec fn initial_attributes_message(part: PartView, score: ScoreView, mi: int) -> Seq<char> {
    if key_xml(score.key) is None {
        "unsupported key '"@ + score.key.unwrap() + "'"@
    } else if opt_time_xml(score.time) is None {
        "unsupported time signature '"@ + score.time.unwrap() + "'"@
    } else if clefs_xml(part.staves, part.staves.len() > 1) is None {
        clefs_message(part.staves, 0)
    } else {
        opening_message(part.staves, 0, mi)
    }
}

proof fn lemma_clefs_prefix_none(staves: Seq<PartStaffView>, k: int, multi: bool)
    requires
        0 <= k <= staves.len(),
        clefs_xml(staves.take(k), multi) is None,
    ensures
        clefs_xml(staves, multi) is None,
    decreases staves.len() - k,
{
    if k < staves.len() {
        assert(staves.take(k + 1).drop_last() == staves.take(k));
        lemma_clefs_prefix_none(staves, k + 1, multi);
    } else {
        assert(staves.take(k) == staves);
    }
}

proof fn lemma_opening_prefix_none(staves: Seq<PartStaffView>, k: int, mi: int)
    requires
        0 <= k <= staves.len(),
        opening_controls_xml(staves.take(k), mi) is None,
    ensures
        opening_controls_xml(staves, mi) is None,
    decreases staves.len() - k,
{
    if k < staves.len() {
        assert(staves.take(k + 1).drop_last() == staves.take(k));
        lemma_opening_prefix_none(staves, k + 1, mi);
    } else {
        assert(staves.take(k) == staves);
    }
}

fn emit_key(out: &mut Vec<char>, key: &Option<Vec<char>>) -> (r: Result<(), ConvertError>)
    ensures
        match r {
            Ok(_) => key_xml(crate::model::opt_view(*key)) is Some && final(out)@ == old(out)@ + key_xml(
                crate::model::opt_view(*key),
            ).unwrap(),
            Err(e) => key_xml(crate::model::opt_view(*key)) is None && (e matches ConvertError::InvalidScorify(m) && m@
                == "unsupported key '"@ + crate::model::opt_view(*key).unwrap() + "'"@),
        },
{
    let ghost start = out@;
    if let Some(k) = key {
        let (fifths, mode) = key_to_musicxml(k.as_slice())?;
        push_str(out, "<key><fifths>");
        push_int(out, fifths);
        push_str(out, "</fifths>");
        if let Some(m) = &mode {
            push_str(out, "<mode>");
            push_chars(out, m.as_slice());
            push_str(out, "</mode>");
        }
        push_str(out, "</key>");
        assert(out@ =~= start + key_xml(crate::model::opt_view(*key)).unwrap());
    } else {
        assert(out@ =~= start + key_xml(crate::model::opt_view(*key)).unwrap());
    }
    Ok(())
}

fn emit_clefs(out: &mut Vec<char>, staves: &Vec<PartStaff>) -> (r: Result<(), ConvertError>)
    ensures
        match r {
            Ok(_) => {
                let sv = staves@.map_values(|s: PartStaff| s@);
                &&& clefs_xml(sv, sv.len() > 1) is Some
                &&& final(out)@ == old(out)@ + clefs_xml(sv, sv.len() > 1).unwrap()
            },
            Err(e) => {
                let sv = staves@.map_values(|s: PartStaff| s@);
                clefs_xml(sv, sv.len() > 1) is None && (e matches ConvertError::InvalidScorify(m) && m@ == clefs_message(
                    sv,
                    0,
                ))
            },
        },
{
    let ghost start = out@;
    let ghost sv = staves@.map_values(|s: PartStaff| s@);
    let multi = staves.len() > 1;
    let mut i: usize = 0;
    assert(sv.take(0) =~= Seq::<PartStaffView>::empty());
    while i < staves.len()
        invariant
            i <= staves@.len(),
            sv == staves@.map_values(|s: PartStaff| s@),
            multi == (sv.len() > 1),
            clefs_xml(sv.take(i as int), multi) is Some,
            out@ == start + clefs_xml(sv.take(i as int), multi).unwrap(),
            clefs_message(sv, 0) == clefs_message(sv, i as int),
        decreases staves@.len() - i,
    {
        let staff = &staves[i];
        assert(sv.take(i + 1).drop_last() == sv.take(i as int));
        assert(sv.take(i + 1).last() == staff@);
        let number = if multi {
            Some(staff.staff_number)
        } else {
            None
        };
        let c = match clef_to_musicxml(staff.clef.as_slice(), number) {
            Ok(c) => c,
            Err(e) => {
                proof {
                    lemma_clefs_prefix_none(sv, i + 1, multi);
                }
                return Err(e);
            },
        };
        push_chars(out, c.as_slice());
        assert(clefs_message(sv, i as int) == clefs_message(sv, i + 1));
        i += 1;
        assert(out@ =~= start + clefs_xml(sv.take(i as int), multi).unwrap());
    }
    assert(sv.take(staves@.len() as int) == sv);
    Ok(())
}

fn emit_opening_controls(out: &mut Vec<char>, staves: &Vec<PartStaff>, mi: usize) -> (r: Result<(), ConvertError>)
    requires
        forall|j: int| 0 <= j < staves@.len() ==> mi < (#[trigger] staves@[j]).measures@.len(),
    ensures
        match r {
            Ok(_) => {
                let sv = staves@.map_values(|s: PartStaff| s@);
                &&& opening_controls_xml(sv, mi as int) is Some
                &&& final(out)@ == old(out)@ + opening_controls_xml(sv, mi as int).unwrap()
            },
            Err(e) => {
                let sv = staves@.map_values(|s: PartStaff| s@);
                opening_controls_xml(sv, mi as int) is None && (e matches ConvertError::InvalidScorify(m) && m@
                    == opening_message(sv, 0, mi as int))
            },
        },
{
    let ghost start = out@;
    let ghost sv = staves@.map_values(|s: PartStaff| s@);
    let mut i: usize = 0;
    assert(sv.take(0) =~= Seq::<PartStaffView>::empty());
    while i < staves.len()
        invariant
            i <= staves@.len(),
            sv == staves@.map_values(|s: PartStaff| s@),
            forall|j: int| 0 <= j < staves@.len() ==> mi < (#[trigger] staves@[j]).measures@.len(),
            opening_controls_xml(sv.take(i as int), mi as int) is Some,
            out@ == start + opening_controls_xml(sv.take(i as int), mi as int).unwrap(),
            opening_message(sv, 0, mi as int) == opening_message(sv, i as int, mi as int),
        decreases staves@.len() - i,
    {
        let staff = &staves[i];
        assert(sv.take(i + 1).drop_last() == sv.take(i as int));
        assert(sv.take(i + 1).last() == staff@);
        let measure = &staff.measures[mi];
        assert(staff@.measures[mi as int] == measure@);
        match emit_mid_measure_controls(out, measure.controls.as_slice(), 0, None) {
            Ok(_) => {
                assert(opening_message(sv, i as int, mi as int) == opening_message(sv, i + 1, mi as int));
            },
            Err(e) => {
                proof {
                    lemma_opening_prefix_none(sv, i + 1, mi as int);
                }
                return Err(e);
            },
        }
        i += 1;
        assert(out@ =~= start + opening_controls_xml(sv.take(i as int), mi as int).unwrap());
    }
    assert(sv.take(staves@.len() as int) == sv);
    Ok(())
}

/// Writes the attributes of a part's first measure.
#[verifier::spinoff_prover]
#[verifier::rlimit(40)]
pub fn emit_initial_attributes(out: &mut Vec<char>, part: &PartSpec, score: &Score, measure_index: usize) -> (r:
    Result<(), ConvertError>)
    requires
        forall|j: int| 0 <= j < part.staves@.len() ==> measure_index < (#[trigger] part.staves@[j]).measures@.len(),
    ensures
        match r {
            Ok(_) => spec_initial_attributes(part@, score@, measure_index as int) is Some && final(out)@ == old(out)@
                + spec_initial_attributes(part@, score@, measure_index as int).unwrap(),
            Err(e) => spec_initial_attributes(part@, score@, measure_index as int) is None && (e matches ConvertError::InvalidScorify(m)
                && m@ == initial_attributes_message(part@, score@, measure_index as int)),
        },
{
    reveal(spec_initial_attributes);
    let ghost start = out@;
    let ghost sv = part@.staves;
    push_str(out, "      <attributes>");
    push_str(out, "<divisions>");
    push_int(out, MUSICXML_DIVISIONS);
    push_str(out, "</divisions>");
    let ghost e1 = "      <attributes>"@ + "<divisions>"@ + int_text(MUSICXML_DIVISIONS as int) + "</divisions>"@;
    assert(out@ =~= start + e1);
    emit_key(out, &score.key)?;
    let ghost e2 = e1 + key_xml(score@.key).unwrap();
    assert(out@ =~= start + e2);
    if let Some(time) = &score.time {
        let t = time_to_musicxml(time.as_slice())?;
        push_chars(out, t.as_slice());
    }
    let ghost e3 = e2 + opt_time_xml(score@.time).unwrap();
    assert(out@ =~= start + e3);
    if part.staves.len() > 1 {
        push_str(out, "<staves>");
        push_usize(out, part.staves.len());
        push_str(out, "</staves>");
    }
    let ghost e4 = e3 + staves_xml(sv.len());
    assert(out@ =~= start + e4);
    emit_clefs(out, &part.staves)?;
    push_str(out, "</attributes>\n");
    let ghost e5 = e4 + clefs_xml(sv, sv.len() > 1).unwrap() + "</attributes>\n"@;
    assert(out@ =~= start + e5);
    emit_opening_controls(out, &part.staves, measure_index)?;
    let ghost e6 = e5 + opening_controls_xml(sv, measure_index as int).unwrap();
    assert(out@ =~= start + e6);
    assert(e6 == spec_initial_attributes(part@, score@, measure_index as int).unwrap());
    Ok(())
}

// ---------------------------------------------------------------------------
// Measures
// ---------------------------------------------------------------------------

/// The barline before measure `mi` of the first staff from `j` on that has one.
pub open spec fn first_barline_before(staves: Seq<PartStaffView>, j: int, mi: int) -> Option<Seq<char>>
    decreases staves.len() - j,
{
    if j < 0 || j >= staves.len() {
        None
    } else {
        match staves[j].measures[mi].barline_before {
            Some(b) => Some(b),
            None => first_barline_before(staves, j + 1, mi),
        }
    }
}

/// Measure `mi` of each staff in turn; staves are numbered when there are several.
pub open spec fn staff_measures_xml(staves: Seq<PartStaffView>, mi: int, multi: bool) -> Option<Seq<char>>
    decreases staves.len(),
{
    if staves.len() == 0 {
        Some(seq![])
    } else {
        match staff_measures_xml(staves.drop_last(), mi, multi) {
            Some(t) => match spec_staff_measure_xml(
                staves.last().measures[mi],
                if multi {
                    Some(staves.len() as usize)
                } else {
                    None
                },
            ) {
                Some(x) => Some(t + x),
                None => None,
            },
            None => None,
        }
    }
}

/// Measure `mi` of a part: its number, the left barline, the attributes in
/// the first measure, each staff, and the right barline of the first staff.
pub open spec fn spec_measure_xml(part: PartView, score: ScoreView, mi: int) -> Option<Seq<char>> {
    let head = "    <measure number=\""@ + decimal((mi + 1) as nat) + "\">\n"@;
    let left = match first_barline_before(part.staves, 0, mi) {
        Some(b) => spec_barline_xml(6, "left"@, b),
        None => seq![],
    };
    let right = part.staves[0].measures[mi].barline_after;
    let right_xml = if right != "|"@ {
        spec_barline_xml(6, "right"@, right)
    } else {
        seq![]
    };
    let attributes = if mi == 0 {
        spec_initial_attributes(part, score, mi)
    } else {
        Some(seq![])
    };
    match (attributes, staff_measures_xml(part.staves, mi, part.staves.len() > 1)) {
        (Some(a), Some(body)) => Some(head + left + a + body + right_xml + "    </measure>\n"@),
        _ => None,
    }
}

/// The message of the first staff, from `i` on, whose measure `mi` cannot be written.
pub open spec fn staff_measures_message(staves: Seq<PartStaffView>, i: int, mi: int, multi: bool) -> Seq<char>
    decreases staves.len() - i,
{
    if i < 0 || i >= staves.len() {
        seq![]
    } else {
        let number: Option<usize> = if multi {
            Some((i + 1) as usize)
        } else {
            None
        };
        if spec_staff_measure_xml(staves[i].measures[mi], number) is None {
            staff_measure_message(staves[i].measures[mi], number)
        } else {
            staff_measures_message(staves, i + 1, mi, multi)
        }
    }
}

/// The message of measure `mi` of a part that cannot be written.
pub open spec fn measure_message(part: PartView, score: ScoreView, mi: int) -> Seq<char> {
    if mi == 0 && spec_initial_attributes(part, score, mi) is None {
        initial_attributes_message(part, score, mi)
    } else {
        staff_measures_message(part.staves, 0, mi, part.staves.len() > 1)
    }
}

/// The message of the first measure of a part, from `mi` on, that cannot be written.
pub open spec fn measures_message(part: PartView, score: ScoreView, mi: int) -> Seq<char>
    decreases part.staves[0].measures.len() - mi,
{
    if mi < 0 || mi >= part.staves[0].measures.len() {
        seq![]
    } else if spec_measure_xml(part, score, mi) is None {
        measure_message(part, score, mi)
    } else {
        measures_message(part, score, mi + 1)
    }
}

/// The message of the first part, from `i` on, that cannot be written.
pub open spec fn written_parts_message(parts: Seq<PartView>, score: ScoreView, i: int) -> Seq<char>
    decreases parts.len() - i,
{
    if i < 0 || i >= parts.len() {
        seq![]
    } else if spec_part_xml(parts[i], score) is None {
        measures_message(parts[i], score, 0)
    } else {
        written_parts_message(parts, score, i + 1)
    }
}

proof fn lemma_staff_measures_prefix_none(staves: Seq<PartStaffView>, k: int, mi: int, multi: bool)
    requires
        0 <= k <= staves.len(),
        staff_measures_xml(staves.take(k), mi, multi) is None,
    ensures
        staff_measures_xml(staves, mi, multi) is None,
    decreases staves.len() - k,
{
    if k < staves.len() {
        assert(staves.take(k + 1).drop_last() == staves.take(k));
        lemma_staff_measures_prefix_none(staves, k + 1, mi, multi);
    } else {
        assert(staves.take(k) == staves);
    }
}

fn emit_left_barline(out: &mut Vec<char>, staves: &Vec<PartStaff>, mi: usize)
    requires
        forall|j: int| 0 <= j < staves@.len() ==> mi < (#[trigger] staves@[j]).measures@.len(),
    ensures
        final(out)@ == old(out)@ + match first_barline_before(staves@.map_values(|s: PartStaff| s@), 0, mi as int) {
            Some(b) => spec_barline_xml(6, "left"@, b),
            None => seq![],
        },
{
    let ghost sv = staves@.map_values(|s: PartStaff| s@);
    let mut j: usize = 0;
    while j < staves.len()
        invariant
            j <= staves@.len(),
            sv == staves@.map_values(|s: PartStaff| s@),
            forall|m: int| 0 <= m < staves@.len() ==> mi < (#[trigger] staves@[m]).measures@.len(),
            first_barline_before(sv, 0, mi as int) == first_barline_before(sv, j as int, mi as int),
            out@ == old(out)@,
        decreases staves@.len() - j,
    {
        let measure = &staves[j].measures[mi];
        assert(sv[j as int].measures[mi as int] == measure@);
        if let Some(b) = &measure.barline_before {
            let location = str_to_chars("left");
            emit_barline(out, 6, location.as_slice(), b.as_slice());
            return;
        }
        j += 1;
    }
}

fn emit_staff_measures(out: &mut Vec<char>, staves: &Vec<PartStaff>, mi: usize) -> (r: Result<(), ConvertError>)
    requires
        forall|j: int| 0 <= j < staves@.len() ==> mi < (#[trigger] staves@[j]).measures@.len(),
    ensures
        match r {
            Ok(_) => {
                let sv = staves@.map_values(|s: PartStaff| s@);
                &&& staff_measures_xml(sv, mi as int, sv.len() > 1) is Some
                &&& final(out)@ == old(out)@ + staff_measures_xml(sv, mi as int, sv.len() > 1).unwrap()
            },
            Err(e) => {
                let sv = staves@.map_values(|s: PartStaff| s@);
                staff_measures_xml(sv, mi as int, sv.len() > 1) is None && (e matches ConvertError::InvalidScorify(m) && m@
                    == staff_measures_message(sv, 0, mi as int, sv.len() > 1))
            },
        },
{
    let ghost start = out@;
    let ghost sv = staves@.map_values(|s: PartStaff| s@);
    let multi = staves.len() > 1;
    let mut i: usize = 0;
    assert(sv.take(0) =~= Seq::<PartStaffView>::empty());
    while i < staves.len()
        invariant
            i <= staves@.len(),
            sv == staves@.map_values(|s: PartStaff| s@),
            multi == (sv.len() > 1),
            forall|j: int| 0 <= j < staves@.len() ==> mi < (#[trigger] staves@[j]).measures@.len(),
            staff_measures_xml(sv.take(i as int), mi as int, multi) is Some,
            out@ == start + staff_measures_xml(sv.take(i as int), mi as int, multi).unwrap(),
            staff_measures_message(sv, 0, mi as int, multi) == staff_measures_message(sv, i as int, mi as int, multi),
        decreases staves@.len() - i,
    {
        let measure = &staves[i].measures[mi];
        assert(sv.take(i + 1).drop_last() == sv.take(i as int));
        assert(sv.take(i + 1).last().measures[mi as int] == measure@);
        let number = if multi {
            Some(i + 1)
        } else {
            None
        };
        match emit_staff_measure(out, measure, number) {
            Ok(_) => {
                assert(staff_measures_message(sv, i as int, mi as int, multi) == staff_measures_message(
                    sv,
                    i + 1,
                    mi as int,
                    multi,
                ));
            },
            Err(e) => {
                proof {
                    lemma_staff_measures_prefix_none(sv, i + 1, mi as int, multi);
                }
                return Err(e);
            },
        }
        i += 1;
        assert(out@ =~= start + staff_measures_xml(sv.take(i as int), mi as int, multi).unwrap());
    }
    assert(sv.take(staves@.len() as int) == sv);
    Ok(())
}

/// Writes measure `mi` of a part.
#[verifier::rlimit(40)]
pub fn emit_measure_xml(out: &mut Vec<char>, part: &PartSpec, score: &Score, mi: usize) -> (r: Result<(), ConvertError>)
    requires
        part.staves@.len() > 0,
        forall|j: int| 0 <= j < part.staves@.len() ==> mi < (#[trigger] part.staves@[j]).measures@.len(),
    ensures
        match r {
            Ok(_) => spec_measure_xml(part@, score@, mi as int) is Some && final(out)@ == old(out)@ + spec_measure_xml(
                part@,
                score@,
                mi as int,
            ).unwrap(),
            Err(e) => spec_measure_xml(part@, score@, mi as int) is None && (e matches ConvertError::InvalidScorify(m) && m@
                == measure_message(part@, score@, mi as int)),
        },
{
    let ghost start = out@;
    let ghost pv = part@;
    let count = part.staves[0].measures.len();
    assert(mi < count);
    push_str(out, "    <measure number=\"");
    push_usize(out, mi + 1);
    push_str(out, "\">\n");
    let ghost e1 = "    <measure number=\""@ + decimal((mi + 1) as nat) + "\">\n"@;
    assert(out@ =~= start + e1);
    emit_left_barline(out, &part.staves, mi);
    let ghost e2 = e1 + match first_barline_before(pv.staves, 0, mi as int) {
        Some(b) => spec_barline_xml(6, "left"@, b),
        None => seq![],
    };
    assert(out@ =~= start + e2);
    if mi == 0 {
        emit_initial_attributes(out, part, score, mi)?;
    }
    let ghost e3 = e2 + if mi == 0 {
        spec_initial_attributes(pv, score@, mi as int).unwrap()
    } else {
        seq![]
    };
    assert(out@ =~= start + e3);
    emit_staff_measures(out, &part.staves, mi)?;
    let ghost e4 = e3 + staff_measures_xml(pv.staves, mi as int, pv.staves.len() > 1).unwrap();
    assert(out@ =~= start + e4);
    let right = &part.staves[0].measures[mi].barline_after;
    assert(pv.staves[0].measures[mi as int].barline_after == right@);
    if !chars_eq_str(right.as_slice(), "|") {
        let location = str_to_chars("right");
        emit_barline(out, 6, location.as_slice(), right.as_slice());
    }
    push_str(out, "    </measure>\n");
    assert(out@ =~= start + spec_measure_xml(pv, score@, mi as int).unwrap());
    Ok(())
}

// ---------------------------------------------------------------------------
// Parts and the document
// ---------------------------------------------------------------------------

/// The first `n` measures of a part.
pub open spec fn measures_xml(part: PartView, score: ScoreView, n: int) -> Option<Seq<char>>
    decreases n,
{
    if n <= 0 {
        Some(seq![])
    } else {
        match (measures_xml(part, score, n - 1), spec_measure_xml(part, score, n - 1)) {
            (Some(a), Some(b)) => Some(a + b),
            _ => None,
        }
    }
}

/// The `<part>` element of a part: as many measures as its first staff has.
pub open spec fn spec_part_xml(part: PartView, score: ScoreView) -> Option<Seq<char>> {
    match measures_xml(part, score, part.staves[0].measures.len() as int) {
        Some(m) => Some("  <part id=\""@ + part.id + "\">\n"@ + m + "  </part>\n"@),
        None => None,
    }
}

/// The `<part>` elements of the parts in order.
pub open spec fn parts_xml(parts: Seq<PartView>, score: ScoreView) -> Option<Seq<char>>
    decreases parts.len(),
{
    if parts.len() == 0 {
        Some(seq![])
    } else {
        match (parts_xml(parts.drop_last(), score), spec_part_xml(parts.last(), score)) {
            (Some(a), Some(b)) => Some(a + b),
            _ => None,
        }
    }
}

/// The `<score-part>` entry of a part in the part list; a part without a
/// name is called "Part".
pub open spec fn score_part_xml(part: PartView) -> Seq<char> {
    "    <score-part id=\""@ + part.id + "\">\n"@ + "      <part-name>"@ + spec_xml_escape(
        match part.name {
            Some(n) => n,
            None => "Part"@,
        },
    ) + "</part-name>\n"@ + match part.abbreviation {
        Some(a) => "      <part-abbreviation>"@ + spec_xml_escape(a) + "</part-abbreviation>\n"@,
        None => seq![],
    } + "    </score-part>\n"@
}

/// The entries of the part list.
pub open spec fn part_list_xml(parts: Seq<PartView>) -> Seq<char>
    decreases parts.len(),
{
    if parts.len() == 0 {
        seq![]
    } else {
        part_list_xml(parts.drop_last()) + score_part_xml(parts.last())
    }
}

/// The XML declaration, the root element's start tag, the title and the composer.
pub open spec fn header_xml(score: ScoreView) -> Seq<char> {
    "<?xml version=\"1.0\" encoding=\"UTF-8\"?>\n"@ + "<score-partwise version=\"4.0\">\n"@ + match score.title {
        Some(t) => "  <work><work-title>"@ + spec_xml_escape(t) + "</work-title></work>\n"@,
        None => seq![],
    } + match score.composer {
        Some(c) => "  <identification><creator type=\"composer\">"@ + spec_xml_escape(c)
            + "</creator></identification>\n"@,
        None => seq![],
    }
}

/// The MusicXML document of a score and its parts.
pub open spec fn spec_emit_musicxml(score: ScoreView, parts: Seq<PartView>) -> Option<Seq<char>> {
    match parts_xml(parts, score) {
        Some(body) => Some(
            header_xml(score) + "  <part-list>\n"@ + part_list_xml(parts) + "  </part-list>\n"@ + body
                + "</score-partwise>\n"@,
        ),
        None => None,
    }
}

proof fn lemma_measures_prefix_none(part: PartView, score: ScoreView, k: int, n: int)
    requires
        0 <= k <= n,
        measures_xml(part, score, k) is None,
    ensures
        measures_xml(part, score, n) is None,
    decreases n - k,
{
    if k < n {
        lemma_measures_prefix_none(part, score, k + 1, n);
    }
}

proof fn lemma_parts_prefix_none(parts: Seq<PartView>, score: ScoreView, k: int)
    requires
        0 <= k <= parts.len(),
        parts_xml(parts.take(k), score) is None,
    ensures
        parts_xml(parts, score) is None,
    decreases parts.len() - k,
{
    if k < parts.len() {
        assert(parts.take(k + 1).drop_last() == parts.take(k));
        lemma_parts_prefix_none(parts, score, k + 1);
    } else {
        assert(parts.take(k) == parts);
    }
}

/// Writes the `<part>` element of a part.
pub fn emit_part(out: &mut Vec<char>, part: &PartSpec, score: &Score) -> (r: Result<(), ConvertError>)
    requires
        part@.staves.len() > 0,
        forall|j: int|
            0 <= j < part@.staves.len() ==> (#[trigger] part@.staves[j]).measures.len()
                == part@.staves[0].measures.len(),
    ensures
        match r {
            Ok(_) => spec_part_xml(part@, score@) is Some && final(out)@ == old(out)@ + spec_part_xml(
                part@,
                score@,
            ).unwrap(),
            Err(e) => spec_part_xml(part@, score@) is None && (e matches ConvertError::InvalidScorify(m) && m@
                == measures_message(part@, score@, 0)),
        },
{
    let ghost start = out@;
    let ghost pv = part@;
    push_str(out, "  <part id=\"");
    push_chars(out, part.id.as_slice());
    push_str(out, "\">\n");
    let ghost head = "  <part id=\""@ + pv.id + "\">\n"@;
    assert(out@ =~= start + head);
    let count = part.staves[0].measures.len();
    assert(pv.staves[0].measures.len() == count);
    let mut mi: usize = 0;
    while mi < count
        invariant
            mi <= count,
            pv == part@,
            pv.staves.len() > 0,
            count == pv.staves[0].measures.len(),
            forall|j: int| 0 <= j < pv.staves.len() ==> (#[trigger] pv.staves[j]).measures.len() == count,
            measures_xml(pv, score@, mi as int) is Some,
            out@ == start + head + measures_xml(pv, score@, mi as int).unwrap(),
            measures_message(pv, score@, 0) == measures_message(pv, score@, mi as int),
        decreases count - mi,
    {
        assert forall|j: int| 0 <= j < part.staves@.len() implies mi < (#[trigger] part.staves@[j]).measures@.len() by {
            assert(pv.staves[j].measures.len() == count);
            assert(pv.staves[j] == part.staves@[j]@);
        }
        match emit_measure_xml(out, part, score, mi) {
            Ok(_) => {
                assert(measures_message(pv, score@, mi as int) == measures_message(pv, score@, mi + 1));
            },
            Err(e) => {
                proof {
                    lemma_measures_prefix_none(pv, score@, mi + 1, count as int);
                }
                return Err(e);
            },
        }
        mi += 1;
        assert(out@ =~= start + head + measures_xml(pv, score@, mi as int).unwrap());
    }
    push_str(out, "  </part>\n");
    assert(out@ =~= start + spec_part_xml(pv, score@).unwrap());
    Ok(())
}

fn emit_part_list(out: &mut Vec<char>, parts: &Vec<PartSpec>)
    ensures
        final(out)@ == old(out)@ + part_list_xml(parts_view(parts@)),
{
    let ghost start = out@;
    let ghost pv = parts_view(parts@);
    let mut i: usize = 0;
    assert(pv.take(0) =~= Seq::<PartView>::empty());
    while i < parts.len()
        invariant
            i <= parts@.len(),
            pv == parts_view(parts@),
            out@ == start + part_list_xml(pv.take(i as int)),
        decreases parts@.len() - i,
    {
        let part = &parts[i];
        assert(pv.take(i + 1).drop_last() == pv.take(i as int));
        assert(pv.take(i + 1).last() == part@);
        let ghost before = out@;
        push_str(out, "    <score-part id=\"");
        push_chars(out, part.id.as_slice());
        push_str(out, "\">\n");
        push_str(out, "      <part-name>");
        match &part.name {
            Some(n) => push_xml_escaped(out, n.as_slice()),
            None => {
                let fallback = str_to_chars("Part");
                push_xml_escaped(out, fallback.as_slice());
            },
        }
        push_str(out, "</part-name>\n");
        if let Some(a) = &part.abbreviation {
            push_str(out, "      <part-abbreviation>");
            push_xml_escaped(out, a.as_slice());
            push_str(out, "</part-abbreviation>\n");
        }
        push_str(out, "    </score-part>\n");
        assert(out@ =~= before + score_part_xml(part@));
        i += 1;
        assert(out@ =~= start + part_list_xml(pv.take(i as int)));
    }
    assert(pv.take(parts@.len() as int) == pv);
}

fn emit_header(out: &mut Vec<char>, score: &Score)
    ensures
        final(out)@ == old(out)@ + header_xml(score@),
{
    let ghost start = out@;
    push_str(out, "<?xml version=\"1.0\" encoding=\"UTF-8\"?>\n");
    push_str(out, "<score-partwise version=\"4.0\">\n");
    if let Some(title) = &score.title {
        push_str(out, "  <work><work-title>");
        push_xml_escaped(out, title.as_slice());
        push_str(out, "</work-title></work>\n");
    }
    let ghost mid = out@;
    if let Some(composer) = &score.composer {
        push_str(out, "  <identification><creator type=\"composer\">");
        push_xml_escaped(out, composer.as_slice());
        push_str(out, "</creator></identification>\n");
    }
    assert(out@ =~= start + header_xml(score@));
}

/// Writes the MusicXML document of a score and its parts.
pub fn emit_musicxml(score: &Score, parts: &Vec<PartSpec>) -> (r: Result<Vec<char>, ConvertError>)
    requires
        parts_well_formed(parts_view(parts@)),
    ensures
        match r {
            Ok(x) => spec_emit_musicxml(score@, parts_view(parts@)) == Some(x@),
            Err(e) => spec_emit_musicxml(score@, parts_view(parts@)) is None && (e matches ConvertError::InvalidScorify(m)
                && m@ == written_parts_message(parts_view(parts@), score@, 0)),
        },
{
    let ghost pv = parts_view(parts@);
    let mut out: Vec<char> = Vec::new();
    emit_header(&mut out, score);
    push_str(&mut out, "  <part-list>\n");
    emit_part_list(&mut out, parts);
    push_str(&mut out, "  </part-list>\n");
    let ghost head = header_xml(score@) + "  <part-list>\n"@ + part_list_xml(pv) + "  </part-list>\n"@;
    assert(out@ =~= head);
    let mut i: usize = 0;
    assert(pv.take(0) =~= Seq::<PartView>::empty());
    while i < parts.len()
        invariant
            i <= parts@.len(),
            pv == parts_view(parts@),
            parts_well_formed(pv),
            parts_xml(pv.take(i as int), score@) is Some,
            out@ == head + parts_xml(pv.take(i as int), score@).unwrap(),
            written_parts_message(pv, score@, 0) == written_parts_message(pv, score@, i as int),
        decreases parts@.len() - i,
    {
        let part = &parts[i];
        assert(pv.take(i + 1).drop_last() == pv.take(i as int));
        assert(pv.take(i + 1).last() == part@);
        assert(pv[i as int] == part@);
        match emit_part(&mut out, part, score) {
            Ok(_) => {
                assert(written_parts_message(pv, score@, i as int) == written_parts_message(pv, score@, i + 1));
            },
            Err(e) => {
                proof {
                    lemma_parts_prefix_none(pv, score@, i + 1);
                }
                return Err(e);
            },
        }
        i += 1;
        assert(out@ =~= head + parts_xml(pv.take(i as int), score@).unwrap());
    }
    assert(pv.take(parts@.len() as int) == pv);
    push_str(&mut out, "</score-partwise>\n");
    assert(out@ =~= spec_emit_musicxml(score@, pv).unwrap());
    Ok(out)
}

} // verus!
