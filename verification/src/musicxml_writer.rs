//! Writing the parts of a Scorify score as MusicXML.
use vstd::prelude::*;

use crate::durations::{duration_and_type, spec_duration_and_type};
use crate::error::ConvertError;
use crate::model::{
    events_view, pick, sat, sat_add, sat_sub, sort_by_start, sorted_order, EventView, LyricToken,
    LyricView, NoteToken, NoteView, PitchView, TimedEvent, Token, TokenView,
};
use crate::musicxml_parts::{
    clef_to_musicxml, harmony_to_musicxml, lyric_to_musicxml, note_notations, note_signature,
    pitch_to_musicxml, pitches_signature, push_xml_escaped, spec_clef_to_musicxml,
    spec_harmony_to_musicxml, spec_lyric_to_musicxml, spec_note_notations, spec_pitch_to_musicxml,
    spec_time_to_musicxml, spec_xml_escape, spec_xml_name, time_to_musicxml, xml_name,
};
use crate::text::{chars_equal, decimal, int_text, push_chars, push_int, push_str, push_usize};

verus! {

// ---------------------------------------------------------------------------
// Ties that are waiting for their end note
// ---------------------------------------------------------------------------

/// The signatures held in a list of tie signatures.
pub open spec fn tie_set(v: Seq<Vec<char>>) -> Set<Seq<char>> {
    Set::new(|x: Seq<char>| exists|i: int| 0 <= i < v.len() && (#[trigger] v[i])@ == x)
}

proof fn lemma_tie_set_push(v: Seq<Vec<char>>, x: Vec<char>)
    ensures
        tie_set(v.push(x)) == tie_set(v).insert(x@),
{
    let w = v.push(x);
    assert forall|y: Seq<char>| tie_set(w).contains(y) <==> tie_set(v).insert(x@).contains(y) by {
        if tie_set(v).contains(y) {
            let j = choose|j: int| 0 <= j < v.len() && (#[trigger] v[j])@ == y;
            assert(w[j]@ == y);
        }
        if tie_set(w).contains(y) {
            let j = choose|j: int| 0 <= j < w.len() && (#[trigger] w[j])@ == y;
            if j < v.len() {
                assert(v[j]@ == y);
            }
        }
        if y == x@ {
            assert(w[v.len() as int]@ == y);
        }
    }
    assert(tie_set(w) =~= tie_set(v).insert(x@));
}

pub proof fn lemma_tie_set_empty(v: Seq<Vec<char>>)
    requires
        v.len() == 0,
    ensures
        tie_set(v) == Set::<Seq<char>>::empty(),
{
    assert(tie_set(v) =~= Set::<Seq<char>>::empty());
}

fn ties_remove(ties: &mut Vec<Vec<char>>, sig: &[char]) -> (present: bool)
    ensures
        present == tie_set(old(ties)@).contains(sig@),
        tie_set(final(ties)@) == tie_set(old(ties)@).remove(sig@),
{
    let mut kept: Vec<Vec<char>> = Vec::new();
    let mut present = false;
    let mut i: usize = 0;
    proof {
        lemma_tie_set_empty(kept@);
        lemma_tie_set_empty(ties@.take(0));
        assert(tie_set(kept@) =~= tie_set(ties@.take(0)).remove(sig@));
    }
    while i < ties.len()
        invariant
            i <= ties@.len(),
            present == tie_set(ties@.take(i as int)).contains(sig@),
            tie_set(kept@) == tie_set(ties@.take(i as int)).remove(sig@),
        decreases ties@.len() - i,
    {
        proof {
            assert(ties@.take(i + 1) == ties@.take(i as int).push(ties@[i as int]));
            lemma_tie_set_push(ties@.take(i as int), ties@[i as int]);
        }
        if chars_equal(ties[i].as_slice(), sig) {
            present = true;
            assert(tie_set(kept@) =~= tie_set(ties@.take(i + 1)).remove(sig@));
        } else {
            let c = crate::text::copy_chars(ties[i].as_slice());
            let ghost prev = kept@;
            kept.push(c);
            proof {
                lemma_tie_set_push(prev, c);
                assert(tie_set(kept@) =~= tie_set(ties@.take(i + 1)).remove(sig@));
            }
        }
        i += 1;
    }
    assert(ties@.take(ties@.len() as int) == ties@);
    *ties = kept;
    present
}

fn ties_insert(ties: &mut Vec<Vec<char>>, sig: &[char])
    ensures
        tie_set(final(ties)@) == tie_set(old(ties)@).insert(sig@),
{
    let ghost prev = ties@;
    let c = crate::text::copy_chars(sig);
    ties.push(c);
    proof {
        lemma_tie_set_push(prev, c);
    }
}

// ---------------------------------------------------------------------------
// Controls, rests and notes
// ---------------------------------------------------------------------------

pub open spec fn forward_xml(n: int) -> Seq<char> {
    "      <forward><duration>"@ + int_text(n) + "</duration></forward>\n"@
}

fn push_forward(out: &mut Vec<char>, n: i64)
    ensures
        final(out)@ == old(out)@ + forward_xml(n as int),
{
    push_str(out, "      <forward><duration>");
    push_int(out, n);
    push_str(out, "</duration></forward>\n");
}

/// The `<attributes>` line of a clef or time change (nothing for other tokens).
pub open spec fn spec_emit_control(c: EventView, staff: Option<usize>) -> Option<Seq<char>> {
    match c.token {
        TokenView::Clef(x) => match spec_clef_to_musicxml(x, staff) {
            Some(b) => Some("      <attributes>"@ + b + "</attributes>\n"@),
            None => None,
        },
        TokenView::Time(x) => match spec_time_to_musicxml(x) {
            Some(b) => Some("      <attributes>"@ + b + "</attributes>\n"@),
            None => None,
        },
        _ => Some(seq![]),
    }
}

/// The message of a clef or time change that cannot be written.
pub open spec fn control_message(e: EventView) -> Seq<char> {
    match e.token {
        TokenView::Clef(x) => "unsupported clef '"@ + x + "'"@,
        TokenView::Time(x) => "unsupported time signature '"@ + x + "'"@,
        _ => seq![],
    }
}

/// The message of a length in ticks that maps to no note type.
pub open spec fn unmapped_duration_message(duration: int) -> Seq<char> {
    "could not map duration value "@ + int_text(duration) + " to a MusicXML note type"@
}

/// The message of a note that cannot be written: its chord symbol, or else
/// its length.
pub open spec fn note_message(note: NoteView, duration: int) -> Seq<char> {
    match note.chord_symbol {
        Some(c) => if spec_harmony_to_musicxml(c) is None {
            crate::musicxml_parts::chord_symbol_message(c)
        } else {
            unmapped_duration_message(duration)
        },
        None => unmapped_duration_message(duration),
    }
}

/// The message of an event that cannot be written.
pub open spec fn event_message(e: EventView) -> Seq<char> {
    match e.token {
        TokenView::Note(n) => note_message(n, e.duration),
        _ => unmapped_duration_message(e.duration),
    }
}

pub fn emit_control(out: &mut Vec<char>, event: &TimedEvent, staff_number: Option<usize>) -> (r: Result<(), ConvertError>)
    ensures
        match r {
            Ok(_) => spec_emit_control(event@, staff_number) is Some && final(out)@ == old(out)@ + spec_emit_control(
                event@,
                staff_number,
            ).unwrap(),
            Err(e) => spec_emit_control(event@, staff_number) is None && (e matches ConvertError::InvalidScorify(m) && m@
                == control_message(event@)) && final(out)@ == old(out)@,
        },
{
    let ghost start = out@;
    match &event.token {
        Token::Clef(clef) => {
            let x = clef_to_musicxml(clef.as_slice(), staff_number)?;
            push_str(out, "      <attributes>");
            push_chars(out, x.as_slice());
            push_str(out, "</attributes>\n");
        },
        Token::Time(time) => {
            let x = time_to_musicxml(time.as_slice())?;
            push_str(out, "      <attributes>");
            push_chars(out, x.as_slice());
            push_str(out, "</attributes>\n");
        },
        _ => {},
    }
    assert(out@ =~= start + spec_emit_control(event@, staff_number).unwrap());
    Ok(())
}

/// Controls of `cs` that start at `at`, in their order, each as `spec_emit_control` writes it.
pub open spec fn mid_controls(cs: Seq<EventView>, at: int, staff: Option<usize>) -> Option<Seq<char>>
    decreases cs.len(),
{
    if cs.len() == 0 {
        Some(seq![])
    } else {
        match mid_controls(cs.drop_last(), at, staff) {
            Some(t) => if cs.last().start == at {
                match spec_emit_control(cs.last(), staff) {
                    Some(x) => Some(t + x),
                    None => None,
                }
            } else {
                Some(t)
            },
            None => None,
        }
    }
}

/// The message of the first control, from `i` on, that starts at `at` and
/// cannot be written.
pub open spec fn mid_controls_message(cs: Seq<EventView>, i: int, at: int, staff: Option<usize>) -> Seq<char>
    decreases cs.len() - i,
{
    if i < 0 || i >= cs.len() {
        seq![]
    } else if cs[i].start == at && spec_emit_control(cs[i], staff) is None {
        control_message(cs[i])
    } else {
        mid_controls_message(cs, i + 1, at, staff)
    }
}

pub fn emit_mid_measure_controls(out: &mut Vec<char>, controls: &[TimedEvent], at: i64, staff_number: Option<usize>) -> (r: Result<(), ConvertError>)
    ensures
        match r {
            Ok(_) => mid_controls(events_view(controls@), at as int, staff_number) is Some && final(out)@ == old(out)@
                + mid_controls(events_view(controls@), at as int, staff_number).unwrap(),
            Err(e) => mid_controls(events_view(controls@), at as int, staff_number) is None && (e matches ConvertError::InvalidScorify(m)
                && m@ == mid_controls_message(events_view(controls@), 0, at as int, staff_number)),
        },
{
    let ghost start = out@;
    let ghost cs = events_view(controls@);
    let mut i: usize = 0;
    assert(cs.take(0) =~= Seq::<EventView>::empty());
    assert(out@ =~= start + mid_controls(cs.take(0), at as int, staff_number).unwrap());
    while i < controls.len()
        invariant
            i <= controls@.len(),
            cs == events_view(controls@),
            mid_controls(cs.take(i as int), at as int, staff_number) is Some,
            out@ == start + mid_controls(cs.take(i as int), at as int, staff_number).unwrap(),
            mid_controls_message(cs, 0, at as int, staff_number) == mid_controls_message(cs, i as int, at as int, staff_number),
        decreases controls@.len() - i,
    {
        assert(cs.take(i + 1).drop_last() == cs.take(i as int));
        assert(cs.take(i + 1).last() == controls@[i as int]@);
        if controls[i].start == at {
            let ghost before = out@;
            match emit_control(out, &controls[i], staff_number) {
                Ok(_) => {
                    assert(out@ =~= start + mid_controls(cs.take(i + 1), at as int, staff_number).unwrap());
                    assert(mid_controls_message(cs, i as int, at as int, staff_number) == mid_controls_message(
                        cs,
                        i + 1,
                        at as int,
                        staff_number,
                    ));
                },
                Err(e) => {
                    proof {
                        lemma_mid_prefix_none(cs, i + 1, at as int, staff_number);
                    }
                    return Err(e);
                },
            }
        } else {
            assert(out@ =~= start + mid_controls(cs.take(i + 1), at as int, staff_number).unwrap());
        }
        i += 1;
    }
    assert(cs.take(controls@.len() as int) == cs);
    Ok(())
}

proof fn lemma_mid_prefix_none(cs: Seq<EventView>, k: int, at: int, staff: Option<usize>)
    requires
        0 <= k <= cs.len(),
        mid_controls(cs.take(k), at, staff) is None,
    ensures
        mid_controls(cs, at, staff) is None,
    decreases cs.len() - k,
{
    if k < cs.len() {
        assert(cs.take(k + 1).drop_last() == cs.take(k));
        lemma_mid_prefix_none(cs, k + 1, at, staff);
    } else {
        assert(cs.take(k) == cs);
    }
}

pub open spec fn dots_xml(n: nat) -> Seq<char>
    decreases n,
{
    if n == 0 {
        seq![]
    } else {
        dots_xml((n - 1) as nat) + "<dot/>"@
    }
}

fn push_dots(out: &mut Vec<char>, n: usize)
    ensures
        final(out)@ == old(out)@ + dots_xml(n as nat),
{
    let ghost start = out@;
    let mut i: usize = 0;
    assert(start + dots_xml(0) =~= start);
    while i < n
        invariant
            i <= n,
            out@ == start + dots_xml(i as nat),
        decreases n - i,
    {
        push_str(out, "<dot/>");
        i += 1;
        assert(out@ =~= start + dots_xml(i as nat));
    }
}

pub open spec fn staff_xml(staff: Option<usize>) -> Seq<char> {
    match staff {
        Some(n) => "<staff>"@ + decimal(n as nat) + "</staff>"@,
        None => seq![],
    }
}

fn push_staff(out: &mut Vec<char>, staff: Option<usize>)
    ensures
        final(out)@ == old(out)@ + staff_xml(staff),
{
    if let Some(n) = staff {
        push_str(out, "<staff>");
        push_usize(out, n);
        push_str(out, "</staff>");
    }
}

/// A rest `<note>` line.
pub open spec fn spec_rest_xml(duration: int, voice: nat, staff: Option<usize>) -> Option<Seq<char>> {
    match spec_duration_and_type(duration, None, 0) {
        Some((note_type, dots)) => Some(
            "      <note><rest/>"@ + "<duration>"@ + int_text(duration) + "</duration>"@ + "<voice>"@ + decimal(voice)
                + "</voice>"@ + "<type>"@ + note_type + "</type>"@ + dots_xml(dots) + staff_xml(staff) + "</note>\n"@,
        ),
        None => None,
    }
}

pub fn emit_rest_xml(out: &mut Vec<char>, duration: i64, voice_number: usize, staff_number: Option<usize>) -> (r: Result<(), ConvertError>)
    ensures
        match r {
            Ok(_) => final(out)@ == old(out)@ + spec_rest_xml(duration as int, voice_number as nat, staff_number).unwrap()
                && spec_rest_xml(duration as int, voice_number as nat, staff_number) is Some,
            Err(e) => spec_rest_xml(duration as int, voice_number as nat, staff_number) is None && (e matches ConvertError::InvalidScorify(m)
                && m@ == unmapped_duration_message(duration as int))
                && final(out)@ == old(out)@,
        },
{
    let (note_type, dots) = duration_and_type(duration, None, 0)?;
    let ghost start = out@;
    push_str(out, "      <note><rest/>");
    push_str(out, "<duration>");
    push_int(out, duration);
    push_str(out, "</duration>");
    push_str(out, "<voice>");
    push_usize(out, voice_number);
    push_str(out, "</voice>");
    push_str(out, "<type>");
    push_chars(out, note_type.as_slice());
    push_str(out, "</type>");
    push_dots(out, dots);
    push_staff(out, staff_number);
    push_str(out, "</note>\n");
    assert(out@ =~= start + spec_rest_xml(duration as int, voice_number as nat, staff_number).unwrap());
    Ok(())
}

/// The directions and harmony written before a note's `<note>` lines.
pub open spec fn note_prelude(note: NoteView) -> Option<Seq<char>> {
    let d = match note.dynamic {
        Some(x) => "      <direction><direction-type><dynamics><"@ + spec_xml_name(x) + "/></dynamics></direction-type></direction>\n"@,
        None => seq![],
    };
    let w = match note.staff_text {
        Some(x) => "      <direction><direction-type><words>"@ + spec_xml_escape(x) + "</words></direction-type></direction>\n"@,
        None => seq![],
    };
    match note.chord_symbol {
        Some(c) => match spec_harmony_to_musicxml(c) {
            Some(h) => Some(d + w + "      "@ + h + "</harmony>\n"@),
            None => None,
        },
        None => Some(d + w),
    }
}

pub open spec fn accidental_xml(p: PitchView) -> Seq<char> {
    match p.accidental_text {
        Some(a) => "<accidental>"@ + spec_xml_escape(a) + "</accidental>"@,
        None => seq![],
    }
}

pub open spec fn lyrics_xml(ls: Seq<LyricView>) -> Seq<char>
    decreases ls.len(),
{
    if ls.len() == 0 {
        seq![]
    } else {
        lyrics_xml(ls.drop_last()) + spec_lyric_to_musicxml(ls.last())
    }
}

/// The start of the `<note>` line of the `idx`-th pitch of a note, up to its voice.
pub open spec fn pitch_note_head(note: NoteView, idx: int, duration: int, voice: nat, tie_stop: bool) -> Seq<char> {
    "      <note>"@ + (if idx > 0 {
        "<chord/>"@
    } else {
        seq![]
    }) + spec_pitch_to_musicxml(note.pitches[idx]) + "<duration>"@ + int_text(duration) + "</duration>"@ + (
    if note.tie_start {
        "<tie type=\"start\"/>"@
    } else {
        seq![]
    }) + (if tie_stop {
        "<tie type=\"stop\"/>"@
    } else {
        seq![]
    }) + "<voice>"@ + decimal(voice) + "</voice>"@
}

/// The rest of the `<note>` line of the `idx`-th pitch of a note.
pub open spec fn pitch_note_tail(
    note: NoteView,
    idx: int,
    note_type: Seq<char>,
    dots: nat,
    staff: Option<usize>,
    tie_stop: bool,
) -> Seq<char> {
    let notation = spec_note_notations(note, tie_stop);
    accidental_xml(note.pitches[idx]) + "<type>"@ + note_type + "</type>"@ + dots_xml(dots) + staff_xml(staff) + (
    if idx == 0 {
        lyrics_xml(note.lyrics)
    } else {
        seq![]
    }) + (if notation.len() > 0 {
        "<notations>"@ + notation + "</notations>"@
    } else {
        seq![]
    }) + "</note>\n"@
}

/// The `<note>` line of the `idx`-th pitch of a note.
pub open spec fn pitch_note_xml(
    note: NoteView,
    idx: int,
    duration: int,
    note_type: Seq<char>,
    dots: nat,
    voice: nat,
    staff: Option<usize>,
    tie_stop: bool,
) -> Seq<char> {
    pitch_note_head(note, idx, duration, voice, tie_stop) + pitch_note_tail(note, idx, note_type, dots, staff, tie_stop)
}

pub open spec fn pitch_notes_xml(
    note: NoteView,
    k: int,
    duration: int,
    note_type: Seq<char>,
    dots: nat,
    voice: nat,
    staff: Option<usize>,
    tie_stop: bool,
) -> Seq<char>
    decreases k,
{
    if k <= 0 {
        seq![]
    } else {
        pitch_notes_xml(note, k - 1, duration, note_type, dots, voice, staff, tie_stop) + pitch_note_xml(
            note,
            k - 1,
            duration,
            note_type,
            dots,
            voice,
            staff,
            tie_stop,
        )
    }
}

/// A note: its directions and harmony, then one `<note>` per pitch. A note
/// ends a tie that an earlier note with the same pitches started.
pub open spec fn spec_note_xml(
    note: NoteView,
    duration: int,
    voice: nat,
    staff: Option<usize>,
    ties: Set<Seq<char>>,
) -> Option<(Seq<char>, Set<Seq<char>>)> {
    match note_prelude(note) {
        Some(pre) => match spec_duration_and_type(duration, note.duration_text, note.dots) {
            Some((note_type, dots)) => {
                let sig = pitches_signature(note.pitches);
                let tie_stop = note.tie_stop || ties.contains(sig);
                let ties1 = if note.tie_stop {
                    ties
                } else {
                    ties.remove(sig)
                };
                let ties2 = if note.tie_start {
                    ties1.insert(sig)
                } else {
                    ties1
                };
                Some(
                    (
                        pre + pitch_notes_xml(
                            note,
                            note.pitches.len() as int,
                            duration,
                            note_type,
                            dots,
                            voice,
                            staff,
                            tie_stop,
                        ),
                        ties2,
                    ),
                )
            },
            None => None,
        },
        None => None,
    }
}

fn push_lyrics(out: &mut Vec<char>, lyrics: &Vec<LyricToken>)
    ensures
        final(out)@ == old(out)@ + lyrics_xml(lyrics@.map_values(|l: LyricToken| l@)),
{
    let ghost start = out@;
    let ghost ls = lyrics@.map_values(|l: LyricToken| l@);
    let mut i: usize = 0;
    assert(ls.take(0) =~= Seq::<LyricView>::empty());
    assert(out@ =~= start + lyrics_xml(ls.take(0)));
    while i < lyrics.len()
        invariant
            i <= lyrics@.len(),
            ls == lyrics@.map_values(|l: LyricToken| l@),
            out@ == start + lyrics_xml(ls.take(i as int)),
        decreases lyrics@.len() - i,
    {
        let x = lyric_to_musicxml(&lyrics[i]);
        push_chars(out, x.as_slice());
        assert(ls.take(i + 1).drop_last() == ls.take(i as int));
        i += 1;
        assert(out@ =~= start + lyrics_xml(ls.take(i as int)));
    }
    assert(ls.take(lyrics@.len() as int) == ls);
}

#[verifier::spinoff_prover]
#[verifier::rlimit(50)]
fn push_pitch_head(out: &mut Vec<char>, note: &NoteToken, idx: usize, duration: i64, voice_number: usize, tie_stop: bool)
    requires
        idx < note.pitches@.len(),
    ensures
        final(out)@ == old(out)@ + pitch_note_head(note@, idx as int, duration as int, voice_number as nat, tie_stop),
{
    let ghost start = out@;
    let ghost nv = note@;
    let pitch = &note.pitches[idx];
    assert(nv.pitches[idx as int] == pitch@);
    push_str(out, "      <note>");
    if idx > 0 {
        push_str(out, "<chord/>");
    }
    let ghost e1 = "      <note>"@ + (if idx > 0 {
        "<chord/>"@
    } else {
        seq![]
    });
    assert(out@ =~= start + e1);
    push_chars(out, pitch_to_musicxml(pitch).as_slice());
    push_str(out, "<duration>");
    push_int(out, duration);
    push_str(out, "</duration>");
    let ghost e2 = e1 + spec_pitch_to_musicxml(pitch@) + "<duration>"@ + int_text(duration as int) + "</duration>"@;
    assert(out@ =~= start + e2);
    if note.tie_start {
        push_str(out, "<tie type=\"start\"/>");
    }
    let ghost e3 = e2 + (if nv.tie_start {
        "<tie type=\"start\"/>"@
    } else {
        seq![]
    });
    assert(out@ =~= start + e3);
    if tie_stop {
        push_str(out, "<tie type=\"stop\"/>");
    }
    let ghost e4 = e3 + (if tie_stop {
        "<tie type=\"stop\"/>"@
    } else {
        seq![]
    });
    assert(out@ =~= start + e4);
    push_str(out, "<voice>");
    push_usize(out, voice_number);
    push_str(out, "</voice>");
    let ghost e5 = e4 + "<voice>"@ + decimal(voice_number as nat) + "</voice>"@;
    assert(out@ =~= start + e5);
    assert(e5 == pitch_note_head(nv, idx as int, duration as int, voice_number as nat, tie_stop));
}

fn push_notations(out: &mut Vec<char>, note: &NoteToken, tie_stop: bool)
    ensures
        final(out)@ == old(out)@ + (if spec_note_notations(note@, tie_stop).len() > 0 {
            "<notations>"@ + spec_note_notations(note@, tie_stop) + "</notations>"@
        } else {
            seq![]
        }),
{
    let notation = note_notations(note, tie_stop);
    if notation.len() > 0 {
        push_str(out, "<notations>");
        push_chars(out, notation.as_slice());
        push_str(out, "</notations>");
    }
}

fn push_accidental(out: &mut Vec<char>, pitch: &crate::model::PitchToken)
    ensures
        final(out)@ == old(out)@ + accidental_xml(pitch@),
{
    if let Some(accidental) = &pitch.accidental_text {
        push_str(out, "<accidental>");
        push_xml_escaped(out, accidental.as_slice());
        push_str(out, "</accidental>");
    }
}

#[verifier::spinoff_prover]
#[verifier::rlimit(50)]
fn push_pitch_tail(
    out: &mut Vec<char>,
    note: &NoteToken,
    idx: usize,
    note_type: &[char],
    dots: usize,
    staff_number: Option<usize>,
    tie_stop: bool,
)
    requires
        idx < note.pitches@.len(),
    ensures
        final(out)@ == old(out)@ + pitch_note_tail(note@, idx as int, note_type@, dots as nat, staff_number, tie_stop),
{
    let ghost start = out@;
    let ghost nv = note@;
    let pitch = &note.pitches[idx];
    assert(nv.pitches[idx as int] == pitch@);
    push_accidental(out, pitch);
    let ghost e1 = accidental_xml(pitch@);
    push_str(out, "<type>");
    push_chars(out, note_type);
    push_str(out, "</type>");
    let ghost e2 = e1 + "<type>"@ + note_type@ + "</type>"@;
    assert(out@ =~= start + e2);
    push_dots(out, dots);
    push_staff(out, staff_number);
    let ghost e3 = e2 + dots_xml(dots as nat) + staff_xml(staff_number);
    assert(out@ =~= start + e3);
    if idx == 0 {
        push_lyrics(out, &note.lyrics);
    }
    let ghost e4 = e3 + (if idx == 0 {
        lyrics_xml(nv.lyrics)
    } else {
        seq![]
    });
    assert(out@ =~= start + e4);
    push_notations(out, note, tie_stop);
    push_str(out, "</note>\n");
    let ghost notation = spec_note_notations(nv, tie_stop);
    let ghost e5 = e4 + (if notation.len() > 0 {
        "<notations>"@ + notation + "</notations>"@
    } else {
        seq![]
    }) + "</note>\n"@;
    assert(out@ =~= start + e5);
    assert(e5 == pitch_note_tail(nv, idx as int, note_type@, dots as nat, staff_number, tie_stop));
}

/// Writes the directions and harmony that come before a note.
#[verifier::rlimit(100)]
fn emit_note_prelude(out: &mut Vec<char>, note: &NoteToken) -> (r: Result<(), ConvertError>)
    ensures
        match r {
            Ok(_) => note_prelude(note@) is Some && final(out)@ == old(out)@ + note_prelude(note@).unwrap(),
            Err(e) => note_prelude(note@) is None && (e matches ConvertError::InvalidScorify(m) && m@
                == crate::musicxml_parts::chord_symbol_message(note@.chord_symbol.unwrap())),
        },
{
    let ghost start = out@;
    if let Some(dynamic) = &note.dynamic {
        push_str(out, "      <direction><direction-type><dynamics><");
        push_chars(out, xml_name(dynamic.as_slice()).as_slice());
        push_str(out, "/></dynamics></direction-type></direction>\n");
    }
    if let Some(text) = &note.staff_text {
        push_str(out, "      <direction><direction-type><words>");
        push_xml_escaped(out, text.as_slice());
        push_str(out, "</words></direction-type></direction>\n");
    }
    if let Some(chord_symbol) = &note.chord_symbol {
        let h = harmony_to_musicxml(chord_symbol.as_slice())?;
        push_str(out, "      ");
        push_chars(out, h.as_slice());
        push_str(out, "</harmony>\n");
    }
    proof {
        assert(note_prelude(note@) is Some);
        assert(out@ =~= start + note_prelude(note@).unwrap());
    }
    Ok(())
}

#[verifier::rlimit(100)]
pub fn emit_note_xml(
    out: &mut Vec<char>,
    note: &NoteToken,
    duration: i64,
    voice_number: usize,
    staff_number: Option<usize>,
    active_ties: &mut Vec<Vec<char>>,
) -> (r: Result<(), ConvertError>)
    ensures
        match r {
            Ok(_) => {
                let sp = spec_note_xml(note@, duration as int, voice_number as nat, staff_number, tie_set(old(active_ties)@));
                &&& sp is Some
                &&& final(out)@ == old(out)@ + sp.unwrap().0
                &&& tie_set(final(active_ties)@) == sp.unwrap().1
            },
            Err(e) => spec_note_xml(note@, duration as int, voice_number as nat, staff_number, tie_set(old(active_ties)@))
                is None && (e matches ConvertError::InvalidScorify(m) && m@ == note_message(note@, duration as int)),
        },
{
    let ghost start = out@;
    emit_note_prelude(out, note)?;
    let ghost after_pre = out@;
    let text_opt: Option<&[char]> = match &note.duration_text {
        Some(t) => Some(t.as_slice()),
        None => None,
    };
    let (note_type, dots) = duration_and_type(duration, text_opt, note.dots)?;
    let signature = note_signature(note);
    let tie_stop = if note.tie_stop {
        true
    } else {
        ties_remove(active_ties, signature.as_slice())
    };
    if note.tie_start {
        ties_insert(active_ties, signature.as_slice());
    }
    let mut idx: usize = 0;
    while idx < note.pitches.len()
        invariant
            idx <= note.pitches@.len(),
            out@ == after_pre + pitch_notes_xml(
                note@,
                idx as int,
                duration as int,
                note_type@,
                dots as nat,
                voice_number as nat,
                staff_number,
                tie_stop,
            ),
        decreases note.pitches@.len() - idx,
    {
        let ghost before = out@;
        push_pitch_head(out, note, idx, duration, voice_number, tie_stop);
        push_pitch_tail(out, note, idx, note_type.as_slice(), dots, staff_number, tie_stop);
        idx += 1;
        assert(out@ =~= after_pre + pitch_notes_xml(
            note@,
            idx as int,
            duration as int,
            note_type@,
            dots as nat,
            voice_number as nat,
            staff_number,
            tie_stop,
        ));
    }
    proof {
        let sp = spec_note_xml(note@, duration as int, voice_number as nat, staff_number, tie_set(old(active_ties)@));
        assert(sp is Some);
        assert(out@ =~= start + sp.unwrap().0);
    }
    Ok(())
}

/// What an event writes: a rest or note line; controls and other tokens write nothing here.
pub open spec fn spec_event_xml(e: EventView, voice: nat, staff: Option<usize>, ties: Set<Seq<char>>) -> Option<(Seq<char>, Set<Seq<char>>)> {
    match e.token {
        TokenView::Rest => match spec_rest_xml(e.duration, voice, staff) {
            Some(t) => Some((t, ties)),
            None => None,
        },
        TokenView::Note(n) => spec_note_xml(n, e.duration, voice, staff, ties),
        _ => Some((seq![], ties)),
    }
}

pub fn emit_event_xml(
    out: &mut Vec<char>,
    event: &TimedEvent,
    voice_number: usize,
    staff_number: Option<usize>,
    active_ties: &mut Vec<Vec<char>>,
) -> (r: Result<(), ConvertError>)
    ensures
        match r {
            Ok(_) => {
                let sp = spec_event_xml(event@, voice_number as nat, staff_number, tie_set(old(active_ties)@));
                &&& sp is Some
                &&& final(out)@ == old(out)@ + sp.unwrap().0
                &&& tie_set(final(active_ties)@) == sp.unwrap().1
            },
            Err(e) => spec_event_xml(event@, voice_number as nat, staff_number, tie_set(old(active_ties)@)) is None
                && (e matches ConvertError::InvalidScorify(m) && m@ == event_message(event@)),
        },
{
    let ghost start = out@;
    match &event.token {
        Token::Rest => {
            emit_rest_xml(out, event.duration, voice_number, staff_number)?;
            Ok(())
        },
        Token::Note(note) => emit_note_xml(out, note, event.duration, voice_number, staff_number, active_ties),
        _ => {
            assert(out@ =~= start + Seq::<char>::empty());
            Ok(())
        },
    }
}

// ---------------------------------------------------------------------------
// Voices
// ---------------------------------------------------------------------------

pub open spec fn max_int(a: int, b: int) -> int {
    if a >= b {
        a
    } else {
        b
    }
}

/// Writes the controls from `ci` on that start at or before `limit` (all of
/// them when there is no limit), each preceded by a `<forward>` to its start.
/// Yields the text, the cursor and the index of the next control.
pub open spec fn controls_run(
    cs: Seq<EventView>,
    ci: int,
    limit: Option<int>,
    cursor: int,
    staff: Option<usize>,
    acc: Seq<char>,
) -> Option<(Seq<char>, int, int)>
    decreases cs.len() - ci,
{
    if ci < 0 || ci >= cs.len() {
        Some((acc, cursor, ci))
    } else if limit is Some && cs[ci].start > limit.unwrap() {
        Some((acc, cursor, ci))
    } else {
        let c = cs[ci];
        let fw = if c.start > cursor {
            forward_xml(sat(c.start - cursor))
        } else {
            seq![]
        };
        let cur2 = if c.start > cursor {
            c.start
        } else {
            cursor
        };
        match spec_emit_control(c, staff) {
            Some(x) => controls_run(cs, ci + 1, limit, cur2, staff, acc + fw + x),
            None => None,
        }
    }
}

pub proof fn lemma_controls_run_acc(
    cs: Seq<EventView>,
    ci: int,
    limit: Option<int>,
    cursor: int,
    staff: Option<usize>,
    acc: Seq<char>,
)
    ensures
        controls_run(cs, ci, limit, cursor, staff, acc) == match controls_run(cs, ci, limit, cursor, staff, seq![]) {
            Some((t, c, i)) => Some((acc + t, c, i)),
            None => None,
        },
    decreases cs.len() - ci,
{
    if ci < 0 || ci >= cs.len() {
        assert(acc + Seq::<char>::empty() =~= acc);
    } else if limit is Some && cs[ci].start > limit.unwrap() {
        assert(acc + Seq::<char>::empty() =~= acc);
    } else {
        let c = cs[ci];
        let fw = if c.start > cursor {
            forward_xml(sat(c.start - cursor))
        } else {
            seq![]
        };
        let cur2 = if c.start > cursor {
            c.start
        } else {
            cursor
        };
        match spec_emit_control(c, staff) {
            Some(x) => {
                lemma_controls_run_acc(cs, ci + 1, limit, cur2, staff, acc + fw + x);
                lemma_controls_run_acc(cs, ci + 1, limit, cur2, staff, Seq::<char>::empty() + fw + x);
                match controls_run(cs, ci + 1, limit, cur2, staff, seq![]) {
                    Some((t, c2, i2)) => {
                        assert(acc + fw + x + t =~= acc + (Seq::<char>::empty() + fw + x + t));
                    },
                    None => {},
                }
            },
            None => {},
        }
    }
}

/// Writes the events from `k` on, each after the controls that come before
/// it and a `<forward>` to its start.
pub open spec fn events_run(
    evs: Seq<EventView>,
    k: int,
    cs: Seq<EventView>,
    ci: int,
    cursor: int,
    voice: nat,
    staff: Option<usize>,
    ties: Set<Seq<char>>,
    acc: Seq<char>,
) -> Option<(Seq<char>, Set<Seq<char>>, int, int)>
    decreases evs.len() - k,
{
    if k < 0 || k >= evs.len() {
        Some((acc, ties, cursor, ci))
    } else {
        let e = evs[k];
        match controls_run(cs, ci, Some(e.start), cursor, staff, acc) {
            Some((a1, cur1, ci1)) => {
                let fw = if e.start > cur1 {
                    forward_xml(sat(e.start - cur1))
                } else {
                    seq![]
                };
                let cur2 = if e.start > cur1 {
                    e.start
                } else {
                    cur1
                };
                match spec_event_xml(e, voice, staff, ties) {
                    Some((x, ties2)) => events_run(
                        evs,
                        k + 1,
                        cs,
                        ci1,
                        max_int(cur2, sat(e.start + e.duration)),
                        voice,
                        staff,
                        ties2,
                        a1 + fw + x,
                    ),
                    None => None,
                }
            },
            None => None,
        }
    }
}

/// One voice of one staff in one measure: its events and controls in order
/// of start, then a `<forward>` to the end of the measure where needed.
#[verifier::opaque]
pub open spec fn spec_emit_voice_xml(
    events: Seq<EventView>,
    controls: Seq<EventView>,
    length: int,
    voice: nat,
    staff: Option<usize>,
    ties: Set<Seq<char>>,
) -> Option<(Seq<char>, Set<Seq<char>>)> {
    let evs = sort_by_start(events);
    let cs = sort_by_start(controls);
    match events_run(evs, 0, cs, 0, 0, voice, staff, ties, seq![]) {
        Some((a, t, cur, ci)) => match controls_run(cs, ci, None, cur, staff, a) {
            Some((a2, cur2, _)) => Some(
                (
                    if cur2 < length {
                        a2 + forward_xml(sat(length - cur2))
                    } else {
                        a2
                    },
                    t,
                ),
            ),
            None => None,
        },
        None => None,
    }
}

/// The message of the first control, from `ci` on and starting at or
/// before `limit`, that cannot be written.
pub open spec fn controls_message(cs: Seq<EventView>, ci: int, limit: Option<int>, staff: Option<usize>) -> Seq<char>
    decreases cs.len() - ci,
{
    if ci < 0 || ci >= cs.len() {
        seq![]
    } else if limit is Some && cs[ci].start > limit.unwrap() {
        seq![]
    } else if spec_emit_control(cs[ci], staff) is None {
        control_message(cs[ci])
    } else {
        controls_message(cs, ci + 1, limit, staff)
    }
}

/// The message of the first control or event, as `events_run` writes them
/// from event `k` on, that cannot be written.
pub open spec fn events_message(
    evs: Seq<EventView>,
    k: int,
    cs: Seq<EventView>,
    ci: int,
    cursor: int,
    voice: nat,
    staff: Option<usize>,
    ties: Set<Seq<char>>,
) -> Seq<char>
    decreases evs.len() - k,
{
    if k < 0 || k >= evs.len() {
        seq![]
    } else {
        let e = evs[k];
        match controls_run(cs, ci, Some(e.start), cursor, staff, seq![]) {
            Some((_, cur1, ci1)) => {
                let cur2 = if e.start > cur1 {
                    e.start
                } else {
                    cur1
                };
                match spec_event_xml(e, voice, staff, ties) {
                    Some((_, ties2)) => events_message(
                        evs,
                        k + 1,
                        cs,
                        ci1,
                        max_int(cur2, sat(e.start + e.duration)),
                        voice,
                        staff,
                        ties2,
                    ),
                    None => event_message(e),
                }
            },
            None => controls_message(cs, ci, Some(e.start), staff),
        }
    }
}

/// The message of a voice that cannot be written.
pub open spec fn voice_message(
    events: Seq<EventView>,
    controls: Seq<EventView>,
    voice: nat,
    staff: Option<usize>,
    ties: Set<Seq<char>>,
) -> Seq<char> {
    let evs = sort_by_start(events);
    let cs = sort_by_start(controls);
    match events_run(evs, 0, cs, 0, 0, voice, staff, ties, seq![]) {
        Some((_, _, _, ci)) => controls_message(cs, ci, None, staff),
        None => events_message(evs, 0, cs, 0, 0, voice, staff, ties),
    }
}

/// Writes the sorted controls `order[ci..]` that start at or before `limit`.
fn run_controls(
    out: &mut Vec<char>,
    controls: &[TimedEvent],
    order: &Vec<usize>,
    ci: usize,
    limit: Option<i64>,
    cursor: i64,
    staff_number: Option<usize>,
) -> (r: Result<(i64, usize), ConvertError>)
    requires
        ci <= order@.len(),
        forall|k: int| 0 <= k < order@.len() ==> order@[k] < controls@.len(),
    ensures
        match r {
            Ok((cur, next)) => {
                let sp = controls_run(
                    pick(events_view(controls@), order@),
                    ci as int,
                    match limit {
                        Some(l) => Some(l as int),
                        None => None,
                    },
                    cursor as int,
                    staff_number,
                    seq![],
                );
                &&& sp is Some
                &&& sp.unwrap().1 == cur
                &&& sp.unwrap().2 == next
                &&& final(out)@ == old(out)@ + sp.unwrap().0
                &&& next <= order@.len()
            },
            Err(e) => controls_run(
                pick(events_view(controls@), order@),
                ci as int,
                match limit {
                    Some(l) => Some(l as int),
                    None => None,
                },
                cursor as int,
                staff_number,
                seq![],
            ) is None && (e matches ConvertError::InvalidScorify(m) && m@ == controls_message(
                pick(events_view(controls@), order@),
                ci as int,
                match limit {
                    Some(l) => Some(l as int),
                    None => None,
                },
                staff_number,
            )),
        },
{
    let ghost cs = pick(events_view(controls@), order@);
    let ghost lim = match limit {
        Some(l) => Some(l as int),
        None => None,
    };
    let ghost start = out@;
    let ghost mut acc: Seq<char> = seq![];
    let mut i = ci;
    let mut cur = cursor;
    assert(out@ =~= start + acc);
    while i < order.len()
        invariant_except_break
            ci <= i <= order@.len(),
            forall|k: int| 0 <= k < order@.len() ==> order@[k] < controls@.len(),
            cs == pick(events_view(controls@), order@),
            lim == match limit {
                Some(l) => Some(l as int),
                None => None,
            },
            out@ == start + acc,
            controls_run(cs, ci as int, lim, cursor as int, staff_number, seq![]) == controls_run(
                cs,
                i as int,
                lim,
                cur as int,
                staff_number,
                acc,
            ),
            controls_message(cs, ci as int, lim, staff_number) == controls_message(cs, i as int, lim, staff_number),
        ensures
            ci <= i <= order@.len(),
            out@ == start + acc,
            controls_run(cs, ci as int, lim, cursor as int, staff_number, seq![]) == Some((acc, cur as int, i as int)),
        decreases order@.len() - i,
    {
        let c = &controls[order[i]];
        assert(cs[i as int] == c@);
        if let Some(l) = limit {
            if c.start > l {
                break;
            }
        }
        let ghost before = out@;
        let ghost fw = if c.start > cur {
            forward_xml(sat(c.start - cur))
        } else {
            seq![]
        };
        if c.start > cur {
            push_forward(out, sat_sub(c.start, cur));
            cur = c.start;
        }
        assert(out@ =~= before + fw);
        emit_control(out, c, staff_number)?;
        assert(controls_message(cs, i as int, lim, staff_number) == controls_message(cs, i + 1, lim, staff_number));
        proof {
            let x = spec_emit_control(c@, staff_number).unwrap();
            acc = acc + fw + x;
        }
        assert(out@ =~= start + acc);
        i += 1;
    }
    Ok((cur, i))
}

/// Writes one voice of one staff in one measure.
#[verifier::rlimit(100)]
pub fn emit_voice_xml(
    out: &mut Vec<char>,
    events: &[TimedEvent],
    controls: &[TimedEvent],
    measure_length: i64,
    voice_number: usize,
    staff_number: Option<usize>,
    active_ties: &mut Vec<Vec<char>>,
) -> (r: Result<(), ConvertError>)
    ensures
        match r {
            Ok(_) => {
                let sp = spec_emit_voice_xml(
                    events_view(events@),
                    events_view(controls@),
                    measure_length as int,
                    voice_number as nat,
                    staff_number,
                    tie_set(old(active_ties)@),
                );
                &&& sp is Some
                &&& final(out)@ == old(out)@ + sp.unwrap().0
                &&& tie_set(final(active_ties)@) == sp.unwrap().1
            },
            Err(e) => spec_emit_voice_xml(
                events_view(events@),
                events_view(controls@),
                measure_length as int,
                voice_number as nat,
                staff_number,
                tie_set(old(active_ties)@),
            ) is None && (e matches ConvertError::InvalidScorify(m) && m@ == voice_message(
                events_view(events@),
                events_view(controls@),
                voice_number as nat,
                staff_number,
                tie_set(old(active_ties)@),
            )),
        },
{
    reveal(spec_emit_voice_xml);
    let ghost start = out@;
    let ghost ties0 = tie_set(active_ties@);
    let event_order = sorted_order(events);
    let control_order = sorted_order(controls);
    let ghost evs = pick(events_view(events@), event_order@);
    let ghost cs = pick(events_view(controls@), control_order@);
    proof {
        crate::model::lemma_sort_len(events_view(events@));
    }
    let ghost mut acc: Seq<char> = seq![];
    let mut cursor: i64 = 0;
    let mut ci: usize = 0;
    let mut k: usize = 0;
    assert(out@ =~= start + acc);
    while k < event_order.len()
        invariant
            k <= event_order@.len(),
            ci <= control_order@.len(),
            forall|m: int| 0 <= m < event_order@.len() ==> event_order@[m] < events@.len(),
            forall|m: int| 0 <= m < control_order@.len() ==> control_order@[m] < controls@.len(),
            evs == pick(events_view(events@), event_order@),
            cs == pick(events_view(controls@), control_order@),
            evs.len() == event_order@.len(),
            cs.len() == control_order@.len(),
            evs == sort_by_start(events_view(events@)),
            cs == sort_by_start(events_view(controls@)),
            ties0 == tie_set(old(active_ties)@),
            start == old(out)@,
            out@ == start + acc,
            events_run(evs, 0, cs, 0, 0, voice_number as nat, staff_number, ties0, seq![]) == events_run(
                evs,
                k as int,
                cs,
                ci as int,
                cursor as int,
                voice_number as nat,
                staff_number,
                tie_set(active_ties@),
                acc,
            ),
            events_message(evs, 0, cs, 0, 0, voice_number as nat, staff_number, ties0) == events_message(
                evs,
                k as int,
                cs,
                ci as int,
                cursor as int,
                voice_number as nat,
                staff_number,
                tie_set(active_ties@),
            ),
        decreases event_order@.len() - k,
    {
        let e = &events[event_order[k]];
        assert(evs[k as int] == e@);
        let ghost acc0 = acc;
        let ghost ties_k = tie_set(active_ties@);
        proof {
            lemma_controls_run_acc(cs, ci as int, Some(e.start as int), cursor as int, staff_number, acc);
        }
        let (cur1, ci1) = match run_controls(out, controls, &control_order, ci, Some(e.start), cursor, staff_number) {
            Ok(x) => x,
            Err(err) => {
                proof {
                    reveal(spec_emit_voice_xml);
                    assert(events_run(evs, k as int, cs, ci as int, cursor as int, voice_number as nat, staff_number, tie_set(active_ties@), acc) is None);
                }
                return Err(err);
            },
        };
        proof {
            let t = controls_run(cs, ci as int, Some(e.start as int), cursor as int, staff_number, seq![]).unwrap().0;
            acc = acc + t;
        }
        assert(out@ =~= start + acc);
        let ghost fw = if e.start > cur1 {
            forward_xml(sat(e.start - cur1))
        } else {
            seq![]
        };
        let mut cur2 = cur1;
        if e.start > cur1 {
            push_forward(out, sat_sub(e.start, cur1));
            cur2 = e.start;
        }
        let ghost ties_before = tie_set(active_ties@);
        let ghost mid = out@;
        match emit_event_xml(out, e, voice_number, staff_number, active_ties) {
            Ok(_) => {},
            Err(err) => {
                proof {
                    reveal(spec_emit_voice_xml);
                    assert(events_run(evs, k as int, cs, ci as int, cursor as int, voice_number as nat, staff_number, ties_k, acc0) is None);
                }
                return Err(err);
            },
        }
        proof {
            let x = spec_event_xml(e@, voice_number as nat, staff_number, ties_before).unwrap().0;
            acc = acc + fw + x;
        }
        assert(out@ =~= start + acc);
        let end = sat_add(e.start, e.duration);
        cursor = if cur2 >= end {
            cur2
        } else {
            end
        };
        ci = ci1;
        k += 1;
    }
    proof {
        lemma_controls_run_acc(cs, ci as int, None, cursor as int, staff_number, acc);
        assert(events_run(evs, 0, cs, 0, 0, voice_number as nat, staff_number, ties0, seq![]) == Some(
            (acc, tie_set(active_ties@), cursor as int, ci as int),
        ));
    }
    let ghost before_end = out@;
    let (cur_end, _) = match run_controls(out, controls, &control_order, ci, None, cursor, staff_number) {
        Ok(x) => x,
        Err(err) => {
            return Err(err);
        },
    };
    let ghost a2 = out@;
    if cur_end < measure_length {
        push_forward(out, sat_sub(measure_length, cur_end));
    }
    proof {
        let sp = spec_emit_voice_xml(
            events_view(events@),
            events_view(controls@),
            measure_length as int,
            voice_number as nat,
            staff_number,
            ties0,
        );
        assert(sp is Some);
        assert(out@ =~= start + sp.unwrap().0);
    }
    Ok(())
}

} // verus!
