//! Reading the measures of a MusicXML part into timed events per staff and voice.
use vstd::prelude::*;

use crate::model::{
    events_view, opt_view, sat, sat_add, sat_sub, EventView, NoteView, PitchToken, PitchView,
    TimedEvent, Token, TokenView,
};
use crate::musicxml_read::{
    clefs_view, collect_direction, direction_from, empty_pending, harmony_text, new_pending, or_zero,
    parse_barline, parse_clef, parse_key, parse_note_token, parse_time, spec_harmony_text,
    spec_parse_barline, spec_parse_clef, spec_parse_key, spec_parse_note_token, spec_parse_time,
    spec_staff_from_voice, staff_from_voice, Pending, PendingView, StaffClef,
};
use crate::text::{chars_eq_str, chars_equal, copy_chars, parse_usize, parse_usize_chars, str_to_chars};
use crate::xml::{
    attribute, attribute_of, child_i32, child_text, child_usize, find_child, first_child,
    first_child_i32, first_child_text, first_child_usize, has_child, has_tag, is_elem, kids,
    node_has_tag, node_is_elem, node_kids, nodes_view, XmlNode, XmlNodeView,
};

verus! {

// ---------------------------------------------------------------------------
// What a measure collects for one staff
// ---------------------------------------------------------------------------

/// Events of one staff in one measure: per voice, and the clef and time changes.
#[verifier::ext_equal]
pub struct AccView {
    pub voices: Seq<(Seq<char>, Seq<EventView>)>,
    pub controls: Seq<EventView>,
}

/// The events of one voice.
pub struct VoiceEvents {
    pub voice: Vec<char>,
    pub events: Vec<TimedEvent>,
}

/// Events of one staff in one measure.
pub struct MeasureAcc {
    pub voices: Vec<VoiceEvents>,
    pub controls: Vec<TimedEvent>,
}

pub open spec fn voices_view(v: Seq<VoiceEvents>) -> Seq<(Seq<char>, Seq<EventView>)> {
    v.map_values(|x: VoiceEvents| (x.voice@, events_view(x.events@)))
}

impl View for MeasureAcc {
    type V = AccView;

    open spec fn view(&self) -> AccView {
        AccView { voices: voices_view(self.voices@), controls: events_view(self.controls@) }
    }
}

/// The events of one staff.
pub struct StaffAcc {
    pub staff: usize,
    pub acc: MeasureAcc,
}

pub open spec fn accs_view(v: Seq<StaffAcc>) -> Seq<(usize, AccView)> {
    v.map_values(|x: StaffAcc| (x.staff, x.acc@))
}

pub open spec fn empty_acc() -> AccView {
    AccView { voices: seq![], controls: seq![] }
}

/// Where staff `staff` stands from index `k` on.
pub open spec fn staff_pos(accs: Seq<(usize, AccView)>, staff: int, k: int) -> Option<int>
    decreases accs.len() - k,
{
    if k < 0 || k >= accs.len() {
        None
    } else if accs[k].0 == staff {
        Some(k)
    } else {
        staff_pos(accs, staff, k + 1)
    }
}

/// Where voice `voice` stands from index `k` on.
pub open spec fn voice_pos(voices: Seq<(Seq<char>, Seq<EventView>)>, voice: Seq<char>, k: int) -> Option<int>
    decreases voices.len() - k,
{
    if k < 0 || k >= voices.len() {
        None
    } else if voices[k].0 == voice {
        Some(k)
    } else {
        voice_pos(voices, voice, k + 1)
    }
}

/// The staves with an entry for `staff`, adding an empty one where missing.
pub open spec fn accs_ensure(accs: Seq<(usize, AccView)>, staff: int) -> Seq<(usize, AccView)> {
    match staff_pos(accs, staff, 0) {
        Some(_) => accs,
        None => accs.push((staff as usize, empty_acc())),
    }
}

/// The voices with an event added to `voice`, which is added where missing.
pub open spec fn voices_push(voices: Seq<(Seq<char>, Seq<EventView>)>, voice: Seq<char>, e: EventView) -> Seq<
    (Seq<char>, Seq<EventView>),
> {
    match voice_pos(voices, voice, 0) {
        Some(j) => voices.update(j, (voices[j].0, voices[j].1.push(e))),
        None => voices.push((voice, seq![e])),
    }
}

/// The staves with an event added to a voice of `staff`.
pub open spec fn accs_push_event(accs: Seq<(usize, AccView)>, staff: int, voice: Seq<char>, e: EventView) -> Seq<
    (usize, AccView),
> {
    match staff_pos(accs, staff, 0) {
        Some(k) => accs.update(
            k,
            (accs[k].0, AccView { voices: voices_push(accs[k].1.voices, voice, e), controls: accs[k].1.controls }),
        ),
        None => accs.push((staff as usize, AccView { voices: seq![(voice, seq![e])], controls: seq![] })),
    }
}

/// The staves with a clef or time change added to `staff`.
pub open spec fn accs_push_control(accs: Seq<(usize, AccView)>, staff: int, e: EventView) -> Seq<(usize, AccView)> {
    match staff_pos(accs, staff, 0) {
        Some(k) => accs.update(
            k,
            (accs[k].0, AccView { voices: accs[k].1.voices, controls: accs[k].1.controls.push(e) }),
        ),
        None => accs.push((staff as usize, AccView { voices: seq![], controls: seq![e] })),
    }
}

/// The last event of a voice with its chord pitches added, where it is a
/// note that starts at `start`.
pub open spec fn events_extend_last(evs: Seq<EventView>, start: int, pitches: Seq<PitchView>) -> Seq<EventView> {
    if evs.len() > 0 && evs.last().start == start {
        match evs.last().token {
            TokenView::Note(n) => evs.update(
                evs.len() - 1,
                EventView {
                    start: evs.last().start,
                    duration: evs.last().duration,
                    token: TokenView::Note(
                        NoteView {
                            clef: n.clef,
                            pitches: n.pitches + pitches,
                            duration_text: n.duration_text,
                            dots: n.dots,
                            tie_start: n.tie_start,
                            tie_stop: n.tie_stop,
                            slur_start: n.slur_start,
                            slur_stop: n.slur_stop,
                            dynamic: n.dynamic,
                            chord_symbol: n.chord_symbol,
                            staff_text: n.staff_text,
                            lyrics: n.lyrics,
                            articulations: n.articulations,
                        },
                    ),
                },
            ),
            _ => evs,
        }
    } else {
        evs
    }
}

/// The staves with chord pitches added to the last event of a voice of `staff`.
pub open spec fn accs_extend_last(
    accs: Seq<(usize, AccView)>,
    staff: int,
    voice: Seq<char>,
    start: int,
    pitches: Seq<PitchView>,
) -> Seq<(usize, AccView)> {
    match staff_pos(accs, staff, 0) {
        Some(k) => match voice_pos(accs[k].1.voices, voice, 0) {
            Some(j) => accs.update(
                k,
                (
                    accs[k].0,
                    AccView {
                        voices: accs[k].1.voices.update(
                            j,
                            (accs[k].1.voices[j].0, events_extend_last(accs[k].1.voices[j].1, start, pitches)),
                        ),
                        controls: accs[k].1.controls,
                    },
                ),
            ),
            None => accs,
        },
        None => accs,
    }
}

pub fn find_staff(accs: &Vec<StaffAcc>, staff: usize) -> (r: Option<usize>)
    ensures
        match r {
            Some(k) => staff_pos(accs_view(accs@), staff as int, 0) == Some(k as int) && k < accs@.len(),
            None => staff_pos(accs_view(accs@), staff as int, 0) is None,
        },
{
    let ghost av = accs_view(accs@);
    let mut k: usize = 0;
    while k < accs.len()
        invariant
            k <= accs@.len(),
            av == accs_view(accs@),
            staff_pos(av, staff as int, 0) == staff_pos(av, staff as int, k as int),
        decreases accs@.len() - k,
    {
        if accs[k].staff == staff {
            return Some(k);
        }
        k += 1;
    }
    None
}

fn find_voice(voices: &Vec<VoiceEvents>, voice: &[char]) -> (r: Option<usize>)
    ensures
        match r {
            Some(j) => voice_pos(voices_view(voices@), voice@, 0) == Some(j as int) && j < voices@.len(),
            None => voice_pos(voices_view(voices@), voice@, 0) is None,
        },
{
    let ghost vv = voices_view(voices@);
    let mut k: usize = 0;
    while k < voices.len()
        invariant
            k <= voices@.len(),
            vv == voices_view(voices@),
            voice_pos(vv, voice@, 0) == voice_pos(vv, voice@, k as int),
        decreases voices@.len() - k,
    {
        if chars_equal(voices[k].voice.as_slice(), voice) {
            return Some(k);
        }
        k += 1;
    }
    None
}

fn ensure_staff(accs: &mut Vec<StaffAcc>, staff: usize)
    ensures
        accs_view(final(accs)@) == accs_ensure(accs_view(old(accs)@), staff as int),
{
    if find_staff(accs, staff).is_none() {
        accs.push(StaffAcc { staff, acc: MeasureAcc { voices: Vec::new(), controls: Vec::new() } });
        assert(accs_view(accs@) =~~= accs_ensure(accs_view(old(accs)@), staff as int));
    }
}

fn add_voice_event(voices: &mut Vec<VoiceEvents>, voice: &[char], e: TimedEvent)
    ensures
        voices_view(final(voices)@) == voices_push(voices_view(old(voices)@), voice@, e@),
{
    match find_voice(voices, voice) {
        Some(j) => {
            let mut entry = voices.remove(j);
            entry.events.push(e);
            voices.insert(j, entry);
            assert(voices_view(voices@) =~~= voices_push(voices_view(old(voices)@), voice@, e@));
        },
        None => {
            let mut events: Vec<TimedEvent> = Vec::new();
            events.push(e);
            voices.push(VoiceEvents { voice: copy_chars(voice), events });
            assert(voices_view(voices@) =~~= voices_push(voices_view(old(voices)@), voice@, e@));
        },
    }
}

fn push_event(accs: &mut Vec<StaffAcc>, staff: usize, voice: &[char], e: TimedEvent)
    ensures
        accs_view(final(accs)@) == accs_push_event(accs_view(old(accs)@), staff as int, voice@, e@),
{
    match find_staff(accs, staff) {
        Some(k) => {
            let mut entry = accs.remove(k);
            add_voice_event(&mut entry.acc.voices, voice, e);
            accs.insert(k, entry);
            assert(accs_view(accs@) =~~= accs_push_event(accs_view(old(accs)@), staff as int, voice@, e@));
        },
        None => {
            let mut events: Vec<TimedEvent> = Vec::new();
            events.push(e);
            let mut voices: Vec<VoiceEvents> = Vec::new();
            voices.push(VoiceEvents { voice: copy_chars(voice), events });
            accs.push(StaffAcc { staff, acc: MeasureAcc { voices, controls: Vec::new() } });
            assert(voices_view(voices@) =~~= seq![(voice@, seq![e@])]);
            assert(accs_view(accs@) =~~= accs_push_event(accs_view(old(accs)@), staff as int, voice@, e@));
        },
    }
}

fn push_control(accs: &mut Vec<StaffAcc>, staff: usize, e: TimedEvent)
    ensures
        accs_view(final(accs)@) == accs_push_control(accs_view(old(accs)@), staff as int, e@),
{
    match find_staff(accs, staff) {
        Some(k) => {
            let mut entry = accs.remove(k);
            entry.acc.controls.push(e);
            accs.insert(k, entry);
            assert(accs_view(accs@) =~~= accs_push_control(accs_view(old(accs)@), staff as int, e@));
        },
        None => {
            let mut controls: Vec<TimedEvent> = Vec::new();
            controls.push(e);
            accs.push(StaffAcc { staff, acc: MeasureAcc { voices: Vec::new(), controls } });
            assert(accs_view(accs@) =~~= accs_push_control(accs_view(old(accs)@), staff as int, e@));
        },
    }
}

fn extend_last_event(events: &mut Vec<TimedEvent>, start: i64, pitches: Vec<PitchToken>)
    ensures
        events_view(final(events)@) == events_extend_last(
            events_view(old(events)@),
            start as int,
            pitches@.map_values(|p: PitchToken| p@),
        ),
{
    if events.len() > 0 && events[events.len() - 1].start == start {
        let mut last = events.pop().unwrap();
        match last.token {
            Token::Note(mut note) => {
                let mut more = pitches;
                let ghost before = note.pitches@;
                note.pitches.append(&mut more);
                assert(note@.pitches =~~= before.map_values(|p: PitchToken| p@) + pitches@.map_values(
                    |p: PitchToken| p@,
                ));
                last.token = Token::Note(note);
                events.push(last);
                assert(events_view(events@) =~~= events_extend_last(
                    events_view(old(events)@),
                    start as int,
                    pitches@.map_values(|p: PitchToken| p@),
                ));
            },
            _ => {
                events.push(last);
                assert(events_view(events@) =~~= events_view(old(events)@));
            },
        }
    }
}

fn extend_last(accs: &mut Vec<StaffAcc>, staff: usize, voice: &[char], start: i64, pitches: Vec<PitchToken>)
    ensures
        accs_view(final(accs)@) == accs_extend_last(
            accs_view(old(accs)@),
            staff as int,
            voice@,
            start as int,
            pitches@.map_values(|p: PitchToken| p@),
        ),
{
    if let Some(k) = find_staff(accs, staff) {
        let mut entry = accs.remove(k);
        if let Some(j) = find_voice(&entry.acc.voices, voice) {
            let mut v = entry.acc.voices.remove(j);
            extend_last_event(&mut v.events, start, pitches);
            entry.acc.voices.insert(j, v);
        }
        accs.insert(k, entry);
        assert(accs_view(accs@) =~~= accs_extend_last(
            accs_view(old(accs)@),
            staff as int,
            voice@,
            start as int,
            pitches@.map_values(|p: PitchToken| p@),
        ));
    }
}

// ---------------------------------------------------------------------------
// The state of a part while its measures are read
// ---------------------------------------------------------------------------

/// What a part has declared so far.
pub struct PartStateView {
    pub divisions: int,
    pub key: Option<Seq<char>>,
    pub time: Option<Seq<char>>,
    pub staves: nat,
    pub clefs: Seq<(usize, Seq<char>)>,
}

/// What a part has declared so far: divisions of a quarter note, key, time,
/// number of staves and the clef of each staff.
pub struct PartState {
    pub divisions: i64,
    pub key: Option<Vec<char>>,
    pub time: Option<Vec<char>>,
    pub staves: usize,
    pub clefs: Vec<StaffClef>,
}

impl View for PartState {
    type V = PartStateView;

    open spec fn view(&self) -> PartStateView {
        PartStateView {
            divisions: self.divisions as int,
            key: opt_view(self.key),
            time: opt_view(self.time),
            staves: self.staves as nat,
            clefs: clefs_view(self.clefs@),
        }
    }
}

/// A part before its first measure: one division per quarter, one staff in treble clef.
pub open spec fn initial_part_state() -> PartStateView {
    PartStateView { divisions: 1, key: None, time: None, staves: 1, clefs: seq![(1usize, "treble"@)] }
}

pub fn new_part_state() -> (r: PartState)
    ensures
        r@ == initial_part_state(),
        i32::MIN <= r.divisions <= i32::MAX,
{
    let mut clefs: Vec<StaffClef> = Vec::new();
    clefs.push(StaffClef { staff: 1, clef: str_to_chars("treble") });
    let r = PartState { divisions: 1, key: None, time: None, staves: 1, clefs };
    assert(r@.clefs =~= seq![(1usize, "treble"@)]);
    r
}

/// The clefs with `clef` recorded for `staff`, and the clef it had before.
pub open spec fn clef_insert(clefs: Seq<(usize, Seq<char>)>, staff: int, clef: Seq<char>) -> (
    Seq<(usize, Seq<char>)>,
    Option<Seq<char>>,
) {
    match clef_pos(clefs, staff, 0) {
        Some(k) => (clefs.update(k, (clefs[k].0, clef)), Some(clefs[k].1)),
        None => (clefs.push((staff as usize, clef)), None),
    }
}

/// Where `staff` stands among the clefs from index `k` on.
pub open spec fn clef_pos(clefs: Seq<(usize, Seq<char>)>, staff: int, k: int) -> Option<int>
    decreases clefs.len() - k,
{
    if k < 0 || k >= clefs.len() {
        None
    } else if clefs[k].0 == staff {
        Some(k)
    } else {
        clef_pos(clefs, staff, k + 1)
    }
}

fn set_clef(clefs: &mut Vec<StaffClef>, staff: usize, clef: &Vec<char>) -> (old_clef: Option<Vec<char>>)
    ensures
        (clefs_view(final(clefs)@), opt_view(old_clef)) == clef_insert(clefs_view(old(clefs)@), staff as int, clef@),
{
    let ghost cv = clefs_view(clefs@);
    let mut k: usize = 0;
    while k < clefs.len()
        invariant
            k <= clefs@.len(),
            cv == clefs_view(clefs@),
            clefs@ == old(clefs)@,
            clef_pos(cv, staff as int, 0) == clef_pos(cv, staff as int, k as int),
        decreases clefs@.len() - k,
    {
        if clefs[k].staff == staff {
            let prev = clefs.remove(k);
            clefs.insert(k, StaffClef { staff, clef: copy_chars(clef.as_slice()) });
            assert(clefs_view(clefs@) =~= cv.update(k as int, (cv[k as int].0, clef@)));
            return Some(prev.clef);
        }
        k += 1;
    }
    clefs.push(StaffClef { staff, clef: copy_chars(clef.as_slice()) });
    assert(clefs_view(clefs@) =~= cv.push((staff, clef@)));
    None
}

/// The staves with a change added to each staff from `s` to `n`.
pub open spec fn push_control_from(accs: Seq<(usize, AccView)>, s: int, n: int, e: EventView) -> Seq<(usize, AccView)>
    decreases n + 1 - s,
{
    if s > n {
        accs
    } else {
        push_control_from(accs_push_control(accs, s, e), s + 1, n, e)
    }
}

/// The clef changes that `<clef>` children `ks[k..]` of an `<attributes>` make:
/// each sets its staff's clef (staff 1 where it names none), and adds a
/// change at `cursor` where the staff had another clef.
pub open spec fn clefs_from(
    d: Seq<XmlNodeView>,
    ks: Seq<usize>,
    k: int,
    clefs: Seq<(usize, Seq<char>)>,
    accs: Seq<(usize, AccView)>,
    cursor: int,
) -> (Seq<(usize, Seq<char>)>, Seq<(usize, AccView)>)
    decreases ks.len() - k,
{
    if k < 0 || k >= ks.len() {
        (clefs, accs)
    } else {
        let c = ks[k] as int;
        if has_tag(d, c, "clef"@) {
            let staff = match attribute(d, c, "number"@) {
                Some(v) => match parse_usize(v) {
                    Some(n) => n,
                    None => 1,
                },
                None => 1,
            };
            let clef = spec_parse_clef(d, c);
            let (clefs2, prev) = clef_insert(clefs, staff, clef);
            let accs2 = match prev {
                Some(p) => if p != clef {
                    accs_push_control(accs, staff, EventView { start: cursor, duration: 0, token: TokenView::Clef(clef) })
                } else {
                    accs
                },
                None => accs,
            };
            clefs_from(d, ks, k + 1, clefs2, accs2, cursor)
        } else {
            clefs_from(d, ks, k + 1, clefs, accs, cursor)
        }
    }
}

pub open spec fn max_nat(a: nat, b: nat) -> nat {
    if a >= b {
        a
    } else {
        b
    }
}

/// An `<attributes>` element read into the part's state: divisions (at least
/// one), more staves, key, time (a change is added to every staff when it
/// differs from the last), and clefs.
pub open spec fn spec_parse_attributes(
    d: Seq<XmlNodeView>,
    a: int,
    st: PartStateView,
    cursor: int,
    accs: Seq<(usize, AccView)>,
) -> (PartStateView, Seq<(usize, AccView)>) {
    let divisions = match first_child_i32(d, a, "divisions"@) {
        Some(v) => if v >= 1 {
            v
        } else {
            1
        },
        None => st.divisions,
    };
    let staves = match first_child_usize(d, a, "staves"@) {
        Some(v) => max_nat(st.staves, max_nat(v as nat, 1)),
        None => st.staves,
    };
    let key = match first_child(d, a, "key"@) {
        Some(k) => match spec_parse_key(d, k) {
            Some(x) => Some(x),
            None => st.key,
        },
        None => st.key,
    };
    let read_time = match first_child(d, a, "time"@) {
        Some(t) => spec_parse_time(d, t),
        None => None,
    };
    let time = match read_time {
        Some(t) => Some(t),
        None => st.time,
    };
    let accs1 = match read_time {
        Some(t) => if st.time is Some && st.time.unwrap() != t {
            push_control_from(
                accs,
                1,
                max_nat(staves, 1) as int,
                EventView { start: cursor, duration: 0, token: TokenView::Time(t) },
            )
        } else {
            accs
        },
        None => accs,
    };
    let (clefs, accs2) = clefs_from(d, kids(d, a), 0, st.clefs, accs1, cursor);
    (PartStateView { divisions, key, time, staves, clefs }, accs2)
}

fn push_control_all(accs: &mut Vec<StaffAcc>, n: usize, start: i64, time: &Vec<char>)
    ensures
        accs_view(final(accs)@) == push_control_from(
            accs_view(old(accs)@),
            1,
            n as int,
            EventView { start: start as int, duration: 0, token: TokenView::Time(time@) },
        ),
{
    let ghost e = EventView { start: start as int, duration: 0, token: TokenView::Time(time@) };
    if n == 0 {
        return;
    }
    let mut s: usize = 1;
    loop
        invariant
            1 <= s <= n,
            e == (EventView { start: start as int, duration: 0, token: TokenView::Time(time@) }),
            push_control_from(accs_view(old(accs)@), 1, n as int, e) == push_control_from(
                accs_view(accs@),
                s as int,
                n as int,
                e,
            ),
        decreases n - s,
    {
        let ev = TimedEvent { start, duration: 0, token: Token::Time(copy_chars(time.as_slice())) };
        push_control(accs, s, ev);
        if s == n {
            assert(push_control_from(accs_view(accs@), (s + 1) as int, n as int, e) == accs_view(accs@));
            return;
        }
        s += 1;
    }
}

/// Reads an `<attributes>` element into the part's state.
#[verifier::rlimit(40)]
pub fn parse_attributes(
    nodes: &Vec<XmlNode>,
    a: usize,
    state: &mut PartState,
    cursor: i64,
    accs: &mut Vec<StaffAcc>,
)
    requires
        i32::MIN <= old(state).divisions <= i32::MAX,
    ensures
        (final(state)@, accs_view(final(accs)@)) == spec_parse_attributes(
            nodes_view(nodes@),
            a as int,
            old(state)@,
            cursor as int,
            accs_view(old(accs)@),
        ),
        i32::MIN <= final(state).divisions <= i32::MAX,
{
    let ghost d = nodes_view(nodes@);
    let ghost st0 = state@;
    if let Some(divisions) = child_i32(nodes, a, "divisions") {
        state.divisions = if divisions >= 1 {
            divisions as i64
        } else {
            1
        };
    }
    if let Some(staves) = child_usize(nodes, a, "staves") {
        let at_least_one = if staves >= 1 {
            staves
        } else {
            1
        };
        if at_least_one > state.staves {
            state.staves = at_least_one;
        }
    }
    if let Some(k) = find_child(nodes, a, "key") {
        if let Some(key) = parse_key(nodes, k) {
            state.key = Some(key);
        }
    }
    let read_time = match find_child(nodes, a, "time") {
        Some(t) => parse_time(nodes, t),
        None => None,
    };
    let ghost accs0 = accs_view(accs@);
    if let Some(time) = read_time {
        let is_change = match &state.time {
            Some(previous) => !chars_equal(previous.as_slice(), time.as_slice()),
            None => false,
        };
        if is_change {
            let n = if state.staves >= 1 {
                state.staves
            } else {
                1
            };
            push_control_all(accs, n, cursor, &time);
        }
        state.time = Some(time);
    }
    let ghost accs1 = accs_view(accs@);
    let ghost st1 = state@;
    let ks = node_kids(nodes, a);
    let mut k: usize = 0;
    while k < ks.len()
        invariant
            k <= ks@.len(),
            d == nodes_view(nodes@),
            ks@ == kids(d, a as int),
            i32::MIN <= state.divisions <= i32::MAX,
            state@.divisions == st1.divisions,
            state@.key == st1.key,
            state@.time == st1.time,
            state@.staves == st1.staves,
            clefs_from(d, ks@, 0, st1.clefs, accs1, cursor as int) == clefs_from(
                d,
                ks@,
                k as int,
                state@.clefs,
                accs_view(accs@),
                cursor as int,
            ),
        decreases ks@.len() - k,
    {
        let c = ks[k];
        if node_has_tag(nodes, c, "clef") {
            let staff = match attribute_of(nodes, c, "number") {
                Some(v) => match parse_usize_chars(v.as_slice()) {
                    Some(n) => n,
                    None => 1,
                },
                None => 1,
            };
            let clef = parse_clef(nodes, c);
            let prev = set_clef(&mut state.clefs, staff, &clef);
            let changed = match &prev {
                Some(p) => !chars_equal(p.as_slice(), clef.as_slice()),
                None => false,
            };
            if changed {
                push_control(accs, staff, TimedEvent { start: cursor, duration: 0, token: Token::Clef(clef) });
            }
        }
        k += 1;
    }
}

// ---------------------------------------------------------------------------
// Measures
// ---------------------------------------------------------------------------

/// Where the reading of a measure stands.
pub struct MeasureStateView {
    pub part: PartStateView,
    pub cursor: int,
    /// Staff, voice and start of the last note that was not a chord member.
    pub last: Option<(int, Seq<char>, int)>,
    pub pending: PendingView,
    pub accs: Seq<(usize, AccView)>,
    pub before: Option<Seq<char>>,
    pub after: Seq<char>,
}

/// The reading of a `<note>`: its staff (from `<staff>`, else its voice,
/// else 1), voice (`1` where none), start (that of the previous note of the
/// same staff and voice for a chord member) and token, added to its voice
/// or, for a chord member, to the previous note's pitches.
pub open spec fn note_step(d: Seq<XmlNodeView>, c: int, s: MeasureStateView) -> MeasureStateView {
    let is_chord = first_child(d, c, "chord"@) is Some;
    let voice_text = first_child_text(d, c, "voice"@);
    let staff = match first_child_usize(d, c, "staff"@) {
        Some(n) => n,
        None => match spec_staff_from_voice(voice_text) {
            Some(n) => n,
            None => 1,
        },
    };
    let voice = match voice_text {
        Some(v) => v,
        None => "1"@,
    };
    let duration = or_zero(first_child_i32(d, c, "duration"@));
    let start = if is_chord {
        match s.last {
            Some((ls, lv, lst)) => if ls == staff && lv == voice {
                lst
            } else {
                s.cursor
            },
            None => s.cursor,
        }
    } else {
        s.cursor
    };
    let token = spec_parse_note_token(d, c, s.part.clefs, staff, s.pending);
    let accs1 = accs_ensure(s.accs, staff);
    let accs2 = match token {
        Some(TokenView::Note(n)) => if is_chord {
            accs_extend_last(accs1, staff, voice, start, n.pitches)
        } else {
            accs_push_event(accs1, staff, voice, EventView { start, duration, token: TokenView::Note(n) })
        },
        Some(t) => accs_push_event(accs1, staff, voice, EventView { start, duration, token: t }),
        None => accs1,
    };
    MeasureStateView {
        part: s.part,
        cursor: if is_chord {
            s.cursor
        } else {
            sat(s.cursor + duration)
        },
        last: if is_chord {
            s.last
        } else {
            Some((staff, voice, start))
        },
        pending: empty_pending(),
        accs: accs2,
        before: s.before,
        after: s.after,
    }
}

/// The reading of one child node of a `<measure>`.
pub open spec fn measure_step(d: Seq<XmlNodeView>, c: int, s: MeasureStateView) -> MeasureStateView {
    if !is_elem(d, c) {
        s
    } else {
        let name = d[c].name;
        if name == "attributes"@ {
            let (p, a) = spec_parse_attributes(d, c, s.part, s.cursor, s.accs);
            MeasureStateView { part: p, accs: a, ..s }
        } else if name == "backup"@ {
            let back = sat(s.cursor - or_zero(first_child_i32(d, c, "duration"@)));
            MeasureStateView {
                cursor: if back > 0 {
                    back
                } else {
                    0
                },
                last: None,
                ..s
            }
        } else if name == "forward"@ {
            MeasureStateView { cursor: sat(s.cursor + or_zero(first_child_i32(d, c, "duration"@))), last: None, ..s }
        } else if name == "direction"@ {
            MeasureStateView { pending: direction_from(d, kids(d, c), 0, s.pending), ..s }
        } else if name == "harmony"@ {
            MeasureStateView {
                pending: PendingView {
                    dynamic: s.pending.dynamic,
                    staff_text: s.pending.staff_text,
                    chord_symbol: spec_harmony_text(d, c),
                },
                ..s
            }
        } else if name == "note"@ {
            note_step(d, c, s)
        } else if name == "barline"@ {
            let b = spec_parse_barline(d, c);
            if attribute(d, c, "location"@) == Some("left"@) {
                MeasureStateView { before: Some(b), ..s }
            } else {
                MeasureStateView { after: b, ..s }
            }
        } else {
            s
        }
    }
}

/// The reading of the child nodes `ks[k..]` of a `<measure>`.
pub open spec fn measure_from(d: Seq<XmlNodeView>, ks: Seq<usize>, k: int, s: MeasureStateView) -> MeasureStateView
    decreases ks.len() - k,
{
    if k < 0 || k >= ks.len() {
        s
    } else {
        measure_from(d, ks, k + 1, measure_step(d, ks[k] as int, s))
    }
}

/// What a measure holds: events per staff, and its barlines.
pub struct MeasureResultView {
    pub staves: Seq<(usize, AccView)>,
    pub barline_before: Option<Seq<char>>,
    pub barline_after: Seq<char>,
}

/// A `<measure>` read with the part's state, and the state after it.
pub open spec fn spec_parse_measure(d: Seq<XmlNodeView>, m: int, part: PartStateView) -> (MeasureResultView, PartStateView) {
    let s0 = MeasureStateView {
        part,
        cursor: 0,
        last: None,
        pending: empty_pending(),
        accs: seq![],
        before: None,
        after: "|"@,
    };
    let s = measure_from(d, kids(d, m), 0, s0);
    (MeasureResultView { staves: s.accs, barline_before: s.before, barline_after: s.after }, s.part)
}

/// What a measure holds: events per staff, and its barlines.
pub struct MeasureResult {
    pub staves: Vec<StaffAcc>,
    pub barline_before: Option<Vec<char>>,
    pub barline_after: Vec<char>,
}

impl View for MeasureResult {
    type V = MeasureResultView;

    open spec fn view(&self) -> MeasureResultView {
        MeasureResultView {
            staves: accs_view(self.staves@),
            barline_before: opt_view(self.barline_before),
            barline_after: self.barline_after@,
        }
    }
}

/// The reading of a measure apart from the part's state.
pub struct MeasureState {
    pub cursor: i64,
    pub last: Option<(usize, Vec<char>, i64)>,
    pub pending: Pending,
    pub accs: Vec<StaffAcc>,
    pub before: Option<Vec<char>>,
    pub after: Vec<char>,
}

pub open spec fn last_view(l: Option<(usize, Vec<char>, i64)>) -> Option<(int, Seq<char>, int)> {
    match l {
        Some((a, b, c)) => Some((a as int, b@, c as int)),
        None => None,
    }
}

pub open spec fn combine(part: PartStateView, m: MeasureState) -> MeasureStateView {
    MeasureStateView {
        part,
        cursor: m.cursor as int,
        last: last_view(m.last),
        pending: m.pending@,
        accs: accs_view(m.accs@),
        before: opt_view(m.before),
        after: m.after@,
    }
}

fn read_note(nodes: &Vec<XmlNode>, c: usize, part: &PartState, m: &mut MeasureState)
    ensures
        combine(part@, *final(m)) == note_step(nodes_view(nodes@), c as int, combine(part@, *old(m))),
{
    let is_chord = has_child(nodes, c, "chord");
    let voice_text = child_text(nodes, c, "voice");
    let staff = match child_usize(nodes, c, "staff") {
        Some(n) => n,
        None => match staff_from_voice(&voice_text) {
            Some(n) => n,
            None => 1,
        },
    };
    let voice = match voice_text {
        Some(v) => v,
        None => str_to_chars("1"),
    };
    let duration: i64 = match child_i32(nodes, c, "duration") {
        Some(v) => v as i64,
        None => 0,
    };
    let start = if is_chord {
        match &m.last {
            Some((ls, lv, lst)) => if *ls == staff && chars_equal(lv.as_slice(), voice.as_slice()) {
                *lst
            } else {
                m.cursor
            },
            None => m.cursor,
        }
    } else {
        m.cursor
    };
    let mut pending = new_pending();
    std::mem::swap(&mut pending, &mut m.pending);
    let token = parse_note_token(nodes, c, &part.clefs, staff, pending);
    ensure_staff(&mut m.accs, staff);
    match token {
        Some(Token::Note(note)) => {
            if is_chord {
                extend_last(&mut m.accs, staff, voice.as_slice(), start, note.pitches);
            } else {
                push_event(&mut m.accs, staff, voice.as_slice(), TimedEvent { start, duration, token: Token::Note(note) });
            }
        },
        Some(t) => {
            push_event(&mut m.accs, staff, voice.as_slice(), TimedEvent { start, duration, token: t });
        },
        None => {},
    }
    if !is_chord {
        m.cursor = sat_add(m.cursor, duration);
        m.last = Some((staff, voice, start));
    }
}

/// Reads a `<measure>` with the part's state, which it updates.
pub fn parse_measure(nodes: &Vec<XmlNode>, measure: usize, state: &mut PartState) -> (r: MeasureResult)
    requires
        i32::MIN <= old(state).divisions <= i32::MAX,
    ensures
        (r@, final(state)@) == spec_parse_measure(nodes_view(nodes@), measure as int, old(state)@),
        i32::MIN <= final(state).divisions <= i32::MAX,
{
    let ghost d = nodes_view(nodes@);
    let mut m = MeasureState {
        cursor: 0,
        last: None,
        pending: new_pending(),
        accs: Vec::new(),
        before: None,
        after: str_to_chars("|"),
    };
    let ghost s0 = combine(state@, m);
    assert(s0.accs =~= Seq::<(usize, AccView)>::empty());
    let ks = node_kids(nodes, measure);
    let mut k: usize = 0;
    while k < ks.len()
        invariant
            k <= ks@.len(),
            d == nodes_view(nodes@),
            ks@ == kids(d, measure as int),
            i32::MIN <= state.divisions <= i32::MAX,
            measure_from(d, ks@, 0, s0) == measure_from(d, ks@, k as int, combine(state@, m)),
        decreases ks@.len() - k,
    {
        let c = ks[k];
        let ghost before = combine(state@, m);
        if node_is_elem(nodes, c) {
            let name = nodes[c].name.as_slice();
            if chars_eq_str(name, "attributes") {
                parse_attributes(nodes, c, state, m.cursor, &mut m.accs);
            } else if chars_eq_str(name, "backup") {
                let dur: i64 = match child_i32(nodes, c, "duration") {
                    Some(v) => v as i64,
                    None => 0,
                };
                let back = sat_sub(m.cursor, dur);
                m.cursor = if back > 0 {
                    back
                } else {
                    0
                };
                m.last = None;
            } else if chars_eq_str(name, "forward") {
                let dur: i64 = match child_i32(nodes, c, "duration") {
                    Some(v) => v as i64,
                    None => 0,
                };
                m.cursor = sat_add(m.cursor, dur);
                m.last = None;
            } else if chars_eq_str(name, "direction") {
                collect_direction(nodes, c, &mut m.pending);
            } else if chars_eq_str(name, "harmony") {
                m.pending.chord_symbol = harmony_text(nodes, c);
            } else if chars_eq_str(name, "note") {
                read_note(nodes, c, state, &mut m);
            } else if chars_eq_str(name, "barline") {
                let b = parse_barline(nodes, c);
                let location = attribute_of(nodes, c, "location");
                let left = match &location {
                    Some(l) => chars_eq_str(l.as_slice(), "left"),
                    None => false,
                };
                if left {
                    m.before = Some(b);
                } else {
                    m.after = b;
                }
            }
        }
        assert(combine(state@, m) == measure_step(d, c as int, before));
        k += 1;
    }
    MeasureResult { staves: m.accs, barline_before: m.before, barline_after: m.after }
}

} // verus!
