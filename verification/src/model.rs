//! The score model that both conversion directions share.
use vstd::prelude::*;

verus! {

/// One pitch of a note or chord.
pub struct PitchToken {
    /// Lower-case step letter.
    pub step: char,
    /// Chromatic alteration in semitones.
    pub alter: i64,
    /// MusicXML accidental name written on the note, if any.
    pub accidental_text: Option<Vec<char>>,
    /// Octave number (middle C starts octave 4).
    pub octave: i64,
}

/// One lyric syllable of a note.
pub struct LyricToken {
    /// Verse number, where one was given.
    pub verse: Option<u32>,
    pub text: Vec<char>,
}

/// A note articulation.
#[derive(PartialEq, Eq, Structural, Clone, Copy, Debug)]
pub enum Articulation {
    /// `>`
    Accent,
    /// `*`
    Staccato,
    /// `-`
    Tenuto,
    /// `_`
    Fermata,
}

/// A note or chord with everything attached to it.
pub struct NoteToken {
    pub clef: Vec<char>,
    pub pitches: Vec<PitchToken>,
    /// Scorify duration text (`4`, `breve`, ...), where the note names one.
    pub duration_text: Option<Vec<char>>,
    pub dots: usize,
    pub tie_start: bool,
    pub tie_stop: bool,
    pub slur_start: bool,
    pub slur_stop: bool,
    pub dynamic: Option<Vec<char>>,
    pub chord_symbol: Option<Vec<char>>,
    pub staff_text: Option<Vec<char>>,
    pub lyrics: Vec<LyricToken>,
    pub articulations: Vec<Articulation>,
}

/// What happens at a point of a measure.
pub enum Token {
    Note(NoteToken),
    Rest,
    Clef(Vec<char>),
    Time(Vec<char>),
}

/// A token with its start and length, in divisions of a quarter note.
pub struct TimedEvent {
    pub start: i64,
    pub duration: i64,
    pub token: Token,
}

/// One staff of a score, as Scorify writes it.
pub struct Staff {
    pub clef: Vec<char>,
    pub music: Vec<char>,
    pub instrument_name: Option<Vec<char>>,
    pub instrument_name_cont: Option<Vec<char>>,
    pub brace_start: bool,
    pub brace_end: bool,
    pub bracket_start: bool,
    pub bracket_end: bool,
}

/// A whole score, as Scorify writes it.
pub struct Score {
    pub title: Option<Vec<char>>,
    pub composer: Option<Vec<char>>,
    pub key: Option<Vec<char>>,
    pub time: Option<Vec<char>>,
    pub staves: Vec<Staff>,
}

/// The mathematical value of a `PitchToken`.
pub struct PitchView {
    pub step: char,
    pub alter: int,
    pub accidental_text: Option<Seq<char>>,
    pub octave: int,
}

pub open spec fn opt_view(o: Option<Vec<char>>) -> Option<Seq<char>> {
    match o {
        Some(v) => Some(v@),
        None => None,
    }
}

impl View for PitchToken {
    type V = PitchView;

    open spec fn view(&self) -> PitchView {
        PitchView {
            step: self.step,
            alter: self.alter as int,
            accidental_text: opt_view(self.accidental_text),
            octave: self.octave as int,
        }
    }
}

/// The mathematical value of a `LyricToken`.
pub struct LyricView {
    pub verse: Option<u32>,
    pub text: Seq<char>,
}

impl View for LyricToken {
    type V = LyricView;

    open spec fn view(&self) -> LyricView {
        LyricView { verse: self.verse, text: self.text@ }
    }
}

/// The mathematical value of a `NoteToken`.
pub struct NoteView {
    pub clef: Seq<char>,
    pub pitches: Seq<PitchView>,
    pub duration_text: Option<Seq<char>>,
    pub dots: nat,
    pub tie_start: bool,
    pub tie_stop: bool,
    pub slur_start: bool,
    pub slur_stop: bool,
    pub dynamic: Option<Seq<char>>,
    pub chord_symbol: Option<Seq<char>>,
    pub staff_text: Option<Seq<char>>,
    pub lyrics: Seq<LyricView>,
    pub articulations: Seq<Articulation>,
}

impl View for NoteToken {
    type V = NoteView;

    open spec fn view(&self) -> NoteView {
        NoteView {
            clef: self.clef@,
            pitches: self.pitches@.map_values(|p: PitchToken| p@),
            duration_text: opt_view(self.duration_text),
            dots: self.dots as nat,
            tie_start: self.tie_start,
            tie_stop: self.tie_stop,
            slur_start: self.slur_start,
            slur_stop: self.slur_stop,
            dynamic: opt_view(self.dynamic),
            chord_symbol: opt_view(self.chord_symbol),
            staff_text: opt_view(self.staff_text),
            lyrics: self.lyrics@.map_values(|l: LyricToken| l@),
            articulations: self.articulations@,
        }
    }
}

/// The mathematical value of a `Token`.
pub enum TokenView {
    Note(NoteView),
    Rest,
    Clef(Seq<char>),
    Time(Seq<char>),
}

impl View for Token {
    type V = TokenView;

    open spec fn view(&self) -> TokenView {
        match self {
            Token::Note(n) => TokenView::Note(n@),
            Token::Rest => TokenView::Rest,
            Token::Clef(c) => TokenView::Clef(c@),
            Token::Time(t) => TokenView::Time(t@),
        }
    }
}

/// The mathematical value of a `TimedEvent`.
pub struct EventView {
    pub start: int,
    pub duration: int,
    pub token: TokenView,
}

impl View for TimedEvent {
    type V = EventView;

    open spec fn view(&self) -> EventView {
        EventView { start: self.start as int, duration: self.duration as int, token: self.token@ }
    }
}

pub open spec fn events_view(v: Seq<TimedEvent>) -> Seq<EventView> {
    v.map_values(|e: TimedEvent| e@)
}

/// The mathematical value of a `Staff`.
pub struct StaffView {
    pub clef: Seq<char>,
    pub music: Seq<char>,
    pub instrument_name: Option<Seq<char>>,
    pub instrument_name_cont: Option<Seq<char>>,
    pub brace_start: bool,
    pub brace_end: bool,
    pub bracket_start: bool,
    pub bracket_end: bool,
}

impl View for Staff {
    type V = StaffView;

    open spec fn view(&self) -> StaffView {
        StaffView {
            clef: self.clef@,
            music: self.music@,
            instrument_name: opt_view(self.instrument_name),
            instrument_name_cont: opt_view(self.instrument_name_cont),
            brace_start: self.brace_start,
            brace_end: self.brace_end,
            bracket_start: self.bracket_start,
            bracket_end: self.bracket_end,
        }
    }
}

/// The mathematical value of a `Score`.
pub struct ScoreView {
    pub title: Option<Seq<char>>,
    pub composer: Option<Seq<char>>,
    pub key: Option<Seq<char>>,
    pub time: Option<Seq<char>>,
    pub staves: Seq<StaffView>,
}

impl View for Score {
    type V = ScoreView;

    open spec fn view(&self) -> ScoreView {
        ScoreView {
            title: opt_view(self.title),
            composer: opt_view(self.composer),
            key: opt_view(self.key),
            time: opt_view(self.time),
            staves: self.staves@.map_values(|s: Staff| s@),
        }
    }
}

/// Saturating addition on the tick counters.
pub open spec fn sat(x: int) -> int {
    if x > i64::MAX {
        i64::MAX as int
    } else if x < i64::MIN {
        i64::MIN as int
    } else {
        x
    }
}

pub fn sat_add(a: i64, b: i64) -> (r: i64)
    ensures
        r == sat(a + b),
{
    match a.checked_add(b) {
        Some(v) => v,
        None => if b > 0 {
            i64::MAX
        } else {
            i64::MIN
        },
    }
}

pub fn sat_sub(a: i64, b: i64) -> (r: i64)
    ensures
        r == sat(a - b),
{
    match a.checked_sub(b) {
        Some(v) => v,
        None => if b < 0 {
            i64::MAX
        } else {
            i64::MIN
        },
    }
}

// ---------------------------------------------------------------------------
// Stable ordering of events by start
// ---------------------------------------------------------------------------

/// First index from `k` on whose event starts after `key` (or the length).
pub open spec fn insert_pos_from(s: Seq<EventView>, k: int, key: int) -> int
    decreases s.len() - k,
{
    if k < 0 || k >= s.len() {
        s.len() as int
    } else if s[k].start > key {
        k
    } else {
        insert_pos_from(s, k + 1, key)
    }
}

/// Events ordered by start; events with equal starts keep their order.
pub open spec fn sort_by_start(s: Seq<EventView>) -> Seq<EventView>
    decreases s.len(),
{
    if s.len() == 0 {
        s
    } else {
        let t = sort_by_start(s.drop_last());
        t.insert(insert_pos_from(t, 0, s.last().start), s.last())
    }
}

pub proof fn lemma_insert_pos_bounds(s: Seq<EventView>, k: int, key: int)
    requires
        0 <= k <= s.len(),
    ensures
        k <= insert_pos_from(s, k, key) <= s.len(),
    decreases s.len() - k,
{
    if k < s.len() && s[k].start <= key {
        lemma_insert_pos_bounds(s, k + 1, key);
    }
}

pub proof fn lemma_sort_len(s: Seq<EventView>)
    ensures
        sort_by_start(s).len() == s.len(),
    decreases s.len(),
{
    if s.len() > 0 {
        lemma_sort_len(s.drop_last());
        lemma_insert_pos_bounds(sort_by_start(s.drop_last()), 0, s.last().start);
    }
}

pub open spec fn pick(ev: Seq<EventView>, order: Seq<usize>) -> Seq<EventView> {
    order.map_values(|j: usize| ev[j as int])
}

/// Indices of `events` in the order `sort_by_start` puts them.
pub fn sorted_order(events: &[TimedEvent]) -> (order: Vec<usize>)
    ensures
        order@.len() == events@.len(),
        forall|k: int| 0 <= k < order@.len() ==> order@[k] < events@.len(),
        pick(events_view(events@), order@) == sort_by_start(events_view(events@)),
{
    let ghost ev = events_view(events@);
    let mut order: Vec<usize> = Vec::new();
    let mut i: usize = 0;
    assert(pick(ev, order@) =~= Seq::<EventView>::empty());
    assert(ev.take(0) =~= Seq::<EventView>::empty());
    while i < events.len()
        invariant
            i <= events@.len(),
            ev == events_view(events@),
            order@.len() == i,
            forall|k: int| 0 <= k < order@.len() ==> order@[k] < i,
            pick(ev, order@) == sort_by_start(ev.take(i as int)),
        decreases events.len() - i,
    {
        let key = events[i].start;
        let ghost t = pick(ev, order@);
        let mut k: usize = 0;
        while k < order.len() && events[order[k]].start <= key
            invariant
                k <= order@.len(),
                forall|m: int| 0 <= m < order@.len() ==> order@[m] < i,
                i < events@.len(),
                ev == events_view(events@),
                t == pick(ev, order@),
                insert_pos_from(t, 0, key as int) == insert_pos_from(t, k as int, key as int),
            decreases order@.len() - k,
        {
            k += 1;
        }
        let ghost prev = order@;
        order.insert(k, i);
        proof {
            assert(ev.take(i + 1).drop_last() == ev.take(i as int));
            assert(ev.take(i + 1).last() == ev[i as int]);
            assert(pick(ev, order@) =~= t.insert(k as int, ev[i as int]));
        }
        i += 1;
    }
    assert(ev.take(events@.len() as int) == ev);
    order
}

} // verus!
