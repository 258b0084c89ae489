//! Reading Scorify music strings into timed events.
use vstd::prelude::*;

use crate::durations::{duration_to_ticks, spec_duration_ticks};
use crate::error::{invalid_scorify_about, invalid_scorify_str, ConvertError};
use crate::model::{
    events_view, sat, sat_add, EventView, Articulation, LyricToken, LyricView, NoteToken, NoteView,
    PitchToken, PitchView, TimedEvent, Token, TokenView,
};
use crate::scorify_tokens::{
    is_barline_token, is_clef_token, is_time_token, spec_is_barline, spec_is_clef, spec_is_time,
    spec_split_tokens, spec_split_voice, split_top_level_tokens, split_voice_token, parse_bracket_text,
    parse_duration, parse_pitch, pitch_token_len, spec_parse_bracket_text, spec_parse_duration,
    spec_parse_pitch, spec_pitch_token_len,
};
use crate::text::{
    str_to_chars, starts_with, starts_with_str, char_eq, char_is_whitespace, copy_chars, find_char,
    first_index_of, has_at, has_str_at, is_ws, slice_chars, views,
};

verus! {

// ---------------------------------------------------------------------------
// Whitespace-separated words
// ---------------------------------------------------------------------------

pub open spec fn words_from(s: Seq<char>, i: int, cur: Seq<char>, acc: Seq<Seq<char>>) -> Seq<Seq<char>>
    decreases s.len() - i,
{
    if i < 0 || i >= s.len() {
        if cur.len() > 0 {
            acc.push(cur)
        } else {
            acc
        }
    } else if is_ws(s[i]) {
        words_from(
            s,
            i + 1,
            seq![],
            if cur.len() > 0 {
                acc.push(cur)
            } else {
                acc
            },
        )
    } else {
        words_from(s, i + 1, cur.push(s[i]), acc)
    }
}

/// `str::split_whitespace`.
pub open spec fn words(s: Seq<char>) -> Seq<Seq<char>> {
    words_from(s, 0, seq![], seq![])
}

pub fn split_whitespace(s: &[char]) -> (r: Vec<Vec<char>>)
    ensures
        views(r@) == words(s@),
{
    let mut acc: Vec<Vec<char>> = Vec::new();
    let mut cur: Vec<char> = Vec::new();
    let mut i: usize = 0;
    assert(views(acc@) =~= Seq::<Seq<char>>::empty());
    while i < s.len()
        invariant
            i <= s.len(),
            words(s@) == words_from(s@, i as int, cur@, views(acc@)),
        decreases s.len() - i,
    {
        if char_is_whitespace(s[i]) {
            if cur.len() > 0 {
                let ghost prev = acc@;
                let ghost cv = cur@;
                acc.push(cur);
                cur = Vec::new();
                assert(views(acc@) =~= views(prev).push(cv));
            } else {
                assert(cur@ =~= Seq::<char>::empty());
            }
        } else {
            cur.push(s[i]);
        }
        i += 1;
    }
    if cur.len() > 0 {
        let ghost prev = acc@;
        let ghost cv = cur@;
        acc.push(cur);
        assert(views(acc@) =~= views(prev).push(cv));
    }
    acc
}

// ---------------------------------------------------------------------------
// Note tokens
// ---------------------------------------------------------------------------

/// Pitches of the words of a chord, each read in `clef`.
pub open spec fn parse_pitches(ws: Seq<Seq<char>>, clef: Seq<char>) -> Option<Seq<PitchView>>
    decreases ws.len(),
{
    if ws.len() == 0 {
        Some(seq![])
    } else {
        match parse_pitches(ws.drop_last(), clef) {
            Some(ps) => match spec_parse_pitch(ws.last(), clef) {
                Some(p) => Some(ps.push(p)),
                None => None,
            },
            None => None,
        }
    }
}

/// Pitches of a note token and where its duration starts: `<p p ...>` for a
/// chord, else a single pitch.
pub open spec fn spec_note_pitches(t: Seq<char>, clef: Seq<char>) -> Option<(Seq<PitchView>, int)> {
    if t.len() > 0 && t[0] == '<' {
        match first_index_of(t.skip(1), '>') {
            Some(end) => match parse_pitches(words(t.skip(1).take(end)), clef) {
                Some(ps) => Some((ps, end + 2)),
                None => None,
            },
            None => None,
        }
    } else {
        match spec_pitch_token_len(t) {
            Some(n) => match spec_parse_pitch(t.take(n), clef) {
                Some(p) => Some((seq![p], n)),
                None => None,
            },
            None => None,
        }
    }
}

pub open spec fn articulation_of(c: char) -> Option<Articulation> {
    if c == '>' {
        Some(Articulation::Accent)
    } else if c == '*' {
        Some(Articulation::Staccato)
    } else if c == '-' {
        Some(Articulation::Tenuto)
    } else if c == '_' {
        Some(Articulation::Fermata)
    } else {
        None
    }
}

/// The articulation marks from position `p` on.
pub open spec fn articulation_run(t: Seq<char>, p: int) -> Seq<Articulation>
    decreases t.len() - p,
{
    if 0 <= p < t.len() && articulation_of(t[p]) is Some {
        seq![articulation_of(t[p]).unwrap()] + articulation_run(t, p + 1)
    } else {
        seq![]
    }
}

/// What the attachments of a note carry.
pub struct Attachments {
    pub dynamic: Option<Seq<char>>,
    pub staff_text: Option<Seq<char>>,
    pub chord_symbol: Option<Seq<char>>,
    pub segments: Seq<Option<Seq<char>>>,
}

/// Reads the attachments `v[..]`, `text[..]`, `[..]`, `l[..]` and `l` from position `p` on.
pub open spec fn attachments_from(t: Seq<char>, p: int, a: Attachments) -> Option<Attachments>
    decreases t.len() - p,
{
    if p < 0 || p >= t.len() {
        Some(a)
    } else if has_at(t, p, "v["@) {
        match spec_parse_bracket_text(t, p + 2) {
            Some((v, e)) => if p < e <= t.len() {
                attachments_from(t, e, Attachments { dynamic: Some(v), ..a })
            } else {
                None
            },
            None => None,
        }
    } else if has_at(t, p, "text["@) {
        match spec_parse_bracket_text(t, p + 5) {
            Some((v, e)) => if p < e <= t.len() {
                attachments_from(t, e, Attachments { staff_text: Some(v), ..a })
            } else {
                None
            },
            None => None,
        }
    } else if t[p] == '[' {
        match spec_parse_bracket_text(t, p + 1) {
            Some((v, e)) => if p < e <= t.len() {
                attachments_from(t, e, Attachments { chord_symbol: Some(v), ..a })
            } else {
                None
            },
            None => None,
        }
    } else if has_at(t, p, "l["@) {
        match spec_parse_bracket_text(t, p + 2) {
            Some((v, e)) => if p < e <= t.len() {
                attachments_from(t, e, Attachments { segments: a.segments.push(Some(v)), ..a })
            } else {
                None
            },
            None => None,
        }
    } else if t[p] == 'l' {
        attachments_from(t, p + 1, Attachments { segments: a.segments.push(None), ..a })
    } else {
        None
    }
}

/// Lyric segments numbered as verses from `i` on (segments that are `l` alone are skipped).
pub open spec fn numbered_lyrics(segs: Seq<Option<Seq<char>>>) -> Seq<LyricView>
    decreases segs.len(),
{
    if segs.len() == 0 {
        seq![]
    } else {
        numbered_lyrics(segs.drop_last()) + match segs.last() {
            Some(text) => seq![LyricView { verse: Some(segs.len() as u32), text }],
            None => seq![],
        }
    }
}

/// A lone `l[..]` is an unnumbered lyric; otherwise each `l[..]` is the verse of its position.
pub open spec fn lyrics_of(segs: Seq<Option<Seq<char>>>) -> Option<Seq<LyricView>> {
    if segs.len() == 1 && segs[0] is Some {
        Some(seq![LyricView { verse: None, text: segs[0].unwrap() }])
    } else if segs.len() > u32::MAX {
        None
    } else {
        Some(numbered_lyrics(segs))
    }
}

/// The parsed form of one token of a voice.
pub enum VoiceEventView {
    Note(int, NoteView),
    Rest(int, Seq<char>, nat),
    Skip(int),
}

/// One token of a voice: a note, a rest or an invisible skip.
pub enum VoiceEvent {
    Note { duration: i64, note: NoteToken },
    Rest(i64, Vec<char>, usize),
    Skip(i64),
}

impl View for VoiceEvent {
    type V = VoiceEventView;

    open spec fn view(&self) -> VoiceEventView {
        match self {
            VoiceEvent::Note { duration, note } => VoiceEventView::Note(*duration as int, note@),
            VoiceEvent::Rest(d, t, n) => VoiceEventView::Rest(*d as int, t@, *n as nat),
            VoiceEvent::Skip(d) => VoiceEventView::Skip(*d as int),
        }
    }
}

/// A rest (`r`) or skip (`s`) token: a duration and nothing after it.
pub open spec fn spec_rest_like(t: Seq<char>) -> Option<(int, Seq<char>, nat)> {
    match spec_parse_duration(t, 1) {
        Some((text, dots, end)) => if end != t.len() {
            None
        } else {
            match spec_duration_ticks(text, dots) {
                Some(d) => Some((d, text, dots)),
                None => None,
            }
        },
        None => None,
    }
}

/// The message of a rest (`skip` false) or skip token that does not read.
pub open spec fn rest_like_message(t: Seq<char>, skip: bool) -> Seq<char> {
    match spec_parse_duration(t, 1) {
        None => "missing duration in token fragment '"@ + t.subrange(1, t.len() as int) + "'"@,
        Some((text, dots, end)) => if end != t.len() {
            if skip {
                "unexpected suffix on skip token '"@ + t + "'"@
            } else {
                "unexpected suffix on rest token '"@ + t + "'"@
            }
        } else {
            "unsupported duration '"@ + text + "'"@
        },
    }
}

/// What follows the duration of a note token: slur start, articulations,
/// tie, slur end and attachments.
pub struct NoteSuffix {
    pub slur_start: bool,
    pub articulations: Seq<Articulation>,
    pub tie_start: bool,
    pub slur_stop: bool,
    pub attachments: Attachments,
    pub lyrics: Seq<LyricView>,
}

pub open spec fn spec_note_suffix(t: Seq<char>, end: int) -> Option<NoteSuffix> {
    let slur_start = 0 <= end < t.len() && t[end] == '(';
    let p1 = if slur_start {
        end + 1
    } else {
        end
    };
    let arts = articulation_run(t, p1);
    let p2 = p1 + arts.len();
    let tie_start = 0 <= p2 < t.len() && t[p2] == '~';
    let p3 = if tie_start {
        p2 + 1
    } else {
        p2
    };
    let slur_stop = 0 <= p3 < t.len() && t[p3] == ')';
    let p4 = if slur_stop {
        p3 + 1
    } else {
        p3
    };
    match attachments_from(
        t,
        p4,
        Attachments { dynamic: None, staff_text: None, chord_symbol: None, segments: seq![] },
    ) {
        Some(a) => match lyrics_of(a.segments) {
            Some(lyrics) => Some(
                NoteSuffix { slur_start, articulations: arts, tie_start, slur_stop, attachments: a, lyrics },
            ),
            None => None,
        },
        None => None,
    }
}

/// The event that a Scorify voice token denotes, read in `clef`.
pub open spec fn spec_parse_voice_event(t: Seq<char>, clef: Seq<char>) -> Option<VoiceEventView> {
    if t.len() > 0 && t[0] == 'r' {
        match spec_rest_like(t) {
            Some((d, text, dots)) => Some(VoiceEventView::Rest(d, text, dots)),
            None => None,
        }
    } else if t.len() > 0 && t[0] == 's' {
        match spec_rest_like(t) {
            Some((d, _, _)) => Some(VoiceEventView::Skip(d)),
            None => None,
        }
    } else {
        match spec_note_pitches(t, clef) {
            Some((pitches, at)) => match spec_parse_duration(t, at) {
                Some((text, dots, end)) => match spec_duration_ticks(text, dots) {
                    Some(d) => match spec_note_suffix(t, end) {
                        Some(sx) => Some(
                            VoiceEventView::Note(
                                d,
                                NoteView {
                                    clef,
                                    pitches,
                                    duration_text: Some(text),
                                    dots,
                                    tie_start: sx.tie_start,
                                    tie_stop: false,
                                    slur_start: sx.slur_start,
                                    slur_stop: sx.slur_stop,
                                    dynamic: sx.attachments.dynamic,
                                    chord_symbol: sx.attachments.chord_symbol,
                                    staff_text: sx.attachments.staff_text,
                                    lyrics: sx.lyrics,
                                    articulations: sx.articulations,
                                },
                            ),
                        ),
                        None => None,
                    },
                    None => None,
                },
                None => None,
            },
            None => None,
        }
    }
}

/// The message of a pitch that does not read.
pub open spec fn pitch_message(t: Seq<char>) -> Seq<char> {
    if t.len() == 0 || !crate::text::is_ascii_alpha(t[0]) {
        "invalid note pitch '"@ + t + "'"@
    } else {
        "invalid pitch octave suffix in '"@ + t + "'"@
    }
}

/// The message of the first word of a chord, from `i` on, that is no pitch.
pub open spec fn chord_pitch_message(ws: Seq<Seq<char>>, i: int, clef: Seq<char>) -> Seq<char>
    decreases ws.len() - i,
{
    if i < 0 || i >= ws.len() {
        seq![]
    } else if spec_parse_pitch(ws[i], clef) is None {
        pitch_message(ws[i])
    } else {
        chord_pitch_message(ws, i + 1, clef)
    }
}

/// The message of a note token whose pitch part does not read.
pub open spec fn note_pitches_message(t: Seq<char>, clef: Seq<char>) -> Seq<char> {
    if t.len() > 0 && t[0] == '<' {
        match first_index_of(t.skip(1), '>') {
            Some(end) => chord_pitch_message(words(t.skip(1).take(end)), 0, clef),
            None => "unterminated chord token '"@ + t + "'"@,
        }
    } else {
        match spec_pitch_token_len(t) {
            Some(n) => pitch_message(t.take(n)),
            None => if t.len() == 0 {
                "empty note token"@
            } else {
                "invalid note token '"@ + t + "'"@
            },
        }
    }
}

/// The message of attachments, from `p` on, that do not read: the first
/// bracket left open, or a character that begins no attachment.
pub open spec fn attachments_message(t: Seq<char>, p: int) -> Seq<char>
    decreases t.len() - p,
{
    if p < 0 || p >= t.len() {
        seq![]
    } else {
        let at: int = if has_at(t, p, "v["@) || has_at(t, p, "l["@) {
            p + 2
        } else if has_at(t, p, "text["@) {
            p + 5
        } else {
            p + 1
        };
        if has_at(t, p, "v["@) || has_at(t, p, "text["@) || t[p] == '[' || has_at(t, p, "l["@) {
            match spec_parse_bracket_text(t, at) {
                Some((_, e)) => if p < e <= t.len() {
                    attachments_message(t, e)
                } else {
                    seq![]
                },
                None => "unterminated bracketed attachment"@,
            }
        } else if t[p] == 'l' {
            attachments_message(t, p + 1)
        } else {
            "could not parse token suffix in '"@ + t + "'"@
        }
    }
}

/// Where the attachments of a note token begin, after the marks that
/// follow its duration at `end`.
pub open spec fn suffix_attachments_start(t: Seq<char>, end: int) -> int {
    let slur_start = 0 <= end < t.len() && t[end] == '(';
    let p1 = if slur_start {
        end + 1
    } else {
        end
    };
    let p2 = p1 + articulation_run(t, p1).len();
    let p3 = if 0 <= p2 < t.len() && t[p2] == '~' {
        p2 + 1
    } else {
        p2
    };
    if 0 <= p3 < t.len() && t[p3] == ')' {
        p3 + 1
    } else {
        p3
    }
}

/// The message of a note token whose marks, attachments or lyrics after
/// the duration at `end` do not read.
pub open spec fn note_suffix_message(t: Seq<char>, end: int) -> Seq<char> {
    let p = suffix_attachments_start(t, end);
    match attachments_from(t, p, Attachments { dynamic: None, staff_text: None, chord_symbol: None, segments: seq![] }) {
        None => attachments_message(t, p),
        Some(_) => "too many lyric verses on one note"@,
    }
}

/// The message of a note token that does not read.
pub open spec fn note_token_message(t: Seq<char>, clef: Seq<char>) -> Seq<char> {
    match spec_note_pitches(t, clef) {
        None => note_pitches_message(t, clef),
        Some((_, at)) => match spec_parse_duration(t, at) {
            None => "missing duration in token fragment '"@ + t.subrange(at, t.len() as int) + "'"@,
            Some((text, dots, end)) => match spec_duration_ticks(text, dots) {
                None => "unsupported duration '"@ + text + "'"@,
                Some(_) => note_suffix_message(t, end),
            },
        },
    }
}

/// The message of a voice token that does not read.
pub open spec fn voice_event_message(t: Seq<char>, clef: Seq<char>) -> Seq<char> {
    if t.len() > 0 && t[0] == 'r' {
        rest_like_message(t, false)
    } else if t.len() > 0 && t[0] == 's' {
        rest_like_message(t, true)
    } else {
        note_token_message(t, clef)
    }
}

fn parse_rest_like(token: &[char], skip: bool) -> (r: Result<(i64, Vec<char>, usize), ConvertError>)
    requires
        token.len() > 0,
    ensures
        match r {
            Ok((d, text, dots)) => spec_rest_like(token@) == Some((d as int, text@, dots as nat)),
            Err(e) => spec_rest_like(token@) is None && (e matches ConvertError::InvalidScorify(m) && m@
                == rest_like_message(token@, skip)),
        },
{
    let (text, dots, end) = parse_duration(token, 1)?;
    if end != token.len() {
        if skip {
            return Err(invalid_scorify_about("unexpected suffix on skip token '", token, "'"));
        } else {
            return Err(invalid_scorify_about("unexpected suffix on rest token '", token, "'"));
        }
    }
    let d = duration_to_ticks(text.as_slice(), dots)?;
    Ok((d, text, dots))
}

fn note_pitches(token: &[char], clef: &[char]) -> (r: Result<(Vec<PitchToken>, usize), ConvertError>)
    ensures
        match r {
            Ok((ps, at)) => spec_note_pitches(token@, clef@) == Some(
                (ps@.map_values(|p: PitchToken| p@), at as int),
            ) && at <= token.len(),
            Err(e) => spec_note_pitches(token@, clef@) is None && (e matches ConvertError::InvalidScorify(m) && m@
                == note_pitches_message(token@, clef@)),
        },
{
    if token.len() > 0 && char_eq(token[0], '<') {
        let after = slice_chars(token, 1, token.len());
        assert(after@ == token@.skip(1));
        let end = match find_char(after.as_slice(), '>') {
            Some(e) => e,
            None => {
                return Err(invalid_scorify_about("unterminated chord token '", token, "'"));
            },
        };
        let inside = slice_chars(after.as_slice(), 0, end);
        assert(inside@ == token@.skip(1).take(end as int));
        assert(first_index_of(token@.skip(1), '>') == Some(end as int));
        let ws = split_whitespace(inside.as_slice());
        let mut ps: Vec<PitchToken> = Vec::new();
        let mut i: usize = 0;
        while i < ws.len()
            invariant
                i <= ws.len(),
                views(ws@) == words(inside@),
                inside@ == token@.skip(1).take(end as int),
                first_index_of(token@.skip(1), '>') == Some(end as int),
                token.len() > 0 && token@[0] == '<',
                parse_pitches(views(ws@).take(i as int), clef@) == Some(ps@.map_values(|p: PitchToken| p@)),
                chord_pitch_message(views(ws@), 0, clef@) == chord_pitch_message(views(ws@), i as int, clef@),
            decreases ws.len() - i,
        {
            let p = parse_pitch(ws[i].as_slice(), clef);
            proof {
                assert(views(ws@).take(i + 1).drop_last() == views(ws@).take(i as int));
                assert(views(ws@).take(i + 1).last() == ws@[i as int]@);
            }
            match p {
                Ok(p) => {
                    assert(chord_pitch_message(views(ws@), i as int, clef@) == chord_pitch_message(
                        views(ws@),
                        i + 1,
                        clef@,
                    ));
                    let ghost prev = ps@;
                    ps.push(p);
                    assert(ps@.map_values(|p: PitchToken| p@) =~= prev.map_values(|p: PitchToken| p@).push(p@));
                },
                Err(e) => {
                    proof {
                        assert(parse_pitches(views(ws@).take(i + 1), clef@) is None);
                        lemma_parse_pitches_prefix_none(views(ws@), (i + 1) as int, clef@);
                        assert(views(ws@).take(ws.len() as int) == views(ws@));
                    }
                    return Err(e);
                },
            }
            i += 1;
        }
        assert(views(ws@).take(ws.len() as int) == views(ws@));
        Ok((ps, end + 2))
    } else {
        let n = pitch_token_len(token)?;
        let head = slice_chars(token, 0, n);
        assert(head@ == token@.take(n as int));
        let p = parse_pitch(head.as_slice(), clef)?;
        let mut ps: Vec<PitchToken> = Vec::new();
        ps.push(p);
        assert(ps@.map_values(|p: PitchToken| p@) =~= seq![p@]);
        Ok((ps, n))
    }
}

proof fn lemma_parse_pitches_prefix_none(ws: Seq<Seq<char>>, k: int, clef: Seq<char>)
    requires
        0 <= k <= ws.len(),
        parse_pitches(ws.take(k), clef) is None,
    ensures
        parse_pitches(ws, clef) is None,
    decreases ws.len() - k,
{
    if k < ws.len() {
        assert(ws.take(k + 1).drop_last() == ws.take(k));
        lemma_parse_pitches_prefix_none(ws, k + 1, clef);
    } else {
        assert(ws.take(k) == ws);
    }
}

fn articulation_at(c: char) -> (r: Option<Articulation>)
    ensures
        r == articulation_of(c),
{
    if char_eq(c, '>') {
        Some(Articulation::Accent)
    } else if char_eq(c, '*') {
        Some(Articulation::Staccato)
    } else if char_eq(c, '-') {
        Some(Articulation::Tenuto)
    } else if char_eq(c, '_') {
        Some(Articulation::Fermata)
    } else {
        None
    }
}

/// Reads the attachments of a note token from position `p` on.
fn note_attachments(token: &[char], p: usize) -> (r: Result<(Option<Vec<char>>, Option<Vec<char>>, Option<Vec<char>>, Vec<Option<Vec<char>>>), ConvertError>)
    requires
        p <= token.len(),
    ensures
        match r {
            Ok((dynamic, staff_text, chord_symbol, segments)) => attachments_from(
                token@,
                p as int,
                Attachments { dynamic: None, staff_text: None, chord_symbol: None, segments: seq![] },
            ) == Some(
                Attachments {
                    dynamic: crate::model::opt_view(dynamic),
                    staff_text: crate::model::opt_view(staff_text),
                    chord_symbol: crate::model::opt_view(chord_symbol),
                    segments: segments@.map_values(|s: Option<Vec<char>>| crate::model::opt_view(s)),
                },
            ),
            Err(e) => attachments_from(
                token@,
                p as int,
                Attachments { dynamic: None, staff_text: None, chord_symbol: None, segments: seq![] },
            ) is None && (e matches ConvertError::InvalidScorify(m) && m@ == attachments_message(token@, p as int)),
        },
{
    proof {
        reveal_strlit("v[");
        reveal_strlit("text[");
        reveal_strlit("l[");
    }
    let mut dynamic: Option<Vec<char>> = None;
    let mut staff_text: Option<Vec<char>> = None;
    let mut chord_symbol: Option<Vec<char>> = None;
    let mut segments: Vec<Option<Vec<char>>> = Vec::new();
    let mut i = p;
    let ghost start = Attachments { dynamic: None, staff_text: None, chord_symbol: None, segments: seq![] };
    assert(segments@.map_values(|s: Option<Vec<char>>| crate::model::opt_view(s)) =~= Seq::<Option<Seq<char>>>::empty());
    while i < token.len()
        invariant
            p <= i <= token.len(),
            start == (Attachments { dynamic: None, staff_text: None, chord_symbol: None, segments: seq![] }),
            attachments_from(token@, p as int, start) == attachments_from(
                token@,
                i as int,
                Attachments {
                    dynamic: crate::model::opt_view(dynamic),
                    staff_text: crate::model::opt_view(staff_text),
                    chord_symbol: crate::model::opt_view(chord_symbol),
                    segments: segments@.map_values(|s: Option<Vec<char>>| crate::model::opt_view(s)),
                },
            ),
            attachments_message(token@, p as int) == attachments_message(token@, i as int),
        decreases token.len() - i,
    {
        let ghost segs = segments@;
        let ghost cur = Attachments {
            dynamic: crate::model::opt_view(dynamic),
            staff_text: crate::model::opt_view(staff_text),
            chord_symbol: crate::model::opt_view(chord_symbol),
            segments: segments@.map_values(|s: Option<Vec<char>>| crate::model::opt_view(s)),
        };
        proof {
            reveal_strlit("v[");
            reveal_strlit("text[");
            reveal_strlit("l[");
            if has_at(token@, i as int, "l["@) {
                assert(token@.subrange(i as int, i + 2)[0] == token@[i as int]);
                assert(token@[i as int] == 'l');
                if has_at(token@, i as int, "text["@) {
                    assert(token@.subrange(i as int, i + 5)[0] == token@[i as int]);
                }
            }
        }
        let ghost i0 = i as int;
        if has_str_at(token, i, "v[") {
            let (v, e) = match parse_bracket_text(token, i + 2) {
                Ok(x) => x,
                Err(e) => {
                    assert(has_at(token@, i as int, "v["@));
                    assert(spec_parse_bracket_text(token@, i + 2) is None);
                    assert(attachments_from(token@, i as int, cur) is None);
                    return Err(e);
                },
            };
            dynamic = Some(v);
            i = e;
            assert(attachments_message(token@, i0) == attachments_message(token@, i as int));
        } else if has_str_at(token, i, "text[") {
            let (v, e) = match parse_bracket_text(token, i + 5) {
                Ok(x) => x,
                Err(e) => {
                    assert(attachments_from(token@, i as int, cur) is None);
                    assert(attachments_message(token@, i as int) == "unterminated bracketed attachment"@);
                    return Err(e);
                },
            };
            staff_text = Some(v);
            i = e;
            assert(attachments_message(token@, i0) == attachments_message(token@, i as int));
        } else if char_eq(token[i], '[') {
            let (v, e) = match parse_bracket_text(token, i + 1) {
                Ok(x) => x,
                Err(e) => {
                    assert(!has_at(token@, i as int, "l["@)) by {
                        if has_at(token@, i as int, "l["@) {
                            assert(token@.subrange(i as int, i + 2)[0] == token@[i as int]);
                        }
                    }
                    assert(attachments_message(token@, i as int) == "unterminated bracketed attachment"@);
                    return Err(e);
                },
            };
            chord_symbol = Some(v);
            i = e;
            assert(attachments_message(token@, i0) == attachments_message(token@, i as int));
        } else if has_str_at(token, i, "l[") {
            let (v, e) = match parse_bracket_text(token, i + 2) {
                Ok(x) => x,
                Err(e) => {
                    assert(has_at(token@, i as int, "l["@));
                    assert(attachments_message(token@, i as int) == "unterminated bracketed attachment"@);
                    return Err(e);
                },
            };
            let ghost vv = v@;
            segments.push(Some(v));
            assert(segments@.map_values(|s: Option<Vec<char>>| crate::model::opt_view(s)) =~= segs.map_values(
                |s: Option<Vec<char>>| crate::model::opt_view(s),
            ).push(Some(vv)));
            i = e;
            assert(attachments_message(token@, i0) == attachments_message(token@, i as int));
        } else if char_eq(token[i], 'l') {
            segments.push(None);
            assert(segments@.map_values(|s: Option<Vec<char>>| crate::model::opt_view(s)) =~= segs.map_values(
                |s: Option<Vec<char>>| crate::model::opt_view(s),
            ).push(None));
            i = i + 1;
            assert(attachments_message(token@, i0) == attachments_message(token@, i as int));
        } else {
            assert(attachments_from(token@, i as int, cur) is None);
            return Err(invalid_scorify_about("could not parse token suffix in '", token, "'"));
        }
    }
    Ok((dynamic, staff_text, chord_symbol, segments))
}

/// Turns lyric segments into lyrics.
fn segments_to_lyrics(segments: Vec<Option<Vec<char>>>) -> (r: Result<Vec<LyricToken>, ConvertError>)
    ensures
        match r {
            Ok(ls) => lyrics_of(segments@.map_values(|s: Option<Vec<char>>| crate::model::opt_view(s)))
                == Some(ls@.map_values(|l: LyricToken| l@)),
            Err(e) => lyrics_of(segments@.map_values(|s: Option<Vec<char>>| crate::model::opt_view(s))) is None
                && (e matches ConvertError::InvalidScorify(m) && m@ == "too many lyric verses on one note"@),
        },
{
    let ghost segs = segments@.map_values(|s: Option<Vec<char>>| crate::model::opt_view(s));
    let mut out: Vec<LyricToken> = Vec::new();
    if segments.len() == 1 && segments[0].is_some() {
        let text = match &segments[0] {
            Some(t) => copy_chars(t.as_slice()),
            None => Vec::new(),
        };
        out.push(LyricToken { verse: None, text });
        assert(out@.map_values(|l: LyricToken| l@) =~= seq![LyricView { verse: None, text: segs[0].unwrap() }]);
        return Ok(out);
    }
    if segments.len() > 4294967295 {
        return Err(invalid_scorify_str("too many lyric verses on one note"));
    }
    let mut i: usize = 0;
    assert(out@.map_values(|l: LyricToken| l@) =~= Seq::<LyricView>::empty());
    while i < segments.len()
        invariant
            i <= segments.len() <= 4294967295,
            segs == segments@.map_values(|s: Option<Vec<char>>| crate::model::opt_view(s)),
            out@.map_values(|l: LyricToken| l@) == numbered_lyrics(segs.take(i as int)),
        decreases segments.len() - i,
    {
        let ghost prev = out@;
        assert(segs.take(i + 1).drop_last() == segs.take(i as int));
        if let Some(t) = &segments[i] {
            let text = copy_chars(t.as_slice());
            out.push(LyricToken { verse: Some((i + 1) as u32), text });
            assert(out@.map_values(|l: LyricToken| l@) =~= prev.map_values(|l: LyricToken| l@) + seq![
                LyricView { verse: Some((i + 1) as u32), text: t@ },
            ]);
        } else {
            assert(out@.map_values(|l: LyricToken| l@) =~= prev.map_values(|l: LyricToken| l@) + Seq::<LyricView>::empty());
        }
        i += 1;
    }
    assert(segs.take(segments.len() as int) == segs);
    Ok(out)
}

/// The parts of a note token after its duration.
pub struct SuffixParts {
    pub slur_start: bool,
    pub articulations: Vec<Articulation>,
    pub tie_start: bool,
    pub slur_stop: bool,
    pub dynamic: Option<Vec<char>>,
    pub staff_text: Option<Vec<char>>,
    pub chord_symbol: Option<Vec<char>>,
    pub lyrics: Vec<LyricToken>,
}

fn note_suffix(token: &[char], end: usize) -> (r: Result<SuffixParts, ConvertError>)
    requires
        end <= token.len(),
    ensures
        match r {
            Ok(x) => spec_note_suffix(token@, end as int) == Some(
                NoteSuffix {
                    slur_start: x.slur_start,
                    articulations: x.articulations@,
                    tie_start: x.tie_start,
                    slur_stop: x.slur_stop,
                    attachments: Attachments {
                        dynamic: crate::model::opt_view(x.dynamic),
                        staff_text: crate::model::opt_view(x.staff_text),
                        chord_symbol: crate::model::opt_view(x.chord_symbol),
                        segments: spec_note_suffix(token@, end as int).unwrap().attachments.segments,
                    },
                    lyrics: x.lyrics@.map_values(|l: LyricToken| l@),
                },
            ),
            Err(e) => spec_note_suffix(token@, end as int) is None && (e matches ConvertError::InvalidScorify(m) && m@
                == note_suffix_message(token@, end as int)),
        },
{
    let n = token.len();
    let mut p = end;
    let slur_start = p < n && char_eq(token[p], '(');
    if slur_start {
        p = p + 1;
    }
    let ghost p1 = p;
    let mut articulations: Vec<Articulation> = Vec::new();
    while p < n && articulation_at(token[p]).is_some()
        invariant
            p1 <= p <= n == token.len(),
            articulations@ + articulation_run(token@, p as int) == articulation_run(token@, p1 as int),
            articulations@.len() == p - p1,
        decreases n - p,
    {
        let a = articulation_at(token[p]).unwrap();
        let ghost prev = articulations@;
        articulations.push(a);
        assert(articulations@ + articulation_run(token@, p + 1) =~= prev + articulation_run(token@, p as int));
        p = p + 1;
    }
    assert(articulations@ + articulation_run(token@, p as int) == articulation_run(token@, p1 as int));
    assert(articulation_run(token@, p as int) =~= Seq::<Articulation>::empty());
    assert(articulations@ =~= articulation_run(token@, p1 as int));
    let tie_start = p < n && char_eq(token[p], '~');
    if tie_start {
        p = p + 1;
    }
    let slur_stop = p < n && char_eq(token[p], ')');
    if slur_stop {
        p = p + 1;
    }
    assert(p == suffix_attachments_start(token@, end as int));
    let (dynamic, staff_text, chord_symbol, segments) = note_attachments(token, p)?;
    let lyrics = segments_to_lyrics(segments)?;
    Ok(SuffixParts { slur_start, articulations, tie_start, slur_stop, dynamic, staff_text, chord_symbol, lyrics })
}

/// Reads one token of a voice, in the clef that is current at that point.
pub fn parse_voice_event(token: &[char], clef: &[char]) -> (r: Result<VoiceEvent, ConvertError>)
    ensures
        match r {
            Ok(ev) => spec_parse_voice_event(token@, clef@) == Some(ev@),
            Err(e) => {
                &&& spec_parse_voice_event(token@, clef@) is None
                &&& e matches ConvertError::InvalidScorify(m) && m@ == voice_event_message(token@, clef@)
            },
        },
{
    if token.len() > 0 && char_eq(token[0], 'r') {
        let (d, text, dots) = parse_rest_like(token, false)?;
        return Ok(VoiceEvent::Rest(d, text, dots));
    }
    if token.len() > 0 && char_eq(token[0], 's') {
        let (d, _text, _dots) = parse_rest_like(token, true)?;
        return Ok(VoiceEvent::Skip(d));
    }
    let (pitches, at) = note_pitches(token, clef)?;
    let (duration_text, dots, end) = parse_duration(token, at)?;
    let duration = duration_to_ticks(duration_text.as_slice(), dots)?;
    let sx = note_suffix(token, end)?;
    let note = NoteToken {
        clef: copy_chars(clef),
        pitches,
        duration_text: Some(duration_text),
        dots,
        tie_start: sx.tie_start,
        tie_stop: false,
        slur_start: sx.slur_start,
        slur_stop: sx.slur_stop,
        dynamic: sx.dynamic,
        chord_symbol: sx.chord_symbol,
        staff_text: sx.staff_text,
        lyrics: sx.lyrics,
        articulations: sx.articulations,
    };
    Ok(VoiceEvent::Note { duration, note })
}

// ---------------------------------------------------------------------------
// Voices, measures and staves
// ---------------------------------------------------------------------------

/// What a voice has produced so far.
pub struct VoiceAcc {
    pub events: Seq<EventView>,
    pub controls: Seq<EventView>,
    pub cursor: int,
    pub clef: Seq<char>,
}

/// Reads the tokens of a voice from `i` on: clef and time tokens become
/// controls at the current position, notes and rests become events, skips
/// only move the position.
pub open spec fn voice_from(ts: Seq<Seq<char>>, i: int, acc: VoiceAcc) -> Option<VoiceAcc>
    decreases ts.len() - i,
{
    if i < 0 || i >= ts.len() {
        Some(acc)
    } else {
        let t = ts[i];
        if spec_is_clef(t) {
            voice_from(
                ts,
                i + 1,
                VoiceAcc {
                    controls: acc.controls.push(EventView { start: acc.cursor, duration: 0, token: TokenView::Clef(t) }),
                    clef: t,
                    ..acc
                },
            )
        } else if spec_is_time(t) {
            voice_from(
                ts,
                i + 1,
                VoiceAcc {
                    controls: acc.controls.push(EventView { start: acc.cursor, duration: 0, token: TokenView::Time(t) }),
                    ..acc
                },
            )
        } else {
            match spec_parse_voice_event(t, acc.clef) {
                Some(VoiceEventView::Skip(d)) => voice_from(ts, i + 1, VoiceAcc { cursor: sat(acc.cursor + d), ..acc }),
                Some(VoiceEventView::Rest(d, _, _)) => voice_from(
                    ts,
                    i + 1,
                    VoiceAcc {
                        events: acc.events.push(EventView { start: acc.cursor, duration: d, token: TokenView::Rest }),
                        cursor: sat(acc.cursor + d),
                        ..acc
                    },
                ),
                Some(VoiceEventView::Note(d, n)) => voice_from(
                    ts,
                    i + 1,
                    VoiceAcc {
                        events: acc.events.push(EventView { start: acc.cursor, duration: d, token: TokenView::Note(n) }),
                        cursor: sat(acc.cursor + d),
                        ..acc
                    },
                ),
                None => None,
            }
        }
    }
}

/// The message of the first token of a voice, from `i` on, that does not
/// read, each token read in the clef that is current at that point.
pub open spec fn voice_message_from(ts: Seq<Seq<char>>, i: int, clef: Seq<char>) -> Seq<char>
    decreases ts.len() - i,
{
    if i < 0 || i >= ts.len() {
        seq![]
    } else if spec_is_clef(ts[i]) {
        voice_message_from(ts, i + 1, ts[i])
    } else if spec_is_time(ts[i]) {
        voice_message_from(ts, i + 1, clef)
    } else if spec_parse_voice_event(ts[i], clef) is None {
        voice_event_message(ts[i], clef)
    } else {
        voice_message_from(ts, i + 1, clef)
    }
}

/// Reads a voice that starts at tick 0 in `clef`, appending its controls to `controls`.
pub open spec fn spec_parse_voice_tokens(ts: Seq<Seq<char>>, clef: Seq<char>, controls: Seq<EventView>) -> Option<VoiceAcc> {
    voice_from(ts, 0, VoiceAcc { events: seq![], controls, cursor: 0, clef })
}

/// Reads the tokens of one voice: its events, the controls appended to
/// `controls`, and its length in ticks.
pub fn parse_voice_tokens(
    tokens: &[Vec<char>],
    default_clef: &[char],
    controls: &mut Vec<TimedEvent>,
) -> (r: Result<(Vec<TimedEvent>, i64), ConvertError>)
    ensures
        match r {
            Ok((events, length)) => spec_parse_voice_tokens(views(tokens@), default_clef@, events_view(old(controls)@))
                == Some(
                VoiceAcc {
                    events: events_view(events@),
                    controls: events_view(final(controls)@),
                    cursor: length as int,
                    clef: spec_parse_voice_tokens(views(tokens@), default_clef@, events_view(old(controls)@)).unwrap().clef,
                },
            ),
            Err(e) => spec_parse_voice_tokens(views(tokens@), default_clef@, events_view(old(controls)@)) is None
                && (e matches ConvertError::InvalidScorify(m) && m@ == voice_message_from(views(tokens@), 0, default_clef@)),
        },
{
    let mut events: Vec<TimedEvent> = Vec::new();
    let mut cursor: i64 = 0;
    let mut clef = copy_chars(default_clef);
    let mut i: usize = 0;
    let ghost ts = views(tokens@);
    assert(events_view(events@) =~= Seq::<EventView>::empty());
    while i < tokens.len()
        invariant
            i <= tokens.len(),
            ts == views(tokens@),
            spec_parse_voice_tokens(ts, default_clef@, events_view(old(controls)@)) == voice_from(
                ts,
                i as int,
                VoiceAcc { events: events_view(events@), controls: events_view(controls@), cursor: cursor as int, clef: clef@ },
            ),
            voice_message_from(ts, 0, default_clef@) == voice_message_from(ts, i as int, clef@),
        decreases tokens.len() - i,
    {
        let t = &tokens[i];
        assert(ts[i as int] == t@);
        let ghost prev_events = events@;
        let ghost prev_controls = controls@;
        if is_clef_token(t.as_slice()) {
            controls.push(TimedEvent { start: cursor, duration: 0, token: Token::Clef(copy_chars(t.as_slice())) });
            clef = copy_chars(t.as_slice());
            assert(events_view(controls@) =~= events_view(prev_controls).push(
                EventView { start: cursor as int, duration: 0, token: TokenView::Clef(t@) },
            ));
        } else if is_time_token(t.as_slice()) {
            controls.push(TimedEvent { start: cursor, duration: 0, token: Token::Time(copy_chars(t.as_slice())) });
            assert(events_view(controls@) =~= events_view(prev_controls).push(
                EventView { start: cursor as int, duration: 0, token: TokenView::Time(t@) },
            ));
        } else {
            let ev = match parse_voice_event(t.as_slice(), clef.as_slice()) {
                Ok(ev) => ev,
                Err(e) => {
                    return Err(e);
                },
            };
            match ev {
                VoiceEvent::Skip(d) => {
                    cursor = sat_add(cursor, d);
                },
                VoiceEvent::Rest(d, _text, _dots) => {
                    events.push(TimedEvent { start: cursor, duration: d, token: Token::Rest });
                    assert(events_view(events@) =~= events_view(prev_events).push(
                        EventView { start: cursor as int, duration: d as int, token: TokenView::Rest },
                    ));
                    cursor = sat_add(cursor, d);
                },
                VoiceEvent::Note { duration, note } => {
                    let ghost nv = note@;
                    events.push(TimedEvent { start: cursor, duration, token: Token::Note(note) });
                    assert(events_view(events@) =~= events_view(prev_events).push(
                        EventView { start: cursor as int, duration: duration as int, token: TokenView::Note(nv) },
                    ));
                    cursor = sat_add(cursor, duration);
                },
            }
        }
        i += 1;
    }
    Ok((events, cursor))
}

/// The view of a measure of one staff read from Scorify.
pub struct MeasureView {
    pub voice_one: Seq<EventView>,
    pub voice_two: Seq<EventView>,
    pub controls: Seq<EventView>,
    pub barline_before: Option<Seq<char>>,
    pub barline_after: Seq<char>,
    pub length: int,
}

/// A measure of one staff read from Scorify: up to two voices, the clef and
/// time changes in it, its barlines and its length in ticks.
pub struct ParsedStaffMeasure {
    pub voice_one: Vec<TimedEvent>,
    pub voice_two: Vec<TimedEvent>,
    pub controls: Vec<TimedEvent>,
    pub barline_before: Option<Vec<char>>,
    pub barline_after: Vec<char>,
    pub length: i64,
}

impl View for ParsedStaffMeasure {
    type V = MeasureView;

    open spec fn view(&self) -> MeasureView {
        MeasureView {
            voice_one: events_view(self.voice_one@),
            voice_two: events_view(self.voice_two@),
            controls: events_view(self.controls@),
            barline_before: crate::model::opt_view(self.barline_before),
            barline_after: self.barline_after@,
            length: self.length as int,
        }
    }
}

pub open spec fn max0(a: int, b: int) -> int {
    if a >= b {
        a
    } else {
        b
    }
}

/// A measure from its tokens: a single `v{upper;lower}` token holds two
/// voices, anything else is one voice.
pub open spec fn spec_parse_measure_tokens(
    ts: Seq<Seq<char>>,
    before: Option<Seq<char>>,
    after: Seq<char>,
    clef: Seq<char>,
) -> Option<MeasureView> {
    if ts.len() == 1 && starts_with(ts[0], "v{"@) {
        match spec_split_voice(ts[0]) {
            Some((upper, lower)) => match spec_split_tokens(upper) {
                Some(ut) => match spec_parse_voice_tokens(ut, clef, seq![]) {
                    Some(u) => match spec_split_tokens(lower) {
                        Some(lt) => match spec_parse_voice_tokens(lt, clef, u.controls) {
                            Some(l) => Some(
                                MeasureView {
                                    voice_one: u.events,
                                    voice_two: l.events,
                                    controls: l.controls,
                                    barline_before: before,
                                    barline_after: after,
                                    length: max0(max0(0, u.cursor), l.cursor),
                                },
                            ),
                            None => None,
                        },
                        None => None,
                    },
                    None => None,
                },
                None => None,
            },
            None => None,
        }
    } else {
        match spec_parse_voice_tokens(ts, clef, seq![]) {
            Some(v) => Some(
                MeasureView {
                    voice_one: v.events,
                    voice_two: seq![],
                    controls: v.controls,
                    barline_before: before,
                    barline_after: after,
                    length: v.cursor,
                },
            ),
            None => None,
        }
    }
}

/// The message of a measure whose tokens do not read.
pub open spec fn measure_message(ts: Seq<Seq<char>>, clef: Seq<char>) -> Seq<char> {
    if ts.len() == 1 && starts_with(ts[0], "v{"@) {
        match spec_split_voice(ts[0]) {
            Some((upper, lower)) => match spec_split_tokens(upper) {
                Some(ut) => match spec_parse_voice_tokens(ut, clef, seq![]) {
                    Some(_) => match spec_split_tokens(lower) {
                        Some(lt) => voice_message_from(lt, 0, clef),
                        None => "unterminated grouping in music string"@,
                    },
                    None => voice_message_from(ut, 0, clef),
                },
                None => "unterminated grouping in music string"@,
            },
            None => crate::scorify_tokens::split_voice_message(ts[0]),
        }
    } else {
        voice_message_from(ts, 0, clef)
    }
}

/// Reads the tokens of one measure of a staff.
pub fn parse_measure_tokens(
    tokens: &[Vec<char>],
    barline_before: Option<Vec<char>>,
    barline_after: Vec<char>,
    default_clef: &[char],
) -> (r: Result<ParsedStaffMeasure, ConvertError>)
    ensures
        match r {
            Ok(m) => spec_parse_measure_tokens(views(tokens@), crate::model::opt_view(barline_before), barline_after@, default_clef@)
                == Some(m@),
            Err(e) => spec_parse_measure_tokens(views(tokens@), crate::model::opt_view(barline_before), barline_after@, default_clef@) is None
                && (e matches ConvertError::InvalidScorify(m) && m@ == measure_message(views(tokens@), default_clef@)),
        },
{
    let mut controls: Vec<TimedEvent> = Vec::new();
    assert(events_view(controls@) =~= Seq::<EventView>::empty());
    if tokens.len() == 1 && starts_with_str(tokens[0].as_slice(), "v{") {
        assert(views(tokens@)[0] == tokens@[0]@);
        let (upper, lower) = split_voice_token(tokens[0].as_slice())?;
        let ut = split_top_level_tokens(upper.as_slice())?;
        let (up, ulen) = parse_voice_tokens(ut.as_slice(), default_clef, &mut controls)?;
        let lt = split_top_level_tokens(lower.as_slice())?;
        let (low, llen) = parse_voice_tokens(lt.as_slice(), default_clef, &mut controls)?;
        let mut length: i64 = 0;
        if ulen > length {
            length = ulen;
        }
        if llen > length {
            length = llen;
        }
        Ok(ParsedStaffMeasure { voice_one: up, voice_two: low, controls, barline_before, barline_after, length })
    } else {
        let (events, length) = parse_voice_tokens(tokens, default_clef, &mut controls)?;
        let m = ParsedStaffMeasure {
            voice_one: events,
            voice_two: Vec::new(),
            controls,
            barline_before,
            barline_after,
            length,
        };
        assert(m@.voice_two =~= Seq::<EventView>::empty());
        Ok(m)
    }
}

/// The empty measure that stands for an empty staff.
pub open spec fn empty_measure() -> MeasureView {
    MeasureView {
        voice_one: seq![],
        voice_two: seq![],
        controls: seq![],
        barline_before: None,
        barline_after: "|"@,
        length: 0,
    }
}

/// Groups the tokens of a staff from `i` on into measures at barlines.
pub open spec fn staff_from(
    ts: Seq<Seq<char>>,
    i: int,
    current: Seq<Seq<char>>,
    pending: Option<Seq<char>>,
    measures: Seq<MeasureView>,
    clef: Seq<char>,
) -> Option<Seq<MeasureView>>
    decreases ts.len() - i,
{
    if i < 0 || i >= ts.len() {
        if current.len() > 0 || pending is Some {
            match spec_parse_measure_tokens(current, pending, "|"@, clef) {
                Some(m) => Some(measures.push(m)),
                None => None,
            }
        } else if measures.len() == 0 {
            Some(seq![empty_measure()])
        } else {
            Some(measures)
        }
    } else if spec_is_barline(ts[i]) {
        if current.len() == 0 {
            staff_from(ts, i + 1, current, Some(ts[i]), measures, clef)
        } else {
            match spec_parse_measure_tokens(current, pending, ts[i], clef) {
                Some(m) => staff_from(ts, i + 1, seq![], None, measures.push(m), clef),
                None => None,
            }
        }
    } else {
        staff_from(ts, i + 1, current.push(ts[i]), pending, measures, clef)
    }
}

/// The message of the first measure of a staff, from token `i` on, that
/// does not read.
pub open spec fn staff_message_from(
    ts: Seq<Seq<char>>,
    i: int,
    current: Seq<Seq<char>>,
    pending: Option<Seq<char>>,
    clef: Seq<char>,
) -> Seq<char>
    decreases ts.len() - i,
{
    if i < 0 || i >= ts.len() {
        measure_message(current, clef)
    } else if spec_is_barline(ts[i]) {
        if current.len() == 0 {
            staff_message_from(ts, i + 1, current, Some(ts[i]), clef)
        } else if spec_parse_measure_tokens(current, pending, ts[i], clef) is None {
            measure_message(current, clef)
        } else {
            staff_message_from(ts, i + 1, seq![], None, clef)
        }
    } else {
        staff_message_from(ts, i + 1, current.push(ts[i]), pending, clef)
    }
}

/// The message of a staff's music string that does not read.
pub open spec fn staff_message(music: Seq<char>, clef: Seq<char>) -> Seq<char> {
    match spec_split_tokens(music) {
        Some(ts) => staff_message_from(ts, 0, seq![], None, clef),
        None => "unterminated grouping in music string"@,
    }
}

/// The measures of a staff's music string.
pub open spec fn spec_parse_staff_music(music: Seq<char>, clef: Seq<char>) -> Option<Seq<MeasureView>> {
    match spec_split_tokens(music) {
        Some(ts) => staff_from(ts, 0, seq![], None, seq![], clef),
        None => None,
    }
}

pub open spec fn measures_view(v: Seq<ParsedStaffMeasure>) -> Seq<MeasureView> {
    v.map_values(|m: ParsedStaffMeasure| m@)
}

/// Reads a staff's music string into measures.
pub fn parse_staff_music(music: &[char], default_clef: &[char]) -> (r: Result<Vec<ParsedStaffMeasure>, ConvertError>)
    ensures
        match r {
            Ok(ms) => spec_parse_staff_music(music@, default_clef@) == Some(measures_view(ms@)),
            Err(e) => spec_parse_staff_music(music@, default_clef@) is None && (e matches ConvertError::InvalidScorify(m) && m@
                == staff_message(music@, default_clef@)),
        },
{
    let tokens = split_top_level_tokens(music)?;
    let ghost ts = views(tokens@);
    let mut current: Vec<Vec<char>> = Vec::new();
    let mut pending: Option<Vec<char>> = None;
    let mut measures: Vec<ParsedStaffMeasure> = Vec::new();
    let mut i: usize = 0;
    assert(views(current@) =~= Seq::<Seq<char>>::empty());
    assert(measures_view(measures@) =~= Seq::<MeasureView>::empty());
    while i < tokens.len()
        invariant
            i <= tokens.len(),
            ts == views(tokens@),
            spec_parse_staff_music(music@, default_clef@) == staff_from(
                ts,
                i as int,
                views(current@),
                crate::model::opt_view(pending),
                measures_view(measures@),
                default_clef@,
            ),
            staff_message(music@, default_clef@) == staff_message_from(
                ts,
                i as int,
                views(current@),
                crate::model::opt_view(pending),
                default_clef@,
            ),
        decreases tokens.len() - i,
    {
        let t = copy_chars(tokens[i].as_slice());
        assert(ts[i as int] == t@);
        if is_barline_token(t.as_slice()) {
            if current.len() == 0 {
                pending = Some(t);
            } else {
                let before = pending;
                pending = None;
                let m = parse_measure_tokens(current.as_slice(), before, t, default_clef)?;
                let ghost prev = measures@;
                let ghost mv = m@;
                measures.push(m);
                assert(measures_view(measures@) =~= measures_view(prev).push(mv));
                current = Vec::new();
                assert(views(current@) =~= Seq::<Seq<char>>::empty());
            }
        } else {
            let ghost prev = current@;
            let ghost tv = t@;
            current.push(t);
            assert(views(current@) =~= views(prev).push(tv));
        }
        i += 1;
    }
    if current.len() > 0 || pending.is_some() {
        let m = parse_measure_tokens(current.as_slice(), pending, str_to_chars("|"), default_clef)?;
        let ghost prev = measures@;
        let ghost mv = m@;
        measures.push(m);
        assert(measures_view(measures@) =~= measures_view(prev).push(mv));
    } else if measures.len() == 0 {
        measures.push(
            ParsedStaffMeasure {
                voice_one: Vec::new(),
                voice_two: Vec::new(),
                controls: Vec::new(),
                barline_before: None,
                barline_after: str_to_chars("|"),
                length: 0,
            },
        );
        let ghost m0 = measures_view(measures@)[0];
        assert(m0.voice_one =~= Seq::<EventView>::empty());
        assert(m0.voice_two =~= Seq::<EventView>::empty());
        assert(m0.controls =~= Seq::<EventView>::empty());
        assert(m0 == empty_measure());
        assert(measures_view(measures@) =~= seq![empty_measure()]);
    }
    Ok(measures)
}

} // verus!
