//! Writing what was read from MusicXML as Scorify music text.
use vstd::prelude::*;

use crate::durations::{lemma_two_pow_mono, two_pow};
use crate::model::{
    opt_view, sat, sat_add, sat_sub, Articulation, EventView, LyricToken, LyricView, NoteToken,
    NoteView, PitchToken, PitchView, TimedEvent, Token, TokenView,
};
use crate::model::{events_view, lemma_sort_len, pick, sort_by_start, sorted_order};
use crate::musicxml_measure::{voices_view, AccView, MeasureAcc, VoiceEvents};
use crate::musicxml_read::lyrics_view;
use crate::scorify_tokens::{clef_base_octave, spec_clef_base_octave};
use crate::text::{
    parse_u32, parse_u32_chars, trim, trim_chars, char_to_lower, chars_eq_str, decimal, push_chars,
    push_decimal, push_repeat, push_str, str_to_chars, to_lower, views,
};

verus! {

// ---------------------------------------------------------------------------
// Durations as text
// ---------------------------------------------------------------------------

/// `n` dots.
pub open spec fn dots_text(n: nat) -> Seq<char> {
    Seq::new(n, |_i: int| '.')
}

/// Whether `ticks` are a `1/denom` note with `dots` dots when a quarter has
/// `div` ticks: `4 * div * (2^(dots+1) - 1) == ticks * denom * 2^dots`.
pub open spec fn dotted_match(ticks: int, div: int, denom: int, dots: nat) -> bool {
    4 * div * (two_pow(dots + 1) - 1) == ticks * denom * two_pow(dots)
}

/// The first denominator `2^di` (up to 128), then number of dots (up to 3),
/// from the given ones on, that matches `ticks`.
pub open spec fn text_search(ticks: int, div: int, di: nat, dots: nat) -> Option<Seq<char>>
    decreases 8 - di, 4 - dots,
{
    if di >= 8 {
        None
    } else if dots >= 4 {
        text_search(ticks, div, di + 1, 0)
    } else if dotted_match(ticks, div, two_pow(di) as int, dots) {
        Some(decimal(two_pow(di)) + dots_text(dots))
    } else {
        text_search(ticks, div, di, dots + 1)
    }
}

/// The Scorify duration of `ticks` when a quarter has `div` ticks: a
/// denominator from 1 to 128 with up to three dots, where one fits exactly.
pub open spec fn spec_duration_to_text(ticks: int, div: int) -> Option<Seq<char>> {
    if ticks <= 0 || div <= 0 {
        None
    } else {
        text_search(ticks, div, 0, 0)
    }
}

pub fn duration_to_text(ticks: i64, divisions: i64) -> (r: Option<Vec<char>>)
    ensures
        opt_view(r) == spec_duration_to_text(ticks as int, divisions as int),
{
    if ticks <= 0 || divisions <= 0 {
        return None;
    }
    let whole: i128 = 4 * (divisions as i128);
    let t: i128 = ticks as i128;
    let mut di: usize = 0;
    let mut denom: i128 = 1;
    while di < 8
        invariant
            di <= 8,
            0 < ticks,
            0 < divisions,
            whole == 4 * divisions,
            t == ticks,
            denom == two_pow(di as nat),
            1 <= denom <= 256,
            spec_duration_to_text(ticks as int, divisions as int) == text_search(
                ticks as int,
                divisions as int,
                di as nat,
                0,
            ),
        decreases 8 - di,
    {
        proof {
            lemma_two_pow_mono(di as nat, 7);
            reveal_with_fuel(two_pow, 8);
        }
        assert(denom <= 128);
        let mut dots: usize = 0;
        let mut mden: i128 = 1;
        let mut mnum: i128 = 1;
        while dots < 4
            invariant
                di < 8,
                dots <= 4,
                0 < ticks,
                0 < divisions,
                whole == 4 * divisions,
                t == ticks,
                denom == two_pow(di as nat),
                1 <= denom <= 128,
                mden == two_pow(dots as nat),
                mnum == two_pow((dots + 1) as nat) - 1,
                1 <= mden <= 16,
                1 <= mnum <= 31,
                spec_duration_to_text(ticks as int, divisions as int) == text_search(
                    ticks as int,
                    divisions as int,
                    di as nat,
                    dots as nat,
                ),
            decreases 4 - dots,
        {
            assert(0 < whole * mnum <= 4 * 0x7fff_ffff_ffff_ffffi128 * 31) by (nonlinear_arith)
                requires
                    whole == 4 * divisions,
                    0 < divisions <= 0x7fff_ffff_ffff_ffffi128,
                    1 <= mnum <= 31,
            ;
            proof {
                lemma_two_pow_mono(dots as nat, 3);
                lemma_two_pow_mono((dots + 1) as nat, 4);
                reveal_with_fuel(two_pow, 5);
            }
            assert(mden <= 8 && mnum <= 15);
            assert(0 < t * denom <= 0x7fff_ffff_ffff_ffffi128 * 128) by (nonlinear_arith)
                requires
                    0 < t <= 0x7fff_ffff_ffff_ffffi128,
                    1 <= denom <= 128,
            ;
            assert(0 < t * denom * mden <= 0x7fff_ffff_ffff_ffffi128 * 128 * 8) by (nonlinear_arith)
                requires
                    0 < t * denom <= 0x7fff_ffff_ffff_ffffi128 * 128,
                    1 <= mden <= 8,
            ;
            if whole * mnum == t * denom * mden {
                let mut text: Vec<char> = Vec::new();
                push_decimal(&mut text, denom as u64);
                push_repeat(&mut text, '.', dots);
                return Some(text);
            }
            proof {
                assert(two_pow((dots + 1) as nat) == 2 * two_pow(dots as nat));
                assert(two_pow((dots + 2) as nat) == 2 * two_pow((dots + 1) as nat));
            }
            dots += 1;
            mden = mden * 2;
            mnum = mnum * 2 + 1;
        }
        proof {
            assert(two_pow((di + 1) as nat) == 2 * two_pow(di as nat));
        }
        di += 1;
        denom = denom * 2;
    }
    None
}

/// The ticks of a `1/2^di` note when a quarter has `div` ticks, where that is
/// a whole number (zero otherwise).
pub open spec fn unit_at(div: int, di: nat) -> int {
    let whole = 4 * div;
    if whole % (two_pow(di) as int) == 0 {
        whole / (two_pow(di) as int)
    } else {
        0
    }
}

/// The first denominator exponent from `di` on (below 8) whose note fits in `ticks`.
pub open spec fn first_unit(div: int, ticks: int, di: nat) -> Option<nat>
    decreases 8 - di,
{
    if di >= 8 {
        None
    } else if unit_at(div, di) > 0 && unit_at(div, di) <= ticks {
        Some(di)
    } else {
        first_unit(div, ticks, di + 1)
    }
}

pub proof fn lemma_first_unit(div: int, ticks: int, di: nat)
    ensures
        first_unit(div, ticks, di) matches Some(k) ==> k < 8 && 0 < unit_at(div, k) <= ticks,
    decreases 8 - di,
{
    if di < 8 && !(unit_at(div, di) > 0 && unit_at(div, di) <= ticks) {
        lemma_first_unit(div, ticks, di + 1);
    }
}

/// Scorify tokens that fill `ticks`: one duration where one fits, else the
/// longest plain note that fits and then the rest; a quarter where nothing fits.
pub open spec fn tokens_from(prefix: Seq<char>, ticks: int, div: int) -> Seq<Seq<char>>
    decreases ticks,
{
    if ticks <= 0 {
        seq![]
    } else {
        match spec_duration_to_text(ticks, div) {
            Some(t) => seq![prefix + t],
            None => match first_unit(div, ticks, 0) {
                Some(k) => {
                    proof {
                        lemma_first_unit(div, ticks, 0);
                    }
                    seq![prefix + decimal(two_pow(k))] + tokens_from(prefix, ticks - unit_at(div, k), div)
                },
                None => seq![prefix + "4"@],
            },
        }
    }
}

pub open spec fn spec_duration_to_tokens(prefix: Seq<char>, ticks: int, div: int) -> Seq<Seq<char>> {
    tokens_from(prefix, ticks, div)
}

fn prefixed(prefix: &str, text: &Vec<char>) -> (r: Vec<char>)
    ensures
        r@ == prefix@ + text@,
{
    let mut out = str_to_chars(prefix);
    push_chars(&mut out, text.as_slice());
    out
}

proof fn lemma_no_unit(div: int, ticks: int, di: nat)
    requires
        div <= 0,
    ensures
        first_unit(div, ticks, di) is None,
    decreases 8 - di,
{
    if di < 8 {
        let d = two_pow(di) as int;
        lemma_two_pow_mono(0, di);
        assert(4 * div / d <= 0) by (nonlinear_arith)
            requires
                d >= 1,
                div <= 0,
        ;
        lemma_no_unit(div, ticks, di + 1);
    }
}

/// The first whole note division, from `1/2^di` on, that fits in `ticks`.
fn find_unit(divisions: i64, ticks: i64) -> (r: Option<(usize, i64, u64)>)
    ensures
        match r {
            Some((k, u, denom)) => first_unit(divisions as int, ticks as int, 0) == Some(k as nat) && u == unit_at(
                divisions as int,
                k as nat,
            ) && k < 8 && denom == two_pow(k as nat),
            None => first_unit(divisions as int, ticks as int, 0) is None,
        },
{
    if divisions <= 0 {
        proof {
            lemma_no_unit(divisions as int, ticks as int, 0);
        }
        return None;
    }
    let whole: i128 = 4 * (divisions as i128);
    let mut di: usize = 0;
    let mut denom: i128 = 1;
    while di < 8
        invariant
            di <= 8,
            divisions > 0,
            whole == 4 * divisions,
            denom == two_pow(di as nat),
            1 <= denom <= 256,
            first_unit(divisions as int, ticks as int, 0) == first_unit(divisions as int, ticks as int, di as nat),
        decreases 8 - di,
    {
        proof {
            lemma_two_pow_mono(di as nat, 7);
            reveal_with_fuel(two_pow, 8);
        }
        assert(denom <= 128);
        if whole % denom == 0 {
            let unit = whole / denom;
            assert(unit <= whole) by (nonlinear_arith)
                requires
                    unit == whole / denom,
                    whole > 0,
                    denom >= 1,
            ;
            if unit > 0 && unit <= ticks as i128 {
                return Some((di, unit as i64, denom as u64));
            }
        }
        proof {
            assert(two_pow((di + 1) as nat) == 2 * two_pow(di as nat));
        }
        di += 1;
        denom = denom * 2;
    }
    None
}

/// Scorify tokens, each `prefix` and a duration, that together fill `ticks`.
pub fn duration_to_tokens(prefix: &str, ticks: i64, divisions: i64) -> (r: Vec<Vec<char>>)
    ensures
        crate::text::views(r@) == spec_duration_to_tokens(prefix@, ticks as int, divisions as int),
{
    let mut out: Vec<Vec<char>> = Vec::new();
    let mut left = ticks;
    while left > 0
        invariant_except_break
            tokens_from(prefix@, ticks as int, divisions as int) == crate::text::views(out@) + tokens_from(
                prefix@,
                left as int,
                divisions as int,
            ),
        ensures
            tokens_from(prefix@, ticks as int, divisions as int) == crate::text::views(out@),
        decreases left,
    {
        if let Some(d) = duration_to_text(left, divisions) {
            out.push(prefixed(prefix, &d));
            assert(crate::text::views(out@) =~= tokens_from(prefix@, ticks as int, divisions as int));
            break;
        }
        match find_unit(divisions, left) {
            Some((k, unit, denom)) => {
                proof {
                    lemma_first_unit(divisions as int, left as int, 0);
                }
                let mut name: Vec<char> = Vec::new();
                push_decimal(&mut name, denom);
                let ghost before = crate::text::views(out@);
                out.push(prefixed(prefix, &name));
                assert(crate::text::views(out@) =~= before + seq![prefix@ + decimal(two_pow(k as nat))]);
                left = left - unit;
            },
            None => {
                let four = str_to_chars("4");
                out.push(prefixed(prefix, &four));
                assert(crate::text::views(out@) =~= tokens_from(prefix@, ticks as int, divisions as int));
                break;
            },
        }
    }
    out
}

// ---------------------------------------------------------------------------
// Joining and escaping
// ---------------------------------------------------------------------------

/// The parts joined with `sep` between them.
pub open spec fn join(parts: Seq<Seq<char>>, sep: Seq<char>) -> Seq<char>
    decreases parts.len(),
{
    if parts.len() == 0 {
        seq![]
    } else if parts.len() == 1 {
        parts[0]
    } else {
        join(parts.drop_last(), sep) + sep + parts.last()
    }
}

pub fn join_chars(parts: &Vec<Vec<char>>, sep: &str) -> (r: Vec<char>)
    ensures
        r@ == join(views(parts@), sep@),
{
    let ghost pv = views(parts@);
    let mut out: Vec<char> = Vec::new();
    let mut i: usize = 0;
    assert(pv.take(0) =~= Seq::<Seq<char>>::empty());
    while i < parts.len()
        invariant
            i <= parts@.len(),
            pv == views(parts@),
            out@ == join(pv.take(i as int), sep@),
        decreases parts@.len() - i,
    {
        assert(pv.take(i + 1).drop_last() == pv.take(i as int));
        if i > 0 {
            push_str(&mut out, sep);
        }
        push_chars(&mut out, parts[i].as_slice());
        i += 1;
        proof {
            if i == 1 {
                assert(pv.take(1) =~= seq![pv[0]]);
            }
        }
        assert(out@ =~= join(pv.take(i as int), sep@));
    }
    assert(pv.take(parts@.len() as int) == pv);
    out
}

/// A text with `]` escaped, for inside Scorify's `[...]`.
pub open spec fn escape_inline(s: Seq<char>) -> Seq<char>
    decreases s.len(),
{
    if s.len() == 0 {
        seq![]
    } else {
        escape_inline(s.drop_last()) + if s.last() == ']' {
            seq!['\\', ']']
        } else {
            seq![s.last()]
        }
    }
}

pub fn push_escaped_inline(out: &mut Vec<char>, value: &[char])
    ensures
        final(out)@ == old(out)@ + escape_inline(value@),
{
    let ghost start = out@;
    let mut i: usize = 0;
    assert(value@.take(0) =~= Seq::<char>::empty());
    while i < value.len()
        invariant
            i <= value@.len(),
            out@ == start + escape_inline(value@.take(i as int)),
        decreases value@.len() - i,
    {
        assert(value@.take(i + 1).drop_last() == value@.take(i as int));
        if value[i] == ']' {
            out.push('\\');
            out.push(']');
        } else {
            out.push(value[i]);
        }
        i += 1;
        assert(out@ =~= start + escape_inline(value@.take(i as int)));
    }
    assert(value@.take(value@.len() as int) == value@);
}

/// A text escaped for a Typst string literal: backslash, double quote and newline.
pub open spec fn escape_typst_string(s: Seq<char>) -> Seq<char>
    decreases s.len(),
{
    if s.len() == 0 {
        seq![]
    } else {
        escape_typst_string(s.drop_last()) + if s.last() == '\\' {
            seq!['\\', '\\']
        } else if s.last() == '"' {
            seq!['\\', '"']
        } else if s.last() == '\n' {
            seq!['\\', 'n']
        } else {
            seq![s.last()]
        }
    }
}

pub fn push_escaped_typst(out: &mut Vec<char>, value: &[char])
    ensures
        final(out)@ == old(out)@ + escape_typst_string(value@),
{
    let ghost start = out@;
    let mut i: usize = 0;
    assert(value@.take(0) =~= Seq::<char>::empty());
    while i < value.len()
        invariant
            i <= value@.len(),
            out@ == start + escape_typst_string(value@.take(i as int)),
        decreases value@.len() - i,
    {
        assert(value@.take(i + 1).drop_last() == value@.take(i as int));
        let c = value[i];
        if c == '\\' {
            out.push('\\');
            out.push('\\');
        } else if c == '"' {
            out.push('\\');
            out.push('"');
        } else if c == '\n' {
            out.push('\\');
            out.push('n');
        } else {
            out.push(c);
        }
        i += 1;
        assert(out@ =~= start + escape_typst_string(value@.take(i as int)));
    }
    assert(value@.take(value@.len() as int) == value@);
}

// ---------------------------------------------------------------------------
// Pitches, lyrics and notes
// ---------------------------------------------------------------------------

/// A text in ASCII lower case.
pub open spec fn ascii_lower(s: Seq<char>) -> Seq<char> {
    s.map_values(|c: char| to_lower(c))
}

/// The Scorify accidental of a note: from its written accidental where that
/// names one, else from its alteration.
pub open spec fn spec_accidental_to_scorify(alter: int, accidental: Option<Seq<char>>) -> Seq<char> {
    let a = ascii_lower(
        match accidental {
            Some(x) => x,
            None => seq![],
        },
    );
    if a == "sharp"@ {
        "#"@
    } else if a == "double-sharp"@ || a == "sharp-sharp"@ {
        "##"@
    } else if a == "flat"@ {
        "&"@
    } else if a == "flat-flat"@ || a == "double-flat"@ {
        "&&"@
    } else if a == "natural"@ {
        "="@
    } else if alter == 2 {
        "##"@
    } else if alter == 1 {
        "#"@
    } else if alter == -1 {
        "&"@
    } else if alter == -2 {
        "&&"@
    } else {
        ""@
    }
}

fn lower_chars(s: &[char]) -> (r: Vec<char>)
    ensures
        r@ == ascii_lower(s@),
{
    let mut out: Vec<char> = Vec::new();
    let mut i: usize = 0;
    while i < s.len()
        invariant
            i <= s@.len(),
            out@ == ascii_lower(s@.take(i as int)),
        decreases s@.len() - i,
    {
        out.push(char_to_lower(s[i]));
        i += 1;
        assert(out@ =~= ascii_lower(s@.take(i as int)));
    }
    assert(s@.take(s@.len() as int) == s@);
    out
}

pub fn accidental_to_scorify(alter: i64, accidental: &Option<Vec<char>>) -> (r: &'static str)
    ensures
        r@ == spec_accidental_to_scorify(alter as int, opt_view(*accidental)),
{
    proof {
        reveal_strlit("");
    }
    let a = match accidental {
        Some(x) => lower_chars(x.as_slice()),
        None => Vec::new(),
    };
    assert(a@ == ascii_lower(
        match opt_view(*accidental) {
            Some(x) => x,
            None => seq![],
        },
    ));
    if chars_eq_str(a.as_slice(), "sharp") {
        "#"
    } else if chars_eq_str(a.as_slice(), "double-sharp") || chars_eq_str(a.as_slice(), "sharp-sharp") {
        "##"
    } else if chars_eq_str(a.as_slice(), "flat") {
        "&"
    } else if chars_eq_str(a.as_slice(), "flat-flat") || chars_eq_str(a.as_slice(), "double-flat") {
        "&&"
    } else if chars_eq_str(a.as_slice(), "natural") {
        "="
    } else if alter == 2 {
        "##"
    } else if alter == 1 {
        "#"
    } else if alter == -1 {
        "&"
    } else if alter == -2 {
        "&&"
    } else {
        ""
    }
}

/// The octave marks of a pitch relative to the clef's base octave.
pub open spec fn octave_marks(delta: int) -> Seq<char> {
    if delta > 0 {
        Seq::new(delta as nat, |_i: int| '\'')
    } else if delta < 0 {
        Seq::new((-delta) as nat, |_i: int| ',')
    } else {
        seq![]
    }
}

/// A pitch as Scorify writes it in a clef: step, accidental, octave marks.
pub open spec fn spec_pitch_to_string(p: PitchView, clef: Seq<char>) -> Seq<char> {
    seq![p.step] + spec_accidental_to_scorify(p.alter, p.accidental_text) + octave_marks(
        p.octave - spec_clef_base_octave(clef),
    )
}

fn push_marks(out: &mut Vec<char>, c: char, count: i128)
    requires
        count >= 0,
    ensures
        final(out)@ == old(out)@ + Seq::new(count as nat, |_i: int| c),
{
    let ghost start = out@;
    let mut k: i128 = 0;
    while k < count
        invariant
            0 <= k <= count,
            out@ == start + Seq::new(k as nat, |_i: int| c),
        decreases count - k,
    {
        out.push(c);
        k += 1;
        assert(out@ =~= start + Seq::new(k as nat, |_i: int| c));
    }
}

pub fn push_pitch(out: &mut Vec<char>, pitch: &PitchToken, clef: &[char])
    ensures
        final(out)@ == old(out)@ + spec_pitch_to_string(pitch@, clef@),
{
    let ghost start = out@;
    out.push(pitch.step);
    push_str(out, accidental_to_scorify(pitch.alter, &pitch.accidental_text));
    let delta: i128 = (pitch.octave as i128) - (clef_base_octave(clef) as i128);
    if delta > 0 {
        push_marks(out, '\'', delta);
    } else if delta < 0 {
        push_marks(out, ',', -delta);
    }
    assert(out@ =~= start + spec_pitch_to_string(pitch@, clef@));
}

/// The Scorify lyric tokens of a note from lyric `k` on, with empty `l`
/// tokens for the verses a numbered lyric skips; `next` is the next verse.
pub open spec fn lyric_tokens_from(ls: Seq<LyricView>, k: int, next: int) -> Seq<Seq<char>>
    decreases ls.len() - k,
{
    if k < 0 || k >= ls.len() {
        seq![]
    } else {
        let l = ls[k];
        let fills = match l.verse {
            Some(v) => if next < v {
                Seq::new((v - next) as nat, |_i: int| "l"@)
            } else {
                seq![]
            },
            None => seq![],
        };
        let next2 = match l.verse {
            Some(v) => if v == u32::MAX {
                u32::MAX as int
            } else {
                v + 1
            },
            None => next,
        };
        fills + seq!["l["@ + escape_inline(l.text) + "]"@] + lyric_tokens_from(ls, k + 1, next2)
    }
}

pub open spec fn spec_lyric_tokens_to_scorify(ls: Seq<LyricView>) -> Seq<Seq<char>> {
    lyric_tokens_from(ls, 0, 1)
}

pub fn lyric_tokens_to_scorify(lyrics: &Vec<LyricToken>) -> (r: Vec<Vec<char>>)
    ensures
        views(r@) == spec_lyric_tokens_to_scorify(lyrics_view(lyrics@)),
{
    let ghost ls = lyrics_view(lyrics@);
    let mut out: Vec<Vec<char>> = Vec::new();
    let mut next: u32 = 1;
    let mut k: usize = 0;
    while k < lyrics.len()
        invariant
            k <= lyrics@.len(),
            ls == lyrics_view(lyrics@),
            lyric_tokens_from(ls, 0, 1) == views(out@) + lyric_tokens_from(ls, k as int, next as int),
        decreases lyrics@.len() - k,
    {
        let l = &lyrics[k];
        let ghost before = views(out@);
        let ghost n0 = next as int;
        if let Some(verse) = l.verse {
            if next < verse {
                assert(forall|i: int| 0 <= i < before.len() ==> (#[trigger] out@[i])@ == before[i]);
                while next < verse
                    invariant
                        n0 <= next <= verse,
                        out@.len() == before.len() + (next - n0),
                        forall|i: int| 0 <= i < before.len() ==> (#[trigger] out@[i])@ == before[i],
                        forall|i: int| before.len() <= i < out@.len() ==> (#[trigger] out@[i])@ == "l"@,
                    decreases verse - next,
                {
                    let ghost prev = out@;
                    out.push(str_to_chars("l"));
                    assert(forall|i: int| 0 <= i < prev.len() ==> out@[i] == prev[i]);
                    assert(out@[prev.len() as int]@ == "l"@);
                    next += 1;
                }
            }
            assert(views(out@) =~= before + match ls[k as int].verse {
                Some(v) => if n0 < v {
                    Seq::new((v - n0) as nat, |_i: int| "l"@)
                } else {
                    seq![]
                },
                None => seq![],
            });
            next = if verse == u32::MAX {
                u32::MAX
            } else {
                verse + 1
            };
        }
        let ghost mid = views(out@);
        let mut text = str_to_chars("l[");
        push_escaped_inline(&mut text, l.text.as_slice());
        push_str(&mut text, "]");
        out.push(text);
        proof {
            let fills = match ls[k as int].verse {
                Some(v) => if n0 < v {
                    Seq::new((v - n0) as nat, |_i: int| "l"@)
                } else {
                    seq![]
                },
                None => seq![],
            };
            assert(mid =~= before + fills);
            assert(views(out@) =~= before + fills + seq!["l["@ + escape_inline(ls[k as int].text) + "]"@]);
        }
        k += 1;
    }
    assert(views(out@) + lyric_tokens_from(ls, k as int, next as int) =~= views(out@));
    out
}

/// The Scorify mark of an articulation.
pub open spec fn articulation_text(a: Articulation) -> Seq<char> {
    match a {
        Articulation::Accent => ">"@,
        Articulation::Staccato => "*"@,
        Articulation::Tenuto => "-"@,
        Articulation::Fermata => "_"@,
    }
}

pub open spec fn articulations_text(s: Seq<Articulation>) -> Seq<char>
    decreases s.len(),
{
    if s.len() == 0 {
        seq![]
    } else {
        articulations_text(s.drop_last()) + articulation_text(s.last())
    }
}

fn push_articulations(out: &mut Vec<char>, arts: &Vec<Articulation>)
    ensures
        final(out)@ == old(out)@ + articulations_text(arts@),
{
    let ghost start = out@;
    let mut i: usize = 0;
    assert(arts@.take(0) =~= Seq::<Articulation>::empty());
    while i < arts.len()
        invariant
            i <= arts@.len(),
            out@ == start + articulations_text(arts@.take(i as int)),
        decreases arts@.len() - i,
    {
        assert(arts@.take(i + 1).drop_last() == arts@.take(i as int));
        let x: &str = match arts[i] {
            Articulation::Accent => ">",
            Articulation::Staccato => "*",
            Articulation::Tenuto => "-",
            Articulation::Fermata => "_",
        };
        push_str(out, x);
        i += 1;
        assert(out@ =~= start + articulations_text(arts@.take(i as int)));
    }
    assert(arts@.take(arts@.len() as int) == arts@);
}

/// A bracketed attachment: `open`, the text escaped, `]`; nothing without text.
pub open spec fn opt_wrap(open: Seq<char>, o: Option<Seq<char>>) -> Seq<char> {
    match o {
        Some(x) => open + escape_inline(x) + "]"@,
        None => seq![],
    }
}

fn push_opt_wrap(out: &mut Vec<char>, open: &str, o: &Option<Vec<char>>)
    ensures
        final(out)@ == old(out)@ + opt_wrap(open@, opt_view(*o)),
{
    let ghost start = out@;
    if let Some(x) = o {
        push_str(out, open);
        push_escaped_inline(out, x.as_slice());
        push_str(out, "]");
        assert(out@ =~= start + opt_wrap(open@, opt_view(*o)));
    } else {
        assert(out@ =~= start + opt_wrap(open@, opt_view(*o)));
    }
}

pub open spec fn pitches_text(ps: Seq<PitchView>, clef: Seq<char>) -> Seq<Seq<char>> {
    ps.map_values(|p: PitchView| spec_pitch_to_string(p, clef))
}

/// The pitch part of a note: one pitch, or a chord in angle brackets.
pub open spec fn note_pitch_text(n: NoteView) -> Seq<char> {
    if n.pitches.len() == 1 {
        spec_pitch_to_string(n.pitches[0], n.clef)
    } else {
        "<"@ + join(pitches_text(n.pitches, n.clef), " "@) + ">"@
    }
}

/// The duration part of a note: its written duration and dots, else the
/// duration its ticks make, else a quarter.
pub open spec fn note_duration_text(n: NoteView, duration: int, div: int) -> Seq<char> {
    match n.duration_text {
        Some(t) => t + dots_text(n.dots),
        None => match spec_duration_to_text(duration, div) {
            Some(x) => x,
            None => "4"@,
        },
    }
}

/// The marks after a note's duration: slur start, articulations, tie, slur end.
pub open spec fn note_marks_text(n: NoteView) -> Seq<char> {
    (if n.slur_start {
        "("@
    } else {
        seq![]
    }) + articulations_text(n.articulations) + (if n.tie_start {
        "~"@
    } else {
        seq![]
    }) + (if n.slur_stop {
        ")"@
    } else {
        seq![]
    })
}

/// What is attached to a note: dynamic, text, chord symbol and lyrics.
pub open spec fn note_attachments_text(n: NoteView) -> Seq<char> {
    opt_wrap("v["@, n.dynamic) + opt_wrap("text["@, n.staff_text) + opt_wrap("["@, n.chord_symbol) + join(
        spec_lyric_tokens_to_scorify(n.lyrics),
        seq![],
    )
}

/// A note as a Scorify token: pitch, duration, slur and articulation marks,
/// tie, dynamic, text, chord symbol and lyrics.
pub open spec fn spec_note_to_string(n: NoteView, duration: int, div: int) -> Seq<char> {
    note_pitch_text(n) + note_duration_text(n, duration, div) + note_marks_text(n) + note_attachments_text(n)
}

fn push_note_pitches(out: &mut Vec<char>, note: &NoteToken)
    ensures
        final(out)@ == old(out)@ + note_pitch_text(note@),
{
    let ghost start = out@;
    let ghost nv = note@;
    if note.pitches.len() == 1 {
        push_pitch(out, &note.pitches[0], note.clef.as_slice());
    } else {
        let mut parts: Vec<Vec<char>> = Vec::new();
        let mut i: usize = 0;
        while i < note.pitches.len()
            invariant
                i <= note.pitches@.len(),
                nv == note@,
                parts@.len() == i,
                forall|j: int| 0 <= j < i ==> (#[trigger] parts@[j])@ == pitches_text(nv.pitches, nv.clef)[j],
            decreases note.pitches@.len() - i,
        {
            let mut p: Vec<char> = Vec::new();
            push_pitch(&mut p, &note.pitches[i], note.clef.as_slice());
            assert(nv.pitches[i as int] == note.pitches@[i as int]@);
            assert(p@ == pitches_text(nv.pitches, nv.clef)[i as int]);
            parts.push(p);
            i += 1;
        }
        assert(views(parts@) =~= pitches_text(nv.pitches, nv.clef));
        push_str(out, "<");
        let joined = join_chars(&parts, " ");
        push_chars(out, joined.as_slice());
        push_str(out, ">");
    }
    assert(out@ =~= start + note_pitch_text(nv));
}

fn push_note_duration(out: &mut Vec<char>, note: &NoteToken, duration: i64, divisions: i64)
    ensures
        final(out)@ == old(out)@ + note_duration_text(note@, duration as int, divisions as int),
{
    let ghost start = out@;
    match &note.duration_text {
        Some(t) => {
            push_chars(out, t.as_slice());
            push_repeat(out, '.', note.dots);
        },
        None => match duration_to_text(duration, divisions) {
            Some(x) => push_chars(out, x.as_slice()),
            None => push_str(out, "4"),
        },
    }
    assert(out@ =~= start + note_duration_text(note@, duration as int, divisions as int));
}

fn push_note_marks(out: &mut Vec<char>, note: &NoteToken)
    ensures
        final(out)@ == old(out)@ + note_marks_text(note@),
{
    let ghost start = out@;
    if note.slur_start {
        push_str(out, "(");
    }
    push_articulations(out, &note.articulations);
    if note.tie_start {
        push_str(out, "~");
    }
    if note.slur_stop {
        push_str(out, ")");
    }
    assert(out@ =~= start + note_marks_text(note@));
}

fn push_note_attachments(out: &mut Vec<char>, note: &NoteToken)
    ensures
        final(out)@ == old(out)@ + note_attachments_text(note@),
{
    let ghost start = out@;
    let ghost nv = note@;
    push_opt_wrap(out, "v[", &note.dynamic);
    push_opt_wrap(out, "text[", &note.staff_text);
    push_opt_wrap(out, "[", &note.chord_symbol);
    let ghost e3 = opt_wrap("v["@, nv.dynamic) + opt_wrap("text["@, nv.staff_text) + opt_wrap("["@, nv.chord_symbol);
    assert(out@ =~= start + e3);
    let lyrics = lyric_tokens_to_scorify(&note.lyrics);
    let joined = join_chars(&lyrics, "");
    proof {
        reveal_strlit("");
        assert(""@ =~= Seq::<char>::empty());
    }
    assert(joined@ == join(spec_lyric_tokens_to_scorify(nv.lyrics), seq![]));
    push_chars(out, joined.as_slice());
    assert(out@ =~= start + note_attachments_text(nv));
}

/// Writes a note as a Scorify token.
pub fn push_note(out: &mut Vec<char>, note: &NoteToken, duration: i64, divisions: i64)
    ensures
        final(out)@ == old(out)@ + spec_note_to_string(note@, duration as int, divisions as int),
{
    let ghost start = out@;
    let ghost nv = note@;
    push_note_pitches(out, note);
    push_note_duration(out, note, duration, divisions);
    push_note_marks(out, note);
    push_note_attachments(out, note);
    assert(out@ =~= start + spec_note_to_string(nv, duration as int, divisions as int));
}

/// An event as Scorify text: a note, a rest filled out with rest tokens, or
/// the clef or time it changes to.
pub open spec fn spec_token_to_string(e: EventView, div: int) -> Seq<char> {
    match e.token {
        TokenView::Note(n) => spec_note_to_string(n, e.duration, div),
        TokenView::Rest => join(spec_duration_to_tokens("r"@, e.duration, div), " "@),
        TokenView::Clef(c) => c,
        TokenView::Time(t) => t,
    }
}

pub fn token_to_string(event: &TimedEvent, divisions: i64) -> (r: Vec<char>)
    ensures
        r@ == spec_token_to_string(event@, divisions as int),
{
    match &event.token {
        Token::Note(note) => {
            let mut out: Vec<char> = Vec::new();
            push_note(&mut out, note, event.duration, divisions);
            out
        },
        Token::Rest => {
            let parts = duration_to_tokens("r", event.duration, divisions);
            join_chars(&parts, " ")
        },
        Token::Clef(c) => crate::text::copy_chars(c.as_slice()),
        Token::Time(t) => crate::text::copy_chars(t.as_slice()),
    }
}

// ---------------------------------------------------------------------------
// Voices and measures
// ---------------------------------------------------------------------------

/// The pieces that are not empty.
pub open spec fn nonempty(s: Seq<Seq<char>>) -> Seq<Seq<char>>
    decreases s.len(),
{
    if s.len() == 0 {
        s
    } else if s.last().len() == 0 {
        nonempty(s.drop_last())
    } else {
        nonempty(s.drop_last()).push(s.last())
    }
}

/// The controls from `ci` on that start at or before `limit` (all when there
/// is none), as text, and the index after them.
pub open spec fn controls_until(cs: Seq<EventView>, ci: int, limit: Option<int>, div: int) -> (Seq<Seq<char>>, int)
    decreases cs.len() - ci,
{
    if ci < 0 || ci >= cs.len() || (limit is Some && cs[ci].start > limit.unwrap()) {
        (seq![], ci)
    } else {
        let (rest, next) = controls_until(cs, ci + 1, limit, div);
        (seq![spec_token_to_string(cs[ci], div)] + rest, next)
    }
}

pub open spec fn max_of(a: int, b: int) -> int {
    if a >= b {
        a
    } else {
        b
    }
}

/// The pieces of a voice from event `k` on: the controls that come before
/// each event, invisible rests up to its start, the event itself; then the
/// controls that are left.
pub open spec fn voice_pieces(evs: Seq<EventView>, k: int, cs: Seq<EventView>, ci: int, cursor: int, div: int) -> Seq<
    Seq<char>,
>
    decreases evs.len() - k,
{
    if k < 0 || k >= evs.len() {
        controls_until(cs, ci, None, div).0
    } else {
        let e = evs[k];
        let (before, ci2) = controls_until(cs, ci, Some(e.start), div);
        let gap = if e.start > cursor {
            tokens_from("s"@, sat(e.start - cursor), div)
        } else {
            seq![]
        };
        before + gap + seq![spec_token_to_string(e, div)] + voice_pieces(
            evs,
            k + 1,
            cs,
            ci2,
            max_of(cursor, sat(e.start + e.duration)),
            div,
        )
    }
}

/// A voice as Scorify text: its events in order of start with the controls
/// (already in order) placed before the events they precede.
pub open spec fn spec_emit_voice(events: Seq<EventView>, controls: Seq<EventView>, div: int) -> Seq<char> {
    join(nonempty(voice_pieces(sort_by_start(events), 0, controls, 0, 0, div)), " "@)
}

fn push_controls_until(
    pieces: &mut Vec<Vec<char>>,
    controls: &[TimedEvent],
    corder: &Vec<usize>,
    ci: usize,
    limit: Option<i64>,
    divisions: i64,
) -> (next: usize)
    requires
        ci <= corder@.len(),
        forall|j: int| 0 <= j < corder@.len() ==> corder@[j] < controls@.len(),
    ensures
        ({
            let (p, n) = controls_until(
                pick(events_view(controls@), corder@),
                ci as int,
                match limit {
                    Some(l) => Some(l as int),
                    None => None,
                },
                divisions as int,
            );
            views(final(pieces)@) == views(old(pieces)@) + p && n == next as int
        }),
        ci <= next <= corder@.len(),
{
    let ghost cs = pick(events_view(controls@), corder@);
    let ghost lim = match limit {
        Some(l) => Some(l as int),
        None => None,
    };
    let ghost start = views(pieces@);
    let mut i = ci;
    while i < corder.len()
        invariant_except_break
            ci <= i <= corder@.len(),
            forall|j: int| 0 <= j < corder@.len() ==> corder@[j] < controls@.len(),
            cs == pick(events_view(controls@), corder@),
            lim == match limit {
                Some(l) => Some(l as int),
                None => None,
            },
            ({
                let (p, n) = controls_until(cs, ci as int, lim, divisions as int);
                let (q, m) = controls_until(cs, i as int, lim, divisions as int);
                start + p == views(pieces@) + q && n == m
            }),
        ensures
            ci <= i <= corder@.len(),
            ({
                let (p, n) = controls_until(cs, ci as int, lim, divisions as int);
                start + p == views(pieces@) && n == i
            }),
        decreases corder@.len() - i,
    {
        let c = &controls[corder[i]];
        assert(cs[i as int] == c@);
        if let Some(l) = limit {
            if c.start > l {
                assert(views(pieces@) + Seq::<Seq<char>>::empty() =~= views(pieces@));
                break;
            }
        }
        let text = token_to_string(c, divisions);
        let ghost prev = views(pieces@);
        pieces.push(text);
        assert(views(pieces@) =~= prev + seq![text@]);
        i += 1;
        proof {
            let (q, m) = controls_until(cs, i as int, lim, divisions as int);
            assert(seq![text@] + q =~= controls_until(cs, (i - 1) as int, lim, divisions as int).0);
            assert(prev + (seq![text@] + q) =~= views(pieces@) + q);
        }
    }
    proof {
        if i >= corder.len() {
            assert(views(pieces@) + Seq::<Seq<char>>::empty() =~= views(pieces@));
        }
    }
    i
}

fn join_nonempty(pieces: &Vec<Vec<char>>) -> (r: Vec<char>)
    ensures
        r@ == join(nonempty(views(pieces@)), " "@),
{
    let ghost pv = views(pieces@);
    let mut kept: Vec<Vec<char>> = Vec::new();
    let mut i: usize = 0;
    assert(pv.take(0) =~= Seq::<Seq<char>>::empty());
    while i < pieces.len()
        invariant
            i <= pieces@.len(),
            pv == views(pieces@),
            views(kept@) == nonempty(pv.take(i as int)),
        decreases pieces@.len() - i,
    {
        assert(pv.take(i + 1).drop_last() == pv.take(i as int));
        if pieces[i].len() > 0 {
            let ghost prev = views(kept@);
            kept.push(crate::text::copy_chars(pieces[i].as_slice()));
            assert(views(kept@) =~= prev.push(pv[i as int]));
        }
        i += 1;
    }
    assert(pv.take(pieces@.len() as int) == pv);
    join_chars(&kept, " ")
}

/// Writes a voice as Scorify text; `corder` lists the controls in order.
pub fn emit_voice(events: &[TimedEvent], controls: &[TimedEvent], corder: &Vec<usize>, divisions: i64) -> (r: Vec<char>)
    requires
        forall|j: int| 0 <= j < corder@.len() ==> corder@[j] < controls@.len(),
    ensures
        r@ == spec_emit_voice(events_view(events@), pick(events_view(controls@), corder@), divisions as int),
{
    let order = sorted_order(events);
    let ghost evs = pick(events_view(events@), order@);
    assert(evs == sort_by_start(events_view(events@)));
    let ghost cs = pick(events_view(controls@), corder@);
    let mut pieces: Vec<Vec<char>> = Vec::new();
    let mut cursor: i64 = 0;
    let mut ci: usize = 0;
    let mut k: usize = 0;
    assert(views(pieces@) =~= Seq::<Seq<char>>::empty());
    while k < order.len()
        invariant
            k <= order@.len(),
            ci <= corder@.len(),
            forall|m: int| 0 <= m < order@.len() ==> order@[m] < events@.len(),
            forall|j: int| 0 <= j < corder@.len() ==> corder@[j] < controls@.len(),
            evs == pick(events_view(events@), order@),
            evs.len() == order@.len(),
            cs == pick(events_view(controls@), corder@),
            voice_pieces(evs, 0, cs, 0, 0, divisions as int) == views(pieces@) + voice_pieces(
                evs,
                k as int,
                cs,
                ci as int,
                cursor as int,
                divisions as int,
            ),
        decreases order@.len() - k,
    {
        let e = &events[order[k]];
        assert(evs[k as int] == e@);
        let ghost p0 = views(pieces@);
        let ghost cur0 = cursor as int;
        let ghost ci0 = ci as int;
        let ci2 = push_controls_until(&mut pieces, controls, corder, ci, Some(e.start), divisions);
        let ghost p1 = views(pieces@);
        let ghost gapv = if e.start > cursor {
            tokens_from("s"@, sat(e.start - cursor), divisions as int)
        } else {
            seq![]
        };
        if e.start > cursor {
            let gap = duration_to_tokens("s", sat_sub(e.start, cursor), divisions);
            let mut g: usize = 0;
            assert(views(gap@).take(0) =~= Seq::<Seq<char>>::empty());
            assert(views(pieces@) =~= p1 + views(gap@).take(0));
            while g < gap.len()
                invariant
                    g <= gap@.len(),
                    views(pieces@) == p1 + views(gap@).take(g as int),
                decreases gap@.len() - g,
            {
                let ghost prev = views(pieces@);
                pieces.push(crate::text::copy_chars(gap[g].as_slice()));
                assert(views(pieces@) =~= prev.push(views(gap@)[g as int]));
                assert(views(gap@).take(g + 1) =~= views(gap@).take(g as int).push(views(gap@)[g as int]));
                g += 1;
            }
            assert(views(gap@).take(g as int) =~= views(gap@));
        } else {
            assert(views(pieces@) =~= p1 + gapv);
        }
        let ghost p2 = views(pieces@);
        let text = token_to_string(e, divisions);
        pieces.push(text);
        assert(views(pieces@) =~= p2.push(text@));
        let end = sat_add(e.start, e.duration);
        cursor = if cursor >= end {
            cursor
        } else {
            end
        };
        ci = ci2;
        proof {
            let (before, n) = controls_until(cs, ci0, Some(e@.start), divisions as int);
            assert(n == ci2);
            assert(p1 == p0 + before);
            assert(voice_pieces(evs, k as int, cs, ci0, cur0, divisions as int) == before + gapv + seq![
                spec_token_to_string(e@, divisions as int),
            ] + voice_pieces(evs, k + 1, cs, ci as int, cursor as int, divisions as int));
        }
        k += 1;
        assert(voice_pieces(evs, 0, cs, 0, 0, divisions as int) =~= views(pieces@) + voice_pieces(
            evs,
            k as int,
            cs,
            ci as int,
            cursor as int,
            divisions as int,
        ));
    }
    let _ = push_controls_until(&mut pieces, controls, corder, ci, None, divisions);
    assert(views(pieces@) =~= voice_pieces(evs, 0, cs, 0, 0, divisions as int));
    proof {
        crate::model::lemma_sort_len(events_view(events@));
    }
    join_nonempty(&pieces)
}

/// The number of a voice, `u32::MAX` when it is not one.
pub open spec fn voice_num(v: Seq<char>) -> int {
    match parse_u32(v) {
        Some(n) => n,
        None => u32::MAX as int,
    }
}

/// Whether `a` sorts before `b` character by character.
pub open spec fn seq_lt(a: Seq<char>, b: Seq<char>) -> bool
    decreases a.len(),
{
    if a.len() == 0 {
        b.len() > 0
    } else if b.len() == 0 {
        false
    } else if a[0] != b[0] {
        (a[0] as u32) < (b[0] as u32)
    } else {
        seq_lt(a.drop_first(), b.drop_first())
    }
}

/// The order in which voices are written: by number, then by name.
pub open spec fn voice_before(a: Seq<char>, b: Seq<char>) -> bool {
    voice_num(a) < voice_num(b) || (voice_num(a) == voice_num(b) && seq_lt(a, b))
}

/// The index of the first voice in that order among `vs[k..]` other than
/// `skip`, given the best index so far (negative for none).
pub open spec fn best_from(vs: Seq<(Seq<char>, Seq<EventView>)>, skip: int, k: int, best: int) -> int
    decreases vs.len() - k,
{
    if k < 0 || k >= vs.len() {
        best
    } else if k == skip {
        best_from(vs, skip, k + 1, best)
    } else if best < 0 || voice_before(vs[k].0, vs[best].0) {
        best_from(vs, skip, k + 1, k)
    } else {
        best_from(vs, skip, k + 1, best)
    }
}

/// A measure of one staff as Scorify text: its controls alone where it has
/// no voice, its first voice (with the controls), or its first two voices as
/// `v{upper;lower}`.
pub open spec fn spec_emit_measure(acc: AccView, div: int) -> Seq<char> {
    let cs = sort_by_start(acc.controls);
    if acc.voices.len() == 0 {
        join(cs.map_values(|c: EventView| spec_token_to_string(c, div)), " "@)
    } else {
        let first = best_from(acc.voices, -1, 0, -1);
        if acc.voices.len() == 1 {
            spec_emit_voice(acc.voices[first].1, cs, div)
        } else {
            let second = best_from(acc.voices, first, 0, -1);
            "v{"@ + trim(spec_emit_voice(acc.voices[first].1, cs, div)) + ";"@ + trim(
                spec_emit_voice(acc.voices[second].1, seq![], div),
            ) + "}"@
        }
    }
}

fn chars_lt(a: &[char], b: &[char]) -> (r: bool)
    ensures
        r == seq_lt(a@, b@),
{
    let mut i: usize = 0;
    assert(a@.skip(0) == a@);
    assert(b@.skip(0) == b@);
    while i < a.len() && i < b.len()
        invariant
            i <= a@.len(),
            i <= b@.len(),
            forall|j: int| 0 <= j < i ==> a@[j] == b@[j],
            seq_lt(a@, b@) == seq_lt(a@.skip(i as int), b@.skip(i as int)),
        decreases a@.len() - i,
    {
        if a[i] != b[i] {
            return (a[i] as u32) < (b[i] as u32);
        }
        assert(a@.skip(i as int).drop_first() == a@.skip(i + 1));
        assert(b@.skip(i as int).drop_first() == b@.skip(i + 1));
        i += 1;
    }
    i == a.len() && i < b.len()
}

fn voice_number(v: &[char]) -> (r: u64)
    ensures
        r == voice_num(v@),
{
    match parse_u32_chars(v) {
        Some(n) => n as u64,
        None => u32::MAX as u64,
    }
}

fn voice_lt(a: &[char], b: &[char]) -> (r: bool)
    ensures
        r == voice_before(a@, b@),
{
    let na = voice_number(a);
    let nb = voice_number(b);
    na < nb || (na == nb && chars_lt(a, b))
}

fn best_voice(voices: &Vec<VoiceEvents>, skip: usize, has_skip: bool) -> (r: usize)
    requires
        voices@.len() > (if has_skip { 1int } else { 0int }),
        has_skip ==> skip < voices@.len(),
    ensures
        r == best_from(voices_view(voices@), if has_skip { skip as int } else { -1 }, 0, -1),
        r < voices@.len(),
        !has_skip || r != skip,
{
    let ghost vv = voices_view(voices@);
    let ghost sk: int = if has_skip {
        skip as int
    } else {
        -1
    };
    let mut best: usize = 0;
    let mut found = false;
    let mut k: usize = 0;
    while k < voices.len()
        invariant
            k <= voices@.len(),
            vv == voices_view(voices@),
            sk == (if has_skip { skip as int } else { -1 }),
            found ==> best < k && best != sk,
            !found ==> (k == 0 || (k == 1 && sk == 0)),
            best_from(vv, sk, 0, -1) == best_from(vv, sk, k as int, if found { best as int } else { -1 }),
        decreases voices@.len() - k,
    {
        if has_skip && k == skip {
        } else if !found || voice_lt(voices[k].voice.as_slice(), voices[best].voice.as_slice()) {
            best = k;
            found = true;
        }
        k += 1;
    }
    proof {
        if !found {
            if has_skip {
                assert(voices@.len() > 1);
                let other: int = if skip == 0 { 1 } else { 0 };
                assert(other != sk);
            } else {
                assert(0 != sk);
            }
        }
    }
    best
}

/// Writes a measure of one staff as Scorify text.
pub fn emit_measure(acc: &MeasureAcc, divisions: i64) -> (r: Vec<char>)
    ensures
        r@ == spec_emit_measure(acc@, divisions as int),
{
    let corder = sorted_order(acc.controls.as_slice());
    let ghost cs = sort_by_start(events_view(acc.controls@));
    assert(pick(events_view(acc.controls@), corder@) == cs);
    if acc.voices.len() == 0 {
        let mut parts: Vec<Vec<char>> = Vec::new();
        let mut i: usize = 0;
        proof {
            lemma_sort_len(events_view(acc.controls@));
        }
        while i < corder.len()
            invariant
                i <= corder@.len(),
                corder@.len() == acc.controls@.len(),
                forall|m: int| 0 <= m < corder@.len() ==> corder@[m] < acc.controls@.len(),
                pick(events_view(acc.controls@), corder@) == cs,
                parts@.len() == i,
                forall|m: int| 0 <= m < i ==> (#[trigger] parts@[m])@ == spec_token_to_string(cs[m], divisions as int),
            decreases corder@.len() - i,
        {
            let t = token_to_string(&acc.controls[corder[i]], divisions);
            assert(cs[i as int] == acc.controls@[corder@[i as int] as int]@);
            parts.push(t);
            i += 1;
        }
        assert(views(parts@) =~= cs.map_values(|c: EventView| spec_token_to_string(c, divisions as int)));
        return join_chars(&parts, " ");
    }
    let ghost vv = voices_view(acc.voices@);
    let first = best_voice(&acc.voices, 0, false);
    assert(vv[first as int].1 == events_view(acc.voices@[first as int].events@));
    let upper = emit_voice(acc.voices[first].events.as_slice(), acc.controls.as_slice(), &corder, divisions);
    if acc.voices.len() == 1 {
        return upper;
    }
    let second = best_voice(&acc.voices, first, true);
    assert(vv[second as int].1 == events_view(acc.voices@[second as int].events@));
    let none: Vec<TimedEvent> = Vec::new();
    let no_order: Vec<usize> = Vec::new();
    let lower = emit_voice(acc.voices[second].events.as_slice(), none.as_slice(), &no_order, divisions);
    assert(pick(events_view(none@), no_order@) =~= Seq::<EventView>::empty());
    let mut out = str_to_chars("v{");
    let ut = trim_chars(upper.as_slice());
    push_chars(&mut out, ut.as_slice());
    push_str(&mut out, ";");
    let lt = trim_chars(lower.as_slice());
    push_chars(&mut out, lt.as_slice());
    push_str(&mut out, "}");
    out
}

} // verus!
