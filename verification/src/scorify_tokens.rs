//! Lexical pieces of Scorify music strings: tokens, pitches, durations and
//! bracketed attachments.
use vstd::prelude::*;

use crate::error::{invalid_scorify_about, invalid_scorify_str, ConvertError};
use crate::model::{sat, sat_add, PitchToken, PitchView};
use crate::text::{
    all_digits, char_eq, char_is_ascii_alpha, char_is_digit, char_is_whitespace, char_to_lower,
    chars_eq_str, find_char, first_index_of, has_at, has_str_at, is_ascii_alpha, is_digit, is_ws,
    slice_chars, starts_with, starts_with_str, str_to_chars, to_lower, views,
};

verus! {

// ---------------------------------------------------------------------------
// Splitting a music string into tokens
// ---------------------------------------------------------------------------

/// The state of the token splitter after some prefix of the music string.
pub struct TokenScan {
    pub tokens: Seq<Seq<char>>,
    pub current: Seq<char>,
    pub bracket: nat,
    pub angle: nat,
    pub brace: nat,
    pub escape: bool,
}

pub open spec fn dec(n: nat) -> nat {
    if n == 0 {
        0
    } else {
        (n - 1) as nat
    }
}

pub open spec fn scan_start() -> TokenScan {
    TokenScan { tokens: seq![], current: seq![], bracket: 0, angle: 0, brace: 0, escape: false }
}

/// One character of the splitter: whitespace outside `[...]`, `<...>` and
/// `{...}` separates tokens, and a backslash protects the next character.
pub open spec fn scan_step(st: TokenScan, c: char) -> TokenScan {
    if st.escape {
        TokenScan { current: st.current.push(c), escape: false, ..st }
    } else if c == '\\' {
        TokenScan { current: st.current.push(c), escape: true, ..st }
    } else if c == '[' {
        TokenScan { current: st.current.push(c), bracket: st.bracket + 1, ..st }
    } else if c == ']' {
        TokenScan { current: st.current.push(c), bracket: dec(st.bracket), ..st }
    } else if c == '<' {
        TokenScan { current: st.current.push(c), angle: st.angle + 1, ..st }
    } else if c == '>' {
        TokenScan { current: st.current.push(c), angle: dec(st.angle), ..st }
    } else if c == '{' {
        TokenScan { current: st.current.push(c), brace: st.brace + 1, ..st }
    } else if c == '}' {
        TokenScan { current: st.current.push(c), brace: dec(st.brace), ..st }
    } else if is_ws(c) && st.bracket == 0 && st.angle == 0 && st.brace == 0 {
        if st.current.len() > 0 {
            TokenScan { tokens: st.tokens.push(st.current), current: seq![], ..st }
        } else {
            st
        }
    } else {
        TokenScan { current: st.current.push(c), ..st }
    }
}

pub open spec fn scan_from(s: Seq<char>, i: int, st: TokenScan) -> Option<Seq<Seq<char>>>
    decreases s.len() - i,
{
    if i < 0 || i >= s.len() {
        if st.bracket != 0 || st.angle != 0 || st.brace != 0 {
            None
        } else if st.current.len() > 0 {
            Some(st.tokens.push(st.current))
        } else {
            Some(st.tokens)
        }
    } else {
        scan_from(s, i + 1, scan_step(st, s[i]))
    }
}

/// The tokens of a music string, or `None` when a grouping is left open.
pub open spec fn spec_split_tokens(s: Seq<char>) -> Option<Seq<Seq<char>>> {
    scan_from(s, 0, scan_start())
}

/// Splits a music string at top-level whitespace.
pub fn split_top_level_tokens(source: &[char]) -> (r: Result<Vec<Vec<char>>, ConvertError>)
    ensures
        match r {
            Ok(tokens) => spec_split_tokens(source@) == Some(views(tokens@)),
            Err(e) => spec_split_tokens(source@) is None && (e matches ConvertError::InvalidScorify(m) && m@
                == "unterminated grouping in music string"@),
        },
{
    let mut tokens: Vec<Vec<char>> = Vec::new();
    let mut current: Vec<char> = Vec::new();
    let mut bracket: usize = 0;
    let mut angle: usize = 0;
    let mut brace: usize = 0;
    let mut escape = false;
    let mut i: usize = 0;
    assert(views(tokens@) =~= Seq::<Seq<char>>::empty());
    while i < source.len()
        invariant
            i <= source.len(),
            bracket <= i,
            angle <= i,
            brace <= i,
            spec_split_tokens(source@) == scan_from(
                source@,
                i as int,
                TokenScan {
                    tokens: views(tokens@),
                    current: current@,
                    bracket: bracket as nat,
                    angle: angle as nat,
                    brace: brace as nat,
                    escape,
                },
            ),
        decreases source.len() - i,
    {
        let c = source[i];
        if escape {
            current.push(c);
            escape = false;
        } else if char_eq(c, '\\') {
            current.push(c);
            escape = true;
        } else if char_eq(c, '[') {
            bracket += 1;
            current.push(c);
        } else if char_eq(c, ']') {
            if bracket > 0 {
                bracket -= 1;
            }
            current.push(c);
        } else if char_eq(c, '<') {
            angle += 1;
            current.push(c);
        } else if char_eq(c, '>') {
            if angle > 0 {
                angle -= 1;
            }
            current.push(c);
        } else if char_eq(c, '{') {
            brace += 1;
            current.push(c);
        } else if char_eq(c, '}') {
            if brace > 0 {
                brace -= 1;
            }
            current.push(c);
        } else if char_is_whitespace(c) && bracket == 0 && angle == 0 && brace == 0 {
            if current.len() > 0 {
                let ghost prev = tokens@;
                let t = current;
                let ghost tv = t@;
                current = Vec::new();
                tokens.push(t);
                assert(views(tokens@) =~= views(prev).push(tv));
            }
        } else {
            current.push(c);
        }
        i += 1;
    }
    if bracket != 0 || angle != 0 || brace != 0 {
        return Err(invalid_scorify_str("unterminated grouping in music string"));
    }
    if current.len() > 0 {
        let ghost prev = tokens@;
        let ghost cv = current@;
        tokens.push(current);
        assert(views(tokens@) =~= views(prev).push(cv));
    }
    Ok(tokens)
}

// ---------------------------------------------------------------------------
// Two-voice tokens `v{upper;lower}`
// ---------------------------------------------------------------------------

pub struct VoiceScan {
    pub bracket: nat,
    pub angle: nat,
    pub brace: nat,
    pub escape: bool,
}

/// Index of the `;` that separates the two voices, scanning from `i`.
pub open spec fn voice_split_from(s: Seq<char>, i: int, st: VoiceScan) -> Option<int>
    decreases s.len() - i,
{
    if i < 0 || i >= s.len() {
        None
    } else if st.escape {
        voice_split_from(s, i + 1, VoiceScan { escape: false, ..st })
    } else {
        let c = s[i];
        if c == '\\' {
            voice_split_from(s, i + 1, VoiceScan { escape: true, ..st })
        } else if c == '[' {
            voice_split_from(s, i + 1, VoiceScan { bracket: st.bracket + 1, ..st })
        } else if c == ']' {
            voice_split_from(s, i + 1, VoiceScan { bracket: dec(st.bracket), ..st })
        } else if c == '<' {
            voice_split_from(s, i + 1, VoiceScan { angle: st.angle + 1, ..st })
        } else if c == '>' {
            voice_split_from(s, i + 1, VoiceScan { angle: dec(st.angle), ..st })
        } else if c == '{' {
            voice_split_from(s, i + 1, VoiceScan { brace: st.brace + 1, ..st })
        } else if c == '}' {
            voice_split_from(s, i + 1, VoiceScan { brace: dec(st.brace), ..st })
        } else if c == ';' && st.brace == 0 && st.bracket == 0 && st.angle == 0 {
            Some(i)
        } else {
            voice_split_from(s, i + 1, st)
        }
    }
}

/// The text between `v{` and the closing `}` of a two-voice token.
pub open spec fn voice_inner(t: Seq<char>) -> Option<Seq<char>> {
    if t.len() >= 3 && t[0] == 'v' && t[1] == '{' && t.last() == '}' {
        Some(t.subrange(2, t.len() - 1))
    } else {
        None
    }
}

/// The two voices of a `v{upper;lower}` token.
pub open spec fn spec_split_voice(t: Seq<char>) -> Option<(Seq<char>, Seq<char>)> {
    match voice_inner(t) {
        Some(inner) => match voice_split_from(
            inner,
            0,
            VoiceScan { bracket: 0, angle: 0, brace: 0, escape: false },
        ) {
            Some(k) => Some((inner.take(k), inner.skip(k + 1))),
            None => None,
        },
        None => None,
    }
}

/// The message of a two-voice token that does not split.
pub open spec fn split_voice_message(t: Seq<char>) -> Seq<char> {
    if voice_inner(t) is None {
        "invalid multi-voice token '"@ + t + "'"@
    } else {
        "multi-voice token is missing ';' in '"@ + t + "'"@
    }
}

/// Splits `v{upper;lower}` at its top-level `;`.
pub fn split_voice_token(token: &[char]) -> (r: Result<(Vec<char>, Vec<char>), ConvertError>)
    ensures
        match r {
            Ok((upper, lower)) => spec_split_voice(token@) == Some((upper@, lower@)),
            Err(e) => spec_split_voice(token@) is None && (e matches ConvertError::InvalidScorify(m) && m@
                == split_voice_message(token@)),
        },
{
    let n = token.len();
    if !(n >= 3 && char_eq(token[0], 'v') && char_eq(token[1], '{') && char_eq(token[n - 1], '}')) {
        return Err(invalid_scorify_about("invalid multi-voice token '", token, "'"));
    }
    let inner = slice_chars(token, 2, n - 1);
    let mut bracket: usize = 0;
    let mut angle: usize = 0;
    let mut brace: usize = 0;
    let mut escape = false;
    let mut i: usize = 0;
    while i < inner.len()
        invariant
            i <= inner.len(),
            bracket <= i,
            angle <= i,
            brace <= i,
            voice_inner(token@) == Some(inner@),
            voice_split_from(inner@, 0, VoiceScan { bracket: 0, angle: 0, brace: 0, escape: false })
                == voice_split_from(
                inner@,
                i as int,
                VoiceScan { bracket: bracket as nat, angle: angle as nat, brace: brace as nat, escape },
            ),
        decreases inner.len() - i,
    {
        let c = inner[i];
        if escape {
            escape = false;
        } else if char_eq(c, '\\') {
            escape = true;
        } else if char_eq(c, '[') {
            bracket += 1;
        } else if char_eq(c, ']') {
            if bracket > 0 {
                bracket -= 1;
            }
        } else if char_eq(c, '<') {
            angle += 1;
        } else if char_eq(c, '>') {
            if angle > 0 {
                angle -= 1;
            }
        } else if char_eq(c, '{') {
            brace += 1;
        } else if char_eq(c, '}') {
            if brace > 0 {
                brace -= 1;
            }
        } else if char_eq(c, ';') && brace == 0 && bracket == 0 && angle == 0 {
            let upper = slice_chars(inner.as_slice(), 0, i);
            let lower = slice_chars(inner.as_slice(), i + 1, inner.len());
            assert(upper@ == inner@.take(i as int));
            assert(lower@ == inner@.skip(i + 1));
            return Ok((upper, lower));
        }
        i += 1;
    }
    Err(invalid_scorify_about("multi-voice token is missing ';' in '", token, "'"))
}

// ---------------------------------------------------------------------------
// Token classes
// ---------------------------------------------------------------------------

pub open spec fn spec_is_barline(t: Seq<char>) -> bool {
    t == "|"@ || t == "||"@ || t == "|."@ || t == "|:"@ || t == ":|"@
}

/// Whether a token is one of the barlines `|`, `||`, `|.`, `|:` and `:|`.
pub fn is_barline_token(token: &[char]) -> (r: bool)
    ensures
        r == spec_is_barline(token@),
{
    chars_eq_str(token, "|") || chars_eq_str(token, "||") || chars_eq_str(token, "|.")
        || chars_eq_str(token, "|:") || chars_eq_str(token, ":|")
}

pub open spec fn spec_is_clef(t: Seq<char>) -> bool {
    ||| t == "treble"@
    ||| t == "bass"@
    ||| t == "alto"@
    ||| t == "tenor"@
    ||| t == "percussion"@
    ||| t == "treble-8a"@
    ||| t == "treble-8b"@
    ||| t == "treble-15a"@
    ||| t == "treble-15b"@
    ||| t == "bass-8a"@
    ||| t == "bass-8b"@
    ||| t == "bass-15a"@
    ||| t == "bass-15b"@
}

/// Whether a token names one of the clefs Scorify knows.
pub fn is_clef_token(token: &[char]) -> (r: bool)
    ensures
        r == spec_is_clef(token@),
{
    chars_eq_str(token, "treble") || chars_eq_str(token, "bass") || chars_eq_str(token, "alto")
        || chars_eq_str(token, "tenor") || chars_eq_str(token, "percussion") || chars_eq_str(
        token,
        "treble-8a",
    ) || chars_eq_str(token, "treble-8b") || chars_eq_str(token, "treble-15a") || chars_eq_str(
        token,
        "treble-15b",
    ) || chars_eq_str(token, "bass-8a") || chars_eq_str(token, "bass-8b") || chars_eq_str(
        token,
        "bass-15a",
    ) || chars_eq_str(token, "bass-15b")
}

/// `common`, `cut`, or digits around the first `/` (either side may be empty).
pub open spec fn spec_is_time(t: Seq<char>) -> bool {
    ||| t == "common"@
    ||| t == "cut"@
    ||| match first_index_of(t, '/') {
        Some(k) => all_digits(t.take(k)) && all_digits(t.skip(k + 1)),
        None => false,
    }
}

fn all_digits_range(s: &[char], from: usize, to: usize) -> (r: bool)
    requires
        from <= to <= s.len(),
    ensures
        r == all_digits(s@.subrange(from as int, to as int)),
{
    let mut i = from;
    while i < to
        invariant
            from <= i <= to <= s.len(),
            all_digits(s@.subrange(from as int, i as int)),
        decreases to - i,
    {
        if !char_is_digit(s[i]) {
            assert(s@.subrange(from as int, to as int)[i - from] == s@[i as int]);
            return false;
        }
        i += 1;
        assert(forall|j: int| 0 <= j < i - from ==> s@.subrange(from as int, i as int)[j] == s@[from + j]);
    }
    true
}

/// Whether a token is a time signature.
pub fn is_time_token(token: &[char]) -> (r: bool)
    ensures
        r == spec_is_time(token@),
{
    if chars_eq_str(token, "common") || chars_eq_str(token, "cut") {
        return true;
    }
    match find_char(token, '/') {
        Some(k) => {
            assert(token@.take(k as int) == token@.subrange(0, k as int));
            assert(token@.skip(k + 1) == token@.subrange(k + 1, token@.len() as int));
            all_digits_range(token, 0, k) && all_digits_range(token, k + 1, token.len())
        },
        None => false,
    }
}

// ---------------------------------------------------------------------------
// Pitches
// ---------------------------------------------------------------------------

/// Length of the accidental at the start of `s`: `##`, `&&`, `#`, `&` or `=`.
pub open spec fn accidental_len(s: Seq<char>) -> int {
    if starts_with(s, "##"@) || starts_with(s, "&&"@) {
        2
    } else if starts_with(s, "#"@) || starts_with(s, "&"@) || starts_with(s, "="@) {
        1
    } else {
        0
    }
}

/// Number of octave marks (`'` or `,`) starting at `i`.
pub open spec fn marks_run(s: Seq<char>, i: int) -> nat
    decreases s.len() - i,
{
    if 0 <= i < s.len() && (s[i] == '\'' || s[i] == ',') {
        1 + marks_run(s, i + 1)
    } else {
        0
    }
}

/// Length of the pitch at the start of a note token: a letter, an accidental and octave marks.
pub open spec fn spec_pitch_token_len(t: Seq<char>) -> Option<int> {
    if t.len() == 0 || !is_ascii_alpha(t[0]) {
        None
    } else {
        let a = 1 + accidental_len(t.skip(1));
        Some(a + marks_run(t, a))
    }
}

proof fn lemma_starts_with_skip(t: Seq<char>, k: int, p: Seq<char>)
    requires
        0 <= k <= t.len(),
    ensures
        starts_with(t.skip(k), p) == has_at(t, k, p),
{
    if has_at(t, k, p) {
        assert(t.skip(k).subrange(0, p.len() as int) =~= t.subrange(k, k + p.len()));
    }
    if starts_with(t.skip(k), p) {
        assert(t.skip(k).subrange(0, p.len() as int) =~= t.subrange(k, k + p.len()));
    }
}

fn accidental_len_at(t: &[char], k: usize) -> (r: usize)
    requires
        k <= t.len(),
    ensures
        r as int == accidental_len(t@.skip(k as int)),
        k + r <= t.len(),
{
    proof {
        reveal_strlit("##");
        reveal_strlit("&&");
        reveal_strlit("#");
        reveal_strlit("&");
        reveal_strlit("=");
        lemma_starts_with_skip(t@, k as int, "##"@);
        lemma_starts_with_skip(t@, k as int, "&&"@);
        lemma_starts_with_skip(t@, k as int, "#"@);
        lemma_starts_with_skip(t@, k as int, "&"@);
        lemma_starts_with_skip(t@, k as int, "="@);
    }
    if has_str_at(t, k, "##") || has_str_at(t, k, "&&") {
        2
    } else if has_str_at(t, k, "#") || has_str_at(t, k, "&") || has_str_at(t, k, "=") {
        1
    } else {
        0
    }
}

fn marks_run_at(t: &[char], k: usize) -> (r: usize)
    requires
        k <= t.len(),
    ensures
        r == marks_run(t@, k as int),
        k + r <= t.len(),
{
    let mut i = k;
    while i < t.len() && (char_eq(t[i], '\'') || char_eq(t[i], ','))
        invariant
            k <= i <= t.len(),
            marks_run(t@, k as int) == (i - k) + marks_run(t@, i as int),
        decreases t.len() - i,
    {
        i += 1;
    }
    i - k
}

/// Length of the pitch part of a single-note token.
pub fn pitch_token_len(token: &[char]) -> (r: Result<usize, ConvertError>)
    ensures
        match r {
            Ok(n) => spec_pitch_token_len(token@) == Some(n as int) && n <= token.len(),
            Err(e) => spec_pitch_token_len(token@) is None && (e matches ConvertError::InvalidScorify(m) && m@ == if token@.len()
                == 0 {
                "empty note token"@
            } else {
                "invalid note token '"@ + token@ + "'"@
            }),
        },
{
    if token.len() == 0 {
        return Err(invalid_scorify_str("empty note token"));
    }
    if !char_is_ascii_alpha(token[0]) {
        return Err(invalid_scorify_about("invalid note token '", token, "'"));
    }
    let a = 1 + accidental_len_at(token, 1);
    let m = marks_run_at(token, a);
    Ok(a + m)
}

/// The octave of middle C's neighbourhood for a clef: 3 for bass clefs, 4 otherwise.
pub open spec fn spec_clef_base_octave(clef: Seq<char>) -> int {
    if starts_with(clef, "bass"@) {
        3
    } else {
        4
    }
}

pub fn clef_base_octave(clef: &[char]) -> (r: i64)
    ensures
        r == spec_clef_base_octave(clef@),
{
    if starts_with_str(clef, "bass") {
        3
    } else {
        4
    }
}

/// Alteration and accidental name written at the start of `s`.
pub open spec fn spec_accidental(s: Seq<char>) -> (int, Option<Seq<char>>) {
    if starts_with(s, "##"@) {
        (2, Some("double-sharp"@))
    } else if starts_with(s, "&&"@) {
        (-2, Some("double-flat"@))
    } else if starts_with(s, "#"@) {
        (1, Some("sharp"@))
    } else if starts_with(s, "&"@) {
        (-1, Some("flat"@))
    } else if starts_with(s, "="@) {
        (0, Some("natural"@))
    } else {
        (0, None)
    }
}

/// Applies the octave marks from `i` on to `octave`; `None` on any other character.
pub open spec fn octave_from(s: Seq<char>, i: int, octave: int) -> Option<int>
    decreases s.len() - i,
{
    if i < 0 || i >= s.len() {
        Some(octave)
    } else if s[i] == '\'' {
        octave_from(s, i + 1, sat(octave + 1))
    } else if s[i] == ',' {
        octave_from(s, i + 1, sat(octave - 1))
    } else {
        None
    }
}

/// The pitch that a pitch token such as `f#'` names, read in the given clef.
pub open spec fn spec_parse_pitch(t: Seq<char>, clef: Seq<char>) -> Option<PitchView> {
    if t.len() == 0 || !is_ascii_alpha(t[0]) {
        None
    } else {
        let (alter, acc) = spec_accidental(t.skip(1));
        let a = 1 + accidental_len(t.skip(1));
        match octave_from(t, a, spec_clef_base_octave(clef)) {
            Some(octave) => Some(
                PitchView { step: to_lower(t[0]), alter, accidental_text: acc, octave },
            ),
            None => None,
        }
    }
}

/// Reads a pitch token in a clef.
pub fn parse_pitch(token: &[char], clef: &[char]) -> (r: Result<PitchToken, ConvertError>)
    ensures
        match r {
            Ok(p) => spec_parse_pitch(token@, clef@) == Some(p@),
            Err(e) => spec_parse_pitch(token@, clef@) is None && (e matches ConvertError::InvalidScorify(m) && m@ == if token@.len()
                == 0 || !is_ascii_alpha(token@[0]) {
                "invalid note pitch '"@ + token@ + "'"@
            } else {
                "invalid pitch octave suffix in '"@ + token@ + "'"@
            }),
        },
{
    if token.len() == 0 || !char_is_ascii_alpha(token[0]) {
        return Err(invalid_scorify_about("invalid note pitch '", token, "'"));
    }
    let step = char_to_lower(token[0]);
    proof {
        reveal_strlit("##");
        reveal_strlit("&&");
        reveal_strlit("#");
        reveal_strlit("&");
        reveal_strlit("=");
        lemma_starts_with_skip(token@, 1, "##"@);
        lemma_starts_with_skip(token@, 1, "&&"@);
        lemma_starts_with_skip(token@, 1, "#"@);
        lemma_starts_with_skip(token@, 1, "&"@);
        lemma_starts_with_skip(token@, 1, "="@);
    }
    let (alter, accidental_text, a): (i64, Option<Vec<char>>, usize) = if has_str_at(
        token,
        1,
        "##",
    ) {
        (2, Some(str_to_chars("double-sharp")), 3)
    } else if has_str_at(token, 1, "&&") {
        (-2, Some(str_to_chars("double-flat")), 3)
    } else if has_str_at(token, 1, "#") {
        (1, Some(str_to_chars("sharp")), 2)
    } else if has_str_at(token, 1, "&") {
        (-1, Some(str_to_chars("flat")), 2)
    } else if has_str_at(token, 1, "=") {
        (0, Some(str_to_chars("natural")), 2)
    } else {
        (0, None, 1)
    };
    let mut octave = clef_base_octave(clef);
    let mut i = a;
    assert(a <= token.len());
    assert(a == 1 + accidental_len(token@.skip(1)));
    while i < token.len()
        invariant
            a <= i <= token.len(),
            token.len() > 0,
            is_ascii_alpha(token@[0]),
            a == 1 + accidental_len(token@.skip(1)),
            octave_from(token@, a as int, spec_clef_base_octave(clef@)) == octave_from(
                token@,
                i as int,
                octave as int,
            ),
        decreases token.len() - i,
    {
        let c = token[i];
        if char_eq(c, '\'') {
            octave = sat_add(octave, 1);
        } else if char_eq(c, ',') {
            octave = sat_add(octave, -1);
        } else {
            return Err(invalid_scorify_about("invalid pitch octave suffix in '", token, "'"));
        }
        i += 1;
    }
    let p = PitchToken { step, alter, accidental_text, octave };
    assert(p@.accidental_text == spec_accidental(token@.skip(1)).1);
    Ok(p)
}

// ---------------------------------------------------------------------------
// Durations and bracketed text
// ---------------------------------------------------------------------------

/// Number of characters from `i` on that satisfy the digit test.
pub open spec fn digit_run(s: Seq<char>, i: int) -> nat
    decreases s.len() - i,
{
    if 0 <= i < s.len() && is_digit(s[i]) {
        1 + digit_run(s, i + 1)
    } else {
        0
    }
}

/// Number of `.` characters from `i` on.
pub open spec fn dot_run(s: Seq<char>, i: int) -> nat
    decreases s.len() - i,
{
    if 0 <= i < s.len() && s[i] == '.' {
        1 + dot_run(s, i + 1)
    } else {
        0
    }
}

/// A duration at position `at` of `s`: its text, its dots, and where it ends.
pub open spec fn spec_parse_duration(s: Seq<char>, at: int) -> Option<(Seq<char>, nat, int)> {
    let (text, pos): (Seq<char>, int) = if has_at(s, at, "maxima"@) {
        ("maxima"@, at + 6)
    } else if has_at(s, at, "longa"@) {
        ("longa"@, at + 5)
    } else if has_at(s, at, "breve"@) {
        ("breve"@, at + 5)
    } else {
        (s.subrange(at, at + digit_run(s, at)), at + digit_run(s, at))
    };
    if text.len() == 0 {
        None
    } else {
        Some((text, dot_run(s, pos), pos + dot_run(s, pos)))
    }
}

fn run_char(c: char, dots: bool) -> (r: bool)
    ensures
        r == (if dots {
            c == '.'
        } else {
            is_digit(c)
        }),
{
    if dots {
        char_eq(c, '.')
    } else {
        char_is_digit(c)
    }
}

fn run_end(s: &[char], at: usize, dots: bool) -> (r: usize)
    requires
        at <= s.len(),
    ensures
        at <= r <= s.len(),
        dots ==> r == at + dot_run(s@, at as int),
        !dots ==> r == at + digit_run(s@, at as int),
{
    let mut i = at;
    while i < s.len() && run_char(s[i], dots)
        invariant
            at <= i <= s.len(),
            dots ==> dot_run(s@, at as int) == (i - at) + dot_run(s@, i as int),
            !dots ==> digit_run(s@, at as int) == (i - at) + digit_run(s@, i as int),
        decreases s.len() - i,
    {
        i += 1;
    }
    i
}

/// Reads a duration (`maxima`, `longa`, `breve` or digits) and its dots at position `at`.
pub fn parse_duration(s: &[char], at: usize) -> (r: Result<(Vec<char>, usize, usize), ConvertError>)
    requires
        at <= s.len(),
    ensures
        match r {
            Ok((text, dots, end)) => spec_parse_duration(s@, at as int) == Some(
                (text@, dots as nat, end as int),
            ) && end <= s.len(),
            Err(e) => spec_parse_duration(s@, at as int) is None && (e matches ConvertError::InvalidScorify(m) && m@
                == "missing duration in token fragment '"@ + s@.subrange(at as int, s@.len() as int) + "'"@),
        },
{
    proof {
        reveal_strlit("maxima");
        reveal_strlit("longa");
        reveal_strlit("breve");
    }
    let (text, pos) = if has_str_at(s, at, "maxima") {
        (str_to_chars("maxima"), at + 6)
    } else if has_str_at(s, at, "longa") {
        (str_to_chars("longa"), at + 5)
    } else if has_str_at(s, at, "breve") {
        (str_to_chars("breve"), at + 5)
    } else {
        let e = run_end(s, at, false);
        (slice_chars(s, at, e), e)
    };
    if text.len() == 0 {
        let rest = slice_chars(s, at, s.len());
        return Err(invalid_scorify_about("missing duration in token fragment '", rest.as_slice(), "'"));
    }
    let end = run_end(s, pos, true);
    Ok((text, end - pos, end))
}

/// Text up to the first unescaped `]` from `i` on, with escapes removed,
/// and the position after that `]`.
pub open spec fn bracket_from(s: Seq<char>, i: int, value: Seq<char>, escape: bool) -> Option<(Seq<char>, int)>
    decreases s.len() - i,
{
    if i < 0 || i >= s.len() {
        None
    } else if escape {
        bracket_from(s, i + 1, value.push(s[i]), false)
    } else if s[i] == '\\' {
        bracket_from(s, i + 1, value, true)
    } else if s[i] == ']' {
        Some((value, i + 1))
    } else {
        bracket_from(s, i + 1, value.push(s[i]), false)
    }
}

pub open spec fn spec_parse_bracket_text(s: Seq<char>, at: int) -> Option<(Seq<char>, int)> {
    bracket_from(s, at, seq![], false)
}

/// Reads the text of a bracketed attachment whose `[` ends just before `at`.
pub fn parse_bracket_text(s: &[char], at: usize) -> (r: Result<(Vec<char>, usize), ConvertError>)
    requires
        at <= s.len(),
    ensures
        match r {
            Ok((value, end)) => spec_parse_bracket_text(s@, at as int) == Some((value@, end as int))
                && at < end <= s.len(),
            Err(e) => spec_parse_bracket_text(s@, at as int) is None && (e matches ConvertError::InvalidScorify(m) && m@
                == "unterminated bracketed attachment"@),
        },
{
    let mut value: Vec<char> = Vec::new();
    let mut escape = false;
    let mut i = at;
    while i < s.len()
        invariant
            at <= i <= s.len(),
            spec_parse_bracket_text(s@, at as int) == bracket_from(s@, i as int, value@, escape),
        decreases s.len() - i,
    {
        let c = s[i];
        if escape {
            value.push(c);
            escape = false;
        } else if char_eq(c, '\\') {
            escape = true;
        } else if char_eq(c, ']') {
            return Ok((value, i + 1));
        } else {
            value.push(c);
        }
        i += 1;
    }
    Err(invalid_scorify_str("unterminated bracketed attachment"))
}

} // verus!
