//! Pieces of the MusicXML that the Scorify reader writes.
use vstd::prelude::*;

use crate::error::{invalid_scorify_about, ConvertError};
use crate::model::{Articulation, LyricToken, LyricView, NoteToken, NoteView, PitchToken, PitchView};
use crate::text::{
    char_is_ascii_alpha, char_to_upper, chars_eq_str, decimal, ends_with, ends_with_str, find_char,
    first_index_of, has_at, has_str_at, int_text, is_ascii_alpha, push_chars, push_decimal, push_int,
    push_repeat, push_str, push_usize, slice_chars, starts_with, str_to_chars, to_upper,
};

verus! {

// ---------------------------------------------------------------------------
// Escaping
// ---------------------------------------------------------------------------

pub open spec fn escape_char(c: char) -> Seq<char> {
    if c == '&' {
        "&amp;"@
    } else if c == '<' {
        "&lt;"@
    } else if c == '>' {
        "&gt;"@
    } else if c == '"' {
        "&quot;"@
    } else if c == '\'' {
        "&apos;"@
    } else {
        seq![c]
    }
}

/// Text with the five XML special characters replaced by entities.
pub open spec fn spec_xml_escape(s: Seq<char>) -> Seq<char>
    decreases s.len(),
{
    if s.len() == 0 {
        seq![]
    } else {
        spec_xml_escape(s.drop_last()) + escape_char(s.last())
    }
}

/// Appends `value` with `&`, `<`, `>`, `"` and `'` escaped.
pub fn push_xml_escaped(out: &mut Vec<char>, value: &[char])
    ensures
        final(out)@ == old(out)@ + spec_xml_escape(value@),
{
    let ghost start = out@;
    let mut i: usize = 0;
    while i < value.len()
        invariant
            i <= value.len(),
            out@ == start + spec_xml_escape(value@.take(i as int)),
        decreases value.len() - i,
    {
        let c = value[i];
        if c == '&' {
            push_str(out, "&amp;");
        } else if c == '<' {
            push_str(out, "&lt;");
        } else if c == '>' {
            push_str(out, "&gt;");
        } else if c == '"' {
            push_str(out, "&quot;");
        } else if c == '\'' {
            push_str(out, "&apos;");
        } else {
            out.push(c);
        }
        assert(value@.take(i + 1).drop_last() == value@.take(i as int));
        i += 1;
    }
    assert(value@.take(value.len() as int) == value@);
}

/// The text with XML special characters escaped.
pub fn xml_escape(value: &[char]) -> (r: Vec<char>)
    ensures
        r@ == spec_xml_escape(value@),
{
    let mut r: Vec<char> = Vec::new();
    push_xml_escaped(&mut r, value);
    r
}

/// Whether a text names one of the dynamics MusicXML writes as an element.
pub open spec fn is_dynamic_mark(v: Seq<char>) -> bool {
    v == "pppppp"@
    || v == "ppppp"@
    || v == "pppp"@
    || v == "ppp"@
    || v == "pp"@
    || v == "p"@
    || v == "mp"@
    || v == "mf"@
    || v == "f"@
    || v == "ff"@
    || v == "fff"@
    || v == "ffff"@
    || v == "fp"@
    || v == "sf"@
    || v == "sfp"@
    || v == "sfz"@
    || v == "rfz"@
}

pub fn dynamic_mark(v: &[char]) -> (r: bool)
    ensures
        r == is_dynamic_mark(v@),
{
    chars_eq_str(v, "pppppp")
        || chars_eq_str(v, "ppppp")
        || chars_eq_str(v, "pppp")
        || chars_eq_str(v, "ppp")
        || chars_eq_str(v, "pp")
        || chars_eq_str(v, "p")
        || chars_eq_str(v, "mp")
        || chars_eq_str(v, "mf")
        || chars_eq_str(v, "f")
        || chars_eq_str(v, "ff")
        || chars_eq_str(v, "fff")
        || chars_eq_str(v, "ffff")
        || chars_eq_str(v, "fp")
        || chars_eq_str(v, "sf")
        || chars_eq_str(v, "sfp")
        || chars_eq_str(v, "sfz")
        || chars_eq_str(v, "rfz")
}

pub open spec fn spec_xml_name(v: Seq<char>) -> Seq<char> {
    if is_dynamic_mark(v) {
        v
    } else {
        "mf"@
    }
}

/// The dynamic as an element name, `mf` for anything MusicXML does not know.
pub fn xml_name(value: &[char]) -> (r: Vec<char>)
    ensures
        r@ == spec_xml_name(value@),
{
    if dynamic_mark(value) {
        crate::text::copy_chars(value)
    } else {
        str_to_chars("mf")
    }
}

// ---------------------------------------------------------------------------
// Keys, times, clefs and barlines
// ---------------------------------------------------------------------------

/// Fifths of a major key written `C`, `F#`, `Bb`, ...
pub open spec fn major_key_fifths(key: Seq<char>) -> Option<int> {
    if key == "Cb"@ {
        Some(-7)
    } else if key == "Gb"@ {
        Some(-6)
    } else if key == "Db"@ {
        Some(-5)
    } else if key == "Ab"@ {
        Some(-4)
    } else if key == "Eb"@ {
        Some(-3)
    } else if key == "Bb"@ {
        Some(-2)
    } else if key == "F"@ {
        Some(-1)
    } else if key == "C"@ {
        Some(0)
    } else if key == "G"@ {
        Some(1)
    } else if key == "D"@ {
        Some(2)
    } else if key == "A"@ {
        Some(3)
    } else if key == "E"@ {
        Some(4)
    } else if key == "B"@ {
        Some(5)
    } else if key == "F#"@ {
        Some(6)
    } else if key == "C#"@ {
        Some(7)
    } else {
        None
    }
}

/// Fifths of a minor key written `a`, `f#`, `bb`, ...
pub open spec fn minor_key_fifths(key: Seq<char>) -> Option<int> {
    if key == "ab"@ {
        Some(-7)
    } else if key == "eb"@ {
        Some(-6)
    } else if key == "bb"@ {
        Some(-5)
    } else if key == "f"@ {
        Some(-4)
    } else if key == "c"@ {
        Some(-3)
    } else if key == "g"@ {
        Some(-2)
    } else if key == "d"@ {
        Some(-1)
    } else if key == "a"@ {
        Some(0)
    } else if key == "e"@ {
        Some(1)
    } else if key == "b"@ {
        Some(2)
    } else if key == "f#"@ {
        Some(3)
    } else if key == "c#"@ {
        Some(4)
    } else if key == "g#"@ {
        Some(5)
    } else if key == "d#"@ {
        Some(6)
    } else if key == "a#"@ {
        Some(7)
    } else {
        None
    }
}

fn major_fifths(key: &[char]) -> (r: Option<i64>)
    ensures
        r matches Some(f) ==> major_key_fifths(key@) == Some(f as int),
        r is None ==> major_key_fifths(key@) is None,
{
    if chars_eq_str(key, "Cb") {
        Some(-7)
    } else if chars_eq_str(key, "Gb") {
        Some(-6)
    } else if chars_eq_str(key, "Db") {
        Some(-5)
    } else if chars_eq_str(key, "Ab") {
        Some(-4)
    } else if chars_eq_str(key, "Eb") {
        Some(-3)
    } else if chars_eq_str(key, "Bb") {
        Some(-2)
    } else if chars_eq_str(key, "F") {
        Some(-1)
    } else if chars_eq_str(key, "C") {
        Some(0)
    } else if chars_eq_str(key, "G") {
        Some(1)
    } else if chars_eq_str(key, "D") {
        Some(2)
    } else if chars_eq_str(key, "A") {
        Some(3)
    } else if chars_eq_str(key, "E") {
        Some(4)
    } else if chars_eq_str(key, "B") {
        Some(5)
    } else if chars_eq_str(key, "F#") {
        Some(6)
    } else if chars_eq_str(key, "C#") {
        Some(7)
    } else {
        None
    }
}

fn minor_fifths(key: &[char]) -> (r: Option<i64>)
    ensures
        r matches Some(f) ==> minor_key_fifths(key@) == Some(f as int),
        r is None ==> minor_key_fifths(key@) is None,
{
    if chars_eq_str(key, "ab") {
        Some(-7)
    } else if chars_eq_str(key, "eb") {
        Some(-6)
    } else if chars_eq_str(key, "bb") {
        Some(-5)
    } else if chars_eq_str(key, "f") {
        Some(-4)
    } else if chars_eq_str(key, "c") {
        Some(-3)
    } else if chars_eq_str(key, "g") {
        Some(-2)
    } else if chars_eq_str(key, "d") {
        Some(-1)
    } else if chars_eq_str(key, "a") {
        Some(0)
    } else if chars_eq_str(key, "e") {
        Some(1)
    } else if chars_eq_str(key, "b") {
        Some(2)
    } else if chars_eq_str(key, "f#") {
        Some(3)
    } else if chars_eq_str(key, "c#") {
        Some(4)
    } else if chars_eq_str(key, "g#") {
        Some(5)
    } else if chars_eq_str(key, "d#") {
        Some(6)
    } else if chars_eq_str(key, "a#") {
        Some(7)
    } else {
        None
    }
}

/// Fifths and mode of a Scorify key: major keys first, then minor keys.
pub open spec fn spec_key_to_musicxml(key: Seq<char>) -> Option<(int, Option<Seq<char>>)> {
    match major_key_fifths(key) {
        Some(f) => Some((f, None)),
        None => match minor_key_fifths(key) {
            Some(f) => Some((f, Some("minor"@))),
            None => None,
        },
    }
}

/// The MusicXML `<fifths>` and `<mode>` of a Scorify key.
pub fn key_to_musicxml(key: &[char]) -> (r: Result<(i64, Option<Vec<char>>), ConvertError>)
    ensures
        match r {
            Ok((f, m)) => spec_key_to_musicxml(key@) == Some((f as int, crate::model::opt_view(m))),
            Err(e) => spec_key_to_musicxml(key@) is None && (e matches ConvertError::InvalidScorify(m) && m@ == "unsupported key '"@
                + key@ + "'"@),
        },
{
    if let Some(f) = major_fifths(key) {
        return Ok((f, None));
    }
    if let Some(f) = minor_fifths(key) {
        return Ok((f, Some(str_to_chars("minor"))));
    }
    Err(invalid_scorify_about("unsupported key '", key, "'"))
}

/// The MusicXML `<time>` element of a Scorify time signature.
pub open spec fn spec_time_to_musicxml(time: Seq<char>) -> Option<Seq<char>> {
    if time == "common"@ {
        Some("<time symbol=\"common\"><beats>4</beats><beat-type>4</beat-type></time>"@)
    } else if time == "cut"@ {
        Some("<time symbol=\"cut\"><beats>2</beats><beat-type>2</beat-type></time>"@)
    } else {
        match first_index_of(time, '/') {
            Some(k) => Some(
                "<time><beats>"@ + spec_xml_escape(time.take(k)) + "</beats><beat-type>"@
                    + spec_xml_escape(time.skip(k + 1)) + "</beat-type></time>"@,
            ),
            None => None,
        }
    }
}

pub fn time_to_musicxml(time: &[char]) -> (r: Result<Vec<char>, ConvertError>)
    ensures
        match r {
            Ok(x) => spec_time_to_musicxml(time@) == Some(x@),
            Err(e) => spec_time_to_musicxml(time@) is None && (e matches ConvertError::InvalidScorify(m) && m@
                == "unsupported time signature '"@ + time@ + "'"@),
        },
{
    if chars_eq_str(time, "common") {
        return Ok(str_to_chars("<time symbol=\"common\"><beats>4</beats><beat-type>4</beat-type></time>"));
    }
    if chars_eq_str(time, "cut") {
        return Ok(str_to_chars("<time symbol=\"cut\"><beats>2</beats><beat-type>2</beat-type></time>"));
    }
    match find_char(time, '/') {
        Some(k) => {
            let beats = slice_chars(time, 0, k);
            let beat_type = slice_chars(time, k + 1, time.len());
            assert(beats@ == time@.take(k as int));
            assert(beat_type@ == time@.skip(k + 1));
            let mut out = str_to_chars("<time><beats>");
            push_xml_escaped(&mut out, beats.as_slice());
            push_str(&mut out, "</beats><beat-type>");
            push_xml_escaped(&mut out, beat_type.as_slice());
            push_str(&mut out, "</beat-type></time>");
            Ok(out)
        },
        None => Err(invalid_scorify_about("unsupported time signature '", time, "'")),
    }
}

/// Sign, line and octave change of a Scorify clef.
pub open spec fn clef_body(clef: Seq<char>) -> Option<Seq<char>> {
    if clef == "treble"@ {
        Some("<sign>G</sign><line>2</line>"@)
    } else if clef == "bass"@ {
        Some("<sign>F</sign><line>4</line>"@)
    } else if clef == "alto"@ {
        Some("<sign>C</sign><line>3</line>"@)
    } else if clef == "tenor"@ {
        Some("<sign>C</sign><line>4</line>"@)
    } else if clef == "percussion"@ {
        Some("<sign>percussion</sign><line>2</line>"@)
    } else if clef == "treble-8a"@ {
        Some("<sign>G</sign><line>2</line><clef-octave-change>1</clef-octave-change>"@)
    } else if clef == "treble-8b"@ {
        Some("<sign>G</sign><line>2</line><clef-octave-change>-1</clef-octave-change>"@)
    } else if clef == "treble-15a"@ {
        Some("<sign>G</sign><line>2</line><clef-octave-change>2</clef-octave-change>"@)
    } else if clef == "treble-15b"@ {
        Some("<sign>G</sign><line>2</line><clef-octave-change>-2</clef-octave-change>"@)
    } else if clef == "bass-8a"@ {
        Some("<sign>F</sign><line>4</line><clef-octave-change>1</clef-octave-change>"@)
    } else if clef == "bass-8b"@ {
        Some("<sign>F</sign><line>4</line><clef-octave-change>-1</clef-octave-change>"@)
    } else if clef == "bass-15a"@ {
        Some("<sign>F</sign><line>4</line><clef-octave-change>2</clef-octave-change>"@)
    } else if clef == "bass-15b"@ {
        Some("<sign>F</sign><line>4</line><clef-octave-change>-2</clef-octave-change>"@)
    } else {
        None
    }
}

fn clef_body_of(clef: &[char]) -> (r: Option<&'static str>)
    ensures
        r matches Some(b) ==> clef_body(clef@) == Some(b@),
        r is None ==> clef_body(clef@) is None,
{
    if chars_eq_str(clef, "treble") {
        Some("<sign>G</sign><line>2</line>")
    } else if chars_eq_str(clef, "bass") {
        Some("<sign>F</sign><line>4</line>")
    } else if chars_eq_str(clef, "alto") {
        Some("<sign>C</sign><line>3</line>")
    } else if chars_eq_str(clef, "tenor") {
        Some("<sign>C</sign><line>4</line>")
    } else if chars_eq_str(clef, "percussion") {
        Some("<sign>percussion</sign><line>2</line>")
    } else if chars_eq_str(clef, "treble-8a") {
        Some("<sign>G</sign><line>2</line><clef-octave-change>1</clef-octave-change>")
    } else if chars_eq_str(clef, "treble-8b") {
        Some("<sign>G</sign><line>2</line><clef-octave-change>-1</clef-octave-change>")
    } else if chars_eq_str(clef, "treble-15a") {
        Some("<sign>G</sign><line>2</line><clef-octave-change>2</clef-octave-change>")
    } else if chars_eq_str(clef, "treble-15b") {
        Some("<sign>G</sign><line>2</line><clef-octave-change>-2</clef-octave-change>")
    } else if chars_eq_str(clef, "bass-8a") {
        Some("<sign>F</sign><line>4</line><clef-octave-change>1</clef-octave-change>")
    } else if chars_eq_str(clef, "bass-8b") {
        Some("<sign>F</sign><line>4</line><clef-octave-change>-1</clef-octave-change>")
    } else if chars_eq_str(clef, "bass-15a") {
        Some("<sign>F</sign><line>4</line><clef-octave-change>2</clef-octave-change>")
    } else if chars_eq_str(clef, "bass-15b") {
        Some("<sign>F</sign><line>4</line><clef-octave-change>-2</clef-octave-change>")
    } else {
        None
    }
}

pub open spec fn number_attr(number: Option<usize>) -> Seq<char> {
    match number {
        Some(n) => " number=\""@ + decimal(n as nat) + "\""@,
        None => seq![],
    }
}

/// The MusicXML `<clef>` element, numbered where the part has several staves.
pub open spec fn spec_clef_to_musicxml(clef: Seq<char>, number: Option<usize>) -> Option<Seq<char>> {
    match clef_body(clef) {
        Some(b) => Some("<clef"@ + number_attr(number) + ">"@ + b + "</clef>"@),
        None => None,
    }
}

pub fn clef_to_musicxml(clef: &[char], number: Option<usize>) -> (r: Result<Vec<char>, ConvertError>)
    ensures
        match r {
            Ok(x) => spec_clef_to_musicxml(clef@, number) == Some(x@),
            Err(e) => spec_clef_to_musicxml(clef@, number) is None && (e matches ConvertError::InvalidScorify(m) && m@
                == "unsupported clef '"@ + clef@ + "'"@),
        },
{
    let body = match clef_body_of(clef) {
        Some(b) => b,
        None => {
            return Err(invalid_scorify_about("unsupported clef '", clef, "'"));
        },
    };
    let mut out = str_to_chars("<clef");
    if let Some(n) = number {
        push_str(&mut out, " number=\"");
        push_usize(&mut out, n);
        push_str(&mut out, "\"");
    }
    push_str(&mut out, ">");
    push_str(&mut out, body);
    push_str(&mut out, "</clef>");
    Ok(out)
}

pub open spec fn spaces(n: nat) -> Seq<char> {
    Seq::new(n, |_i: int| ' ')
}

/// The `<barline>` line for a barline token; empty for a plain `|`.
pub open spec fn spec_barline_xml(indent: nat, location: Seq<char>, barline: Seq<char>) -> Seq<char> {
    let open = spaces(indent) + "<barline location=\""@ + location + "\">"@;
    if barline == "|:"@ {
        open + "<bar-style>heavy-light</bar-style><repeat direction=\"forward\"/></barline>\n"@
    } else if barline == ":|"@ {
        open + "<bar-style>light-heavy</bar-style><repeat direction=\"backward\"/></barline>\n"@
    } else if barline == "||"@ {
        open + "<bar-style>light-light</bar-style></barline>\n"@
    } else if barline == "|."@ {
        open + "<bar-style>light-heavy</bar-style></barline>\n"@
    } else {
        seq![]
    }
}

/// Appends the `<barline>` element for a barline token.
pub fn emit_barline(out: &mut Vec<char>, indent: usize, location: &[char], barline: &[char])
    ensures
        final(out)@ == old(out)@ + spec_barline_xml(indent as nat, location@, barline@),
{
    let tail: &str = if chars_eq_str(barline, "|:") {
        "<bar-style>heavy-light</bar-style><repeat direction=\"forward\"/></barline>\n"
    } else if chars_eq_str(barline, ":|") {
        "<bar-style>light-heavy</bar-style><repeat direction=\"backward\"/></barline>\n"
    } else if chars_eq_str(barline, "||") {
        "<bar-style>light-light</bar-style></barline>\n"
    } else if chars_eq_str(barline, "|.") {
        "<bar-style>light-heavy</bar-style></barline>\n"
    } else {
        return;
    };
    push_repeat(out, ' ', indent);
    push_str(out, "<barline location=\"");
    push_chars(out, location);
    push_str(out, "\">");
    push_str(out, tail);
    assert(final(out)@ == old(out)@ + spec_barline_xml(indent as nat, location@, barline@));
}

// ---------------------------------------------------------------------------
// Chord symbols
// ---------------------------------------------------------------------------

/// Step (upper case), alteration and the rest of a chord root such as `F#m7`.
pub open spec fn spec_chord_root(v: Seq<char>) -> Option<(char, int, Seq<char>)> {
    if v.len() == 0 || !is_ascii_alpha(v[0]) {
        None
    } else {
        let rest = v.skip(1);
        if starts_with(rest, "##"@) {
            Some((to_upper(v[0]), 2, rest.skip(2)))
        } else if starts_with(rest, "bb"@) {
            Some((to_upper(v[0]), -2, rest.skip(2)))
        } else if starts_with(rest, "#"@) {
            Some((to_upper(v[0]), 1, rest.skip(1)))
        } else if starts_with(rest, "b"@) {
            Some((to_upper(v[0]), -1, rest.skip(1)))
        } else {
            Some((to_upper(v[0]), 0, rest))
        }
    }
}

proof fn lemma_has_at_skip(t: Seq<char>, k: int, p: Seq<char>)
    requires
        0 <= k <= t.len(),
    ensures
        starts_with(t.skip(k), p) == has_at(t, k, p),
{
    if has_at(t, k, p) {
        assert(t.skip(k).subrange(0, p.len() as int) =~= t.subrange(k, k + p.len()));
    }
    if starts_with(t.skip(k), p) {
        assert(t.skip(k).subrange(0, p.len() as int) =~= t.subrange(k, k + p.len()));
    }
}

/// Reads the root of a chord symbol.
pub fn parse_chord_root(value: &[char]) -> (r: Result<(char, i64, Vec<char>), ConvertError>)
    ensures
        match r {
            Ok((step, alter, suffix)) => spec_chord_root(value@) == Some((step, alter as int, suffix@)),
            Err(e) => spec_chord_root(value@) is None && (e matches ConvertError::InvalidScorify(m) && m@
                == "invalid chord symbol '"@ + value@ + "'"@),
        },
{
    if value.len() == 0 || !char_is_ascii_alpha(value[0]) {
        return Err(invalid_scorify_about("invalid chord symbol '", value, "'"));
    }
    let step = char_to_upper(value[0]);
    proof {
        reveal_strlit("##");
        reveal_strlit("bb");
        reveal_strlit("#");
        reveal_strlit("b");
        lemma_has_at_skip(value@, 1, "##"@);
        lemma_has_at_skip(value@, 1, "bb"@);
        lemma_has_at_skip(value@, 1, "#"@);
        lemma_has_at_skip(value@, 1, "b"@);
    }
    let (alter, from): (i64, usize) = if has_str_at(value, 1, "##") {
        (2, 3)
    } else if has_str_at(value, 1, "bb") {
        (-2, 3)
    } else if has_str_at(value, 1, "#") {
        (1, 2)
    } else if has_str_at(value, 1, "b") {
        (-1, 2)
    } else {
        (0, 1)
    };
    let suffix = slice_chars(value, from, value.len());
    assert(suffix@ =~= value@.skip(from as int));
    assert(from == 3 ==> value@.skip(1).skip(2) =~= value@.skip(3));
    assert(from == 2 ==> value@.skip(1).skip(1) =~= value@.skip(2));
    Ok((step, alter, suffix))
}

/// Root, suffix and optional bass of a chord symbol `root[suffix][/bass]`.
pub open spec fn spec_chord_symbol(chord: Seq<char>) -> Option<((char, int), Seq<char>, Option<(char, int)>)> {
    let (main, bass): (Seq<char>, Option<Seq<char>>) = match first_index_of(chord, '/') {
        Some(k) => (chord.take(k), Some(chord.skip(k + 1))),
        None => (chord, None),
    };
    match spec_chord_root(main) {
        Some((step, alter, suffix)) => match bass {
            Some(b) => match spec_chord_root(b) {
                Some((bstep, balter, _)) => Some(((step, alter), suffix, Some((bstep, balter)))),
                None => None,
            },
            None => Some(((step, alter), suffix, None)),
        },
        None => None,
    }
}

/// The message of a chord symbol that does not read: its part before `/`,
/// or else the part after it, is no root.
pub open spec fn chord_symbol_message(chord: Seq<char>) -> Seq<char> {
    match first_index_of(chord, '/') {
        Some(k) => if spec_chord_root(chord.take(k)) is None {
            "invalid chord symbol '"@ + chord.take(k) + "'"@
        } else {
            "invalid chord symbol '"@ + chord.skip(k + 1) + "'"@
        },
        None => "invalid chord symbol '"@ + chord + "'"@,
    }
}

/// Splits a chord symbol into root, suffix and bass.
pub fn parse_chord_symbol(chord: &[char]) -> (r: Result<((char, i64), Vec<char>, Option<(char, i64)>), ConvertError>)
    ensures
        match r {
            Ok(((step, alter), suffix, bass)) => spec_chord_symbol(chord@) == Some(
                (
                    (step, alter as int),
                    suffix@,
                    match bass {
                        Some((bs, ba)) => Some((bs, ba as int)),
                        None => None,
                    },
                ),
            ),
            Err(e) => spec_chord_symbol(chord@) is None && (e matches ConvertError::InvalidScorify(m) && m@
                == chord_symbol_message(chord@)),
        },
{
    let (main, bass) = match find_char(chord, '/') {
        Some(k) => {
            let m = slice_chars(chord, 0, k);
            let b = slice_chars(chord, k + 1, chord.len());
            assert(m@ == chord@.take(k as int));
            assert(b@ == chord@.skip(k + 1));
            (m, Some(b))
        },
        None => (crate::text::copy_chars(chord), None),
    };
    let (step, alter, suffix) = parse_chord_root(main.as_slice())?;
    let bass_root = match bass {
        Some(b) => {
            let (bs, ba, _) = parse_chord_root(b.as_slice())?;
            Some((bs, ba))
        },
        None => None,
    };
    Ok(((step, alter), suffix, bass_root))
}

pub open spec fn alter_xml(tag: Seq<char>, alter: int) -> Seq<char> {
    if alter != 0 {
        "<"@ + tag + ">"@ + int_text(alter) + "</"@ + tag + ">"@
    } else {
        seq![]
    }
}

/// The opening of a `<harmony>` element for a chord symbol (its closing tag is left to the caller).
pub open spec fn spec_harmony_to_musicxml(chord: Seq<char>) -> Option<Seq<char>> {
    match spec_chord_symbol(chord) {
        Some(((step, alter), suffix, bass)) => Some(
            "<harmony><root><root-step>"@ + seq![step] + "</root-step>"@ + alter_xml("root-alter"@, alter)
                + "</root>"@ + (if suffix.len() == 0 {
                "<kind>major</kind>"@
            } else {
                "<kind text=\""@ + spec_xml_escape(suffix) + "\">other</kind>"@
            }) + match bass {
                Some((bs, ba)) => "<bass><bass-step>"@ + seq![bs] + "</bass-step>"@ + alter_xml(
                    "bass-alter"@,
                    ba,
                ) + "</bass>"@,
                None => seq![],
            },
        ),
        None => None,
    }
}

fn push_alter(out: &mut Vec<char>, tag: &str, alter: i64)
    ensures
        final(out)@ == old(out)@ + alter_xml(tag@, alter as int),
{
    if alter != 0 {
        push_str(out, "<");
        push_str(out, tag);
        push_str(out, ">");
        push_int(out, alter);
        push_str(out, "</");
        push_str(out, tag);
        push_str(out, ">");
    }
}

/// MusicXML for a chord symbol.
#[verifier::rlimit(30)]
pub fn harmony_to_musicxml(chord: &[char]) -> (r: Result<Vec<char>, ConvertError>)
    ensures
        match r {
            Ok(x) => spec_harmony_to_musicxml(chord@) == Some(x@),
            Err(e) => spec_harmony_to_musicxml(chord@) is None && (e matches ConvertError::InvalidScorify(m) && m@
                == chord_symbol_message(chord@)),
        },
{
    let ((step, alter), suffix, bass) = parse_chord_symbol(chord)?;
    let mut out = str_to_chars("<harmony><root><root-step>");
    out.push(step);
    push_str(&mut out, "</root-step>");
    push_alter(&mut out, "root-alter", alter);
    push_str(&mut out, "</root>");
    if suffix.len() == 0 {
        push_str(&mut out, "<kind>major</kind>");
    } else {
        push_str(&mut out, "<kind text=\"");
        push_xml_escaped(&mut out, suffix.as_slice());
        push_str(&mut out, "\">other</kind>");
    }
    if let Some((bs, ba)) = bass {
        push_str(&mut out, "<bass><bass-step>");
        out.push(bs);
        push_str(&mut out, "</bass-step>");
        push_alter(&mut out, "bass-alter", ba);
        push_str(&mut out, "</bass>");
    }
    proof {
        let ghost spec = spec_harmony_to_musicxml(chord@);
        assert(spec is Some);
        assert(out@ =~= spec.unwrap());
    }
    Ok(out)
}

// ---------------------------------------------------------------------------
// Lyrics, pitches and notations
// ---------------------------------------------------------------------------

/// `s` without its trailing run of `c`.
pub open spec fn strip_trailing(s: Seq<char>, c: char) -> Seq<char>
    decreases s.len(),
{
    if s.len() > 0 && s.last() == c {
        strip_trailing(s.drop_last(), c)
    } else {
        s
    }
}

/// Syllabic value and text of a Scorify lyric: a trailing `-` begins a word,
/// trailing `_` extenders are dropped from the text.
pub open spec fn spec_lyric_text_to_musicxml(text: Seq<char>) -> (Option<Seq<char>>, Seq<char>) {
    if ends_with(text, "-"@) {
        (Some("begin"@), text.drop_last())
    } else if ends_with(text, "_"@) {
        (Some("single"@), strip_trailing(text, '_'))
    } else {
        (Some("single"@), text)
    }
}

/// Splits a Scorify lyric into its MusicXML syllabic value and text.
pub fn lyric_text_to_musicxml(text: &[char]) -> (r: (Option<Vec<char>>, Vec<char>))
    ensures
        (crate::model::opt_view(r.0), r.1@) == spec_lyric_text_to_musicxml(text@),
{
    proof {
        reveal_strlit("-");
        reveal_strlit("_");
    }
    if ends_with_str(text, "-") {
        assert(text@.subrange(0, text@.len() - 1) == text@.drop_last());
        return (Some(str_to_chars("begin")), slice_chars(text, 0, text.len() - 1));
    }
    if ends_with_str(text, "_") {
        let mut end = text.len();
        assert(text@.take(end as int) == text@);
        while end > 0 && text[end - 1] == '_'
            invariant
                end <= text.len(),
                strip_trailing(text@, '_') == strip_trailing(text@.take(end as int), '_'),
            decreases end,
        {
            assert(text@.take(end as int).drop_last() == text@.take(end - 1));
            end -= 1;
        }
        assert(text@.take(end as int) == text@.subrange(0, end as int));
        return (Some(str_to_chars("single")), slice_chars(text, 0, end));
    }
    (Some(str_to_chars("single")), crate::text::copy_chars(text))
}

/// MusicXML `<lyric>` element of a lyric.
pub open spec fn spec_lyric_to_musicxml(lyric: LyricView) -> Seq<char> {
    let (syllabic, text) = spec_lyric_text_to_musicxml(lyric.text);
    "<lyric"@ + match lyric.verse {
        Some(v) => " number=\""@ + decimal(v as nat) + "\""@,
        None => seq![],
    } + ">"@ + match syllabic {
        Some(s) => "<syllabic>"@ + s + "</syllabic>"@,
        None => seq![],
    } + "<text>"@ + spec_xml_escape(text) + "</text>"@ + (if ends_with(lyric.text, "_"@) {
        "<extend/>"@
    } else {
        seq![]
    }) + "</lyric>"@
}

pub fn lyric_to_musicxml(lyric: &LyricToken) -> (r: Vec<char>)
    ensures
        r@ == spec_lyric_to_musicxml(lyric@),
{
    let mut out = str_to_chars("<lyric");
    if let Some(v) = lyric.verse {
        push_str(&mut out, " number=\"");
        push_decimal(&mut out, v as u64);
        push_str(&mut out, "\"");
    }
    push_str(&mut out, ">");
    let (syllabic, text) = lyric_text_to_musicxml(lyric.text.as_slice());
    if let Some(s) = syllabic {
        push_str(&mut out, "<syllabic>");
        push_chars(&mut out, s.as_slice());
        push_str(&mut out, "</syllabic>");
    }
    push_str(&mut out, "<text>");
    push_xml_escaped(&mut out, text.as_slice());
    push_str(&mut out, "</text>");
    if ends_with_str(lyric.text.as_slice(), "_") {
        push_str(&mut out, "<extend/>");
    }
    push_str(&mut out, "</lyric>");
    proof {
        assert(out@ =~= spec_lyric_to_musicxml(lyric@));
    }
    out
}

/// MusicXML `<pitch>` element of a pitch.
pub open spec fn spec_pitch_to_musicxml(p: PitchView) -> Seq<char> {
    "<pitch><step>"@ + seq![to_upper(p.step)] + "</step>"@ + alter_xml("alter"@, p.alter) + "<octave>"@
        + int_text(p.octave) + "</octave></pitch>"@
}

pub fn pitch_to_musicxml(pitch: &PitchToken) -> (r: Vec<char>)
    ensures
        r@ == spec_pitch_to_musicxml(pitch@),
{
    let mut out = str_to_chars("<pitch><step>");
    out.push(char_to_upper(pitch.step));
    push_str(&mut out, "</step>");
    push_alter(&mut out, "alter", pitch.alter);
    push_str(&mut out, "<octave>");
    push_int(&mut out, pitch.octave);
    push_str(&mut out, "</octave></pitch>");
    proof {
        assert(out@ =~= spec_pitch_to_musicxml(pitch@));
    }
    out
}

pub open spec fn articulation_xml(a: Articulation) -> Seq<char> {
    match a {
        Articulation::Accent => "<accent/>"@,
        Articulation::Staccato => "<staccato/>"@,
        Articulation::Tenuto => "<tenuto/>"@,
        Articulation::Fermata => "<fermata/>"@,
    }
}

pub open spec fn articulations_xml(s: Seq<Articulation>) -> Seq<char>
    decreases s.len(),
{
    if s.len() == 0 {
        seq![]
    } else {
        articulations_xml(s.drop_last()) + articulation_xml(s.last())
    }
}

/// Contents of a note's `<notations>` element (empty when it has none).
pub open spec fn spec_note_notations(note: NoteView, tie_stop: bool) -> Seq<char> {
    (if note.slur_start {
        "<slur type=\"start\"/>"@
    } else {
        seq![]
    }) + (if note.slur_stop {
        "<slur type=\"stop\"/>"@
    } else {
        seq![]
    }) + (if note.tie_start {
        "<tied type=\"start\"/>"@
    } else {
        seq![]
    }) + (if tie_stop {
        "<tied type=\"stop\"/>"@
    } else {
        seq![]
    }) + (if note.articulations.len() > 0 {
        "<articulations>"@ + articulations_xml(note.articulations) + "</articulations>"@
    } else {
        seq![]
    })
}

pub fn note_notations(note: &NoteToken, tie_stop: bool) -> (r: Vec<char>)
    ensures
        r@ == spec_note_notations(note@, tie_stop),
{
    let mut out: Vec<char> = Vec::new();
    if note.slur_start {
        push_str(&mut out, "<slur type=\"start\"/>");
    }
    if note.slur_stop {
        push_str(&mut out, "<slur type=\"stop\"/>");
    }
    if note.tie_start {
        push_str(&mut out, "<tied type=\"start\"/>");
    }
    if tie_stop {
        push_str(&mut out, "<tied type=\"stop\"/>");
    }
    let ghost before = out@;
    if note.articulations.len() > 0 {
        push_str(&mut out, "<articulations>");
        let ghost mid = out@;
        let mut i: usize = 0;
        while i < note.articulations.len()
            invariant
                i <= note.articulations.len(),
                out@ == mid + articulations_xml(note.articulations@.take(i as int)),
            decreases note.articulations.len() - i,
        {
            let a = note.articulations[i];
            match a {
                Articulation::Accent => push_str(&mut out, "<accent/>"),
                Articulation::Staccato => push_str(&mut out, "<staccato/>"),
                Articulation::Tenuto => push_str(&mut out, "<tenuto/>"),
                Articulation::Fermata => push_str(&mut out, "<fermata/>"),
            }
            assert(note.articulations@.take(i + 1).drop_last() == note.articulations@.take(i as int));
            i += 1;
        }
        assert(note.articulations@.take(note.articulations.len() as int) == note.articulations@);
        push_str(&mut out, "</articulations>");
    }
    proof {
        assert(out@ =~= spec_note_notations(note@, tie_stop));
    }
    out
}

/// `step:alter:octave` of one pitch.
pub open spec fn pitch_signature(p: PitchView) -> Seq<char> {
    seq![p.step] + ":"@ + int_text(p.alter) + ":"@ + int_text(p.octave)
}

/// Signatures of the pitches of a chord, joined by `|`.
pub open spec fn pitches_signature(ps: Seq<PitchView>) -> Seq<char>
    decreases ps.len(),
{
    if ps.len() == 0 {
        seq![]
    } else if ps.len() == 1 {
        pitch_signature(ps[0])
    } else {
        pitches_signature(ps.drop_last()) + "|"@ + pitch_signature(ps.last())
    }
}

/// The text that identifies a note's pitches when matching the two ends of a tie.
pub fn note_signature(note: &NoteToken) -> (r: Vec<char>)
    ensures
        r@ == pitches_signature(note@.pitches),
{
    let mut out: Vec<char> = Vec::new();
    let mut i: usize = 0;
    while i < note.pitches.len()
        invariant
            i <= note.pitches.len(),
            out@ == pitches_signature(note@.pitches.take(i as int)),
        decreases note.pitches.len() - i,
    {
        if i > 0 {
            push_str(&mut out, "|");
        }
        let p = &note.pitches[i];
        out.push(p.step);
        push_str(&mut out, ":");
        push_int(&mut out, p.alter);
        push_str(&mut out, ":");
        push_int(&mut out, p.octave);
        proof {
            let ps = note@.pitches.take(i + 1);
            assert(ps.drop_last() == note@.pitches.take(i as int));
            assert(ps.last() == p@);
            if i == 0 {
                assert(out@ =~= pitch_signature(p@));
            } else {
                assert(out@ =~= pitches_signature(ps.drop_last()) + "|"@ + pitch_signature(ps.last()));
            }
        }
        i += 1;
    }
    assert(note@.pitches.take(note.pitches.len() as int) == note@.pitches);
    out
}

} // verus!
