//! Reading the pieces of a MusicXML score: keys, times, clefs, barlines,
//! harmonies, directions, lyrics and notes.
use vstd::prelude::*;

use crate::model::{
    opt_view, Articulation, LyricToken, LyricView, NoteToken, NoteView, PitchToken, PitchView, Token,
    TokenView,
};
use crate::scorify_tokens::{clef_base_octave, spec_clef_base_octave};
use crate::musicxml_parts::{dynamic_mark, is_dynamic_mark};
use crate::text::{
    char_is_whitespace, char_to_lower, chars_eq_str, copy_chars, is_ws, parse_u32, parse_u32_chars,
    parse_usize, parse_usize_chars, push_chars, push_str, str_to_chars, to_lower, trim, trim_chars,
};
use crate::xml::{
    count_children, count_tagged, has_child, attribute, attribute_of, child_i32, child_text, desc_end,
    descendants_end, find_child, first_child, first_child_i32, first_child_text, has_tag, kids,
    node_has_tag, node_kids, node_text, nodes_view, text_of, XmlNode, XmlNodeView,
};

verus! {

// ---------------------------------------------------------------------------
// Comparing without regard to ASCII case
// ---------------------------------------------------------------------------

/// `str::eq_ignore_ascii_case`.
pub open spec fn eq_ignore_case(a: Seq<char>, b: Seq<char>) -> bool {
    a.len() == b.len() && forall|i: int| 0 <= i < a.len() ==> to_lower(#[trigger] a[i]) == to_lower(b[i])
}

pub fn chars_eq_ignore_case(a: &[char], b: &str) -> (r: bool)
    ensures
        r == eq_ignore_case(a@, b@),
{
    let bv = str_to_chars(b);
    if a.len() != bv.len() {
        return false;
    }
    let mut i: usize = 0;
    while i < a.len()
        invariant
            i <= a@.len() == bv@.len(),
            bv@ == b@,
            forall|j: int| 0 <= j < i ==> to_lower(#[trigger] a@[j]) == to_lower(bv@[j]),
        decreases a@.len() - i,
    {
        if char_to_lower(a[i]) != char_to_lower(bv[i]) {
            return false;
        }
        i += 1;
    }
    true
}

/// Whether an optional text equals `b` without regard to ASCII case.
pub open spec fn opt_eq_ignore_case(a: Option<Seq<char>>, b: Seq<char>) -> bool {
    match a {
        Some(x) => eq_ignore_case(x, b),
        None => false,
    }
}

pub fn opt_chars_eq_ignore_case(a: &Option<Vec<char>>, b: &str) -> (r: bool)
    ensures
        r == opt_eq_ignore_case(opt_view(*a), b@),
{
    match a {
        Some(x) => chars_eq_ignore_case(x.as_slice(), b),
        None => false,
    }
}

// ---------------------------------------------------------------------------
// Keys, times, clefs and barlines
// ---------------------------------------------------------------------------

/// The Scorify key of a number of fifths in major or minor, if there is one.
pub open spec fn key_of_fifths(fifths: int, minor: bool) -> Option<Seq<char>> {
    if !minor {
        if fifths == -7 { Some("Cb"@) }
        else if fifths == -6 { Some("Gb"@) }
        else if fifths == -5 { Some("Db"@) }
        else if fifths == -4 { Some("Ab"@) }
        else if fifths == -3 { Some("Eb"@) }
        else if fifths == -2 { Some("Bb"@) }
        else if fifths == -1 { Some("F"@) }
        else if fifths == 0 { Some("C"@) }
        else if fifths == 1 { Some("G"@) }
        else if fifths == 2 { Some("D"@) }
        else if fifths == 3 { Some("A"@) }
        else if fifths == 4 { Some("E"@) }
        else if fifths == 5 { Some("B"@) }
        else if fifths == 6 { Some("F#"@) }
        else if fifths == 7 { Some("C#"@) }
        else { None }
    } else {
        if fifths == -7 { Some("ab"@) }
        else if fifths == -6 { Some("eb"@) }
        else if fifths == -5 { Some("bb"@) }
        else if fifths == -4 { Some("f"@) }
        else if fifths == -3 { Some("c"@) }
        else if fifths == -2 { Some("g"@) }
        else if fifths == -1 { Some("d"@) }
        else if fifths == 0 { Some("a"@) }
        else if fifths == 1 { Some("e"@) }
        else if fifths == 2 { Some("b"@) }
        else if fifths == 3 { Some("f#"@) }
        else if fifths == 4 { Some("c#"@) }
        else if fifths == 5 { Some("g#"@) }
        else if fifths == 6 { Some("d#"@) }
        else if fifths == 7 { Some("a#"@) }
        else { None }
    }
}

fn key_name(fifths: i32, minor: bool) -> (r: Option<&'static str>)
    ensures
        match r {
            Some(s) => key_of_fifths(fifths as int, minor) == Some(s@),
            None => key_of_fifths(fifths as int, minor) is None,
        },
{
    if !minor {
        match fifths {
            -7 => Some("Cb"),
            -6 => Some("Gb"),
            -5 => Some("Db"),
            -4 => Some("Ab"),
            -3 => Some("Eb"),
            -2 => Some("Bb"),
            -1 => Some("F"),
            0 => Some("C"),
            1 => Some("G"),
            2 => Some("D"),
            3 => Some("A"),
            4 => Some("E"),
            5 => Some("B"),
            6 => Some("F#"),
            7 => Some("C#"),
            _ => None,
        }
    } else {
        match fifths {
            -7 => Some("ab"),
            -6 => Some("eb"),
            -5 => Some("bb"),
            -4 => Some("f"),
            -3 => Some("c"),
            -2 => Some("g"),
            -1 => Some("d"),
            0 => Some("a"),
            1 => Some("e"),
            2 => Some("b"),
            3 => Some("f#"),
            4 => Some("c#"),
            5 => Some("g#"),
            6 => Some("d#"),
            7 => Some("a#"),
            _ => None,
        }
    }
}

/// The Scorify key of a `<key>` element: its fifths in major, or in minor
/// when its mode says so.
pub open spec fn spec_parse_key(d: Seq<XmlNodeView>, k: int) -> Option<Seq<char>> {
    match first_child_i32(d, k, "fifths"@) {
        Some(fifths) => {
            let mode = match first_child_text(d, k, "mode"@) {
                Some(m) => m,
                None => "major"@,
            };
            key_of_fifths(fifths, eq_ignore_case(mode, "minor"@))
        },
        None => None,
    }
}

pub fn parse_key(nodes: &Vec<XmlNode>, k: usize) -> (r: Option<Vec<char>>)
    ensures
        opt_view(r) == spec_parse_key(nodes_view(nodes@), k as int),
{
    let fifths = child_i32(nodes, k, "fifths")?;
    let mode = match child_text(nodes, k, "mode") {
        Some(m) => m,
        None => str_to_chars("major"),
    };
    let minor = chars_eq_ignore_case(mode.as_slice(), "minor");
    match key_name(fifths, minor) {
        Some(s) => Some(str_to_chars(s)),
        None => None,
    }
}

/// The Scorify time signature of a `<time>` element.
pub open spec fn spec_parse_time(d: Seq<XmlNodeView>, t: int) -> Option<Seq<char>> {
    let symbol = attribute(d, t, "symbol"@);
    if opt_eq_ignore_case(symbol, "common"@) {
        Some("common"@)
    } else if opt_eq_ignore_case(symbol, "cut"@) {
        Some("cut"@)
    } else {
        match (first_child_text(d, t, "beats"@), first_child_text(d, t, "beat-type"@)) {
            (Some(beats), Some(beat_type)) => Some(beats + "/"@ + beat_type),
            _ => None,
        }
    }
}

pub fn parse_time(nodes: &Vec<XmlNode>, t: usize) -> (r: Option<Vec<char>>)
    ensures
        opt_view(r) == spec_parse_time(nodes_view(nodes@), t as int),
{
    let symbol = attribute_of(nodes, t, "symbol");
    if opt_chars_eq_ignore_case(&symbol, "common") {
        return Some(str_to_chars("common"));
    }
    if opt_chars_eq_ignore_case(&symbol, "cut") {
        return Some(str_to_chars("cut"));
    }
    let beats = child_text(nodes, t, "beats")?;
    let beat_type = child_text(nodes, t, "beat-type")?;
    let mut out = beats;
    push_str(&mut out, "/");
    push_chars(&mut out, beat_type.as_slice());
    Some(out)
}

/// The Scorify clef of a sign and line, before any octave change.
pub open spec fn clef_base(sign: Seq<char>, line: int) -> Seq<char> {
    if sign == "G"@ && line == 2 {
        "treble"@
    } else if sign == "F"@ && line == 4 {
        "bass"@
    } else if sign == "C"@ && line == 3 {
        "alto"@
    } else if sign == "C"@ && line == 4 {
        "tenor"@
    } else if sign == "percussion"@ || sign == "PERCUSSION"@ {
        "percussion"@
    } else {
        "treble"@
    }
}

/// A base clef with an octave change, where Scorify has one.
pub open spec fn clef_with_octave(base: Seq<char>, change: int) -> Seq<char> {
    if base == "treble"@ && change == 1 {
        "treble-8a"@
    } else if base == "treble"@ && change == -1 {
        "treble-8b"@
    } else if base == "treble"@ && change == 2 {
        "treble-15a"@
    } else if base == "treble"@ && change == -2 {
        "treble-15b"@
    } else if base == "bass"@ && change == 1 {
        "bass-8a"@
    } else if base == "bass"@ && change == -1 {
        "bass-8b"@
    } else if base == "bass"@ && change == 2 {
        "bass-15a"@
    } else if base == "bass"@ && change == -2 {
        "bass-15b"@
    } else {
        base
    }
}

/// The Scorify clef of a `<clef>` element; a G clef on line 2 where parts are missing.
pub open spec fn spec_parse_clef(d: Seq<XmlNodeView>, c: int) -> Seq<char> {
    let sign = match first_child_text(d, c, "sign"@) {
        Some(s) => s,
        None => "G"@,
    };
    let line = match first_child_i32(d, c, "line"@) {
        Some(l) => l,
        None => 2,
    };
    let change = match first_child_i32(d, c, "clef-octave-change"@) {
        Some(o) => o,
        None => 0,
    };
    clef_with_octave(clef_base(sign, line), change)
}

fn base_clef(sign: &[char], line: i32) -> (r: &'static str)
    ensures
        r@ == clef_base(sign@, line as int),
{
    if chars_eq_str(sign, "G") && line == 2 {
        "treble"
    } else if chars_eq_str(sign, "F") && line == 4 {
        "bass"
    } else if chars_eq_str(sign, "C") && line == 3 {
        "alto"
    } else if chars_eq_str(sign, "C") && line == 4 {
        "tenor"
    } else if chars_eq_str(sign, "percussion") || chars_eq_str(sign, "PERCUSSION") {
        "percussion"
    } else {
        "treble"
    }
}

pub fn parse_clef(nodes: &Vec<XmlNode>, c: usize) -> (r: Vec<char>)
    ensures
        r@ == spec_parse_clef(nodes_view(nodes@), c as int),
{
    let sign = match child_text(nodes, c, "sign") {
        Some(s) => s,
        None => str_to_chars("G"),
    };
    let line = match child_i32(nodes, c, "line") {
        Some(l) => l,
        None => 2,
    };
    let change = match child_i32(nodes, c, "clef-octave-change") {
        Some(o) => o,
        None => 0,
    };
    let base = base_clef(sign.as_slice(), line);
    let base_chars = str_to_chars(base);
    let treble = chars_eq_str(base_chars.as_slice(), "treble");
    let bass = chars_eq_str(base_chars.as_slice(), "bass");
    let text: &str = if treble && change == 1 {
        "treble-8a"
    } else if treble && change == -1 {
        "treble-8b"
    } else if treble && change == 2 {
        "treble-15a"
    } else if treble && change == -2 {
        "treble-15b"
    } else if bass && change == 1 {
        "bass-8a"
    } else if bass && change == -1 {
        "bass-8b"
    } else if bass && change == 2 {
        "bass-15a"
    } else if bass && change == -2 {
        "bass-15b"
    } else {
        return base_chars;
    };
    str_to_chars(text)
}

/// The Scorify barline of a `<barline>` element: a repeat sign, else its bar style.
pub open spec fn spec_parse_barline(d: Seq<XmlNodeView>, b: int) -> Seq<char> {
    let repeat = match first_child(d, b, "repeat"@) {
        Some(r) => attribute(d, r, "direction"@),
        None => None,
    };
    if repeat == Some("forward"@) {
        "|:"@
    } else if repeat == Some("backward"@) {
        ":|"@
    } else {
        match first_child_text(d, b, "bar-style"@) {
            Some(style) => if style == "light-heavy"@ {
                "|."@
            } else if style == "light-light"@ {
                "||"@
            } else if style == "heavy-light"@ {
                "|:"@
            } else if style == "heavy-heavy"@ {
                "||"@
            } else {
                "|"@
            },
            None => "|"@,
        }
    }
}

pub fn parse_barline(nodes: &Vec<XmlNode>, b: usize) -> (r: Vec<char>)
    ensures
        r@ == spec_parse_barline(nodes_view(nodes@), b as int),
{
    let repeat = match find_child(nodes, b, "repeat") {
        Some(r) => attribute_of(nodes, r, "direction"),
        None => None,
    };
    if let Some(direction) = &repeat {
        if chars_eq_str(direction.as_slice(), "forward") {
            return str_to_chars("|:");
        }
        if chars_eq_str(direction.as_slice(), "backward") {
            return str_to_chars(":|");
        }
    }
    let text: &str = match child_text(nodes, b, "bar-style") {
        Some(style) => if chars_eq_str(style.as_slice(), "light-heavy") {
            "|."
        } else if chars_eq_str(style.as_slice(), "light-light") {
            "||"
        } else if chars_eq_str(style.as_slice(), "heavy-light") {
            "|:"
        } else if chars_eq_str(style.as_slice(), "heavy-heavy") {
            "||"
        } else {
            "|"
        },
        None => "|",
    };
    str_to_chars(text)
}

// ---------------------------------------------------------------------------
// Harmonies
// ---------------------------------------------------------------------------

/// A text with its spaces removed.
pub open spec fn without_spaces(s: Seq<char>) -> Seq<char>
    decreases s.len(),
{
    if s.len() == 0 {
        s
    } else {
        without_spaces(s.drop_last()) + if s.last() == ' ' {
            Seq::<char>::empty()
        } else {
            seq![s.last()]
        }
    }
}

fn remove_spaces(s: &[char]) -> (r: Vec<char>)
    ensures
        r@ == without_spaces(s@),
{
    let mut out: Vec<char> = Vec::new();
    let mut i: usize = 0;
    assert(s@.take(0) =~= Seq::<char>::empty());
    while i < s.len()
        invariant
            i <= s@.len(),
            out@ == without_spaces(s@.take(i as int)),
        decreases s@.len() - i,
    {
        assert(s@.take(i + 1).drop_last() == s@.take(i as int));
        if s[i] != ' ' {
            out.push(s[i]);
        }
        i += 1;
        assert(out@ =~= without_spaces(s@.take(i as int)));
    }
    assert(s@.take(s@.len() as int) == s@);
    out
}

/// The chord suffix of a MusicXML harmony kind, where it has a fixed one.
pub open spec fn kind_table(k: Seq<char>) -> Option<Seq<char>> {
    if k == ""@ || k == "major"@ || k == "none"@ { Some(""@) }
    else if k == "minor"@ { Some("m"@) }
    else if k == "augmented"@ { Some("aug"@) }
    else if k == "diminished"@ { Some("dim"@) }
    else if k == "dominant"@ { Some("7"@) }
    else if k == "major-seventh"@ { Some("Maj7"@) }
    else if k == "minor-seventh"@ { Some("m7"@) }
    else if k == "diminished-seventh"@ { Some("dim7"@) }
    else if k == "augmented-seventh"@ { Some("aug7"@) }
    else if k == "half-diminished"@ { Some("m7b5"@) }
    else if k == "major-minor"@ { Some("mMaj7"@) }
    else if k == "major-sixth"@ { Some("6"@) }
    else if k == "minor-sixth"@ { Some("m6"@) }
    else if k == "dominant-ninth"@ { Some("9"@) }
    else if k == "major-ninth"@ { Some("Maj9"@) }
    else if k == "minor-ninth"@ { Some("m9"@) }
    else if k == "dominant-11th"@ { Some("11"@) }
    else if k == "major-11th"@ { Some("Maj11"@) }
    else if k == "minor-11th"@ { Some("m11"@) }
    else if k == "dominant-13th"@ { Some("13"@) }
    else if k == "major-13th"@ { Some("Maj13"@) }
    else if k == "minor-13th"@ { Some("m13"@) }
    else if k == "suspended-second"@ { Some("sus2"@) }
    else if k == "suspended-fourth"@ { Some("sus4"@) }
    else if k == "power"@ { Some("5"@) }
    else if k == "Neapolitan"@ { Some("N"@) }
    else if k == "Italian"@ { Some("It+6"@) }
    else if k == "French"@ { Some("Fr+6"@) }
    else if k == "German"@ { Some("Ger+6"@) }
    else if k == "Tristan"@ { Some("Tristan"@) }
    else if k == "other"@ { Some(""@) }
    else { None }
}

fn kind_suffix(k: &[char]) -> (r: Option<&'static str>)
    ensures
        match r {
            Some(x) => kind_table(k@) == Some(x@),
            None => kind_table(k@) is None,
        },
{
    if chars_eq_str(k, "") || chars_eq_str(k, "major") || chars_eq_str(k, "none") { Some("") }
    else if chars_eq_str(k, "minor") { Some("m") }
    else if chars_eq_str(k, "augmented") { Some("aug") }
    else if chars_eq_str(k, "diminished") { Some("dim") }
    else if chars_eq_str(k, "dominant") { Some("7") }
    else if chars_eq_str(k, "major-seventh") { Some("Maj7") }
    else if chars_eq_str(k, "minor-seventh") { Some("m7") }
    else if chars_eq_str(k, "diminished-seventh") { Some("dim7") }
    else if chars_eq_str(k, "augmented-seventh") { Some("aug7") }
    else if chars_eq_str(k, "half-diminished") { Some("m7b5") }
    else if chars_eq_str(k, "major-minor") { Some("mMaj7") }
    else if chars_eq_str(k, "major-sixth") { Some("6") }
    else if chars_eq_str(k, "minor-sixth") { Some("m6") }
    else if chars_eq_str(k, "dominant-ninth") { Some("9") }
    else if chars_eq_str(k, "major-ninth") { Some("Maj9") }
    else if chars_eq_str(k, "minor-ninth") { Some("m9") }
    else if chars_eq_str(k, "dominant-11th") { Some("11") }
    else if chars_eq_str(k, "major-11th") { Some("Maj11") }
    else if chars_eq_str(k, "minor-11th") { Some("m11") }
    else if chars_eq_str(k, "dominant-13th") { Some("13") }
    else if chars_eq_str(k, "major-13th") { Some("Maj13") }
    else if chars_eq_str(k, "minor-13th") { Some("m13") }
    else if chars_eq_str(k, "suspended-second") { Some("sus2") }
    else if chars_eq_str(k, "suspended-fourth") { Some("sus4") }
    else if chars_eq_str(k, "power") { Some("5") }
    else if chars_eq_str(k, "Neapolitan") { Some("N") }
    else if chars_eq_str(k, "Italian") { Some("It+6") }
    else if chars_eq_str(k, "French") { Some("Fr+6") }
    else if chars_eq_str(k, "German") { Some("Ger+6") }
    else if chars_eq_str(k, "Tristan") { Some("Tristan") }
    else if chars_eq_str(k, "other") { Some("") }
    else { None }
}

/// The chord suffix of a harmony kind: its `text` attribute without spaces
/// where that has more than whitespace, else the fixed suffix of the kind,
/// else the kind itself.
pub open spec fn spec_chord_kind_suffix(kind: Seq<char>, text: Option<Seq<char>>) -> Seq<char> {
    let written = match text {
        Some(t) => if trim(t).len() > 0 {
            Some(without_spaces(trim(t)))
        } else {
            None
        },
        None => None,
    };
    match written {
        Some(w) => w,
        None => match kind_table(trim(kind)) {
            Some(x) => x,
            None => trim(kind),
        },
    }
}

pub fn chord_kind_suffix(kind: &[char], text: &Option<Vec<char>>) -> (r: Vec<char>)
    ensures
        r@ == spec_chord_kind_suffix(kind@, opt_view(*text)),
{
    if let Some(t) = text {
        let tr = trim_chars(t.as_slice());
        if tr.len() > 0 {
            return remove_spaces(tr.as_slice());
        }
    }
    let k = trim_chars(kind);
    match kind_suffix(k.as_slice()) {
        Some(x) => str_to_chars(x),
        None => k,
    }
}

/// The accidental of a chord root or bass written after its step.
pub open spec fn alter_suffix(alter: int) -> Seq<char> {
    if alter == 1 {
        "#"@
    } else if alter == -1 {
        "b"@
    } else if alter == 2 {
        "##"@
    } else if alter == -2 {
        "bb"@
    } else {
        ""@
    }
}

fn push_alter_suffix(out: &mut Vec<char>, alter: i32)
    ensures
        final(out)@ == old(out)@ + alter_suffix(alter as int),
{
    let x: &str = if alter == 1 {
        "#"
    } else if alter == -1 {
        "b"
    } else if alter == 2 {
        "##"
    } else if alter == -2 {
        "bb"
    } else {
        ""
    };
    push_str(out, x);
}

pub open spec fn or_zero(v: Option<int>) -> int {
    match v {
        Some(x) => x,
        None => 0,
    }
}

/// The chord symbol of a `<harmony>` element: root step and alteration, the
/// kind's suffix and a `/bass` where there is a bass step.
pub open spec fn spec_harmony_text(d: Seq<XmlNodeView>, h: int) -> Option<Seq<char>> {
    match first_child(d, h, "root"@) {
        Some(root) => match first_child_text(d, root, "root-step"@) {
            Some(step) => {
                let alter = or_zero(first_child_i32(d, root, "root-alter"@));
                let kind_node = first_child(d, h, "kind"@);
                let kind = match kind_node {
                    Some(k) => match node_text(d, k) {
                        Some(t) => t,
                        None => ""@,
                    },
                    None => ""@,
                };
                let kind_text = match kind_node {
                    Some(k) => attribute(d, k, "text"@),
                    None => None,
                };
                let bass = match first_child(d, h, "bass"@) {
                    Some(b) => match first_child_text(d, b, "bass-step"@) {
                        Some(bs) => "/"@ + bs + alter_suffix(or_zero(first_child_i32(d, b, "bass-alter"@))),
                        None => ""@,
                    },
                    None => ""@,
                };
                Some(step + alter_suffix(alter) + spec_chord_kind_suffix(kind, kind_text) + bass)
            },
            None => None,
        },
        None => None,
    }
}

pub fn harmony_text(nodes: &Vec<XmlNode>, h: usize) -> (r: Option<Vec<char>>)
    ensures
        opt_view(r) == spec_harmony_text(nodes_view(nodes@), h as int),
{
    let ghost d = nodes_view(nodes@);
    proof {
        reveal_strlit("");
    }
    let root = find_child(nodes, h, "root")?;
    let step = child_text(nodes, root, "root-step")?;
    let alter = match child_i32(nodes, root, "root-alter") {
        Some(a) => a,
        None => 0,
    };
    let kind_node = find_child(nodes, h, "kind");
    let kind = match kind_node {
        Some(k) => match text_of(nodes, k) {
            Some(t) => t,
            None => Vec::new(),
        },
        None => Vec::new(),
    };
    let kind_text = match kind_node {
        Some(k) => attribute_of(nodes, k, "text"),
        None => None,
    };
    assert(kind@ == match kind_node {
        Some(k) => match node_text(d, k as int) {
            Some(t) => t,
            None => ""@,
        },
        None => ""@,
    });
    let mut text = step;
    push_alter_suffix(&mut text, alter);
    let suffix = chord_kind_suffix(kind.as_slice(), &kind_text);
    push_chars(&mut text, suffix.as_slice());
    let ghost before_bass = text@;
    assert(before_bass == step@ + alter_suffix(alter as int) + spec_chord_kind_suffix(kind@, opt_view(kind_text)));
    if let Some(b) = find_child(nodes, h, "bass") {
        if let Some(bs) = child_text(nodes, b, "bass-step") {
            push_str(&mut text, "/");
            push_chars(&mut text, bs.as_slice());
            let bass_alter = match child_i32(nodes, b, "bass-alter") {
                Some(a) => a,
                None => 0,
            };
            push_alter_suffix(&mut text, bass_alter);
            assert(text@ =~= before_bass + ("/"@ + bs@ + alter_suffix(bass_alter as int)));
        } else {
            assert(text@ =~= before_bass + ""@);
        }
    } else {
        assert(text@ =~= before_bass + ""@);
    }
    Some(text)
}

// ---------------------------------------------------------------------------
// Note types and voices
// ---------------------------------------------------------------------------

/// The Scorify duration of a MusicXML note type.
pub open spec fn spec_type_to_duration(kind: Seq<char>) -> Option<Seq<char>> {
    let k = trim(kind);
    if k == "maxima"@ { Some("maxima"@) }
    else if k == "long"@ || k == "longa"@ { Some("longa"@) }
    else if k == "breve"@ { Some("breve"@) }
    else if k == "whole"@ { Some("1"@) }
    else if k == "half"@ { Some("2"@) }
    else if k == "quarter"@ { Some("4"@) }
    else if k == "eighth"@ { Some("8"@) }
    else if k == "16th"@ { Some("16"@) }
    else if k == "32nd"@ { Some("32"@) }
    else if k == "64th"@ { Some("64"@) }
    else if k == "128th"@ { Some("128"@) }
    else { None }
}

pub fn type_to_duration(kind: &[char]) -> (r: Option<Vec<char>>)
    ensures
        opt_view(r) == spec_type_to_duration(kind@),
{
    let k = trim_chars(kind);
    let x: &str = if chars_eq_str(k.as_slice(), "maxima") { "maxima" }
    else if chars_eq_str(k.as_slice(), "long") || chars_eq_str(k.as_slice(), "longa") { "longa" }
    else if chars_eq_str(k.as_slice(), "breve") { "breve" }
    else if chars_eq_str(k.as_slice(), "whole") { "1" }
    else if chars_eq_str(k.as_slice(), "half") { "2" }
    else if chars_eq_str(k.as_slice(), "quarter") { "4" }
    else if chars_eq_str(k.as_slice(), "eighth") { "8" }
    else if chars_eq_str(k.as_slice(), "16th") { "16" }
    else if chars_eq_str(k.as_slice(), "32nd") { "32" }
    else if chars_eq_str(k.as_slice(), "64th") { "64" }
    else if chars_eq_str(k.as_slice(), "128th") { "128" }
    else { return None; };
    Some(str_to_chars(x))
}

/// The staff a voice number suggests: voices 5 and up belong to the second staff.
pub open spec fn spec_staff_from_voice(voice: Option<Seq<char>>) -> Option<int> {
    match voice {
        Some(v) => match parse_usize(v) {
            Some(n) => Some(if n >= 5 { 2int } else { 1int }),
            None => None,
        },
        None => None,
    }
}

pub fn staff_from_voice(voice: &Option<Vec<char>>) -> (r: Option<usize>)
    ensures
        match r {
            Some(s) => spec_staff_from_voice(opt_view(*voice)) == Some(s as int),
            None => spec_staff_from_voice(opt_view(*voice)) is None,
        },
{
    match voice {
        Some(v) => match parse_usize_chars(v.as_slice()) {
            Some(n) => Some(if n >= 5 { 2 } else { 1 }),
            None => None,
        },
        None => None,
    }
}

// ---------------------------------------------------------------------------
// Lyrics
// ---------------------------------------------------------------------------

/// Characters that lyrics write as a plain space.
pub open spec fn is_space_like(c: char) -> bool {
    c == '\u{00a0}' || c == '\u{202f}' || c == '\u{2007}' || c == '\u{feff}' || is_ws(c)
}

/// Lyric text from position `i` on with every kind of space, and the pair
/// `Â` + no-break space that mis-decoded files hold, made one plain space.
pub open spec fn normalize_from(s: Seq<char>, i: int) -> Seq<char>
    decreases s.len() - i,
{
    if i < 0 || i >= s.len() {
        seq![]
    } else if s[i] == '\u{00c2}' && i + 1 < s.len() && s[i + 1] == '\u{00a0}' {
        seq![' '] + normalize_from(s, i + 2)
    } else if is_space_like(s[i]) {
        seq![' '] + normalize_from(s, i + 1)
    } else {
        seq![s[i]] + normalize_from(s, i + 1)
    }
}

pub open spec fn spec_normalize_lyric_text(s: Seq<char>) -> Seq<char> {
    normalize_from(s, 0)
}

pub fn normalize_lyric_text(value: &[char]) -> (r: Vec<char>)
    ensures
        r@ == spec_normalize_lyric_text(value@),
{
    let mut out: Vec<char> = Vec::new();
    let mut i: usize = 0;
    while i < value.len()
        invariant
            i <= value@.len(),
            normalize_from(value@, 0) == out@ + normalize_from(value@, i as int),
        decreases value@.len() - i,
    {
        let ch = value[i];
        if ch == '\u{00c2}' && i + 1 < value.len() && value[i + 1] == '\u{00a0}' {
            out.push(' ');
            i += 2;
        } else if ch == '\u{00a0}' || ch == '\u{202f}' || ch == '\u{2007}' || ch == '\u{feff}' || char_is_whitespace(ch) {
            out.push(' ');
            i += 1;
        } else {
            out.push(ch);
            i += 1;
        }
        assert(normalize_from(value@, 0) =~= out@ + normalize_from(value@, i as int));
    }
    assert(out@ + normalize_from(value@, i as int) =~= out@);
    out
}

/// The text that the child nodes `ks[k..]` of a `<lyric>` give: each `<text>`
/// normalized, each `<extend>` an underscore.
pub open spec fn lyric_pieces(d: Seq<XmlNodeView>, ks: Seq<usize>, k: int) -> Seq<char>
    decreases ks.len() - k,
{
    if k < 0 || k >= ks.len() {
        seq![]
    } else {
        let c = ks[k] as int;
        let piece = if has_tag(d, c, "text"@) {
            spec_normalize_lyric_text(
                match d[c].text {
                    Some(t) => t,
                    None => seq![],
                },
            )
        } else if has_tag(d, c, "extend"@) {
            seq!['_']
        } else {
            seq![]
        };
        piece + lyric_pieces(d, ks, k + 1)
    }
}

/// The syllable of a `<lyric>`, with a hyphen when a word continues after it;
/// nothing when it has no text.
pub open spec fn spec_parse_lyric(d: Seq<XmlNodeView>, l: int) -> Option<Seq<char>> {
    let text = lyric_pieces(d, kids(d, l), 0);
    if text.len() == 0 {
        None
    } else {
        let syllabic = first_child_text(d, l, "syllabic"@);
        if syllabic == Some("begin"@) || syllabic == Some("middle"@) {
            Some(text + "-"@)
        } else {
            Some(text)
        }
    }
}

pub fn parse_lyric(nodes: &Vec<XmlNode>, l: usize) -> (r: Option<Vec<char>>)
    ensures
        opt_view(r) == spec_parse_lyric(nodes_view(nodes@), l as int),
{
    let ghost d = nodes_view(nodes@);
    let ks = node_kids(nodes, l);
    let mut text: Vec<char> = Vec::new();
    let mut k: usize = 0;
    while k < ks.len()
        invariant
            k <= ks@.len(),
            d == nodes_view(nodes@),
            ks@ == kids(d, l as int),
            lyric_pieces(d, ks@, 0) == text@ + lyric_pieces(d, ks@, k as int),
        decreases ks@.len() - k,
    {
        let c = ks[k];
        if node_has_tag(nodes, c, "text") {
            let raw = match &nodes[c].text {
                Some(t) => copy_chars(t.as_slice()),
                None => Vec::new(),
            };
            let n = normalize_lyric_text(raw.as_slice());
            push_chars(&mut text, n.as_slice());
        } else if node_has_tag(nodes, c, "extend") {
            text.push('_');
        }
        k += 1;
        assert(lyric_pieces(d, ks@, 0) =~= text@ + lyric_pieces(d, ks@, k as int));
    }
    assert(text@ + lyric_pieces(d, ks@, k as int) =~= text@);
    if text.len() == 0 {
        return None;
    }
    let syllabic = child_text(nodes, l, "syllabic");
    let hyphen = match &syllabic {
        Some(s) => chars_eq_str(s.as_slice(), "begin") || chars_eq_str(s.as_slice(), "middle"),
        None => false,
    };
    if hyphen {
        push_str(&mut text, "-");
    }
    Some(text)
}

/// The verse number of a `<lyric>`: its `number` attribute when that is a positive `u32`.
pub open spec fn spec_lyric_verse(d: Seq<XmlNodeView>, l: int) -> Option<u32> {
    match attribute(d, l, "number"@) {
        Some(v) => match parse_u32(trim(v)) {
            Some(n) => if n > 0 {
                Some(n as u32)
            } else {
                None
            },
            None => None,
        },
        None => None,
    }
}

fn lyric_verse(nodes: &Vec<XmlNode>, l: usize) -> (r: Option<u32>)
    ensures
        r == spec_lyric_verse(nodes_view(nodes@), l as int),
{
    let v = attribute_of(nodes, l, "number")?;
    let t = trim_chars(v.as_slice());
    match parse_u32_chars(t.as_slice()) {
        Some(n) => if n > 0 {
            Some(n)
        } else {
            None
        },
        None => None,
    }
}

/// The sort key of a lyric: its verse, lyrics without one last.
pub open spec fn verse_key(v: Option<u32>) -> int {
    match v {
        Some(n) => n as int,
        None => u32::MAX as int,
    }
}

/// The lyrics of the child nodes `ks[k..]` of a note, in document order.
pub open spec fn lyric_entries(d: Seq<XmlNodeView>, ks: Seq<usize>, k: int) -> Seq<LyricView>
    decreases ks.len() - k,
{
    if k < 0 || k >= ks.len() {
        seq![]
    } else {
        let c = ks[k] as int;
        let rest = lyric_entries(d, ks, k + 1);
        if has_tag(d, c, "lyric"@) {
            match spec_parse_lyric(d, c) {
                Some(t) => seq![LyricView { verse: spec_lyric_verse(d, c), text: t }] + rest,
                None => rest,
            }
        } else {
            rest
        }
    }
}

/// First index from `k` on whose lyric sorts after `key`.
pub open spec fn verse_insert_pos(s: Seq<LyricView>, k: int, key: int) -> int
    decreases s.len() - k,
{
    if k < 0 || k >= s.len() {
        s.len() as int
    } else if verse_key(s[k].verse) > key {
        k
    } else {
        verse_insert_pos(s, k + 1, key)
    }
}

/// Lyrics ordered by verse; lyrics of one verse keep their order.
pub open spec fn sort_by_verse(s: Seq<LyricView>) -> Seq<LyricView>
    decreases s.len(),
{
    if s.len() == 0 {
        s
    } else {
        let t = sort_by_verse(s.drop_last());
        t.insert(verse_insert_pos(t, 0, verse_key(s.last().verse)), s.last())
    }
}

/// The lyrics of a note, ordered by verse.
pub open spec fn spec_parse_lyrics(d: Seq<XmlNodeView>, note: int) -> Seq<LyricView> {
    sort_by_verse(lyric_entries(d, kids(d, note), 0))
}

pub open spec fn lyrics_view(v: Seq<LyricToken>) -> Seq<LyricView> {
    v.map_values(|l: LyricToken| l@)
}

fn lyric_key(l: &LyricToken) -> (r: u32)
    ensures
        r as int == verse_key(l@.verse),
{
    match l.verse {
        Some(v) => v,
        None => u32::MAX,
    }
}

fn copy_lyric(l: &LyricToken) -> (r: LyricToken)
    ensures
        r@ == l@,
{
    LyricToken { verse: l.verse, text: copy_chars(l.text.as_slice()) }
}

/// Orders lyrics by verse, keeping the order of lyrics of one verse.
fn sort_lyrics(entries: &Vec<LyricToken>) -> (r: Vec<LyricToken>)
    ensures
        lyrics_view(r@) == sort_by_verse(lyrics_view(entries@)),
{
    let ghost ev = lyrics_view(entries@);
    let mut out: Vec<LyricToken> = Vec::new();
    let mut i: usize = 0;
    assert(ev.take(0) =~= Seq::<LyricView>::empty());
    assert(lyrics_view(out@) =~= sort_by_verse(ev.take(0)));
    while i < entries.len()
        invariant
            i <= entries@.len(),
            ev == lyrics_view(entries@),
            lyrics_view(out@) == sort_by_verse(ev.take(i as int)),
        decreases entries@.len() - i,
    {
        let key = lyric_key(&entries[i]);
        let ghost t = lyrics_view(out@);
        let mut k: usize = 0;
        while k < out.len() && lyric_key(&out[k]) <= key
            invariant
                k <= out@.len(),
                t == lyrics_view(out@),
                key as int == verse_key(ev[i as int].verse),
                i < entries@.len(),
                ev == lyrics_view(entries@),
                verse_insert_pos(t, 0, key as int) == verse_insert_pos(t, k as int, key as int),
            decreases out@.len() - k,
        {
            k += 1;
        }
        let x = copy_lyric(&entries[i]);
        out.insert(k, x);
        proof {
            assert(ev.take(i + 1).drop_last() == ev.take(i as int));
            assert(ev.take(i + 1).last() == ev[i as int]);
            assert(lyrics_view(out@) =~= t.insert(k as int, ev[i as int]));
        }
        i += 1;
    }
    assert(ev.take(entries@.len() as int) == ev);
    out
}

/// The lyrics of a note, ordered by verse; lyrics of one verse keep their order.
pub fn parse_lyrics(nodes: &Vec<XmlNode>, note: usize) -> (r: Vec<LyricToken>)
    ensures
        lyrics_view(r@) == spec_parse_lyrics(nodes_view(nodes@), note as int),
{
    let ghost d = nodes_view(nodes@);
    let ks = node_kids(nodes, note);
    let mut entries: Vec<LyricToken> = Vec::new();
    let mut k = ks.len();
    assert(lyrics_view(entries@) =~= lyric_entries(d, ks@, k as int));
    while k > 0
        invariant
            k <= ks@.len(),
            d == nodes_view(nodes@),
            ks@ == kids(d, note as int),
            lyrics_view(entries@) == lyric_entries(d, ks@, k as int),
        decreases k,
    {
        k -= 1;
        let c = ks[k];
        if node_has_tag(nodes, c, "lyric") {
            if let Some(text) = parse_lyric(nodes, c) {
                let verse = lyric_verse(nodes, c);
                entries.insert(0, LyricToken { verse, text });
            }
        }
        assert(lyrics_view(entries@) =~= lyric_entries(d, ks@, k as int));
    }
    sort_lyrics(&entries)
}

// ---------------------------------------------------------------------------
// Directions
// ---------------------------------------------------------------------------

/// A dynamic, a text and a chord symbol waiting for the next note.
pub struct PendingView {
    pub dynamic: Option<Seq<char>>,
    pub staff_text: Option<Seq<char>>,
    pub chord_symbol: Option<Seq<char>>,
}

/// Directions and harmony read since the last note.
pub struct Pending {
    pub dynamic: Option<Vec<char>>,
    pub staff_text: Option<Vec<char>>,
    pub chord_symbol: Option<Vec<char>>,
}

impl View for Pending {
    type V = PendingView;

    open spec fn view(&self) -> PendingView {
        PendingView {
            dynamic: opt_view(self.dynamic),
            staff_text: opt_view(self.staff_text),
            chord_symbol: opt_view(self.chord_symbol),
        }
    }
}

pub open spec fn empty_pending() -> PendingView {
    PendingView { dynamic: None, staff_text: None, chord_symbol: None }
}

pub fn new_pending() -> (r: Pending)
    ensures
        r@ == empty_pending(),
{
    Pending { dynamic: None, staff_text: None, chord_symbol: None }
}

/// The name of the first node of `[j, end)` named like a dynamic.
pub open spec fn dynamic_in_range(d: Seq<XmlNodeView>, j: int, end: int) -> Option<Seq<char>>
    decreases end - j,
{
    if j >= end || j < 0 || j >= d.len() {
        None
    } else if is_dynamic_mark(d[j].name) {
        Some(d[j].name)
    } else {
        dynamic_in_range(d, j + 1, end)
    }
}

fn find_dynamic(nodes: &Vec<XmlNode>, from: usize, end: usize) -> (r: Option<Vec<char>>)
    ensures
        opt_view(r) == dynamic_in_range(nodes_view(nodes@), from as int, end as int),
{
    let ghost d = nodes_view(nodes@);
    let mut j = from;
    while j < end && j < nodes.len()
        invariant
            from <= j,
            d == nodes_view(nodes@),
            dynamic_in_range(d, from as int, end as int) == dynamic_in_range(d, j as int, end as int),
        decreases end - j,
    {
        if dynamic_mark(nodes[j].name.as_slice()) {
            return Some(copy_chars(nodes[j].name.as_slice()));
        }
        j += 1;
    }
    None
}

/// The pending attachments after the `<direction-type>` children `ks[k..]` of a
/// `<direction>`: the last dynamic and the last words win.
pub open spec fn direction_from(d: Seq<XmlNodeView>, ks: Seq<usize>, k: int, p: PendingView) -> PendingView
    decreases ks.len() - k,
{
    if k < 0 || k >= ks.len() {
        p
    } else {
        let c = ks[k] as int;
        let p2 = if has_tag(d, c, "direction-type"@) {
            let p1 = match dynamic_in_range(d, c, desc_end(d, c)) {
                Some(x) => PendingView { dynamic: Some(x), staff_text: p.staff_text, chord_symbol: p.chord_symbol },
                None => p,
            };
            match first_child_text(d, c, "words"@) {
                Some(w) => PendingView { dynamic: p1.dynamic, staff_text: Some(w), chord_symbol: p1.chord_symbol },
                None => p1,
            }
        } else {
            p
        };
        direction_from(d, ks, k + 1, p2)
    }
}

pub fn collect_direction(nodes: &Vec<XmlNode>, direction: usize, pending: &mut Pending)
    ensures
        final(pending)@ == direction_from(nodes_view(nodes@), kids(nodes_view(nodes@), direction as int), 0, old(pending)@),
{
    let ghost d = nodes_view(nodes@);
    let ks = node_kids(nodes, direction);
    let mut k: usize = 0;
    while k < ks.len()
        invariant
            k <= ks@.len(),
            d == nodes_view(nodes@),
            ks@ == kids(d, direction as int),
            direction_from(d, ks@, 0, old(pending)@) == direction_from(d, ks@, k as int, pending@),
        decreases ks@.len() - k,
    {
        let c = ks[k];
        if node_has_tag(nodes, c, "direction-type") {
            let end = descendants_end(nodes, c);
            if let Some(x) = find_dynamic(nodes, c, end) {
                pending.dynamic = Some(x);
            }
            if let Some(w) = child_text(nodes, c, "words") {
                pending.staff_text = Some(w);
            }
        }
        k += 1;
    }
}

// ---------------------------------------------------------------------------
// Notes
// ---------------------------------------------------------------------------

/// The clef in force on one staff.
pub struct StaffClef {
    pub staff: usize,
    pub clef: Vec<char>,
}

pub open spec fn clefs_view(v: Seq<StaffClef>) -> Seq<(usize, Seq<char>)> {
    v.map_values(|c: StaffClef| (c.staff, c.clef@))
}

/// The clef recorded for a staff.
pub open spec fn clef_lookup(clefs: Seq<(usize, Seq<char>)>, staff: int) -> Option<Seq<char>>
    decreases clefs.len(),
{
    if clefs.len() == 0 {
        None
    } else if clefs[0].0 == staff {
        Some(clefs[0].1)
    } else {
        clef_lookup(clefs.drop_first(), staff)
    }
}

/// The clef of a staff, treble where none is recorded.
pub open spec fn clef_or_treble(clefs: Seq<(usize, Seq<char>)>, staff: int) -> Seq<char> {
    match clef_lookup(clefs, staff) {
        Some(c) => c,
        None => "treble"@,
    }
}

pub fn clef_of(clefs: &Vec<StaffClef>, staff: usize) -> (r: Option<Vec<char>>)
    ensures
        opt_view(r) == clef_lookup(clefs_view(clefs@), staff as int),
{
    let ghost cv = clefs_view(clefs@);
    let mut k: usize = 0;
    assert(cv.skip(0) == cv);
    while k < clefs.len()
        invariant
            k <= clefs@.len(),
            cv == clefs_view(clefs@),
            clef_lookup(cv, staff as int) == clef_lookup(cv.skip(k as int), staff as int),
        decreases clefs@.len() - k,
    {
        assert(cv.skip(k as int).drop_first() == cv.skip(k + 1));
        if clefs[k].staff == staff {
            return Some(copy_chars(clefs[k].clef.as_slice()));
        }
        k += 1;
    }
    None
}

/// Whether a node of `[j, end)` is an element named `tag` whose `type` is `kind`.
pub open spec fn typed_in_range(d: Seq<XmlNodeView>, j: int, end: int, tag: Seq<char>, kind: Seq<char>) -> bool
    decreases end - j,
{
    if j >= end {
        false
    } else if has_tag(d, j, tag) && opt_eq_ignore_case(attribute(d, j, "type"@), kind) {
        true
    } else {
        typed_in_range(d, j + 1, end, tag, kind)
    }
}

fn any_typed_in_range(nodes: &Vec<XmlNode>, from: usize, end: usize, tag: &str, kind: &str) -> (r: bool)
    ensures
        r == typed_in_range(nodes_view(nodes@), from as int, end as int, tag@, kind@),
{
    let ghost d = nodes_view(nodes@);
    let mut j = from;
    while j < end
        invariant
            from <= j,
            d == nodes_view(nodes@),
            typed_in_range(d, from as int, end as int, tag@, kind@) == typed_in_range(d, j as int, end as int, tag@, kind@),
        decreases end - j,
    {
        if node_has_tag(nodes, j, tag) {
            let t = attribute_of(nodes, j, "type");
            if opt_chars_eq_ignore_case(&t, kind) {
                return true;
            }
        }
        j += 1;
    }
    false
}

/// Whether a node of `ks[k..]` is an element named `tag` whose `type` is `kind`.
pub open spec fn typed_child(d: Seq<XmlNodeView>, ks: Seq<usize>, k: int, tag: Seq<char>, kind: Seq<char>) -> bool
    decreases ks.len() - k,
{
    if k < 0 || k >= ks.len() {
        false
    } else if has_tag(d, ks[k] as int, tag) && opt_eq_ignore_case(attribute(d, ks[k] as int, "type"@), kind) {
        true
    } else {
        typed_child(d, ks, k + 1, tag, kind)
    }
}

fn any_typed_child(nodes: &Vec<XmlNode>, i: usize, tag: &str, kind: &str) -> (r: bool)
    ensures
        r == typed_child(nodes_view(nodes@), kids(nodes_view(nodes@), i as int), 0, tag@, kind@),
{
    let ghost d = nodes_view(nodes@);
    let ks = node_kids(nodes, i);
    let mut k: usize = 0;
    while k < ks.len()
        invariant
            k <= ks@.len(),
            d == nodes_view(nodes@),
            ks@ == kids(d, i as int),
            typed_child(d, ks@, 0, tag@, kind@) == typed_child(d, ks@, k as int, tag@, kind@),
        decreases ks@.len() - k,
    {
        let c = ks[k];
        if node_has_tag(nodes, c, tag) {
            let t = attribute_of(nodes, c, "type");
            if opt_chars_eq_ignore_case(&t, kind) {
                return true;
            }
        }
        k += 1;
    }
    false
}

/// The articulation a node name stands for.
pub open spec fn articulation_of(name: Seq<char>) -> Option<Articulation> {
    if name == "accent"@ {
        Some(Articulation::Accent)
    } else if name == "staccato"@ {
        Some(Articulation::Staccato)
    } else if name == "tenuto"@ {
        Some(Articulation::Tenuto)
    } else if name == "fermata"@ {
        Some(Articulation::Fermata)
    } else {
        None
    }
}

/// The articulations named by the nodes of `[j, end)`, in order.
pub open spec fn articulations_in_range(d: Seq<XmlNodeView>, j: int, end: int) -> Seq<Articulation>
    decreases end - j,
{
    if j >= end || j < 0 || j >= d.len() {
        seq![]
    } else {
        match articulation_of(d[j].name) {
            Some(a) => seq![a] + articulations_in_range(d, j + 1, end),
            None => articulations_in_range(d, j + 1, end),
        }
    }
}

fn collect_articulations(nodes: &Vec<XmlNode>, from: usize, end: usize) -> (r: Vec<Articulation>)
    ensures
        r@ == articulations_in_range(nodes_view(nodes@), from as int, end as int),
{
    let ghost d = nodes_view(nodes@);
    let mut out: Vec<Articulation> = Vec::new();
    let mut j = from;
    while j < end && j < nodes.len()
        invariant
            from <= j,
            d == nodes_view(nodes@),
            articulations_in_range(d, from as int, end as int) == out@ + articulations_in_range(d, j as int, end as int),
        decreases end - j,
    {
        let name = nodes[j].name.as_slice();
        if chars_eq_str(name, "accent") {
            out.push(Articulation::Accent);
        } else if chars_eq_str(name, "staccato") {
            out.push(Articulation::Staccato);
        } else if chars_eq_str(name, "tenuto") {
            out.push(Articulation::Tenuto);
        } else if chars_eq_str(name, "fermata") {
            out.push(Articulation::Fermata);
        }
        j += 1;
        assert(articulations_in_range(d, from as int, end as int) =~= out@ + articulations_in_range(d, j as int, end as int));
    }
    assert(out@ + articulations_in_range(d, j as int, end as int) =~= out@);
    out
}

/// The pitch of a `<pitch>` element of a note on a staff with the given clef:
/// its step in lower case, its alteration and its octave (the clef's base
/// octave when it names none).
pub open spec fn spec_read_pitch(d: Seq<XmlNodeView>, pitch: int, clef: Seq<char>, accidental: Option<Seq<char>>) -> Option<PitchView> {
    match first_child_text(d, pitch, "step"@) {
        Some(step_text) => Some(
            PitchView {
                step: to_lower(
                    if step_text.len() > 0 {
                        step_text[0]
                    } else {
                        'C'
                    },
                ),
                alter: or_zero(first_child_i32(d, pitch, "alter"@)),
                accidental_text: accidental,
                octave: match first_child_i32(d, pitch, "octave"@) {
                    Some(o) => o,
                    None => spec_clef_base_octave(clef),
                },
            },
        ),
        None => None,
    }
}

fn read_pitch(nodes: &Vec<XmlNode>, pitch: usize, clef: &Vec<char>, accidental: Option<Vec<char>>) -> (r: Option<PitchToken>)
    ensures
        match r {
            Some(p) => spec_read_pitch(nodes_view(nodes@), pitch as int, clef@, opt_view(accidental)) == Some(p@),
            None => spec_read_pitch(nodes_view(nodes@), pitch as int, clef@, opt_view(accidental)) is None,
        },
{
    let step_text = child_text(nodes, pitch, "step")?;
    let first = if step_text.len() > 0 {
        step_text[0]
    } else {
        'C'
    };
    let alter: i64 = match child_i32(nodes, pitch, "alter") {
        Some(a) => a as i64,
        None => 0,
    };
    let octave: i64 = match child_i32(nodes, pitch, "octave") {
        Some(o) => o as i64,
        None => clef_base_octave(clef.as_slice()),
    };
    Some(PitchToken { step: char_to_lower(first), alter, accidental_text: accidental, octave })
}

/// The token of a `<note>` element on a staff, with the attachments waiting
/// for it: a rest, a note, or nothing for a note without a readable pitch.
pub open spec fn spec_parse_note_token(
    d: Seq<XmlNodeView>,
    note: int,
    clefs: Seq<(usize, Seq<char>)>,
    staff: int,
    p: PendingView,
) -> Option<TokenView> {
    if first_child(d, note, "rest"@) is Some {
        Some(TokenView::Rest)
    } else {
        match first_child(d, note, "pitch"@) {
            Some(pitch) => {
                let clef = clef_or_treble(clefs, staff);
                match spec_read_pitch(d, pitch, clef, first_child_text(d, note, "accidental"@)) {
                    Some(pv) => {
                        let notations = first_child(d, note, "notations"@);
                        let ks = kids(d, note);
                        Some(
                            TokenView::Note(
                                NoteView {
                                    clef,
                                    pitches: seq![pv],
                                    duration_text: match first_child_text(d, note, "type"@) {
                                        Some(k) => spec_type_to_duration(k),
                                        None => None,
                                    },
                                    dots: count_tagged(d, ks, 0, "dot"@),
                                    tie_start: typed_child(d, ks, 0, "tie"@, "start"@),
                                    tie_stop: typed_child(d, ks, 0, "tie"@, "stop"@),
                                    slur_start: match notations {
                                        Some(n) => typed_in_range(d, n, desc_end(d, n), "slur"@, "start"@),
                                        None => false,
                                    },
                                    slur_stop: match notations {
                                        Some(n) => typed_in_range(d, n, desc_end(d, n), "slur"@, "stop"@),
                                        None => false,
                                    },
                                    dynamic: p.dynamic,
                                    chord_symbol: p.chord_symbol,
                                    staff_text: p.staff_text,
                                    lyrics: spec_parse_lyrics(d, note),
                                    articulations: match notations {
                                        Some(n) => articulations_in_range(d, n, desc_end(d, n)),
                                        None => seq![],
                                    },
                                },
                            ),
                        )
                    },
                    None => None,
                }
            },
            None => None,
        }
    }
}

#[verifier::rlimit(40)]
pub fn parse_note_token(nodes: &Vec<XmlNode>, note: usize, clefs: &Vec<StaffClef>, staff: usize, pending: Pending) -> (r:
    Option<Token>)
    ensures
        match r {
            Some(t) => spec_parse_note_token(nodes_view(nodes@), note as int, clefs_view(clefs@), staff as int, pending@)
                == Some(t@),
            None => spec_parse_note_token(nodes_view(nodes@), note as int, clefs_view(clefs@), staff as int, pending@) is None,
        },
{
    if has_child(nodes, note, "rest") {
        return Some(Token::Rest);
    }
    let pitch_node = find_child(nodes, note, "pitch")?;
    let clef = match clef_of(clefs, staff) {
        Some(c) => c,
        None => str_to_chars("treble"),
    };
    let accidental = child_text(nodes, note, "accidental");
    let pitch = read_pitch(nodes, pitch_node, &clef, accidental)?;
    let notations = find_child(nodes, note, "notations");
    let (slur_start, slur_stop, articulations) = match notations {
        Some(n) => {
            let end = descendants_end(nodes, n);
            (
                any_typed_in_range(nodes, n, end, "slur", "start"),
                any_typed_in_range(nodes, n, end, "slur", "stop"),
                collect_articulations(nodes, n, end),
            )
        },
        None => (false, false, Vec::new()),
    };
    let duration_text = match child_text(nodes, note, "type") {
        Some(k) => type_to_duration(k.as_slice()),
        None => None,
    };
    let mut pitches: Vec<PitchToken> = Vec::new();
    pitches.push(pitch);
    let token = NoteToken {
        clef,
        pitches,
        duration_text,
        dots: count_children(nodes, note, "dot"),
        tie_start: any_typed_child(nodes, note, "tie", "start"),
        tie_stop: any_typed_child(nodes, note, "tie", "stop"),
        slur_start,
        slur_stop,
        dynamic: pending.dynamic,
        chord_symbol: pending.chord_symbol,
        staff_text: pending.staff_text,
        lyrics: parse_lyrics(nodes, note),
        articulations,
    };
    assert(token@.pitches =~= seq![pitch@]);
    Some(Token::Note(token))
}

} // verus!
