//! Laws on how notation (accidentals, lyric syllables, barlines, clefs and
//! chord kinds) passes between MusicXML and Scorify.
use vstd::prelude::*;

use crate::model::{LyricView, PitchView};
use crate::musicxml_parts::{spec_time_to_musicxml, spaces, spec_barline_xml, spec_lyric_to_musicxml, spec_xml_escape};
use crate::musicxml_parts::clef_body;
use crate::musicxml_read::{spec_parse_time, kind_table, spec_chord_kind_suffix, clef_base, clef_with_octave, lyric_pieces, spec_parse_barline, spec_parse_clef, spec_parse_lyric};
use crate::xml::{attribute, first_child, first_child_i32, first_child_text, kids, XmlNodeView};
use crate::scorify_tokens::spec_parse_pitch;
use crate::scorify_writer::{spec_accidental_to_scorify, spec_pitch_to_string};
use crate::text::{decimal, int_text, is_ascii_alpha, is_ws, to_lower, trim};

verus! {

// ---------------------------------------------------------------------------
// Written accidentals
// ---------------------------------------------------------------------------

/// The alteration, in semitones, that a MusicXML accidental name stands for
/// (a natural names no alteration).
pub open spec fn accidental_alter(name: Seq<char>) -> Option<int> {
    if name == "sharp"@ {
        Some(1)
    } else if name == "flat"@ {
        Some(-1)
    } else if name == "double-sharp"@ || name == "sharp-sharp"@ {
        Some(2)
    } else if name == "flat-flat"@ || name == "double-flat"@ {
        Some(-2)
    } else if name == "natural"@ {
        Some(0)
    } else {
        None
    }
}

/// The name the Scorify reader gives a written accidental: the doubled ones
/// as `double-sharp` and `double-flat`, the others as they are.
pub open spec fn accidental_name_read(name: Seq<char>) -> Seq<char> {
    if name == "sharp-sharp"@ {
        "double-sharp"@
    } else if name == "flat-flat"@ {
        "double-flat"@
    } else {
        name
    }
}

/// A pitch with a written accidental that agrees with its alteration is
/// written in Scorify so that the Scorify reader gives back the same step,
/// alteration and octave, and the same accidental: the written accidental
/// keeps its direction and size.
#[verifier::rlimit(40)]
pub proof fn law_written_accidental_round_trip(p: PitchView, clef: Seq<char>)
    requires
        is_ascii_alpha(p.step),
        p.accidental_text matches Some(a) && accidental_alter(a) == Some(p.alter),
        i64::MIN <= p.octave <= i64::MAX,
    ensures
        spec_parse_pitch(spec_pitch_to_string(p, clef), clef) matches Some(q) && q.step == to_lower(p.step)
            && q.alter == p.alter && q.octave == p.octave && q.accidental_text == Some(
            accidental_name_read(p.accidental_text.unwrap()),
        ),
{
    reveal_strlit("sharp");
    reveal_strlit("flat");
    reveal_strlit("double-sharp");
    reveal_strlit("sharp-sharp");
    reveal_strlit("flat-flat");
    reveal_strlit("double-flat");
    reveal_strlit("natural");
    reveal_strlit("#");
    reveal_strlit("##");
    reveal_strlit("&");
    reveal_strlit("&&");
    reveal_strlit("=");
    reveal_strlit("");
    let a = p.accidental_text.unwrap();
    let low = crate::scorify_writer::ascii_lower(a);
    assert(low =~= a) by {
        assert forall|i: int| 0 <= i < a.len() implies low[i] == a[i] by {
            assert(a[i] != 'S' && a[i] != 'F' && a[i] != 'D' && a[i] != 'H' && a[i] != 'A' && a[i] != 'L'
                && a[i] != 'R' && a[i] != 'P' && a[i] != 'T' && a[i] != 'B' && a[i] != 'U' && a[i] != 'E'
                && a[i] != 'N');
        }
    }
    let base = crate::scorify_tokens::spec_clef_base_octave(clef);
    let delta = p.octave - base;
    let acc = spec_accidental_to_scorify(p.alter, p.accidental_text);
    let marks = crate::scorify_writer::octave_marks(delta);
    let t = spec_pitch_to_string(p, clef);
    assert(acc == if p.alter == 2 {
        seq!['#', '#']
    } else if p.alter == 1 {
        seq!['#']
    } else if p.alter == -1 {
        seq!['&']
    } else if p.alter == -2 {
        seq!['&', '&']
    } else {
        seq!['=']
    });
    assert(t =~= seq![p.step] + acc + marks);
    let rest = t.skip(1);
    assert(rest =~= acc + marks);
    let n: nat = if delta >= 0 {
        delta as nat
    } else {
        (-delta) as nat
    };
    assert(marks.len() == n);
    let k: int = 1 + acc.len() as int;
    assert(t.len() == k + n);
    assert(forall|j: int| k <= j < t.len() ==> t[j] == marks[j - k]);
    if p.alter == 2 {
        assert(rest.subrange(0, 2) =~= "##"@);
    } else if p.alter == -2 {
        assert(rest.subrange(0, 2) =~= "&&"@);
        crate::laws::lemma_differs_at(rest, "##"@, 0);
    } else if p.alter == 1 {
        assert(rest.subrange(0, 1) =~= "#"@);
        crate::laws::lemma_differs_at(rest, "##"@, 1);
        crate::laws::lemma_differs_at(rest, "&&"@, 0);
    } else if p.alter == -1 {
        assert(rest.subrange(0, 1) =~= "&"@);
        crate::laws::lemma_differs_at(rest, "##"@, 0);
        crate::laws::lemma_differs_at(rest, "&&"@, 1);
        crate::laws::lemma_differs_at(rest, "#"@, 0);
    } else {
        assert(rest.subrange(0, 1) =~= "="@);
        crate::laws::lemma_differs_at(rest, "##"@, 0);
        crate::laws::lemma_differs_at(rest, "&&"@, 0);
        crate::laws::lemma_differs_at(rest, "#"@, 0);
        crate::laws::lemma_differs_at(rest, "&"@, 0);
    }
    assert(crate::scorify_tokens::accidental_len(rest) == acc.len());
    if delta > 0 {
        crate::laws::lemma_octave_marks_read(t, k, base, n, true);
    } else if delta < 0 {
        crate::laws::lemma_octave_marks_read(t, k, base, n, false);
    } else {
        assert(t.len() == k);
    }
}

// ---------------------------------------------------------------------------
// Lyric syllables
// ---------------------------------------------------------------------------

/// The `<lyric>` element of a syllable that begins a word: its number, the
/// syllabic value `begin` and the syllable's text, with nothing after it.
pub open spec fn begin_syllable_xml(verse: Option<u32>, text: Seq<char>) -> Seq<char> {
    "<lyric"@ + match verse {
        Some(v) => " number=\""@ + decimal(v as nat) + "\""@,
        None => seq![],
    } + ">"@ + "<syllabic>"@ + "begin"@ + "</syllabic>"@ + "<text>"@ + spec_xml_escape(text) + "</text>"@ + "</lyric>"@
}

/// A Scorify syllable that ends in `-` (a word continues after it) is written
/// as a MusicXML `begin` syllable whose text is the syllable without the `-`.
pub proof fn law_hyphenated_syllable_written(verse: Option<u32>, t: Seq<char>)
    ensures
        spec_lyric_to_musicxml(LyricView { verse, text: t + "-"@ }) == begin_syllable_xml(verse, t),
{
    reveal_strlit("-");
    reveal_strlit("_");
    let s = t + "-"@;
    assert(s.subrange(s.len() - 1, s.len() as int) =~= "-"@);
    assert(s.drop_last() =~= t);
    assert(s.subrange(s.len() - 1, s.len() as int) != "_"@) by {
        assert(s.subrange(s.len() - 1, s.len() as int)[0] == '-');
    }
    assert(spec_lyric_to_musicxml(LyricView { verse, text: s }) =~= begin_syllable_xml(verse, t));
}

/// The `<lyric>` element of a syllable that stands alone or ends a word:
/// its number, the syllabic value `single`, the text, and an extender line
/// where the syllable is held.
pub open spec fn single_syllable_xml(verse: Option<u32>, text: Seq<char>, extend: bool) -> Seq<char> {
    "<lyric"@ + match verse {
        Some(v) => " number=\""@ + decimal(v as nat) + "\""@,
        None => seq![],
    } + ">"@ + "<syllabic>"@ + "single"@ + "</syllabic>"@ + "<text>"@ + spec_xml_escape(text) + "</text>"@ + (
    if extend {
        "<extend/>"@
    } else {
        seq![]
    }) + "</lyric>"@
}

/// A Scorify syllable held with `_` is written as a MusicXML `single`
/// syllable with the text before the `_` and an extender line; a syllable
/// ending in neither `-` nor `_` is written as a `single` syllable with its
/// text as it is.
pub proof fn law_single_syllable_written(verse: Option<u32>, t: Seq<char>)
    requires
        t.len() == 0 || (t.last() != '_' && t.last() != '-'),
    ensures
        spec_lyric_to_musicxml(LyricView { verse, text: t + "_"@ }) == single_syllable_xml(verse, t, true),
        spec_lyric_to_musicxml(LyricView { verse, text: t }) == single_syllable_xml(verse, t, false),
{
    reveal_strlit("-");
    reveal_strlit("_");
    let s = t + "_"@;
    assert(s.subrange(s.len() - 1, s.len() as int) =~= "_"@);
    assert(s.subrange(s.len() - 1, s.len() as int) != "-"@) by {
        assert(s.subrange(s.len() - 1, s.len() as int)[0] == '_');
    }
    assert(s.drop_last() =~= t);
    assert(crate::musicxml_parts::strip_trailing(t, '_') == t);
    assert(crate::musicxml_parts::strip_trailing(s, '_') == t);
    assert(spec_lyric_to_musicxml(LyricView { verse, text: s }) =~= single_syllable_xml(verse, t, true));
    if t.len() > 0 {
        assert(t.subrange(t.len() - 1, t.len() as int) != "-"@) by {
            assert(t.subrange(t.len() - 1, t.len() as int)[0] == t.last());
        }
        assert(t.subrange(t.len() - 1, t.len() as int) != "_"@) by {
            assert(t.subrange(t.len() - 1, t.len() as int)[0] == t.last());
        }
    }
    assert(spec_lyric_to_musicxml(LyricView { verse, text: t }) =~= single_syllable_xml(verse, t, false));
}

/// A MusicXML syllable that begins a word, read into Scorify and written back
/// to MusicXML, is again a `begin` syllable with the same text.
pub proof fn law_begin_syllable_round_trip(d: Seq<XmlNodeView>, l: int, verse: Option<u32>)
    requires
        spec_parse_lyric(d, l) is Some,
        first_child_text(d, l, "syllabic"@) == Some("begin"@),
    ensures
        spec_lyric_to_musicxml(LyricView { verse, text: spec_parse_lyric(d, l).unwrap() }) == begin_syllable_xml(
            verse,
            lyric_pieces(d, kids(d, l), 0),
        ),
{
    law_hyphenated_syllable_written(verse, lyric_pieces(d, kids(d, l), 0));
}

// ---------------------------------------------------------------------------
// Barlines
// ---------------------------------------------------------------------------

/// The Scorify barlines that MusicXML writes with a `<barline>` element:
/// start repeat, end repeat, double and final.
pub open spec fn is_styled_barline(t: Seq<char>) -> bool {
    t == "|:"@ || t == ":|"@ || t == "||"@ || t == "|."@
}

/// The MusicXML bar style of such a barline: thick then thin at a start
/// repeat, thin then thick at an end repeat or the end, two thin bars for a
/// double barline.
pub open spec fn barline_style(t: Seq<char>) -> Seq<char> {
    if t == "|:"@ {
        "heavy-light"@
    } else if t == "||"@ {
        "light-light"@
    } else {
        "light-heavy"@
    }
}

/// The MusicXML repeat direction of such a barline, if it is a repeat.
pub open spec fn barline_repeat(t: Seq<char>) -> Option<Seq<char>> {
    if t == "|:"@ {
        Some("forward"@)
    } else if t == ":|"@ {
        Some("backward"@)
    } else {
        None
    }
}

/// A `<barline>` element with a bar style and, for a repeat, its direction.
pub open spec fn barline_element(indent: nat, location: Seq<char>, style: Seq<char>, repeat: Option<Seq<char>>) -> Seq<char> {
    spaces(indent) + "<barline location=\""@ + location + "\">"@ + "<bar-style>"@ + style + "</bar-style>"@
        + match repeat {
        Some(dir) => "<repeat direction=\""@ + dir + "\"/>"@,
        None => seq![],
    } + "</barline>\n"@
}

/// Barlines pass between the two directions unchanged: the MusicXML writer
/// writes each styled Scorify barline as a `<barline>` with its bar style and
/// repeat direction, and the MusicXML reader reads any `<barline>` with that
/// bar style and repeat direction as the same Scorify barline.
pub proof fn law_barline_round_trip(
    t: Seq<char>,
    indent: nat,
    location: Seq<char>,
    d: Seq<XmlNodeView>,
    b: int,
)
    requires
        is_styled_barline(t),
        first_child_text(d, b, "bar-style"@) == Some(barline_style(t)),
        (match first_child(d, b, "repeat"@) {
            Some(r) => attribute(d, r, "direction"@),
            None => None,
        }) == barline_repeat(t),
    ensures
        spec_barline_xml(indent, location, t) == barline_element(indent, location, barline_style(t), barline_repeat(t)),
        spec_parse_barline(d, b) == t,
{
    reveal_strlit("|:");
    reveal_strlit(":|");
    reveal_strlit("||");
    reveal_strlit("|.");
    reveal_strlit("forward");
    reveal_strlit("backward");
    reveal_strlit("heavy-light");
    reveal_strlit("light-heavy");
    reveal_strlit("light-light");
    reveal_strlit("heavy-heavy");
    reveal_strlit("<bar-style>");
    reveal_strlit("</bar-style>");
    reveal_strlit("<repeat direction=\"");
    reveal_strlit("\"/>");
    reveal_strlit("</barline>\n");
    reveal_strlit("<bar-style>heavy-light</bar-style><repeat direction=\"forward\"/></barline>\n");
    reveal_strlit("<bar-style>light-heavy</bar-style><repeat direction=\"backward\"/></barline>\n");
    reveal_strlit("<bar-style>light-light</bar-style></barline>\n");
    reveal_strlit("<bar-style>light-heavy</bar-style></barline>\n");
    let open = spaces(indent) + "<barline location=\""@ + location + "\">"@;
    let w = barline_element(indent, location, barline_style(t), barline_repeat(t));
    assert("|:"@ != ":|"@ && "|:"@ != "||"@ && "|:"@ != "|."@ && ":|"@ != "||"@ && ":|"@ != "|."@ && "||"@ != "|."@) by {
        assert("|:"@[0] != ":|"@[0]);
        assert("|:"@[1] != "||"@[1]);
        assert("|:"@[1] != "|."@[1]);
        assert(":|"@[0] != "||"@[0]);
        assert(":|"@[0] != "|."@[0]);
        assert("||"@[1] != "|."@[1]);
    }
    assert("forward"@ != "backward"@) by {
        assert("forward"@[0] != "backward"@[0]);
    }
    assert("light-heavy"@ != "light-light"@) by {
        assert("light-heavy"@[6] != "light-light"@[6]);
    }
    assert("heavy-light"@ != "light-heavy"@) by {
        assert("heavy-light"@[0] != "light-heavy"@[0]);
    }
    assert("heavy-light"@ != "light-light"@) by {
        assert("heavy-light"@[0] != "light-light"@[0]);
    }
    if t == "|:"@ {
        assert(w =~= open + "<bar-style>heavy-light</bar-style><repeat direction=\"forward\"/></barline>\n"@);
    } else if t == ":|"@ {
        assert(w =~= open + "<bar-style>light-heavy</bar-style><repeat direction=\"backward\"/></barline>\n"@);
    } else if t == "||"@ {
        assert(w =~= open + "<bar-style>light-light</bar-style></barline>\n"@);
    } else {
        assert(w =~= open + "<bar-style>light-heavy</bar-style></barline>\n"@);
    }
}

// ---------------------------------------------------------------------------
// Clefs
// ---------------------------------------------------------------------------

/// The MusicXML sign of a Scorify clef.
pub open spec fn clef_sign(c: Seq<char>) -> Seq<char> {
    if c == "treble"@ {
        "G"@
    } else if c == "bass"@ {
        "F"@
    } else if c == "alto"@ {
        "C"@
    } else if c == "tenor"@ {
        "C"@
    } else if c == "percussion"@ {
        "percussion"@
    } else if c == "treble-8a"@ {
        "G"@
    } else if c == "treble-8b"@ {
        "G"@
    } else if c == "treble-15a"@ {
        "G"@
    } else if c == "treble-15b"@ {
        "G"@
    } else if c == "bass-8a"@ {
        "F"@
    } else if c == "bass-8b"@ {
        "F"@
    } else if c == "bass-15a"@ {
        "F"@
    } else {
        "F"@
    }
}

/// The staff line of a Scorify clef's sign.
pub open spec fn clef_line(c: Seq<char>) -> int {
    if c == "treble"@ {
        2
    } else if c == "bass"@ {
        4
    } else if c == "alto"@ {
        3
    } else if c == "tenor"@ {
        4
    } else if c == "percussion"@ {
        2
    } else if c == "treble-8a"@ {
        2
    } else if c == "treble-8b"@ {
        2
    } else if c == "treble-15a"@ {
        2
    } else if c == "treble-15b"@ {
        2
    } else if c == "bass-8a"@ {
        4
    } else if c == "bass-8b"@ {
        4
    } else if c == "bass-15a"@ {
        4
    } else {
        4
    }
}

/// The octave change of a Scorify clef.
pub open spec fn clef_change(c: Seq<char>) -> int {
    if c == "treble"@ {
        0
    } else if c == "bass"@ {
        0
    } else if c == "alto"@ {
        0
    } else if c == "tenor"@ {
        0
    } else if c == "percussion"@ {
        0
    } else if c == "treble-8a"@ {
        1
    } else if c == "treble-8b"@ {
        -1
    } else if c == "treble-15a"@ {
        2
    } else if c == "treble-15b"@ {
        -2
    } else if c == "bass-8a"@ {
        1
    } else if c == "bass-8b"@ {
        -1
    } else if c == "bass-15a"@ {
        2
    } else {
        -2
    }
}

/// The body of a `<clef>` element: sign, line and, where it is not zero, the
/// octave change.
pub open spec fn clef_element(sign: Seq<char>, line: int, change: int) -> Seq<char> {
    "<sign>"@ + sign + "</sign><line>"@ + int_text(line) + "</line>"@ + (if change == 0 {
        seq![]
    } else {
        "<clef-octave-change>"@ + int_text(change) + "</clef-octave-change>"@
    })
}

/// Clefs pass between the two directions unchanged: every clef the MusicXML
/// reader names, the MusicXML writer writes with a sign, line and octave
/// change, and any `<clef>` element with that sign, line and octave change
/// reads back as the same clef.
#[verifier::rlimit(60)]
pub proof fn law_clef_round_trip(sign: Seq<char>, line: int, change: int, d: Seq<XmlNodeView>, x: int)
    requires
        first_child_text(d, x, "sign"@) == Some(clef_sign(clef_with_octave(clef_base(sign, line), change))),
        first_child_i32(d, x, "line"@) == Some(clef_line(clef_with_octave(clef_base(sign, line), change))),
        first_child_i32(d, x, "clef-octave-change"@) == (if clef_change(clef_with_octave(clef_base(sign, line), change))
            == 0 {
            None
        } else {
            Some(clef_change(clef_with_octave(clef_base(sign, line), change)))
        }),
    ensures
        ({
            let c = clef_with_octave(clef_base(sign, line), change);
            &&& clef_body(c) == Some(clef_element(clef_sign(c), clef_line(c), clef_change(c)))
            &&& spec_parse_clef(d, x) == c
        }),
{
    reveal_strlit("</clef-octave-change>");
    reveal_strlit("</line>");
    reveal_strlit("</sign><line>");
    reveal_strlit("<clef-octave-change>");
    reveal_strlit("<sign>");
    reveal_strlit("<sign>C</sign><line>3</line>");
    reveal_strlit("<sign>C</sign><line>4</line>");
    reveal_strlit("<sign>F</sign><line>4</line>");
    reveal_strlit("<sign>F</sign><line>4</line><clef-octave-change>-1</clef-octave-change>");
    reveal_strlit("<sign>F</sign><line>4</line><clef-octave-change>-2</clef-octave-change>");
    reveal_strlit("<sign>F</sign><line>4</line><clef-octave-change>1</clef-octave-change>");
    reveal_strlit("<sign>F</sign><line>4</line><clef-octave-change>2</clef-octave-change>");
    reveal_strlit("<sign>G</sign><line>2</line>");
    reveal_strlit("<sign>G</sign><line>2</line><clef-octave-change>-1</clef-octave-change>");
    reveal_strlit("<sign>G</sign><line>2</line><clef-octave-change>-2</clef-octave-change>");
    reveal_strlit("<sign>G</sign><line>2</line><clef-octave-change>1</clef-octave-change>");
    reveal_strlit("<sign>G</sign><line>2</line><clef-octave-change>2</clef-octave-change>");
    reveal_strlit("<sign>percussion</sign><line>2</line>");
    reveal_strlit("C");
    reveal_strlit("F");
    reveal_strlit("G");
    reveal_strlit("PERCUSSION");
    reveal_strlit("alto");
    reveal_strlit("bass");
    reveal_strlit("bass-15a");
    reveal_strlit("bass-15b");
    reveal_strlit("bass-8a");
    reveal_strlit("bass-8b");
    reveal_strlit("percussion");
    reveal_strlit("tenor");
    reveal_strlit("treble");
    reveal_strlit("treble-15a");
    reveal_strlit("treble-15b");
    reveal_strlit("treble-8a");
    reveal_strlit("treble-8b");
    let b = clef_base(sign, line);
    let c = clef_with_octave(b, change);
    assert(int_text(1) =~= seq!['1']);
    assert(int_text(2) =~= seq!['2']);
    assert(int_text(3) =~= seq!['3']);
    assert(int_text(4) =~= seq!['4']);
    assert(int_text(-1) =~= seq!['-', '1']);
    assert(int_text(-2) =~= seq!['-', '2']);
    assert(clef_body(c) == Some(clef_element(clef_sign(c), clef_line(c), clef_change(c)))) by {
        lemma_clef_names_distinct();
    }
    assert(spec_parse_clef(d, x) == c) by {
        lemma_clef_names_distinct();
    }
}

proof fn lemma_clef_names_distinct()
    ensures
        "treble"@ != "bass"@,
        "treble"@ != "alto"@,
        "treble"@ != "tenor"@,
        "treble"@ != "percussion"@,
        "treble"@ != "treble-8a"@,
        "treble"@ != "treble-8b"@,
        "treble"@ != "treble-15a"@,
        "treble"@ != "treble-15b"@,
        "treble"@ != "bass-8a"@,
        "treble"@ != "bass-8b"@,
        "treble"@ != "bass-15a"@,
        "treble"@ != "bass-15b"@,
        "treble"@ != "G"@,
        "treble"@ != "F"@,
        "treble"@ != "C"@,
        "treble"@ != "PERCUSSION"@,
        "bass"@ != "alto"@,
        "bass"@ != "tenor"@,
        "bass"@ != "percussion"@,
        "bass"@ != "treble-8a"@,
        "bass"@ != "treble-8b"@,
        "bass"@ != "treble-15a"@,
        "bass"@ != "treble-15b"@,
        "bass"@ != "bass-8a"@,
        "bass"@ != "bass-8b"@,
        "bass"@ != "bass-15a"@,
        "bass"@ != "bass-15b"@,
        "bass"@ != "G"@,
        "bass"@ != "F"@,
        "bass"@ != "C"@,
        "bass"@ != "PERCUSSION"@,
        "alto"@ != "tenor"@,
        "alto"@ != "percussion"@,
        "alto"@ != "treble-8a"@,
        "alto"@ != "treble-8b"@,
        "alto"@ != "treble-15a"@,
        "alto"@ != "treble-15b"@,
        "alto"@ != "bass-8a"@,
        "alto"@ != "bass-8b"@,
        "alto"@ != "bass-15a"@,
        "alto"@ != "bass-15b"@,
        "alto"@ != "G"@,
        "alto"@ != "F"@,
        "alto"@ != "C"@,
        "alto"@ != "PERCUSSION"@,
        "tenor"@ != "percussion"@,
        "tenor"@ != "treble-8a"@,
        "tenor"@ != "treble-8b"@,
        "tenor"@ != "treble-15a"@,
        "tenor"@ != "treble-15b"@,
        "tenor"@ != "bass-8a"@,
        "tenor"@ != "bass-8b"@,
        "tenor"@ != "bass-15a"@,
        "tenor"@ != "bass-15b"@,
        "tenor"@ != "G"@,
        "tenor"@ != "F"@,
        "tenor"@ != "C"@,
        "tenor"@ != "PERCUSSION"@,
        "percussion"@ != "treble-8a"@,
        "percussion"@ != "treble-8b"@,
        "percussion"@ != "treble-15a"@,
        "percussion"@ != "treble-15b"@,
        "percussion"@ != "bass-8a"@,
        "percussion"@ != "bass-8b"@,
        "percussion"@ != "bass-15a"@,
        "percussion"@ != "bass-15b"@,
        "percussion"@ != "G"@,
        "percussion"@ != "F"@,
        "percussion"@ != "C"@,
        "percussion"@ != "PERCUSSION"@,
        "treble-8a"@ != "treble-8b"@,
        "treble-8a"@ != "treble-15a"@,
        "treble-8a"@ != "treble-15b"@,
        "treble-8a"@ != "bass-8a"@,
        "treble-8a"@ != "bass-8b"@,
        "treble-8a"@ != "bass-15a"@,
        "treble-8a"@ != "bass-15b"@,
        "treble-8a"@ != "G"@,
        "treble-8a"@ != "F"@,
        "treble-8a"@ != "C"@,
        "treble-8a"@ != "PERCUSSION"@,
        "treble-8b"@ != "treble-15a"@,
        "treble-8b"@ != "treble-15b"@,
        "treble-8b"@ != "bass-8a"@,
        "treble-8b"@ != "bass-8b"@,
        "treble-8b"@ != "bass-15a"@,
        "treble-8b"@ != "bass-15b"@,
        "treble-8b"@ != "G"@,
        "treble-8b"@ != "F"@,
        "treble-8b"@ != "C"@,
        "treble-8b"@ != "PERCUSSION"@,
        "treble-15a"@ != "treble-15b"@,
        "treble-15a"@ != "bass-8a"@,
        "treble-15a"@ != "bass-8b"@,
        "treble-15a"@ != "bass-15a"@,
        "treble-15a"@ != "bass-15b"@,
        "treble-15a"@ != "G"@,
        "treble-15a"@ != "F"@,
        "treble-15a"@ != "C"@,
        "treble-15a"@ != "PERCUSSION"@,
        "treble-15b"@ != "bass-8a"@,
        "treble-15b"@ != "bass-8b"@,
        "treble-15b"@ != "bass-15a"@,
        "treble-15b"@ != "bass-15b"@,
        "treble-15b"@ != "G"@,
        "treble-15b"@ != "F"@,
        "treble-15b"@ != "C"@,
        "treble-15b"@ != "PERCUSSION"@,
        "bass-8a"@ != "bass-8b"@,
        "bass-8a"@ != "bass-15a"@,
        "bass-8a"@ != "bass-15b"@,
        "bass-8a"@ != "G"@,
        "bass-8a"@ != "F"@,
        "bass-8a"@ != "C"@,
        "bass-8a"@ != "PERCUSSION"@,
        "bass-8b"@ != "bass-15a"@,
        "bass-8b"@ != "bass-15b"@,
        "bass-8b"@ != "G"@,
        "bass-8b"@ != "F"@,
        "bass-8b"@ != "C"@,
        "bass-8b"@ != "PERCUSSION"@,
        "bass-15a"@ != "bass-15b"@,
        "bass-15a"@ != "G"@,
        "bass-15a"@ != "F"@,
        "bass-15a"@ != "C"@,
        "bass-15a"@ != "PERCUSSION"@,
        "bass-15b"@ != "G"@,
        "bass-15b"@ != "F"@,
        "bass-15b"@ != "C"@,
        "bass-15b"@ != "PERCUSSION"@,
        "G"@ != "F"@,
        "G"@ != "C"@,
        "G"@ != "PERCUSSION"@,
        "F"@ != "C"@,
        "F"@ != "PERCUSSION"@,
        "C"@ != "PERCUSSION"@,
{
    reveal_strlit("C");
    reveal_strlit("F");
    reveal_strlit("G");
    reveal_strlit("PERCUSSION");
    reveal_strlit("alto");
    reveal_strlit("bass");
    reveal_strlit("bass-15a");
    reveal_strlit("bass-15b");
    reveal_strlit("bass-8a");
    reveal_strlit("bass-8b");
    reveal_strlit("percussion");
    reveal_strlit("tenor");
    reveal_strlit("treble");
    reveal_strlit("treble-15a");
    reveal_strlit("treble-15b");
    reveal_strlit("treble-8a");
    reveal_strlit("treble-8b");
    assert("treble"@[0] != "bass"@[0]);
    assert("treble"@[0] != "alto"@[0]);
    assert("treble"@[1] != "tenor"@[1]);
    assert("treble"@[0] != "percussion"@[0]);
    assert("treble"@.len() != "treble-8a"@.len());
    assert("treble"@.len() != "treble-8b"@.len());
    assert("treble"@.len() != "treble-15a"@.len());
    assert("treble"@.len() != "treble-15b"@.len());
    assert("treble"@[0] != "bass-8a"@[0]);
    assert("treble"@[0] != "bass-8b"@[0]);
    assert("treble"@[0] != "bass-15a"@[0]);
    assert("treble"@[0] != "bass-15b"@[0]);
    assert("treble"@[0] != "G"@[0]);
    assert("treble"@[0] != "F"@[0]);
    assert("treble"@[0] != "C"@[0]);
    assert("treble"@[0] != "PERCUSSION"@[0]);
    assert("bass"@[0] != "alto"@[0]);
    assert("bass"@[0] != "tenor"@[0]);
    assert("bass"@[0] != "percussion"@[0]);
    assert("bass"@[0] != "treble-8a"@[0]);
    assert("bass"@[0] != "treble-8b"@[0]);
    assert("bass"@[0] != "treble-15a"@[0]);
    assert("bass"@[0] != "treble-15b"@[0]);
    assert("bass"@.len() != "bass-8a"@.len());
    assert("bass"@.len() != "bass-8b"@.len());
    assert("bass"@.len() != "bass-15a"@.len());
    assert("bass"@.len() != "bass-15b"@.len());
    assert("bass"@[0] != "G"@[0]);
    assert("bass"@[0] != "F"@[0]);
    assert("bass"@[0] != "C"@[0]);
    assert("bass"@[0] != "PERCUSSION"@[0]);
    assert("alto"@[0] != "tenor"@[0]);
    assert("alto"@[0] != "percussion"@[0]);
    assert("alto"@[0] != "treble-8a"@[0]);
    assert("alto"@[0] != "treble-8b"@[0]);
    assert("alto"@[0] != "treble-15a"@[0]);
    assert("alto"@[0] != "treble-15b"@[0]);
    assert("alto"@[0] != "bass-8a"@[0]);
    assert("alto"@[0] != "bass-8b"@[0]);
    assert("alto"@[0] != "bass-15a"@[0]);
    assert("alto"@[0] != "bass-15b"@[0]);
    assert("alto"@[0] != "G"@[0]);
    assert("alto"@[0] != "F"@[0]);
    assert("alto"@[0] != "C"@[0]);
    assert("alto"@[0] != "PERCUSSION"@[0]);
    assert("tenor"@[0] != "percussion"@[0]);
    assert("tenor"@[1] != "treble-8a"@[1]);
    assert("tenor"@[1] != "treble-8b"@[1]);
    assert("tenor"@[1] != "treble-15a"@[1]);
    assert("tenor"@[1] != "treble-15b"@[1]);
    assert("tenor"@[0] != "bass-8a"@[0]);
    assert("tenor"@[0] != "bass-8b"@[0]);
    assert("tenor"@[0] != "bass-15a"@[0]);
    assert("tenor"@[0] != "bass-15b"@[0]);
    assert("tenor"@[0] != "G"@[0]);
    assert("tenor"@[0] != "F"@[0]);
    assert("tenor"@[0] != "C"@[0]);
    assert("tenor"@[0] != "PERCUSSION"@[0]);
    assert("percussion"@[0] != "treble-8a"@[0]);
    assert("percussion"@[0] != "treble-8b"@[0]);
    assert("percussion"@[0] != "treble-15a"@[0]);
    assert("percussion"@[0] != "treble-15b"@[0]);
    assert("percussion"@[0] != "bass-8a"@[0]);
    assert("percussion"@[0] != "bass-8b"@[0]);
    assert("percussion"@[0] != "bass-15a"@[0]);
    assert("percussion"@[0] != "bass-15b"@[0]);
    assert("percussion"@[0] != "G"@[0]);
    assert("percussion"@[0] != "F"@[0]);
    assert("percussion"@[0] != "C"@[0]);
    assert("percussion"@[0] != "PERCUSSION"@[0]);
    assert("treble-8a"@[8] != "treble-8b"@[8]);
    assert("treble-8a"@[7] != "treble-15a"@[7]);
    assert("treble-8a"@[7] != "treble-15b"@[7]);
    assert("treble-8a"@[0] != "bass-8a"@[0]);
    assert("treble-8a"@[0] != "bass-8b"@[0]);
    assert("treble-8a"@[0] != "bass-15a"@[0]);
    assert("treble-8a"@[0] != "bass-15b"@[0]);
    assert("treble-8a"@[0] != "G"@[0]);
    assert("treble-8a"@[0] != "F"@[0]);
    assert("treble-8a"@[0] != "C"@[0]);
    assert("treble-8a"@[0] != "PERCUSSION"@[0]);
    assert("treble-8b"@[7] != "treble-15a"@[7]);
    assert("treble-8b"@[7] != "treble-15b"@[7]);
    assert("treble-8b"@[0] != "bass-8a"@[0]);
    assert("treble-8b"@[0] != "bass-8b"@[0]);
    assert("treble-8b"@[0] != "bass-15a"@[0]);
    assert("treble-8b"@[0] != "bass-15b"@[0]);
    assert("treble-8b"@[0] != "G"@[0]);
    assert("treble-8b"@[0] != "F"@[0]);
    assert("treble-8b"@[0] != "C"@[0]);
    assert("treble-8b"@[0] != "PERCUSSION"@[0]);
    assert("treble-15a"@[9] != "treble-15b"@[9]);
    assert("treble-15a"@[0] != "bass-8a"@[0]);
    assert("treble-15a"@[0] != "bass-8b"@[0]);
    assert("treble-15a"@[0] != "bass-15a"@[0]);
    assert("treble-15a"@[0] != "bass-15b"@[0]);
    assert("treble-15a"@[0] != "G"@[0]);
    assert("treble-15a"@[0] != "F"@[0]);
    assert("treble-15a"@[0] != "C"@[0]);
    assert("treble-15a"@[0] != "PERCUSSION"@[0]);
    assert("treble-15b"@[0] != "bass-8a"@[0]);
    assert("treble-15b"@[0] != "bass-8b"@[0]);
    assert("treble-15b"@[0] != "bass-15a"@[0]);
    assert("treble-15b"@[0] != "bass-15b"@[0]);
    assert("treble-15b"@[0] != "G"@[0]);
    assert("treble-15b"@[0] != "F"@[0]);
    assert("treble-15b"@[0] != "C"@[0]);
    assert("treble-15b"@[0] != "PERCUSSION"@[0]);
    assert("bass-8a"@[6] != "bass-8b"@[6]);
    assert("bass-8a"@[5] != "bass-15a"@[5]);
    assert("bass-8a"@[5] != "bass-15b"@[5]);
    assert("bass-8a"@[0] != "G"@[0]);
    assert("bass-8a"@[0] != "F"@[0]);
    assert("bass-8a"@[0] != "C"@[0]);
    assert("bass-8a"@[0] != "PERCUSSION"@[0]);
    assert("bass-8b"@[5] != "bass-15a"@[5]);
    assert("bass-8b"@[5] != "bass-15b"@[5]);
    assert("bass-8b"@[0] != "G"@[0]);
    assert("bass-8b"@[0] != "F"@[0]);
    assert("bass-8b"@[0] != "C"@[0]);
    assert("bass-8b"@[0] != "PERCUSSION"@[0]);
    assert("bass-15a"@[7] != "bass-15b"@[7]);
    assert("bass-15a"@[0] != "G"@[0]);
    assert("bass-15a"@[0] != "F"@[0]);
    assert("bass-15a"@[0] != "C"@[0]);
    assert("bass-15a"@[0] != "PERCUSSION"@[0]);
    assert("bass-15b"@[0] != "G"@[0]);
    assert("bass-15b"@[0] != "F"@[0]);
    assert("bass-15b"@[0] != "C"@[0]);
    assert("bass-15b"@[0] != "PERCUSSION"@[0]);
    assert("G"@[0] != "F"@[0]);
    assert("G"@[0] != "C"@[0]);
    assert("G"@[0] != "PERCUSSION"@[0]);
    assert("F"@[0] != "C"@[0]);
    assert("F"@[0] != "PERCUSSION"@[0]);
    assert("C"@[0] != "PERCUSSION"@[0]);
}

// ---------------------------------------------------------------------------
// Chord kinds
// ---------------------------------------------------------------------------

/// The MusicXML harmony kinds that name a plain major triad (or no
/// particular chord).
pub open spec fn is_plain_kind(k: Seq<char>) -> bool {
    k == ""@ || k == "major"@ || k == "none"@ || k == "other"@
}

/// The MusicXML kind that a chord suffix stands for.
pub open spec fn kind_of_suffix(s: Seq<char>) -> Seq<char> {
    if s == "m"@ {
        "minor"@
    } else if s == "aug"@ {
        "augmented"@
    } else if s == "dim"@ {
        "diminished"@
    } else if s == "7"@ {
        "dominant"@
    } else if s == "Maj7"@ {
        "major-seventh"@
    } else if s == "m7"@ {
        "minor-seventh"@
    } else if s == "dim7"@ {
        "diminished-seventh"@
    } else if s == "aug7"@ {
        "augmented-seventh"@
    } else if s == "m7b5"@ {
        "half-diminished"@
    } else if s == "mMaj7"@ {
        "major-minor"@
    } else if s == "6"@ {
        "major-sixth"@
    } else if s == "m6"@ {
        "minor-sixth"@
    } else if s == "9"@ {
        "dominant-ninth"@
    } else if s == "Maj9"@ {
        "major-ninth"@
    } else if s == "m9"@ {
        "minor-ninth"@
    } else if s == "11"@ {
        "dominant-11th"@
    } else if s == "Maj11"@ {
        "major-11th"@
    } else if s == "m11"@ {
        "minor-11th"@
    } else if s == "13"@ {
        "dominant-13th"@
    } else if s == "Maj13"@ {
        "major-13th"@
    } else if s == "m13"@ {
        "minor-13th"@
    } else if s == "sus2"@ {
        "suspended-second"@
    } else if s == "sus4"@ {
        "suspended-fourth"@
    } else if s == "5"@ {
        "power"@
    } else if s == "N"@ {
        "Neapolitan"@
    } else if s == "It+6"@ {
        "Italian"@
    } else if s == "Fr+6"@ {
        "French"@
    } else if s == "Ger+6"@ {
        "German"@
    } else if s == "Tristan"@ {
        "Tristan"@
    } else {
        ""@
    }
}

proof fn lemma_kind_names_distinct()
    ensures
        ""@ != "major"@,
        ""@ != "none"@,
        ""@ != "minor"@,
        ""@ != "augmented"@,
        ""@ != "diminished"@,
        ""@ != "dominant"@,
        ""@ != "major-seventh"@,
        ""@ != "minor-seventh"@,
        ""@ != "diminished-seventh"@,
        ""@ != "augmented-seventh"@,
        ""@ != "half-diminished"@,
        ""@ != "major-minor"@,
        ""@ != "major-sixth"@,
        ""@ != "minor-sixth"@,
        ""@ != "dominant-ninth"@,
        ""@ != "major-ninth"@,
        ""@ != "minor-ninth"@,
        ""@ != "dominant-11th"@,
        ""@ != "major-11th"@,
        ""@ != "minor-11th"@,
        ""@ != "dominant-13th"@,
        ""@ != "major-13th"@,
        ""@ != "minor-13th"@,
        ""@ != "suspended-second"@,
        ""@ != "suspended-fourth"@,
        ""@ != "power"@,
        ""@ != "Neapolitan"@,
        ""@ != "Italian"@,
        ""@ != "French"@,
        ""@ != "German"@,
        ""@ != "Tristan"@,
        ""@ != "other"@,
        "major"@ != "none"@,
        "major"@ != "minor"@,
        "major"@ != "augmented"@,
        "major"@ != "diminished"@,
        "major"@ != "dominant"@,
        "major"@ != "major-seventh"@,
        "major"@ != "minor-seventh"@,
        "major"@ != "diminished-seventh"@,
        "major"@ != "augmented-seventh"@,
        "major"@ != "half-diminished"@,
        "major"@ != "major-minor"@,
        "major"@ != "major-sixth"@,
        "major"@ != "minor-sixth"@,
        "major"@ != "dominant-ninth"@,
        "major"@ != "major-ninth"@,
        "major"@ != "minor-ninth"@,
        "major"@ != "dominant-11th"@,
        "major"@ != "major-11th"@,
        "major"@ != "minor-11th"@,
        "major"@ != "dominant-13th"@,
        "major"@ != "major-13th"@,
        "major"@ != "minor-13th"@,
        "major"@ != "suspended-second"@,
        "major"@ != "suspended-fourth"@,
        "major"@ != "power"@,
        "major"@ != "Neapolitan"@,
        "major"@ != "Italian"@,
        "major"@ != "French"@,
        "major"@ != "German"@,
        "major"@ != "Tristan"@,
        "major"@ != "other"@,
        "none"@ != "minor"@,
        "none"@ != "augmented"@,
        "none"@ != "diminished"@,
        "none"@ != "dominant"@,
        "none"@ != "major-seventh"@,
        "none"@ != "minor-seventh"@,
        "none"@ != "diminished-seventh"@,
        "none"@ != "augmented-seventh"@,
        "none"@ != "half-diminished"@,
        "none"@ != "major-minor"@,
        "none"@ != "major-sixth"@,
        "none"@ != "minor-sixth"@,
        "none"@ != "dominant-ninth"@,
        "none"@ != "major-ninth"@,
        "none"@ != "minor-ninth"@,
        "none"@ != "dominant-11th"@,
        "none"@ != "major-11th"@,
        "none"@ != "minor-11th"@,
        "none"@ != "dominant-13th"@,
        "none"@ != "major-13th"@,
        "none"@ != "minor-13th"@,
        "none"@ != "suspended-second"@,
        "none"@ != "suspended-fourth"@,
        "none"@ != "power"@,
        "none"@ != "Neapolitan"@,
        "none"@ != "Italian"@,
        "none"@ != "French"@,
        "none"@ != "German"@,
        "none"@ != "Tristan"@,
        "none"@ != "other"@,
        "minor"@ != "augmented"@,
        "minor"@ != "diminished"@,
        "minor"@ != "dominant"@,
        "minor"@ != "major-seventh"@,
        "minor"@ != "minor-seventh"@,
        "minor"@ != "diminished-seventh"@,
        "minor"@ != "augmented-seventh"@,
        "minor"@ != "half-diminished"@,
        "minor"@ != "major-minor"@,
        "minor"@ != "major-sixth"@,
        "minor"@ != "minor-sixth"@,
        "minor"@ != "dominant-ninth"@,
        "minor"@ != "major-ninth"@,
        "minor"@ != "minor-ninth"@,
        "minor"@ != "dominant-11th"@,
        "minor"@ != "major-11th"@,
        "minor"@ != "minor-11th"@,
        "minor"@ != "dominant-13th"@,
        "minor"@ != "major-13th"@,
        "minor"@ != "minor-13th"@,
        "minor"@ != "suspended-second"@,
        "minor"@ != "suspended-fourth"@,
        "minor"@ != "power"@,
        "minor"@ != "Neapolitan"@,
        "minor"@ != "Italian"@,
        "minor"@ != "French"@,
        "minor"@ != "German"@,
        "minor"@ != "Tristan"@,
        "minor"@ != "other"@,
        "augmented"@ != "diminished"@,
        "augmented"@ != "dominant"@,
        "augmented"@ != "major-seventh"@,
        "augmented"@ != "minor-seventh"@,
        "augmented"@ != "diminished-seventh"@,
        "augmented"@ != "augmented-seventh"@,
        "augmented"@ != "half-diminished"@,
        "augmented"@ != "major-minor"@,
        "augmented"@ != "major-sixth"@,
        "augmented"@ != "minor-sixth"@,
        "augmented"@ != "dominant-ninth"@,
        "augmented"@ != "major-ninth"@,
        "augmented"@ != "minor-ninth"@,
        "augmented"@ != "dominant-11th"@,
        "augmented"@ != "major-11th"@,
        "augmented"@ != "minor-11th"@,
        "augmented"@ != "dominant-13th"@,
        "augmented"@ != "major-13th"@,
        "augmented"@ != "minor-13th"@,
        "augmented"@ != "suspended-second"@,
        "augmented"@ != "suspended-fourth"@,
        "augmented"@ != "power"@,
        "augmented"@ != "Neapolitan"@,
        "augmented"@ != "Italian"@,
        "augmented"@ != "French"@,
        "augmented"@ != "German"@,
        "augmented"@ != "Tristan"@,
        "augmented"@ != "other"@,
        "diminished"@ != "dominant"@,
        "diminished"@ != "major-seventh"@,
        "diminished"@ != "minor-seventh"@,
        "diminished"@ != "diminished-seventh"@,
        "diminished"@ != "augmented-seventh"@,
        "diminished"@ != "half-diminished"@,
        "diminished"@ != "major-minor"@,
        "diminished"@ != "major-sixth"@,
        "diminished"@ != "minor-sixth"@,
        "diminished"@ != "dominant-ninth"@,
        "diminished"@ != "major-ninth"@,
        "diminished"@ != "minor-ninth"@,
        "diminished"@ != "dominant-11th"@,
        "diminished"@ != "major-11th"@,
        "diminished"@ != "minor-11th"@,
        "diminished"@ != "dominant-13th"@,
        "diminished"@ != "major-13th"@,
        "diminished"@ != "minor-13th"@,
        "diminished"@ != "suspended-second"@,
        "diminished"@ != "suspended-fourth"@,
        "diminished"@ != "power"@,
        "diminished"@ != "Neapolitan"@,
        "diminished"@ != "Italian"@,
        "diminished"@ != "French"@,
        "diminished"@ != "German"@,
        "diminished"@ != "Tristan"@,
        "diminished"@ != "other"@,
        "dominant"@ != "major-seventh"@,
        "dominant"@ != "minor-seventh"@,
        "dominant"@ != "diminished-seventh"@,
        "dominant"@ != "augmented-seventh"@,
        "dominant"@ != "half-diminished"@,
        "dominant"@ != "major-minor"@,
        "dominant"@ != "major-sixth"@,
        "dominant"@ != "minor-sixth"@,
        "dominant"@ != "dominant-ninth"@,
        "dominant"@ != "major-ninth"@,
        "dominant"@ != "minor-ninth"@,
        "dominant"@ != "dominant-11th"@,
        "dominant"@ != "major-11th"@,
        "dominant"@ != "minor-11th"@,
        "dominant"@ != "dominant-13th"@,
        "dominant"@ != "major-13th"@,
        "dominant"@ != "minor-13th"@,
        "dominant"@ != "suspended-second"@,
        "dominant"@ != "suspended-fourth"@,
        "dominant"@ != "power"@,
        "dominant"@ != "Neapolitan"@,
        "dominant"@ != "Italian"@,
        "dominant"@ != "French"@,
        "dominant"@ != "German"@,
        "dominant"@ != "Tristan"@,
        "dominant"@ != "other"@,
        "major-seventh"@ != "minor-seventh"@,
        "major-seventh"@ != "diminished-seventh"@,
        "major-seventh"@ != "augmented-seventh"@,
        "major-seventh"@ != "half-diminished"@,
        "major-seventh"@ != "major-minor"@,
        "major-seventh"@ != "major-sixth"@,
        "major-seventh"@ != "minor-sixth"@,
        "major-seventh"@ != "dominant-ninth"@,
        "major-seventh"@ != "major-ninth"@,
        "major-seventh"@ != "minor-ninth"@,
        "major-seventh"@ != "dominant-11th"@,
        "major-seventh"@ != "major-11th"@,
        "major-seventh"@ != "minor-11th"@,
        "major-seventh"@ != "dominant-13th"@,
        "major-seventh"@ != "major-13th"@,
        "major-seventh"@ != "minor-13th"@,
        "major-seventh"@ != "suspended-second"@,
        "major-seventh"@ != "suspended-fourth"@,
        "major-seventh"@ != "power"@,
        "major-seventh"@ != "Neapolitan"@,
        "major-seventh"@ != "Italian"@,
        "major-seventh"@ != "French"@,
        "major-seventh"@ != "German"@,
        "major-seventh"@ != "Tristan"@,
        "major-seventh"@ != "other"@,
        "minor-seventh"@ != "diminished-seventh"@,
        "minor-seventh"@ != "augmented-seventh"@,
        "minor-seventh"@ != "half-diminished"@,
        "minor-seventh"@ != "major-minor"@,
        "minor-seventh"@ != "major-sixth"@,
        "minor-seventh"@ != "minor-sixth"@,
        "minor-seventh"@ != "dominant-ninth"@,
        "minor-seventh"@ != "major-ninth"@,
        "minor-seventh"@ != "minor-ninth"@,
        "minor-seventh"@ != "dominant-11th"@,
        "minor-seventh"@ != "major-11th"@,
        "minor-seventh"@ != "minor-11th"@,
        "minor-seventh"@ != "dominant-13th"@,
        "minor-seventh"@ != "major-13th"@,
        "minor-seventh"@ != "minor-13th"@,
        "minor-seventh"@ != "suspended-second"@,
        "minor-seventh"@ != "suspended-fourth"@,
        "minor-seventh"@ != "power"@,
        "minor-seventh"@ != "Neapolitan"@,
        "minor-seventh"@ != "Italian"@,
        "minor-seventh"@ != "French"@,
        "minor-seventh"@ != "German"@,
        "minor-seventh"@ != "Tristan"@,
        "minor-seventh"@ != "other"@,
        "diminished-seventh"@ != "augmented-seventh"@,
        "diminished-seventh"@ != "half-diminished"@,
        "diminished-seventh"@ != "major-minor"@,
        "diminished-seventh"@ != "major-sixth"@,
        "diminished-seventh"@ != "minor-sixth"@,
        "diminished-seventh"@ != "dominant-ninth"@,
        "diminished-seventh"@ != "major-ninth"@,
        "diminished-seventh"@ != "minor-ninth"@,
        "diminished-seventh"@ != "dominant-11th"@,
        "diminished-seventh"@ != "major-11th"@,
        "diminished-seventh"@ != "minor-11th"@,
        "diminished-seventh"@ != "dominant-13th"@,
        "diminished-seventh"@ != "major-13th"@,
        "diminished-seventh"@ != "minor-13th"@,
        "diminished-seventh"@ != "suspended-second"@,
        "diminished-seventh"@ != "suspended-fourth"@,
        "diminished-seventh"@ != "power"@,
        "diminished-seventh"@ != "Neapolitan"@,
        "diminished-seventh"@ != "Italian"@,
        "diminished-seventh"@ != "French"@,
        "diminished-seventh"@ != "German"@,
        "diminished-seventh"@ != "Tristan"@,
        "diminished-seventh"@ != "other"@,
        "augmented-seventh"@ != "half-diminished"@,
        "augmented-seventh"@ != "major-minor"@,
        "augmented-seventh"@ != "major-sixth"@,
        "augmented-seventh"@ != "minor-sixth"@,
        "augmented-seventh"@ != "dominant-ninth"@,
        "augmented-seventh"@ != "major-ninth"@,
        "augmented-seventh"@ != "minor-ninth"@,
        "augmented-seventh"@ != "dominant-11th"@,
        "augmented-seventh"@ != "major-11th"@,
        "augmented-seventh"@ != "minor-11th"@,
        "augmented-seventh"@ != "dominant-13th"@,
        "augmented-seventh"@ != "major-13th"@,
        "augmented-seventh"@ != "minor-13th"@,
        "augmented-seventh"@ != "suspended-second"@,
        "augmented-seventh"@ != "suspended-fourth"@,
        "augmented-seventh"@ != "power"@,
        "augmented-seventh"@ != "Neapolitan"@,
        "augmented-seventh"@ != "Italian"@,
        "augmented-seventh"@ != "French"@,
        "augmented-seventh"@ != "German"@,
        "augmented-seventh"@ != "Tristan"@,
        "augmented-seventh"@ != "other"@,
        "half-diminished"@ != "major-minor"@,
        "half-diminished"@ != "major-sixth"@,
        "half-diminished"@ != "minor-sixth"@,
        "half-diminished"@ != "dominant-ninth"@,
        "half-diminished"@ != "major-ninth"@,
        "half-diminished"@ != "minor-ninth"@,
        "half-diminished"@ != "dominant-11th"@,
        "half-diminished"@ != "major-11th"@,
        "half-diminished"@ != "minor-11th"@,
        "half-diminished"@ != "dominant-13th"@,
        "half-diminished"@ != "major-13th"@,
        "half-diminished"@ != "minor-13th"@,
        "half-diminished"@ != "suspended-second"@,
        "half-diminished"@ != "suspended-fourth"@,
        "half-diminished"@ != "power"@,
        "half-diminished"@ != "Neapolitan"@,
        "half-diminished"@ != "Italian"@,
        "half-diminished"@ != "French"@,
        "half-diminished"@ != "German"@,
        "half-diminished"@ != "Tristan"@,
        "half-diminished"@ != "other"@,
        "major-minor"@ != "major-sixth"@,
        "major-minor"@ != "minor-sixth"@,
        "major-minor"@ != "dominant-ninth"@,
        "major-minor"@ != "major-ninth"@,
        "major-minor"@ != "minor-ninth"@,
        "major-minor"@ != "dominant-11th"@,
        "major-minor"@ != "major-11th"@,
        "major-minor"@ != "minor-11th"@,
        "major-minor"@ != "dominant-13th"@,
        "major-minor"@ != "major-13th"@,
        "major-minor"@ != "minor-13th"@,
        "major-minor"@ != "suspended-second"@,
        "major-minor"@ != "suspended-fourth"@,
        "major-minor"@ != "power"@,
        "major-minor"@ != "Neapolitan"@,
        "major-minor"@ != "Italian"@,
        "major-minor"@ != "French"@,
        "major-minor"@ != "German"@,
        "major-minor"@ != "Tristan"@,
        "major-minor"@ != "other"@,
        "major-sixth"@ != "minor-sixth"@,
        "major-sixth"@ != "dominant-ninth"@,
        "major-sixth"@ != "major-ninth"@,
        "major-sixth"@ != "minor-ninth"@,
        "major-sixth"@ != "dominant-11th"@,
        "major-sixth"@ != "major-11th"@,
        "major-sixth"@ != "minor-11th"@,
        "major-sixth"@ != "dominant-13th"@,
        "major-sixth"@ != "major-13th"@,
        "major-sixth"@ != "minor-13th"@,
        "major-sixth"@ != "suspended-second"@,
        "major-sixth"@ != "suspended-fourth"@,
        "major-sixth"@ != "power"@,
        "major-sixth"@ != "Neapolitan"@,
        "major-sixth"@ != "Italian"@,
        "major-sixth"@ != "French"@,
        "major-sixth"@ != "German"@,
        "major-sixth"@ != "Tristan"@,
        "major-sixth"@ != "other"@,
        "minor-sixth"@ != "dominant-ninth"@,
        "minor-sixth"@ != "major-ninth"@,
        "minor-sixth"@ != "minor-ninth"@,
        "minor-sixth"@ != "dominant-11th"@,
        "minor-sixth"@ != "major-11th"@,
        "minor-sixth"@ != "minor-11th"@,
        "minor-sixth"@ != "dominant-13th"@,
        "minor-sixth"@ != "major-13th"@,
        "minor-sixth"@ != "minor-13th"@,
        "minor-sixth"@ != "suspended-second"@,
        "minor-sixth"@ != "suspended-fourth"@,
        "minor-sixth"@ != "power"@,
        "minor-sixth"@ != "Neapolitan"@,
        "minor-sixth"@ != "Italian"@,
        "minor-sixth"@ != "French"@,
        "minor-sixth"@ != "German"@,
        "minor-sixth"@ != "Tristan"@,
        "minor-sixth"@ != "other"@,
        "dominant-ninth"@ != "major-ninth"@,
        "dominant-ninth"@ != "minor-ninth"@,
        "dominant-ninth"@ != "dominant-11th"@,
        "dominant-ninth"@ != "major-11th"@,
        "dominant-ninth"@ != "minor-11th"@,
        "dominant-ninth"@ != "dominant-13th"@,
        "dominant-ninth"@ != "major-13th"@,
        "dominant-ninth"@ != "minor-13th"@,
        "dominant-ninth"@ != "suspended-second"@,
        "dominant-ninth"@ != "suspended-fourth"@,
        "dominant-ninth"@ != "power"@,
        "dominant-ninth"@ != "Neapolitan"@,
        "dominant-ninth"@ != "Italian"@,
        "dominant-ninth"@ != "French"@,
        "dominant-ninth"@ != "German"@,
        "dominant-ninth"@ != "Tristan"@,
        "dominant-ninth"@ != "other"@,
        "major-ninth"@ != "minor-ninth"@,
        "major-ninth"@ != "dominant-11th"@,
        "major-ninth"@ != "major-11th"@,
        "major-ninth"@ != "minor-11th"@,
        "major-ninth"@ != "dominant-13th"@,
        "major-ninth"@ != "major-13th"@,
        "major-ninth"@ != "minor-13th"@,
        "major-ninth"@ != "suspended-second"@,
        "major-ninth"@ != "suspended-fourth"@,
        "major-ninth"@ != "power"@,
        "major-ninth"@ != "Neapolitan"@,
        "major-ninth"@ != "Italian"@,
        "major-ninth"@ != "French"@,
        "major-ninth"@ != "German"@,
        "major-ninth"@ != "Tristan"@,
        "major-ninth"@ != "other"@,
        "minor-ninth"@ != "dominant-11th"@,
        "minor-ninth"@ != "major-11th"@,
        "minor-ninth"@ != "minor-11th"@,
        "minor-ninth"@ != "dominant-13th"@,
        "minor-ninth"@ != "major-13th"@,
        "minor-ninth"@ != "minor-13th"@,
        "minor-ninth"@ != "suspended-second"@,
        "minor-ninth"@ != "suspended-fourth"@,
        "minor-ninth"@ != "power"@,
        "minor-ninth"@ != "Neapolitan"@,
        "minor-ninth"@ != "Italian"@,
        "minor-ninth"@ != "French"@,
        "minor-ninth"@ != "German"@,
        "minor-ninth"@ != "Tristan"@,
        "minor-ninth"@ != "other"@,
        "dominant-11th"@ != "major-11th"@,
        "dominant-11th"@ != "minor-11th"@,
        "dominant-11th"@ != "dominant-13th"@,
        "dominant-11th"@ != "major-13th"@,
        "dominant-11th"@ != "minor-13th"@,
        "dominant-11th"@ != "suspended-second"@,
        "dominant-11th"@ != "suspended-fourth"@,
        "dominant-11th"@ != "power"@,
        "dominant-11th"@ != "Neapolitan"@,
        "dominant-11th"@ != "Italian"@,
        "dominant-11th"@ != "French"@,
        "dominant-11th"@ != "German"@,
        "dominant-11th"@ != "Tristan"@,
        "dominant-11th"@ != "other"@,
        "major-11th"@ != "minor-11th"@,
        "major-11th"@ != "dominant-13th"@,
        "major-11th"@ != "major-13th"@,
        "major-11th"@ != "minor-13th"@,
        "major-11th"@ != "suspended-second"@,
        "major-11th"@ != "suspended-fourth"@,
        "major-11th"@ != "power"@,
        "major-11th"@ != "Neapolitan"@,
        "major-11th"@ != "Italian"@,
        "major-11th"@ != "French"@,
        "major-11th"@ != "German"@,
        "major-11th"@ != "Tristan"@,
        "major-11th"@ != "other"@,
        "minor-11th"@ != "dominant-13th"@,
        "minor-11th"@ != "major-13th"@,
        "minor-11th"@ != "minor-13th"@,
        "minor-11th"@ != "suspended-second"@,
        "minor-11th"@ != "suspended-fourth"@,
        "minor-11th"@ != "power"@,
        "minor-11th"@ != "Neapolitan"@,
        "minor-11th"@ != "Italian"@,
        "minor-11th"@ != "French"@,
        "minor-11th"@ != "German"@,
        "minor-11th"@ != "Tristan"@,
        "minor-11th"@ != "other"@,
        "dominant-13th"@ != "major-13th"@,
        "dominant-13th"@ != "minor-13th"@,
        "dominant-13th"@ != "suspended-second"@,
        "dominant-13th"@ != "suspended-fourth"@,
        "dominant-13th"@ != "power"@,
        "dominant-13th"@ != "Neapolitan"@,
        "dominant-13th"@ != "Italian"@,
        "dominant-13th"@ != "French"@,
        "dominant-13th"@ != "German"@,
        "dominant-13th"@ != "Tristan"@,
        "dominant-13th"@ != "other"@,
        "major-13th"@ != "minor-13th"@,
        "major-13th"@ != "suspended-second"@,
        "major-13th"@ != "suspended-fourth"@,
        "major-13th"@ != "power"@,
        "major-13th"@ != "Neapolitan"@,
        "major-13th"@ != "Italian"@,
        "major-13th"@ != "French"@,
        "major-13th"@ != "German"@,
        "major-13th"@ != "Tristan"@,
        "major-13th"@ != "other"@,
        "minor-13th"@ != "suspended-second"@,
        "minor-13th"@ != "suspended-fourth"@,
        "minor-13th"@ != "power"@,
        "minor-13th"@ != "Neapolitan"@,
        "minor-13th"@ != "Italian"@,
        "minor-13th"@ != "French"@,
        "minor-13th"@ != "German"@,
        "minor-13th"@ != "Tristan"@,
        "minor-13th"@ != "other"@,
        "suspended-second"@ != "suspended-fourth"@,
        "suspended-second"@ != "power"@,
        "suspended-second"@ != "Neapolitan"@,
        "suspended-second"@ != "Italian"@,
        "suspended-second"@ != "French"@,
        "suspended-second"@ != "German"@,
        "suspended-second"@ != "Tristan"@,
        "suspended-second"@ != "other"@,
        "suspended-fourth"@ != "power"@,
        "suspended-fourth"@ != "Neapolitan"@,
        "suspended-fourth"@ != "Italian"@,
        "suspended-fourth"@ != "French"@,
        "suspended-fourth"@ != "German"@,
        "suspended-fourth"@ != "Tristan"@,
        "suspended-fourth"@ != "other"@,
        "power"@ != "Neapolitan"@,
        "power"@ != "Italian"@,
        "power"@ != "French"@,
        "power"@ != "German"@,
        "power"@ != "Tristan"@,
        "power"@ != "other"@,
        "Neapolitan"@ != "Italian"@,
        "Neapolitan"@ != "French"@,
        "Neapolitan"@ != "German"@,
        "Neapolitan"@ != "Tristan"@,
        "Neapolitan"@ != "other"@,
        "Italian"@ != "French"@,
        "Italian"@ != "German"@,
        "Italian"@ != "Tristan"@,
        "Italian"@ != "other"@,
        "French"@ != "German"@,
        "French"@ != "Tristan"@,
        "French"@ != "other"@,
        "German"@ != "Tristan"@,
        "German"@ != "other"@,
        "Tristan"@ != "other"@,
{
    reveal_strlit("");
    reveal_strlit("major");
    reveal_strlit("none");
    reveal_strlit("minor");
    reveal_strlit("augmented");
    reveal_strlit("diminished");
    reveal_strlit("dominant");
    reveal_strlit("major-seventh");
    reveal_strlit("minor-seventh");
    reveal_strlit("diminished-seventh");
    reveal_strlit("augmented-seventh");
    reveal_strlit("half-diminished");
    reveal_strlit("major-minor");
    reveal_strlit("major-sixth");
    reveal_strlit("minor-sixth");
    reveal_strlit("dominant-ninth");
    reveal_strlit("major-ninth");
    reveal_strlit("minor-ninth");
    reveal_strlit("dominant-11th");
    reveal_strlit("major-11th");
    reveal_strlit("minor-11th");
    reveal_strlit("dominant-13th");
    reveal_strlit("major-13th");
    reveal_strlit("minor-13th");
    reveal_strlit("suspended-second");
    reveal_strlit("suspended-fourth");
    reveal_strlit("power");
    reveal_strlit("Neapolitan");
    reveal_strlit("Italian");
    reveal_strlit("French");
    reveal_strlit("German");
    reveal_strlit("Tristan");
    reveal_strlit("other");
    assert(""@.len() != "major"@.len());
    assert(""@.len() != "none"@.len());
    assert(""@.len() != "minor"@.len());
    assert(""@.len() != "augmented"@.len());
    assert(""@.len() != "diminished"@.len());
    assert(""@.len() != "dominant"@.len());
    assert(""@.len() != "major-seventh"@.len());
    assert(""@.len() != "minor-seventh"@.len());
    assert(""@.len() != "diminished-seventh"@.len());
    assert(""@.len() != "augmented-seventh"@.len());
    assert(""@.len() != "half-diminished"@.len());
    assert(""@.len() != "major-minor"@.len());
    assert(""@.len() != "major-sixth"@.len());
    assert(""@.len() != "minor-sixth"@.len());
    assert(""@.len() != "dominant-ninth"@.len());
    assert(""@.len() != "major-ninth"@.len());
    assert(""@.len() != "minor-ninth"@.len());
    assert(""@.len() != "dominant-11th"@.len());
    assert(""@.len() != "major-11th"@.len());
    assert(""@.len() != "minor-11th"@.len());
    assert(""@.len() != "dominant-13th"@.len());
    assert(""@.len() != "major-13th"@.len());
    assert(""@.len() != "minor-13th"@.len());
    assert(""@.len() != "suspended-second"@.len());
    assert(""@.len() != "suspended-fourth"@.len());
    assert(""@.len() != "power"@.len());
    assert(""@.len() != "Neapolitan"@.len());
    assert(""@.len() != "Italian"@.len());
    assert(""@.len() != "French"@.len());
    assert(""@.len() != "German"@.len());
    assert(""@.len() != "Tristan"@.len());
    assert(""@.len() != "other"@.len());
    assert("major"@[0] != "none"@[0]);
    assert("major"@[1] != "minor"@[1]);
    assert("major"@[0] != "augmented"@[0]);
    assert("major"@[0] != "diminished"@[0]);
    assert("major"@[0] != "dominant"@[0]);
    assert("major"@.len() != "major-seventh"@.len());
    assert("major"@[1] != "minor-seventh"@[1]);
    assert("major"@[0] != "diminished-seventh"@[0]);
    assert("major"@[0] != "augmented-seventh"@[0]);
    assert("major"@[0] != "half-diminished"@[0]);
    assert("major"@.len() != "major-minor"@.len());
    assert("major"@.len() != "major-sixth"@.len());
    assert("major"@[1] != "minor-sixth"@[1]);
    assert("major"@[0] != "dominant-ninth"@[0]);
    assert("major"@.len() != "major-ninth"@.len());
    assert("major"@[1] != "minor-ninth"@[1]);
    assert("major"@[0] != "dominant-11th"@[0]);
    assert("major"@.len() != "major-11th"@.len());
    assert("major"@[1] != "minor-11th"@[1]);
    assert("major"@[0] != "dominant-13th"@[0]);
    assert("major"@.len() != "major-13th"@.len());
    assert("major"@[1] != "minor-13th"@[1]);
    assert("major"@[0] != "suspended-second"@[0]);
    assert("major"@[0] != "suspended-fourth"@[0]);
    assert("major"@[0] != "power"@[0]);
    assert("major"@[0] != "Neapolitan"@[0]);
    assert("major"@[0] != "Italian"@[0]);
    assert("major"@[0] != "French"@[0]);
    assert("major"@[0] != "German"@[0]);
    assert("major"@[0] != "Tristan"@[0]);
    assert("major"@[0] != "other"@[0]);
    assert("none"@[0] != "minor"@[0]);
    assert("none"@[0] != "augmented"@[0]);
    assert("none"@[0] != "diminished"@[0]);
    assert("none"@[0] != "dominant"@[0]);
    assert("none"@[0] != "major-seventh"@[0]);
    assert("none"@[0] != "minor-seventh"@[0]);
    assert("none"@[0] != "diminished-seventh"@[0]);
    assert("none"@[0] != "augmented-seventh"@[0]);
    assert("none"@[0] != "half-diminished"@[0]);
    assert("none"@[0] != "major-minor"@[0]);
    assert("none"@[0] != "major-sixth"@[0]);
    assert("none"@[0] != "minor-sixth"@[0]);
    assert("none"@[0] != "dominant-ninth"@[0]);
    assert("none"@[0] != "major-ninth"@[0]);
    assert("none"@[0] != "minor-ninth"@[0]);
    assert("none"@[0] != "dominant-11th"@[0]);
    assert("none"@[0] != "major-11th"@[0]);
    assert("none"@[0] != "minor-11th"@[0]);
    assert("none"@[0] != "dominant-13th"@[0]);
    assert("none"@[0] != "major-13th"@[0]);
    assert("none"@[0] != "minor-13th"@[0]);
    assert("none"@[0] != "suspended-second"@[0]);
    assert("none"@[0] != "suspended-fourth"@[0]);
    assert("none"@[0] != "power"@[0]);
    assert("none"@[0] != "Neapolitan"@[0]);
    assert("none"@[0] != "Italian"@[0]);
    assert("none"@[0] != "French"@[0]);
    assert("none"@[0] != "German"@[0]);
    assert("none"@[0] != "Tristan"@[0]);
    assert("none"@[0] != "other"@[0]);
    assert("minor"@[0] != "augmented"@[0]);
    assert("minor"@[0] != "diminished"@[0]);
    assert("minor"@[0] != "dominant"@[0]);
    assert("minor"@[1] != "major-seventh"@[1]);
    assert("minor"@.len() != "minor-seventh"@.len());
    assert("minor"@[0] != "diminished-seventh"@[0]);
    assert("minor"@[0] != "augmented-seventh"@[0]);
    assert("minor"@[0] != "half-diminished"@[0]);
    assert("minor"@[1] != "major-minor"@[1]);
    assert("minor"@[1] != "major-sixth"@[1]);
    assert("minor"@.len() != "minor-sixth"@.len());
    assert("minor"@[0] != "dominant-ninth"@[0]);
    assert("minor"@[1] != "major-ninth"@[1]);
    assert("minor"@.len() != "minor-ninth"@.len());
    assert("minor"@[0] != "dominant-11th"@[0]);
    assert("minor"@[1] != "major-11th"@[1]);
    assert("minor"@.len() != "minor-11th"@.len());
    assert("minor"@[0] != "dominant-13th"@[0]);
    assert("minor"@[1] != "major-13th"@[1]);
    assert("minor"@.len() != "minor-13th"@.len());
    assert("minor"@[0] != "suspended-second"@[0]);
    assert("minor"@[0] != "suspended-fourth"@[0]);
    assert("minor"@[0] != "power"@[0]);
    assert("minor"@[0] != "Neapolitan"@[0]);
    assert("minor"@[0] != "Italian"@[0]);
    assert("minor"@[0] != "French"@[0]);
    assert("minor"@[0] != "German"@[0]);
    assert("minor"@[0] != "Tristan"@[0]);
    assert("minor"@[0] != "other"@[0]);
    assert("augmented"@[0] != "diminished"@[0]);
    assert("augmented"@[0] != "dominant"@[0]);
    assert("augmented"@[0] != "major-seventh"@[0]);
    assert("augmented"@[0] != "minor-seventh"@[0]);
    assert("augmented"@[0] != "diminished-seventh"@[0]);
    assert("augmented"@.len() != "augmented-seventh"@.len());
    assert("augmented"@[0] != "half-diminished"@[0]);
    assert("augmented"@[0] != "major-minor"@[0]);
    assert("augmented"@[0] != "major-sixth"@[0]);
    assert("augmented"@[0] != "minor-sixth"@[0]);
    assert("augmented"@[0] != "dominant-ninth"@[0]);
    assert("augmented"@[0] != "major-ninth"@[0]);
    assert("augmented"@[0] != "minor-ninth"@[0]);
    assert("augmented"@[0] != "dominant-11th"@[0]);
    assert("augmented"@[0] != "major-11th"@[0]);
    assert("augmented"@[0] != "minor-11th"@[0]);
    assert("augmented"@[0] != "dominant-13th"@[0]);
    assert("augmented"@[0] != "major-13th"@[0]);
    assert("augmented"@[0] != "minor-13th"@[0]);
    assert("augmented"@[0] != "suspended-second"@[0]);
    assert("augmented"@[0] != "suspended-fourth"@[0]);
    assert("augmented"@[0] != "power"@[0]);
    assert("augmented"@[0] != "Neapolitan"@[0]);
    assert("augmented"@[0] != "Italian"@[0]);
    assert("augmented"@[0] != "French"@[0]);
    assert("augmented"@[0] != "German"@[0]);
    assert("augmented"@[0] != "Tristan"@[0]);
    assert("augmented"@[0] != "other"@[0]);
    assert("diminished"@[1] != "dominant"@[1]);
    assert("diminished"@[0] != "major-seventh"@[0]);
    assert("diminished"@[0] != "minor-seventh"@[0]);
    assert("diminished"@.len() != "diminished-seventh"@.len());
    assert("diminished"@[0] != "augmented-seventh"@[0]);
    assert("diminished"@[0] != "half-diminished"@[0]);
    assert("diminished"@[0] != "major-minor"@[0]);
    assert("diminished"@[0] != "major-sixth"@[0]);
    assert("diminished"@[0] != "minor-sixth"@[0]);
    assert("diminished"@[1] != "dominant-ninth"@[1]);
    assert("diminished"@[0] != "major-ninth"@[0]);
    assert("diminished"@[0] != "minor-ninth"@[0]);
    assert("diminished"@[1] != "dominant-11th"@[1]);
    assert("diminished"@[0] != "major-11th"@[0]);
    assert("diminished"@[0] != "minor-11th"@[0]);
    assert("diminished"@[1] != "dominant-13th"@[1]);
    assert("diminished"@[0] != "major-13th"@[0]);
    assert("diminished"@[0] != "minor-13th"@[0]);
    assert("diminished"@[0] != "suspended-second"@[0]);
    assert("diminished"@[0] != "suspended-fourth"@[0]);
    assert("diminished"@[0] != "power"@[0]);
    assert("diminished"@[0] != "Neapolitan"@[0]);
    assert("diminished"@[0] != "Italian"@[0]);
    assert("diminished"@[0] != "French"@[0]);
    assert("diminished"@[0] != "German"@[0]);
    assert("diminished"@[0] != "Tristan"@[0]);
    assert("diminished"@[0] != "other"@[0]);
    assert("dominant"@[0] != "major-seventh"@[0]);
    assert("dominant"@[0] != "minor-seventh"@[0]);
    assert("dominant"@[1] != "diminished-seventh"@[1]);
    assert("dominant"@[0] != "augmented-seventh"@[0]);
    assert("dominant"@[0] != "half-diminished"@[0]);
    assert("dominant"@[0] != "major-minor"@[0]);
    assert("dominant"@[0] != "major-sixth"@[0]);
    assert("dominant"@[0] != "minor-sixth"@[0]);
    assert("dominant"@.len() != "dominant-ninth"@.len());
    assert("dominant"@[0] != "major-ninth"@[0]);
    assert("dominant"@[0] != "minor-ninth"@[0]);
    assert("dominant"@.len() != "dominant-11th"@.len());
    assert("dominant"@[0] != "major-11th"@[0]);
    assert("dominant"@[0] != "minor-11th"@[0]);
    assert("dominant"@.len() != "dominant-13th"@.len());
    assert("dominant"@[0] != "major-13th"@[0]);
    assert("dominant"@[0] != "minor-13th"@[0]);
    assert("dominant"@[0] != "suspended-second"@[0]);
    assert("dominant"@[0] != "suspended-fourth"@[0]);
    assert("dominant"@[0] != "power"@[0]);
    assert("dominant"@[0] != "Neapolitan"@[0]);
    assert("dominant"@[0] != "Italian"@[0]);
    assert("dominant"@[0] != "French"@[0]);
    assert("dominant"@[0] != "German"@[0]);
    assert("dominant"@[0] != "Tristan"@[0]);
    assert("dominant"@[0] != "other"@[0]);
    assert("major-seventh"@[1] != "minor-seventh"@[1]);
    assert("major-seventh"@[0] != "diminished-seventh"@[0]);
    assert("major-seventh"@[0] != "augmented-seventh"@[0]);
    assert("major-seventh"@[0] != "half-diminished"@[0]);
    assert("major-seventh"@[6] != "major-minor"@[6]);
    assert("major-seventh"@[7] != "major-sixth"@[7]);
    assert("major-seventh"@[1] != "minor-sixth"@[1]);
    assert("major-seventh"@[0] != "dominant-ninth"@[0]);
    assert("major-seventh"@[6] != "major-ninth"@[6]);
    assert("major-seventh"@[1] != "minor-ninth"@[1]);
    assert("major-seventh"@[0] != "dominant-11th"@[0]);
    assert("major-seventh"@[6] != "major-11th"@[6]);
    assert("major-seventh"@[1] != "minor-11th"@[1]);
    assert("major-seventh"@[0] != "dominant-13th"@[0]);
    assert("major-seventh"@[6] != "major-13th"@[6]);
    assert("major-seventh"@[1] != "minor-13th"@[1]);
    assert("major-seventh"@[0] != "suspended-second"@[0]);
    assert("major-seventh"@[0] != "suspended-fourth"@[0]);
    assert("major-seventh"@[0] != "power"@[0]);
    assert("major-seventh"@[0] != "Neapolitan"@[0]);
    assert("major-seventh"@[0] != "Italian"@[0]);
    assert("major-seventh"@[0] != "French"@[0]);
    assert("major-seventh"@[0] != "German"@[0]);
    assert("major-seventh"@[0] != "Tristan"@[0]);
    assert("major-seventh"@[0] != "other"@[0]);
    assert("minor-seventh"@[0] != "diminished-seventh"@[0]);
    assert("minor-seventh"@[0] != "augmented-seventh"@[0]);
    assert("minor-seventh"@[0] != "half-diminished"@[0]);
    assert("minor-seventh"@[1] != "major-minor"@[1]);
    assert("minor-seventh"@[1] != "major-sixth"@[1]);
    assert("minor-seventh"@[7] != "minor-sixth"@[7]);
    assert("minor-seventh"@[0] != "dominant-ninth"@[0]);
    assert("minor-seventh"@[1] != "major-ninth"@[1]);
    assert("minor-seventh"@[6] != "minor-ninth"@[6]);
    assert("minor-seventh"@[0] != "dominant-11th"@[0]);
    assert("minor-seventh"@[1] != "major-11th"@[1]);
    assert("minor-seventh"@[6] != "minor-11th"@[6]);
    assert("minor-seventh"@[0] != "dominant-13th"@[0]);
    assert("minor-seventh"@[1] != "major-13th"@[1]);
    assert("minor-seventh"@[6] != "minor-13th"@[6]);
    assert("minor-seventh"@[0] != "suspended-second"@[0]);
    assert("minor-seventh"@[0] != "suspended-fourth"@[0]);
    assert("minor-seventh"@[0] != "power"@[0]);
    assert("minor-seventh"@[0] != "Neapolitan"@[0]);
    assert("minor-seventh"@[0] != "Italian"@[0]);
    assert("minor-seventh"@[0] != "French"@[0]);
    assert("minor-seventh"@[0] != "German"@[0]);
    assert("minor-seventh"@[0] != "Tristan"@[0]);
    assert("minor-seventh"@[0] != "other"@[0]);
    assert("diminished-seventh"@[0] != "augmented-seventh"@[0]);
    assert("diminished-seventh"@[0] != "half-diminished"@[0]);
    assert("diminished-seventh"@[0] != "major-minor"@[0]);
    assert("diminished-seventh"@[0] != "major-sixth"@[0]);
    assert("diminished-seventh"@[0] != "minor-sixth"@[0]);
    assert("diminished-seventh"@[1] != "dominant-ninth"@[1]);
    assert("diminished-seventh"@[0] != "major-ninth"@[0]);
    assert("diminished-seventh"@[0] != "minor-ninth"@[0]);
    assert("diminished-seventh"@[1] != "dominant-11th"@[1]);
    assert("diminished-seventh"@[0] != "major-11th"@[0]);
    assert("diminished-seventh"@[0] != "minor-11th"@[0]);
    assert("diminished-seventh"@[1] != "dominant-13th"@[1]);
    assert("diminished-seventh"@[0] != "major-13th"@[0]);
    assert("diminished-seventh"@[0] != "minor-13th"@[0]);
    assert("diminished-seventh"@[0] != "suspended-second"@[0]);
    assert("diminished-seventh"@[0] != "suspended-fourth"@[0]);
    assert("diminished-seventh"@[0] != "power"@[0]);
    assert("diminished-seventh"@[0] != "Neapolitan"@[0]);
    assert("diminished-seventh"@[0] != "Italian"@[0]);
    assert("diminished-seventh"@[0] != "French"@[0]);
    assert("diminished-seventh"@[0] != "German"@[0]);
    assert("diminished-seventh"@[0] != "Tristan"@[0]);
    assert("diminished-seventh"@[0] != "other"@[0]);
    assert("augmented-seventh"@[0] != "half-diminished"@[0]);
    assert("augmented-seventh"@[0] != "major-minor"@[0]);
    assert("augmented-seventh"@[0] != "major-sixth"@[0]);
    assert("augmented-seventh"@[0] != "minor-sixth"@[0]);
    assert("augmented-seventh"@[0] != "dominant-ninth"@[0]);
    assert("augmented-seventh"@[0] != "major-ninth"@[0]);
    assert("augmented-seventh"@[0] != "minor-ninth"@[0]);
    assert("augmented-seventh"@[0] != "dominant-11th"@[0]);
    assert("augmented-seventh"@[0] != "major-11th"@[0]);
    assert("augmented-seventh"@[0] != "minor-11th"@[0]);
    assert("augmented-seventh"@[0] != "dominant-13th"@[0]);
    assert("augmented-seventh"@[0] != "major-13th"@[0]);
    assert("augmented-seventh"@[0] != "minor-13th"@[0]);
    assert("augmented-seventh"@[0] != "suspended-second"@[0]);
    assert("augmented-seventh"@[0] != "suspended-fourth"@[0]);
    assert("augmented-seventh"@[0] != "power"@[0]);
    assert("augmented-seventh"@[0] != "Neapolitan"@[0]);
    assert("augmented-seventh"@[0] != "Italian"@[0]);
    assert("augmented-seventh"@[0] != "French"@[0]);
    assert("augmented-seventh"@[0] != "German"@[0]);
    assert("augmented-seventh"@[0] != "Tristan"@[0]);
    assert("augmented-seventh"@[0] != "other"@[0]);
    assert("half-diminished"@[0] != "major-minor"@[0]);
    assert("half-diminished"@[0] != "major-sixth"@[0]);
    assert("half-diminished"@[0] != "minor-sixth"@[0]);
    assert("half-diminished"@[0] != "dominant-ninth"@[0]);
    assert("half-diminished"@[0] != "major-ninth"@[0]);
    assert("half-diminished"@[0] != "minor-ninth"@[0]);
    assert("half-diminished"@[0] != "dominant-11th"@[0]);
    assert("half-diminished"@[0] != "major-11th"@[0]);
    assert("half-diminished"@[0] != "minor-11th"@[0]);
    assert("half-diminished"@[0] != "dominant-13th"@[0]);
    assert("half-diminished"@[0] != "major-13th"@[0]);
    assert("half-diminished"@[0] != "minor-13th"@[0]);
    assert("half-diminished"@[0] != "suspended-second"@[0]);
    assert("half-diminished"@[0] != "suspended-fourth"@[0]);
    assert("half-diminished"@[0] != "power"@[0]);
    assert("half-diminished"@[0] != "Neapolitan"@[0]);
    assert("half-diminished"@[0] != "Italian"@[0]);
    assert("half-diminished"@[0] != "French"@[0]);
    assert("half-diminished"@[0] != "German"@[0]);
    assert("half-diminished"@[0] != "Tristan"@[0]);
    assert("half-diminished"@[0] != "other"@[0]);
    assert("major-minor"@[6] != "major-sixth"@[6]);
    assert("major-minor"@[1] != "minor-sixth"@[1]);
    assert("major-minor"@[0] != "dominant-ninth"@[0]);
    assert("major-minor"@[6] != "major-ninth"@[6]);
    assert("major-minor"@[1] != "minor-ninth"@[1]);
    assert("major-minor"@[0] != "dominant-11th"@[0]);
    assert("major-minor"@[6] != "major-11th"@[6]);
    assert("major-minor"@[1] != "minor-11th"@[1]);
    assert("major-minor"@[0] != "dominant-13th"@[0]);
    assert("major-minor"@[6] != "major-13th"@[6]);
    assert("major-minor"@[1] != "minor-13th"@[1]);
    assert("major-minor"@[0] != "suspended-second"@[0]);
    assert("major-minor"@[0] != "suspended-fourth"@[0]);
    assert("major-minor"@[0] != "power"@[0]);
    assert("major-minor"@[0] != "Neapolitan"@[0]);
    assert("major-minor"@[0] != "Italian"@[0]);
    assert("major-minor"@[0] != "French"@[0]);
    assert("major-minor"@[0] != "German"@[0]);
    assert("major-minor"@[0] != "Tristan"@[0]);
    assert("major-minor"@[0] != "other"@[0]);
    assert("major-sixth"@[1] != "minor-sixth"@[1]);
    assert("major-sixth"@[0] != "dominant-ninth"@[0]);
    assert("major-sixth"@[6] != "major-ninth"@[6]);
    assert("major-sixth"@[1] != "minor-ninth"@[1]);
    assert("major-sixth"@[0] != "dominant-11th"@[0]);
    assert("major-sixth"@[6] != "major-11th"@[6]);
    assert("major-sixth"@[1] != "minor-11th"@[1]);
    assert("major-sixth"@[0] != "dominant-13th"@[0]);
    assert("major-sixth"@[6] != "major-13th"@[6]);
    assert("major-sixth"@[1] != "minor-13th"@[1]);
    assert("major-sixth"@[0] != "suspended-second"@[0]);
    assert("major-sixth"@[0] != "suspended-fourth"@[0]);
    assert("major-sixth"@[0] != "power"@[0]);
    assert("major-sixth"@[0] != "Neapolitan"@[0]);
    assert("major-sixth"@[0] != "Italian"@[0]);
    assert("major-sixth"@[0] != "French"@[0]);
    assert("major-sixth"@[0] != "German"@[0]);
    assert("major-sixth"@[0] != "Tristan"@[0]);
    assert("major-sixth"@[0] != "other"@[0]);
    assert("minor-sixth"@[0] != "dominant-ninth"@[0]);
    assert("minor-sixth"@[1] != "major-ninth"@[1]);
    assert("minor-sixth"@[6] != "minor-ninth"@[6]);
    assert("minor-sixth"@[0] != "dominant-11th"@[0]);
    assert("minor-sixth"@[1] != "major-11th"@[1]);
    assert("minor-sixth"@[6] != "minor-11th"@[6]);
    assert("minor-sixth"@[0] != "dominant-13th"@[0]);
    assert("minor-sixth"@[1] != "major-13th"@[1]);
    assert("minor-sixth"@[6] != "minor-13th"@[6]);
    assert("minor-sixth"@[0] != "suspended-second"@[0]);
    assert("minor-sixth"@[0] != "suspended-fourth"@[0]);
    assert("minor-sixth"@[0] != "power"@[0]);
    assert("minor-sixth"@[0] != "Neapolitan"@[0]);
    assert("minor-sixth"@[0] != "Italian"@[0]);
    assert("minor-sixth"@[0] != "French"@[0]);
    assert("minor-sixth"@[0] != "German"@[0]);
    assert("minor-sixth"@[0] != "Tristan"@[0]);
    assert("minor-sixth"@[0] != "other"@[0]);
    assert("dominant-ninth"@[0] != "major-ninth"@[0]);
    assert("dominant-ninth"@[0] != "minor-ninth"@[0]);
    assert("dominant-ninth"@[9] != "dominant-11th"@[9]);
    assert("dominant-ninth"@[0] != "major-11th"@[0]);
    assert("dominant-ninth"@[0] != "minor-11th"@[0]);
    assert("dominant-ninth"@[9] != "dominant-13th"@[9]);
    assert("dominant-ninth"@[0] != "major-13th"@[0]);
    assert("dominant-ninth"@[0] != "minor-13th"@[0]);
    assert("dominant-ninth"@[0] != "suspended-second"@[0]);
    assert("dominant-ninth"@[0] != "suspended-fourth"@[0]);
    assert("dominant-ninth"@[0] != "power"@[0]);
    assert("dominant-ninth"@[0] != "Neapolitan"@[0]);
    assert("dominant-ninth"@[0] != "Italian"@[0]);
    assert("dominant-ninth"@[0] != "French"@[0]);
    assert("dominant-ninth"@[0] != "German"@[0]);
    assert("dominant-ninth"@[0] != "Tristan"@[0]);
    assert("dominant-ninth"@[0] != "other"@[0]);
    assert("major-ninth"@[1] != "minor-ninth"@[1]);
    assert("major-ninth"@[0] != "dominant-11th"@[0]);
    assert("major-ninth"@[6] != "major-11th"@[6]);
    assert("major-ninth"@[1] != "minor-11th"@[1]);
    assert("major-ninth"@[0] != "dominant-13th"@[0]);
    assert("major-ninth"@[6] != "major-13th"@[6]);
    assert("major-ninth"@[1] != "minor-13th"@[1]);
    assert("major-ninth"@[0] != "suspended-second"@[0]);
    assert("major-ninth"@[0] != "suspended-fourth"@[0]);
    assert("major-ninth"@[0] != "power"@[0]);
    assert("major-ninth"@[0] != "Neapolitan"@[0]);
    assert("major-ninth"@[0] != "Italian"@[0]);
    assert("major-ninth"@[0] != "French"@[0]);
    assert("major-ninth"@[0] != "German"@[0]);
    assert("major-ninth"@[0] != "Tristan"@[0]);
    assert("major-ninth"@[0] != "other"@[0]);
    assert("minor-ninth"@[0] != "dominant-11th"@[0]);
    assert("minor-ninth"@[1] != "major-11th"@[1]);
    assert("minor-ninth"@[6] != "minor-11th"@[6]);
    assert("minor-ninth"@[0] != "dominant-13th"@[0]);
    assert("minor-ninth"@[1] != "major-13th"@[1]);
    assert("minor-ninth"@[6] != "minor-13th"@[6]);
    assert("minor-ninth"@[0] != "suspended-second"@[0]);
    assert("minor-ninth"@[0] != "suspended-fourth"@[0]);
    assert("minor-ninth"@[0] != "power"@[0]);
    assert("minor-ninth"@[0] != "Neapolitan"@[0]);
    assert("minor-ninth"@[0] != "Italian"@[0]);
    assert("minor-ninth"@[0] != "French"@[0]);
    assert("minor-ninth"@[0] != "German"@[0]);
    assert("minor-ninth"@[0] != "Tristan"@[0]);
    assert("minor-ninth"@[0] != "other"@[0]);
    assert("dominant-11th"@[0] != "major-11th"@[0]);
    assert("dominant-11th"@[0] != "minor-11th"@[0]);
    assert("dominant-11th"@[10] != "dominant-13th"@[10]);
    assert("dominant-11th"@[0] != "major-13th"@[0]);
    assert("dominant-11th"@[0] != "minor-13th"@[0]);
    assert("dominant-11th"@[0] != "suspended-second"@[0]);
    assert("dominant-11th"@[0] != "suspended-fourth"@[0]);
    assert("dominant-11th"@[0] != "power"@[0]);
    assert("dominant-11th"@[0] != "Neapolitan"@[0]);
    assert("dominant-11th"@[0] != "Italian"@[0]);
    assert("dominant-11th"@[0] != "French"@[0]);
    assert("dominant-11th"@[0] != "German"@[0]);
    assert("dominant-11th"@[0] != "Tristan"@[0]);
    assert("dominant-11th"@[0] != "other"@[0]);
    assert("major-11th"@[1] != "minor-11th"@[1]);
    assert("major-11th"@[0] != "dominant-13th"@[0]);
    assert("major-11th"@[7] != "major-13th"@[7]);
    assert("major-11th"@[1] != "minor-13th"@[1]);
    assert("major-11th"@[0] != "suspended-second"@[0]);
    assert("major-11th"@[0] != "suspended-fourth"@[0]);
    assert("major-11th"@[0] != "power"@[0]);
    assert("major-11th"@[0] != "Neapolitan"@[0]);
    assert("major-11th"@[0] != "Italian"@[0]);
    assert("major-11th"@[0] != "French"@[0]);
    assert("major-11th"@[0] != "German"@[0]);
    assert("major-11th"@[0] != "Tristan"@[0]);
    assert("major-11th"@[0] != "other"@[0]);
    assert("minor-11th"@[0] != "dominant-13th"@[0]);
    assert("minor-11th"@[1] != "major-13th"@[1]);
    assert("minor-11th"@[7] != "minor-13th"@[7]);
    assert("minor-11th"@[0] != "suspended-second"@[0]);
    assert("minor-11th"@[0] != "suspended-fourth"@[0]);
    assert("minor-11th"@[0] != "power"@[0]);
    assert("minor-11th"@[0] != "Neapolitan"@[0]);
    assert("minor-11th"@[0] != "Italian"@[0]);
    assert("minor-11th"@[0] != "French"@[0]);
    assert("minor-11th"@[0] != "German"@[0]);
    assert("minor-11th"@[0] != "Tristan"@[0]);
    assert("minor-11th"@[0] != "other"@[0]);
    assert("dominant-13th"@[0] != "major-13th"@[0]);
    assert("dominant-13th"@[0] != "minor-13th"@[0]);
    assert("dominant-13th"@[0] != "suspended-second"@[0]);
    assert("dominant-13th"@[0] != "suspended-fourth"@[0]);
    assert("dominant-13th"@[0] != "power"@[0]);
    assert("dominant-13th"@[0] != "Neapolitan"@[0]);
    assert("dominant-13th"@[0] != "Italian"@[0]);
    assert("dominant-13th"@[0] != "French"@[0]);
    assert("dominant-13th"@[0] != "German"@[0]);
    assert("dominant-13th"@[0] != "Tristan"@[0]);
    assert("dominant-13th"@[0] != "other"@[0]);
    assert("major-13th"@[1] != "minor-13th"@[1]);
    assert("major-13th"@[0] != "suspended-second"@[0]);
    assert("major-13th"@[0] != "suspended-fourth"@[0]);
    assert("major-13th"@[0] != "power"@[0]);
    assert("major-13th"@[0] != "Neapolitan"@[0]);
    assert("major-13th"@[0] != "Italian"@[0]);
    assert("major-13th"@[0] != "French"@[0]);
    assert("major-13th"@[0] != "German"@[0]);
    assert("major-13th"@[0] != "Tristan"@[0]);
    assert("major-13th"@[0] != "other"@[0]);
    assert("minor-13th"@[0] != "suspended-second"@[0]);
    assert("minor-13th"@[0] != "suspended-fourth"@[0]);
    assert("minor-13th"@[0] != "power"@[0]);
    assert("minor-13th"@[0] != "Neapolitan"@[0]);
    assert("minor-13th"@[0] != "Italian"@[0]);
    assert("minor-13th"@[0] != "French"@[0]);
    assert("minor-13th"@[0] != "German"@[0]);
    assert("minor-13th"@[0] != "Tristan"@[0]);
    assert("minor-13th"@[0] != "other"@[0]);
    assert("suspended-second"@[10] != "suspended-fourth"@[10]);
    assert("suspended-second"@[0] != "power"@[0]);
    assert("suspended-second"@[0] != "Neapolitan"@[0]);
    assert("suspended-second"@[0] != "Italian"@[0]);
    assert("suspended-second"@[0] != "French"@[0]);
    assert("suspended-second"@[0] != "German"@[0]);
    assert("suspended-second"@[0] != "Tristan"@[0]);
    assert("suspended-second"@[0] != "other"@[0]);
    assert("suspended-fourth"@[0] != "power"@[0]);
    assert("suspended-fourth"@[0] != "Neapolitan"@[0]);
    assert("suspended-fourth"@[0] != "Italian"@[0]);
    assert("suspended-fourth"@[0] != "French"@[0]);
    assert("suspended-fourth"@[0] != "German"@[0]);
    assert("suspended-fourth"@[0] != "Tristan"@[0]);
    assert("suspended-fourth"@[0] != "other"@[0]);
    assert("power"@[0] != "Neapolitan"@[0]);
    assert("power"@[0] != "Italian"@[0]);
    assert("power"@[0] != "French"@[0]);
    assert("power"@[0] != "German"@[0]);
    assert("power"@[0] != "Tristan"@[0]);
    assert("power"@[0] != "other"@[0]);
    assert("Neapolitan"@[0] != "Italian"@[0]);
    assert("Neapolitan"@[0] != "French"@[0]);
    assert("Neapolitan"@[0] != "German"@[0]);
    assert("Neapolitan"@[0] != "Tristan"@[0]);
    assert("Neapolitan"@[0] != "other"@[0]);
    assert("Italian"@[0] != "French"@[0]);
    assert("Italian"@[0] != "German"@[0]);
    assert("Italian"@[0] != "Tristan"@[0]);
    assert("Italian"@[0] != "other"@[0]);
    assert("French"@[0] != "German"@[0]);
    assert("French"@[0] != "Tristan"@[0]);
    assert("French"@[0] != "other"@[0]);
    assert("German"@[0] != "Tristan"@[0]);
    assert("German"@[0] != "other"@[0]);
    assert("Tristan"@[0] != "other"@[0]);
}

proof fn lemma_kind_suffixes_distinct()
    ensures
        "m"@ != "aug"@,
        "m"@ != "dim"@,
        "m"@ != "7"@,
        "m"@ != "Maj7"@,
        "m"@ != "m7"@,
        "m"@ != "dim7"@,
        "m"@ != "aug7"@,
        "m"@ != "m7b5"@,
        "m"@ != "mMaj7"@,
        "m"@ != "6"@,
        "m"@ != "m6"@,
        "m"@ != "9"@,
        "m"@ != "Maj9"@,
        "m"@ != "m9"@,
        "m"@ != "11"@,
        "m"@ != "Maj11"@,
        "m"@ != "m11"@,
        "m"@ != "13"@,
        "m"@ != "Maj13"@,
        "m"@ != "m13"@,
        "m"@ != "sus2"@,
        "m"@ != "sus4"@,
        "m"@ != "5"@,
        "m"@ != "N"@,
        "m"@ != "It+6"@,
        "m"@ != "Fr+6"@,
        "m"@ != "Ger+6"@,
        "m"@ != "Tristan"@,
        "aug"@ != "dim"@,
        "aug"@ != "7"@,
        "aug"@ != "Maj7"@,
        "aug"@ != "m7"@,
        "aug"@ != "dim7"@,
        "aug"@ != "aug7"@,
        "aug"@ != "m7b5"@,
        "aug"@ != "mMaj7"@,
        "aug"@ != "6"@,
        "aug"@ != "m6"@,
        "aug"@ != "9"@,
        "aug"@ != "Maj9"@,
        "aug"@ != "m9"@,
        "aug"@ != "11"@,
        "aug"@ != "Maj11"@,
        "aug"@ != "m11"@,
        "aug"@ != "13"@,
        "aug"@ != "Maj13"@,
        "aug"@ != "m13"@,
        "aug"@ != "sus2"@,
        "aug"@ != "sus4"@,
        "aug"@ != "5"@,
        "aug"@ != "N"@,
        "aug"@ != "It+6"@,
        "aug"@ != "Fr+6"@,
        "aug"@ != "Ger+6"@,
        "aug"@ != "Tristan"@,
        "dim"@ != "7"@,
        "dim"@ != "Maj7"@,
        "dim"@ != "m7"@,
        "dim"@ != "dim7"@,
        "dim"@ != "aug7"@,
        "dim"@ != "m7b5"@,
        "dim"@ != "mMaj7"@,
        "dim"@ != "6"@,
        "dim"@ != "m6"@,
        "dim"@ != "9"@,
        "dim"@ != "Maj9"@,
        "dim"@ != "m9"@,
        "dim"@ != "11"@,
        "dim"@ != "Maj11"@,
        "dim"@ != "m11"@,
        "dim"@ != "13"@,
        "dim"@ != "Maj13"@,
        "dim"@ != "m13"@,
        "dim"@ != "sus2"@,
        "dim"@ != "sus4"@,
        "dim"@ != "5"@,
        "dim"@ != "N"@,
        "dim"@ != "It+6"@,
        "dim"@ != "Fr+6"@,
        "dim"@ != "Ger+6"@,
        "dim"@ != "Tristan"@,
        "7"@ != "Maj7"@,
        "7"@ != "m7"@,
        "7"@ != "dim7"@,
        "7"@ != "aug7"@,
        "7"@ != "m7b5"@,
        "7"@ != "mMaj7"@,
        "7"@ != "6"@,
        "7"@ != "m6"@,
        "7"@ != "9"@,
        "7"@ != "Maj9"@,
        "7"@ != "m9"@,
        "7"@ != "11"@,
        "7"@ != "Maj11"@,
        "7"@ != "m11"@,
        "7"@ != "13"@,
        "7"@ != "Maj13"@,
        "7"@ != "m13"@,
        "7"@ != "sus2"@,
        "7"@ != "sus4"@,
        "7"@ != "5"@,
        "7"@ != "N"@,
        "7"@ != "It+6"@,
        "7"@ != "Fr+6"@,
        "7"@ != "Ger+6"@,
        "7"@ != "Tristan"@,
        "Maj7"@ != "m7"@,
        "Maj7"@ != "dim7"@,
        "Maj7"@ != "aug7"@,
        "Maj7"@ != "m7b5"@,
        "Maj7"@ != "mMaj7"@,
        "Maj7"@ != "6"@,
        "Maj7"@ != "m6"@,
        "Maj7"@ != "9"@,
        "Maj7"@ != "Maj9"@,
        "Maj7"@ != "m9"@,
        "Maj7"@ != "11"@,
        "Maj7"@ != "Maj11"@,
        "Maj7"@ != "m11"@,
        "Maj7"@ != "13"@,
        "Maj7"@ != "Maj13"@,
        "Maj7"@ != "m13"@,
        "Maj7"@ != "sus2"@,
        "Maj7"@ != "sus4"@,
        "Maj7"@ != "5"@,
        "Maj7"@ != "N"@,
        "Maj7"@ != "It+6"@,
        "Maj7"@ != "Fr+6"@,
        "Maj7"@ != "Ger+6"@,
        "Maj7"@ != "Tristan"@,
        "m7"@ != "dim7"@,
        "m7"@ != "aug7"@,
        "m7"@ != "m7b5"@,
        "m7"@ != "mMaj7"@,
        "m7"@ != "6"@,
        "m7"@ != "m6"@,
        "m7"@ != "9"@,
        "m7"@ != "Maj9"@,
        "m7"@ != "m9"@,
        "m7"@ != "11"@,
        "m7"@ != "Maj11"@,
        "m7"@ != "m11"@,
        "m7"@ != "13"@,
        "m7"@ != "Maj13"@,
        "m7"@ != "m13"@,
        "m7"@ != "sus2"@,
        "m7"@ != "sus4"@,
        "m7"@ != "5"@,
        "m7"@ != "N"@,
        "m7"@ != "It+6"@,
        "m7"@ != "Fr+6"@,
        "m7"@ != "Ger+6"@,
        "m7"@ != "Tristan"@,
        "dim7"@ != "aug7"@,
        "dim7"@ != "m7b5"@,
        "dim7"@ != "mMaj7"@,
        "dim7"@ != "6"@,
        "dim7"@ != "m6"@,
        "dim7"@ != "9"@,
        "dim7"@ != "Maj9"@,
        "dim7"@ != "m9"@,
        "dim7"@ != "11"@,
        "dim7"@ != "Maj11"@,
        "dim7"@ != "m11"@,
        "dim7"@ != "13"@,
        "dim7"@ != "Maj13"@,
        "dim7"@ != "m13"@,
        "dim7"@ != "sus2"@,
        "dim7"@ != "sus4"@,
        "dim7"@ != "5"@,
        "dim7"@ != "N"@,
        "dim7"@ != "It+6"@,
        "dim7"@ != "Fr+6"@,
        "dim7"@ != "Ger+6"@,
        "dim7"@ != "Tristan"@,
        "aug7"@ != "m7b5"@,
        "aug7"@ != "mMaj7"@,
        "aug7"@ != "6"@,
        "aug7"@ != "m6"@,
        "aug7"@ != "9"@,
        "aug7"@ != "Maj9"@,
        "aug7"@ != "m9"@,
        "aug7"@ != "11"@,
        "aug7"@ != "Maj11"@,
        "aug7"@ != "m11"@,
        "aug7"@ != "13"@,
        "aug7"@ != "Maj13"@,
        "aug7"@ != "m13"@,
        "aug7"@ != "sus2"@,
        "aug7"@ != "sus4"@,
        "aug7"@ != "5"@,
        "aug7"@ != "N"@,
        "aug7"@ != "It+6"@,
        "aug7"@ != "Fr+6"@,
        "aug7"@ != "Ger+6"@,
        "aug7"@ != "Tristan"@,
        "m7b5"@ != "mMaj7"@,
        "m7b5"@ != "6"@,
        "m7b5"@ != "m6"@,
        "m7b5"@ != "9"@,
        "m7b5"@ != "Maj9"@,
        "m7b5"@ != "m9"@,
        "m7b5"@ != "11"@,
        "m7b5"@ != "Maj11"@,
        "m7b5"@ != "m11"@,
        "m7b5"@ != "13"@,
        "m7b5"@ != "Maj13"@,
        "m7b5"@ != "m13"@,
        "m7b5"@ != "sus2"@,
        "m7b5"@ != "sus4"@,
        "m7b5"@ != "5"@,
        "m7b5"@ != "N"@,
        "m7b5"@ != "It+6"@,
        "m7b5"@ != "Fr+6"@,
        "m7b5"@ != "Ger+6"@,
        "m7b5"@ != "Tristan"@,
        "mMaj7"@ != "6"@,
        "mMaj7"@ != "m6"@,
        "mMaj7"@ != "9"@,
        "mMaj7"@ != "Maj9"@,
        "mMaj7"@ != "m9"@,
        "mMaj7"@ != "11"@,
        "mMaj7"@ != "Maj11"@,
        "mMaj7"@ != "m11"@,
        "mMaj7"@ != "13"@,
        "mMaj7"@ != "Maj13"@,
        "mMaj7"@ != "m13"@,
        "mMaj7"@ != "sus2"@,
        "mMaj7"@ != "sus4"@,
        "mMaj7"@ != "5"@,
        "mMaj7"@ != "N"@,
        "mMaj7"@ != "It+6"@,
        "mMaj7"@ != "Fr+6"@,
        "mMaj7"@ != "Ger+6"@,
        "mMaj7"@ != "Tristan"@,
        "6"@ != "m6"@,
        "6"@ != "9"@,
        "6"@ != "Maj9"@,
        "6"@ != "m9"@,
        "6"@ != "11"@,
        "6"@ != "Maj11"@,
        "6"@ != "m11"@,
        "6"@ != "13"@,
        "6"@ != "Maj13"@,
        "6"@ != "m13"@,
        "6"@ != "sus2"@,
        "6"@ != "sus4"@,
        "6"@ != "5"@,
        "6"@ != "N"@,
        "6"@ != "It+6"@,
        "6"@ != "Fr+6"@,
        "6"@ != "Ger+6"@,
        "6"@ != "Tristan"@,
        "m6"@ != "9"@,
        "m6"@ != "Maj9"@,
        "m6"@ != "m9"@,
        "m6"@ != "11"@,
        "m6"@ != "Maj11"@,
        "m6"@ != "m11"@,
        "m6"@ != "13"@,
        "m6"@ != "Maj13"@,
        "m6"@ != "m13"@,
        "m6"@ != "sus2"@,
        "m6"@ != "sus4"@,
        "m6"@ != "5"@,
        "m6"@ != "N"@,
        "m6"@ != "It+6"@,
        "m6"@ != "Fr+6"@,
        "m6"@ != "Ger+6"@,
        "m6"@ != "Tristan"@,
        "9"@ != "Maj9"@,
        "9"@ != "m9"@,
        "9"@ != "11"@,
        "9"@ != "Maj11"@,
        "9"@ != "m11"@,
        "9"@ != "13"@,
        "9"@ != "Maj13"@,
        "9"@ != "m13"@,
        "9"@ != "sus2"@,
        "9"@ != "sus4"@,
        "9"@ != "5"@,
        "9"@ != "N"@,
        "9"@ != "It+6"@,
        "9"@ != "Fr+6"@,
        "9"@ != "Ger+6"@,
        "9"@ != "Tristan"@,
        "Maj9"@ != "m9"@,
        "Maj9"@ != "11"@,
        "Maj9"@ != "Maj11"@,
        "Maj9"@ != "m11"@,
        "Maj9"@ != "13"@,
        "Maj9"@ != "Maj13"@,
        "Maj9"@ != "m13"@,
        "Maj9"@ != "sus2"@,
        "Maj9"@ != "sus4"@,
        "Maj9"@ != "5"@,
        "Maj9"@ != "N"@,
        "Maj9"@ != "It+6"@,
        "Maj9"@ != "Fr+6"@,
        "Maj9"@ != "Ger+6"@,
        "Maj9"@ != "Tristan"@,
        "m9"@ != "11"@,
        "m9"@ != "Maj11"@,
        "m9"@ != "m11"@,
        "m9"@ != "13"@,
        "m9"@ != "Maj13"@,
        "m9"@ != "m13"@,
        "m9"@ != "sus2"@,
        "m9"@ != "sus4"@,
        "m9"@ != "5"@,
        "m9"@ != "N"@,
        "m9"@ != "It+6"@,
        "m9"@ != "Fr+6"@,
        "m9"@ != "Ger+6"@,
        "m9"@ != "Tristan"@,
        "11"@ != "Maj11"@,
        "11"@ != "m11"@,
        "11"@ != "13"@,
        "11"@ != "Maj13"@,
        "11"@ != "m13"@,
        "11"@ != "sus2"@,
        "11"@ != "sus4"@,
        "11"@ != "5"@,
        "11"@ != "N"@,
        "11"@ != "It+6"@,
        "11"@ != "Fr+6"@,
        "11"@ != "Ger+6"@,
        "11"@ != "Tristan"@,
        "Maj11"@ != "m11"@,
        "Maj11"@ != "13"@,
        "Maj11"@ != "Maj13"@,
        "Maj11"@ != "m13"@,
        "Maj11"@ != "sus2"@,
        "Maj11"@ != "sus4"@,
        "Maj11"@ != "5"@,
        "Maj11"@ != "N"@,
        "Maj11"@ != "It+6"@,
        "Maj11"@ != "Fr+6"@,
        "Maj11"@ != "Ger+6"@,
        "Maj11"@ != "Tristan"@,
        "m11"@ != "13"@,
        "m11"@ != "Maj13"@,
        "m11"@ != "m13"@,
        "m11"@ != "sus2"@,
        "m11"@ != "sus4"@,
        "m11"@ != "5"@,
        "m11"@ != "N"@,
        "m11"@ != "It+6"@,
        "m11"@ != "Fr+6"@,
        "m11"@ != "Ger+6"@,
        "m11"@ != "Tristan"@,
        "13"@ != "Maj13"@,
        "13"@ != "m13"@,
        "13"@ != "sus2"@,
        "13"@ != "sus4"@,
        "13"@ != "5"@,
        "13"@ != "N"@,
        "13"@ != "It+6"@,
        "13"@ != "Fr+6"@,
        "13"@ != "Ger+6"@,
        "13"@ != "Tristan"@,
        "Maj13"@ != "m13"@,
        "Maj13"@ != "sus2"@,
        "Maj13"@ != "sus4"@,
        "Maj13"@ != "5"@,
        "Maj13"@ != "N"@,
        "Maj13"@ != "It+6"@,
        "Maj13"@ != "Fr+6"@,
        "Maj13"@ != "Ger+6"@,
        "Maj13"@ != "Tristan"@,
        "m13"@ != "sus2"@,
        "m13"@ != "sus4"@,
        "m13"@ != "5"@,
        "m13"@ != "N"@,
        "m13"@ != "It+6"@,
        "m13"@ != "Fr+6"@,
        "m13"@ != "Ger+6"@,
        "m13"@ != "Tristan"@,
        "sus2"@ != "sus4"@,
        "sus2"@ != "5"@,
        "sus2"@ != "N"@,
        "sus2"@ != "It+6"@,
        "sus2"@ != "Fr+6"@,
        "sus2"@ != "Ger+6"@,
        "sus2"@ != "Tristan"@,
        "sus4"@ != "5"@,
        "sus4"@ != "N"@,
        "sus4"@ != "It+6"@,
        "sus4"@ != "Fr+6"@,
        "sus4"@ != "Ger+6"@,
        "sus4"@ != "Tristan"@,
        "5"@ != "N"@,
        "5"@ != "It+6"@,
        "5"@ != "Fr+6"@,
        "5"@ != "Ger+6"@,
        "5"@ != "Tristan"@,
        "N"@ != "It+6"@,
        "N"@ != "Fr+6"@,
        "N"@ != "Ger+6"@,
        "N"@ != "Tristan"@,
        "It+6"@ != "Fr+6"@,
        "It+6"@ != "Ger+6"@,
        "It+6"@ != "Tristan"@,
        "Fr+6"@ != "Ger+6"@,
        "Fr+6"@ != "Tristan"@,
        "Ger+6"@ != "Tristan"@,
{
    reveal_strlit("m");
    reveal_strlit("aug");
    reveal_strlit("dim");
    reveal_strlit("7");
    reveal_strlit("Maj7");
    reveal_strlit("m7");
    reveal_strlit("dim7");
    reveal_strlit("aug7");
    reveal_strlit("m7b5");
    reveal_strlit("mMaj7");
    reveal_strlit("6");
    reveal_strlit("m6");
    reveal_strlit("9");
    reveal_strlit("Maj9");
    reveal_strlit("m9");
    reveal_strlit("11");
    reveal_strlit("Maj11");
    reveal_strlit("m11");
    reveal_strlit("13");
    reveal_strlit("Maj13");
    reveal_strlit("m13");
    reveal_strlit("sus2");
    reveal_strlit("sus4");
    reveal_strlit("5");
    reveal_strlit("N");
    reveal_strlit("It+6");
    reveal_strlit("Fr+6");
    reveal_strlit("Ger+6");
    reveal_strlit("Tristan");
    reveal_strlit("");
    assert("m"@[0] != "aug"@[0]);
    assert("m"@[0] != "dim"@[0]);
    assert("m"@[0] != "7"@[0]);
    assert("m"@[0] != "Maj7"@[0]);
    assert("m"@.len() != "m7"@.len());
    assert("m"@[0] != "dim7"@[0]);
    assert("m"@[0] != "aug7"@[0]);
    assert("m"@.len() != "m7b5"@.len());
    assert("m"@.len() != "mMaj7"@.len());
    assert("m"@[0] != "6"@[0]);
    assert("m"@.len() != "m6"@.len());
    assert("m"@[0] != "9"@[0]);
    assert("m"@[0] != "Maj9"@[0]);
    assert("m"@.len() != "m9"@.len());
    assert("m"@[0] != "11"@[0]);
    assert("m"@[0] != "Maj11"@[0]);
    assert("m"@.len() != "m11"@.len());
    assert("m"@[0] != "13"@[0]);
    assert("m"@[0] != "Maj13"@[0]);
    assert("m"@.len() != "m13"@.len());
    assert("m"@[0] != "sus2"@[0]);
    assert("m"@[0] != "sus4"@[0]);
    assert("m"@[0] != "5"@[0]);
    assert("m"@[0] != "N"@[0]);
    assert("m"@[0] != "It+6"@[0]);
    assert("m"@[0] != "Fr+6"@[0]);
    assert("m"@[0] != "Ger+6"@[0]);
    assert("m"@[0] != "Tristan"@[0]);
    assert("aug"@[0] != "dim"@[0]);
    assert("aug"@[0] != "7"@[0]);
    assert("aug"@[0] != "Maj7"@[0]);
    assert("aug"@[0] != "m7"@[0]);
    assert("aug"@[0] != "dim7"@[0]);
    assert("aug"@.len() != "aug7"@.len());
    assert("aug"@[0] != "m7b5"@[0]);
    assert("aug"@[0] != "mMaj7"@[0]);
    assert("aug"@[0] != "6"@[0]);
    assert("aug"@[0] != "m6"@[0]);
    assert("aug"@[0] != "9"@[0]);
    assert("aug"@[0] != "Maj9"@[0]);
    assert("aug"@[0] != "m9"@[0]);
    assert("aug"@[0] != "11"@[0]);
    assert("aug"@[0] != "Maj11"@[0]);
    assert("aug"@[0] != "m11"@[0]);
    assert("aug"@[0] != "13"@[0]);
    assert("aug"@[0] != "Maj13"@[0]);
    assert("aug"@[0] != "m13"@[0]);
    assert("aug"@[0] != "sus2"@[0]);
    assert("aug"@[0] != "sus4"@[0]);
    assert("aug"@[0] != "5"@[0]);
    assert("aug"@[0] != "N"@[0]);
    assert("aug"@[0] != "It+6"@[0]);
    assert("aug"@[0] != "Fr+6"@[0]);
    assert("aug"@[0] != "Ger+6"@[0]);
    assert("aug"@[0] != "Tristan"@[0]);
    assert("dim"@[0] != "7"@[0]);
    assert("dim"@[0] != "Maj7"@[0]);
    assert("dim"@[0] != "m7"@[0]);
    assert("dim"@.len() != "dim7"@.len());
    assert("dim"@[0] != "aug7"@[0]);
    assert("dim"@[0] != "m7b5"@[0]);
    assert("dim"@[0] != "mMaj7"@[0]);
    assert("dim"@[0] != "6"@[0]);
    assert("dim"@[0] != "m6"@[0]);
    assert("dim"@[0] != "9"@[0]);
    assert("dim"@[0] != "Maj9"@[0]);
    assert("dim"@[0] != "m9"@[0]);
    assert("dim"@[0] != "11"@[0]);
    assert("dim"@[0] != "Maj11"@[0]);
    assert("dim"@[0] != "m11"@[0]);
    assert("dim"@[0] != "13"@[0]);
    assert("dim"@[0] != "Maj13"@[0]);
    assert("dim"@[0] != "m13"@[0]);
    assert("dim"@[0] != "sus2"@[0]);
    assert("dim"@[0] != "sus4"@[0]);
    assert("dim"@[0] != "5"@[0]);
    assert("dim"@[0] != "N"@[0]);
    assert("dim"@[0] != "It+6"@[0]);
    assert("dim"@[0] != "Fr+6"@[0]);
    assert("dim"@[0] != "Ger+6"@[0]);
    assert("dim"@[0] != "Tristan"@[0]);
    assert("7"@[0] != "Maj7"@[0]);
    assert("7"@[0] != "m7"@[0]);
    assert("7"@[0] != "dim7"@[0]);
    assert("7"@[0] != "aug7"@[0]);
    assert("7"@[0] != "m7b5"@[0]);
    assert("7"@[0] != "mMaj7"@[0]);
    assert("7"@[0] != "6"@[0]);
    assert("7"@[0] != "m6"@[0]);
    assert("7"@[0] != "9"@[0]);
    assert("7"@[0] != "Maj9"@[0]);
    assert("7"@[0] != "m9"@[0]);
    assert("7"@[0] != "11"@[0]);
    assert("7"@[0] != "Maj11"@[0]);
    assert("7"@[0] != "m11"@[0]);
    assert("7"@[0] != "13"@[0]);
    assert("7"@[0] != "Maj13"@[0]);
    assert("7"@[0] != "m13"@[0]);
    assert("7"@[0] != "sus2"@[0]);
    assert("7"@[0] != "sus4"@[0]);
    assert("7"@[0] != "5"@[0]);
    assert("7"@[0] != "N"@[0]);
    assert("7"@[0] != "It+6"@[0]);
    assert("7"@[0] != "Fr+6"@[0]);
    assert("7"@[0] != "Ger+6"@[0]);
    assert("7"@[0] != "Tristan"@[0]);
    assert("Maj7"@[0] != "m7"@[0]);
    assert("Maj7"@[0] != "dim7"@[0]);
    assert("Maj7"@[0] != "aug7"@[0]);
    assert("Maj7"@[0] != "m7b5"@[0]);
    assert("Maj7"@[0] != "mMaj7"@[0]);
    assert("Maj7"@[0] != "6"@[0]);
    assert("Maj7"@[0] != "m6"@[0]);
    assert("Maj7"@[0] != "9"@[0]);
    assert("Maj7"@[3] != "Maj9"@[3]);
    assert("Maj7"@[0] != "m9"@[0]);
    assert("Maj7"@[0] != "11"@[0]);
    assert("Maj7"@[3] != "Maj11"@[3]);
    assert("Maj7"@[0] != "m11"@[0]);
    assert("Maj7"@[0] != "13"@[0]);
    assert("Maj7"@[3] != "Maj13"@[3]);
    assert("Maj7"@[0] != "m13"@[0]);
    assert("Maj7"@[0] != "sus2"@[0]);
    assert("Maj7"@[0] != "sus4"@[0]);
    assert("Maj7"@[0] != "5"@[0]);
    assert("Maj7"@[0] != "N"@[0]);
    assert("Maj7"@[0] != "It+6"@[0]);
    assert("Maj7"@[0] != "Fr+6"@[0]);
    assert("Maj7"@[0] != "Ger+6"@[0]);
    assert("Maj7"@[0] != "Tristan"@[0]);
    assert("m7"@[0] != "dim7"@[0]);
    assert("m7"@[0] != "aug7"@[0]);
    assert("m7"@.len() != "m7b5"@.len());
    assert("m7"@[1] != "mMaj7"@[1]);
    assert("m7"@[0] != "6"@[0]);
    assert("m7"@[1] != "m6"@[1]);
    assert("m7"@[0] != "9"@[0]);
    assert("m7"@[0] != "Maj9"@[0]);
    assert("m7"@[1] != "m9"@[1]);
    assert("m7"@[0] != "11"@[0]);
    assert("m7"@[0] != "Maj11"@[0]);
    assert("m7"@[1] != "m11"@[1]);
    assert("m7"@[0] != "13"@[0]);
    assert("m7"@[0] != "Maj13"@[0]);
    assert("m7"@[1] != "m13"@[1]);
    assert("m7"@[0] != "sus2"@[0]);
    assert("m7"@[0] != "sus4"@[0]);
    assert("m7"@[0] != "5"@[0]);
    assert("m7"@[0] != "N"@[0]);
    assert("m7"@[0] != "It+6"@[0]);
    assert("m7"@[0] != "Fr+6"@[0]);
    assert("m7"@[0] != "Ger+6"@[0]);
    assert("m7"@[0] != "Tristan"@[0]);
    assert("dim7"@[0] != "aug7"@[0]);
    assert("dim7"@[0] != "m7b5"@[0]);
    assert("dim7"@[0] != "mMaj7"@[0]);
    assert("dim7"@[0] != "6"@[0]);
    assert("dim7"@[0] != "m6"@[0]);
    assert("dim7"@[0] != "9"@[0]);
    assert("dim7"@[0] != "Maj9"@[0]);
    assert("dim7"@[0] != "m9"@[0]);
    assert("dim7"@[0] != "11"@[0]);
    assert("dim7"@[0] != "Maj11"@[0]);
    assert("dim7"@[0] != "m11"@[0]);
    assert("dim7"@[0] != "13"@[0]);
    assert("dim7"@[0] != "Maj13"@[0]);
    assert("dim7"@[0] != "m13"@[0]);
    assert("dim7"@[0] != "sus2"@[0]);
    assert("dim7"@[0] != "sus4"@[0]);
    assert("dim7"@[0] != "5"@[0]);
    assert("dim7"@[0] != "N"@[0]);
    assert("dim7"@[0] != "It+6"@[0]);
    assert("dim7"@[0] != "Fr+6"@[0]);
    assert("dim7"@[0] != "Ger+6"@[0]);
    assert("dim7"@[0] != "Tristan"@[0]);
    assert("aug7"@[0] != "m7b5"@[0]);
    assert("aug7"@[0] != "mMaj7"@[0]);
    assert("aug7"@[0] != "6"@[0]);
    assert("aug7"@[0] != "m6"@[0]);
    assert("aug7"@[0] != "9"@[0]);
    assert("aug7"@[0] != "Maj9"@[0]);
    assert("aug7"@[0] != "m9"@[0]);
    assert("aug7"@[0] != "11"@[0]);
    assert("aug7"@[0] != "Maj11"@[0]);
    assert("aug7"@[0] != "m11"@[0]);
    assert("aug7"@[0] != "13"@[0]);
    assert("aug7"@[0] != "Maj13"@[0]);
    assert("aug7"@[0] != "m13"@[0]);
    assert("aug7"@[0] != "sus2"@[0]);
    assert("aug7"@[0] != "sus4"@[0]);
    assert("aug7"@[0] != "5"@[0]);
    assert("aug7"@[0] != "N"@[0]);
    assert("aug7"@[0] != "It+6"@[0]);
    assert("aug7"@[0] != "Fr+6"@[0]);
    assert("aug7"@[0] != "Ger+6"@[0]);
    assert("aug7"@[0] != "Tristan"@[0]);
    assert("m7b5"@[1] != "mMaj7"@[1]);
    assert("m7b5"@[0] != "6"@[0]);
    assert("m7b5"@[1] != "m6"@[1]);
    assert("m7b5"@[0] != "9"@[0]);
    assert("m7b5"@[0] != "Maj9"@[0]);
    assert("m7b5"@[1] != "m9"@[1]);
    assert("m7b5"@[0] != "11"@[0]);
    assert("m7b5"@[0] != "Maj11"@[0]);
    assert("m7b5"@[1] != "m11"@[1]);
    assert("m7b5"@[0] != "13"@[0]);
    assert("m7b5"@[0] != "Maj13"@[0]);
    assert("m7b5"@[1] != "m13"@[1]);
    assert("m7b5"@[0] != "sus2"@[0]);
    assert("m7b5"@[0] != "sus4"@[0]);
    assert("m7b5"@[0] != "5"@[0]);
    assert("m7b5"@[0] != "N"@[0]);
    assert("m7b5"@[0] != "It+6"@[0]);
    assert("m7b5"@[0] != "Fr+6"@[0]);
    assert("m7b5"@[0] != "Ger+6"@[0]);
    assert("m7b5"@[0] != "Tristan"@[0]);
    assert("mMaj7"@[0] != "6"@[0]);
    assert("mMaj7"@[1] != "m6"@[1]);
    assert("mMaj7"@[0] != "9"@[0]);
    assert("mMaj7"@[0] != "Maj9"@[0]);
    assert("mMaj7"@[1] != "m9"@[1]);
    assert("mMaj7"@[0] != "11"@[0]);
    assert("mMaj7"@[0] != "Maj11"@[0]);
    assert("mMaj7"@[1] != "m11"@[1]);
    assert("mMaj7"@[0] != "13"@[0]);
    assert("mMaj7"@[0] != "Maj13"@[0]);
    assert("mMaj7"@[1] != "m13"@[1]);
    assert("mMaj7"@[0] != "sus2"@[0]);
    assert("mMaj7"@[0] != "sus4"@[0]);
    assert("mMaj7"@[0] != "5"@[0]);
    assert("mMaj7"@[0] != "N"@[0]);
    assert("mMaj7"@[0] != "It+6"@[0]);
    assert("mMaj7"@[0] != "Fr+6"@[0]);
    assert("mMaj7"@[0] != "Ger+6"@[0]);
    assert("mMaj7"@[0] != "Tristan"@[0]);
    assert("6"@[0] != "m6"@[0]);
    assert("6"@[0] != "9"@[0]);
    assert("6"@[0] != "Maj9"@[0]);
    assert("6"@[0] != "m9"@[0]);
    assert("6"@[0] != "11"@[0]);
    assert("6"@[0] != "Maj11"@[0]);
    assert("6"@[0] != "m11"@[0]);
    assert("6"@[0] != "13"@[0]);
    assert("6"@[0] != "Maj13"@[0]);
    assert("6"@[0] != "m13"@[0]);
    assert("6"@[0] != "sus2"@[0]);
    assert("6"@[0] != "sus4"@[0]);
    assert("6"@[0] != "5"@[0]);
    assert("6"@[0] != "N"@[0]);
    assert("6"@[0] != "It+6"@[0]);
    assert("6"@[0] != "Fr+6"@[0]);
    assert("6"@[0] != "Ger+6"@[0]);
    assert("6"@[0] != "Tristan"@[0]);
    assert("m6"@[0] != "9"@[0]);
    assert("m6"@[0] != "Maj9"@[0]);
    assert("m6"@[1] != "m9"@[1]);
    assert("m6"@[0] != "11"@[0]);
    assert("m6"@[0] != "Maj11"@[0]);
    assert("m6"@[1] != "m11"@[1]);
    assert("m6"@[0] != "13"@[0]);
    assert("m6"@[0] != "Maj13"@[0]);
    assert("m6"@[1] != "m13"@[1]);
    assert("m6"@[0] != "sus2"@[0]);
    assert("m6"@[0] != "sus4"@[0]);
    assert("m6"@[0] != "5"@[0]);
    assert("m6"@[0] != "N"@[0]);
    assert("m6"@[0] != "It+6"@[0]);
    assert("m6"@[0] != "Fr+6"@[0]);
    assert("m6"@[0] != "Ger+6"@[0]);
    assert("m6"@[0] != "Tristan"@[0]);
    assert("9"@[0] != "Maj9"@[0]);
    assert("9"@[0] != "m9"@[0]);
    assert("9"@[0] != "11"@[0]);
    assert("9"@[0] != "Maj11"@[0]);
    assert("9"@[0] != "m11"@[0]);
    assert("9"@[0] != "13"@[0]);
    assert("9"@[0] != "Maj13"@[0]);
    assert("9"@[0] != "m13"@[0]);
    assert("9"@[0] != "sus2"@[0]);
    assert("9"@[0] != "sus4"@[0]);
    assert("9"@[0] != "5"@[0]);
    assert("9"@[0] != "N"@[0]);
    assert("9"@[0] != "It+6"@[0]);
    assert("9"@[0] != "Fr+6"@[0]);
    assert("9"@[0] != "Ger+6"@[0]);
    assert("9"@[0] != "Tristan"@[0]);
    assert("Maj9"@[0] != "m9"@[0]);
    assert("Maj9"@[0] != "11"@[0]);
    assert("Maj9"@[3] != "Maj11"@[3]);
    assert("Maj9"@[0] != "m11"@[0]);
    assert("Maj9"@[0] != "13"@[0]);
    assert("Maj9"@[3] != "Maj13"@[3]);
    assert("Maj9"@[0] != "m13"@[0]);
    assert("Maj9"@[0] != "sus2"@[0]);
    assert("Maj9"@[0] != "sus4"@[0]);
    assert("Maj9"@[0] != "5"@[0]);
    assert("Maj9"@[0] != "N"@[0]);
    assert("Maj9"@[0] != "It+6"@[0]);
    assert("Maj9"@[0] != "Fr+6"@[0]);
    assert("Maj9"@[0] != "Ger+6"@[0]);
    assert("Maj9"@[0] != "Tristan"@[0]);
    assert("m9"@[0] != "11"@[0]);
    assert("m9"@[0] != "Maj11"@[0]);
    assert("m9"@[1] != "m11"@[1]);
    assert("m9"@[0] != "13"@[0]);
    assert("m9"@[0] != "Maj13"@[0]);
    assert("m9"@[1] != "m13"@[1]);
    assert("m9"@[0] != "sus2"@[0]);
    assert("m9"@[0] != "sus4"@[0]);
    assert("m9"@[0] != "5"@[0]);
    assert("m9"@[0] != "N"@[0]);
    assert("m9"@[0] != "It+6"@[0]);
    assert("m9"@[0] != "Fr+6"@[0]);
    assert("m9"@[0] != "Ger+6"@[0]);
    assert("m9"@[0] != "Tristan"@[0]);
    assert("11"@[0] != "Maj11"@[0]);
    assert("11"@[0] != "m11"@[0]);
    assert("11"@[1] != "13"@[1]);
    assert("11"@[0] != "Maj13"@[0]);
    assert("11"@[0] != "m13"@[0]);
    assert("11"@[0] != "sus2"@[0]);
    assert("11"@[0] != "sus4"@[0]);
    assert("11"@[0] != "5"@[0]);
    assert("11"@[0] != "N"@[0]);
    assert("11"@[0] != "It+6"@[0]);
    assert("11"@[0] != "Fr+6"@[0]);
    assert("11"@[0] != "Ger+6"@[0]);
    assert("11"@[0] != "Tristan"@[0]);
    assert("Maj11"@[0] != "m11"@[0]);
    assert("Maj11"@[0] != "13"@[0]);
    assert("Maj11"@[4] != "Maj13"@[4]);
    assert("Maj11"@[0] != "m13"@[0]);
    assert("Maj11"@[0] != "sus2"@[0]);
    assert("Maj11"@[0] != "sus4"@[0]);
    assert("Maj11"@[0] != "5"@[0]);
    assert("Maj11"@[0] != "N"@[0]);
    assert("Maj11"@[0] != "It+6"@[0]);
    assert("Maj11"@[0] != "Fr+6"@[0]);
    assert("Maj11"@[0] != "Ger+6"@[0]);
    assert("Maj11"@[0] != "Tristan"@[0]);
    assert("m11"@[0] != "13"@[0]);
    assert("m11"@[0] != "Maj13"@[0]);
    assert("m11"@[2] != "m13"@[2]);
    assert("m11"@[0] != "sus2"@[0]);
    assert("m11"@[0] != "sus4"@[0]);
    assert("m11"@[0] != "5"@[0]);
    assert("m11"@[0] != "N"@[0]);
    assert("m11"@[0] != "It+6"@[0]);
    assert("m11"@[0] != "Fr+6"@[0]);
    assert("m11"@[0] != "Ger+6"@[0]);
    assert("m11"@[0] != "Tristan"@[0]);
    assert("13"@[0] != "Maj13"@[0]);
    assert("13"@[0] != "m13"@[0]);
    assert("13"@[0] != "sus2"@[0]);
    assert("13"@[0] != "sus4"@[0]);
    assert("13"@[0] != "5"@[0]);
    assert("13"@[0] != "N"@[0]);
    assert("13"@[0] != "It+6"@[0]);
    assert("13"@[0] != "Fr+6"@[0]);
    assert("13"@[0] != "Ger+6"@[0]);
    assert("13"@[0] != "Tristan"@[0]);
    assert("Maj13"@[0] != "m13"@[0]);
    assert("Maj13"@[0] != "sus2"@[0]);
    assert("Maj13"@[0] != "sus4"@[0]);
    assert("Maj13"@[0] != "5"@[0]);
    assert("Maj13"@[0] != "N"@[0]);
    assert("Maj13"@[0] != "It+6"@[0]);
    assert("Maj13"@[0] != "Fr+6"@[0]);
    assert("Maj13"@[0] != "Ger+6"@[0]);
    assert("Maj13"@[0] != "Tristan"@[0]);
    assert("m13"@[0] != "sus2"@[0]);
    assert("m13"@[0] != "sus4"@[0]);
    assert("m13"@[0] != "5"@[0]);
    assert("m13"@[0] != "N"@[0]);
    assert("m13"@[0] != "It+6"@[0]);
    assert("m13"@[0] != "Fr+6"@[0]);
    assert("m13"@[0] != "Ger+6"@[0]);
    assert("m13"@[0] != "Tristan"@[0]);
    assert("sus2"@[3] != "sus4"@[3]);
    assert("sus2"@[0] != "5"@[0]);
    assert("sus2"@[0] != "N"@[0]);
    assert("sus2"@[0] != "It+6"@[0]);
    assert("sus2"@[0] != "Fr+6"@[0]);
    assert("sus2"@[0] != "Ger+6"@[0]);
    assert("sus2"@[0] != "Tristan"@[0]);
    assert("sus4"@[0] != "5"@[0]);
    assert("sus4"@[0] != "N"@[0]);
    assert("sus4"@[0] != "It+6"@[0]);
    assert("sus4"@[0] != "Fr+6"@[0]);
    assert("sus4"@[0] != "Ger+6"@[0]);
    assert("sus4"@[0] != "Tristan"@[0]);
    assert("5"@[0] != "N"@[0]);
    assert("5"@[0] != "It+6"@[0]);
    assert("5"@[0] != "Fr+6"@[0]);
    assert("5"@[0] != "Ger+6"@[0]);
    assert("5"@[0] != "Tristan"@[0]);
    assert("N"@[0] != "It+6"@[0]);
    assert("N"@[0] != "Fr+6"@[0]);
    assert("N"@[0] != "Ger+6"@[0]);
    assert("N"@[0] != "Tristan"@[0]);
    assert("It+6"@[0] != "Fr+6"@[0]);
    assert("It+6"@[0] != "Ger+6"@[0]);
    assert("It+6"@[0] != "Tristan"@[0]);
    assert("Fr+6"@[0] != "Ger+6"@[0]);
    assert("Fr+6"@[0] != "Tristan"@[0]);
    assert("Ger+6"@[0] != "Tristan"@[0]);
}

/// The chord suffixes Scorify writes for the MusicXML harmony kinds (a kind
/// without a `text` attribute): nothing for a major triad, `m` for minor,
/// `7` for a dominant seventh, and so on through the kinds MusicXML names.
pub proof fn law_chord_kind_suffixes()
    ensures
        spec_chord_kind_suffix(""@, None) == ""@,
        spec_chord_kind_suffix("major"@, None) == ""@,
        spec_chord_kind_suffix("none"@, None) == ""@,
        spec_chord_kind_suffix("minor"@, None) == "m"@,
        spec_chord_kind_suffix("augmented"@, None) == "aug"@,
        spec_chord_kind_suffix("diminished"@, None) == "dim"@,
        spec_chord_kind_suffix("dominant"@, None) == "7"@,
        spec_chord_kind_suffix("major-seventh"@, None) == "Maj7"@,
        spec_chord_kind_suffix("minor-seventh"@, None) == "m7"@,
        spec_chord_kind_suffix("diminished-seventh"@, None) == "dim7"@,
        spec_chord_kind_suffix("augmented-seventh"@, None) == "aug7"@,
        spec_chord_kind_suffix("half-diminished"@, None) == "m7b5"@,
        spec_chord_kind_suffix("major-minor"@, None) == "mMaj7"@,
        spec_chord_kind_suffix("major-sixth"@, None) == "6"@,
        spec_chord_kind_suffix("minor-sixth"@, None) == "m6"@,
        spec_chord_kind_suffix("dominant-ninth"@, None) == "9"@,
        spec_chord_kind_suffix("major-ninth"@, None) == "Maj9"@,
        spec_chord_kind_suffix("minor-ninth"@, None) == "m9"@,
        spec_chord_kind_suffix("dominant-11th"@, None) == "11"@,
        spec_chord_kind_suffix("major-11th"@, None) == "Maj11"@,
        spec_chord_kind_suffix("minor-11th"@, None) == "m11"@,
        spec_chord_kind_suffix("dominant-13th"@, None) == "13"@,
        spec_chord_kind_suffix("major-13th"@, None) == "Maj13"@,
        spec_chord_kind_suffix("minor-13th"@, None) == "m13"@,
        spec_chord_kind_suffix("suspended-second"@, None) == "sus2"@,
        spec_chord_kind_suffix("suspended-fourth"@, None) == "sus4"@,
        spec_chord_kind_suffix("power"@, None) == "5"@,
        spec_chord_kind_suffix("Neapolitan"@, None) == "N"@,
        spec_chord_kind_suffix("Italian"@, None) == "It+6"@,
        spec_chord_kind_suffix("French"@, None) == "Fr+6"@,
        spec_chord_kind_suffix("German"@, None) == "Ger+6"@,
        spec_chord_kind_suffix("Tristan"@, None) == "Tristan"@,
        spec_chord_kind_suffix("other"@, None) == ""@,
{
    lemma_kind_names_distinct();
    reveal_strlit("");
    reveal_strlit("French");
    reveal_strlit("major-11th");
    reveal_strlit("m6");
    reveal_strlit("augmented");
    reveal_strlit("Maj13");
    reveal_strlit("7");
    reveal_strlit("dominant-ninth");
    reveal_strlit("half-diminished");
    reveal_strlit("N");
    reveal_strlit("minor-ninth");
    reveal_strlit("other");
    reveal_strlit("sus2");
    reveal_strlit("minor-13th");
    reveal_strlit("major");
    reveal_strlit("minor-sixth");
    reveal_strlit("m7b5");
    reveal_strlit("major-minor");
    reveal_strlit("augmented-seventh");
    reveal_strlit("Maj9");
    reveal_strlit("Neapolitan");
    reveal_strlit("dominant");
    reveal_strlit("German");
    reveal_strlit("m7");
    reveal_strlit("aug7");
    reveal_strlit("dominant-11th");
    reveal_strlit("9");
    reveal_strlit("minor-11th");
    reveal_strlit("power");
    reveal_strlit("m13");
    reveal_strlit("It+6");
    reveal_strlit("Ger+6");
    reveal_strlit("aug");
    reveal_strlit("suspended-second");
    reveal_strlit("m11");
    reveal_strlit("dominant-13th");
    reveal_strlit("suspended-fourth");
    reveal_strlit("diminished-seventh");
    reveal_strlit("none");
    reveal_strlit("minor-seventh");
    reveal_strlit("Maj11");
    reveal_strlit("sus4");
    reveal_strlit("6");
    reveal_strlit("5");
    reveal_strlit("Maj7");
    reveal_strlit("11");
    reveal_strlit("major-sixth");
    reveal_strlit("m9");
    reveal_strlit("major-13th");
    reveal_strlit("m");
    reveal_strlit("Tristan");
    reveal_strlit("13");
    reveal_strlit("minor");
    reveal_strlit("diminished");
    reveal_strlit("major-seventh");
    reveal_strlit("major-ninth");
    reveal_strlit("Italian");
    reveal_strlit("dim7");
    reveal_strlit("Fr+6");
    reveal_strlit("dim");
    reveal_strlit("mMaj7");
    lemma_trim_plain(""@);
    lemma_trim_plain("major"@);
    lemma_trim_plain("none"@);
    lemma_trim_plain("minor"@);
    lemma_trim_plain("augmented"@);
    lemma_trim_plain("diminished"@);
    lemma_trim_plain("dominant"@);
    lemma_trim_plain("major-seventh"@);
    lemma_trim_plain("minor-seventh"@);
    lemma_trim_plain("diminished-seventh"@);
    lemma_trim_plain("augmented-seventh"@);
    lemma_trim_plain("half-diminished"@);
    lemma_trim_plain("major-minor"@);
    lemma_trim_plain("major-sixth"@);
    lemma_trim_plain("minor-sixth"@);
    lemma_trim_plain("dominant-ninth"@);
    lemma_trim_plain("major-ninth"@);
    lemma_trim_plain("minor-ninth"@);
    lemma_trim_plain("dominant-11th"@);
    lemma_trim_plain("major-11th"@);
    lemma_trim_plain("minor-11th"@);
    lemma_trim_plain("dominant-13th"@);
    lemma_trim_plain("major-13th"@);
    lemma_trim_plain("minor-13th"@);
    lemma_trim_plain("suspended-second"@);
    lemma_trim_plain("suspended-fourth"@);
    lemma_trim_plain("power"@);
    lemma_trim_plain("Neapolitan"@);
    lemma_trim_plain("Italian"@);
    lemma_trim_plain("French"@);
    lemma_trim_plain("German"@);
    lemma_trim_plain("Tristan"@);
    lemma_trim_plain("other"@);
}

/// A kind name without surrounding whitespace is its own trim.
proof fn lemma_trim_plain(k: Seq<char>)
    requires
        k.len() == 0 || (!is_ws(k[0]) && !is_ws(k.last())),
    ensures
        trim(k) == k,
{
    if k.len() > 0 {
        assert(crate::text::trim_start(k) == k);
        assert(crate::text::trim_end(k) == k);
    } else {
        assert(crate::text::trim_start(k) == k);
        assert(crate::text::trim_end(k) == k);
    }
}

/// Distinct chord kinds get distinct suffixes, but for the kinds that name a
/// plain major triad, which all get the empty suffix: a minor chord is never
/// written as a major one, nor a seventh chord as a triad.
pub proof fn law_chord_kinds_distinct(k1: Seq<char>, k2: Seq<char>)
    requires
        kind_table(k1) is Some,
        kind_table(k2) is Some,
    ensures
        kind_table(k1) == Some(""@) <==> is_plain_kind(k1),
        kind_table(k1) == kind_table(k2) && k1 != k2 ==> is_plain_kind(k1) && is_plain_kind(k2),
{
    lemma_kind_inverse(k1);
    lemma_kind_inverse(k2);
}

proof fn lemma_kind_inverse(k: Seq<char>)
    requires
        kind_table(k) is Some,
    ensures
        kind_table(k) == Some(""@) <==> is_plain_kind(k),
        !is_plain_kind(k) ==> kind_table(k).unwrap().len() > 0 && kind_of_suffix(kind_table(k).unwrap()) == k,
{
    lemma_kind_names_distinct();
    lemma_kind_suffixes_distinct();
    reveal_strlit("");
    reveal_strlit("11");
    reveal_strlit("13");
    reveal_strlit("5");
    reveal_strlit("6");
    reveal_strlit("7");
    reveal_strlit("9");
    reveal_strlit("Fr+6");
    reveal_strlit("French");
    reveal_strlit("Ger+6");
    reveal_strlit("German");
    reveal_strlit("It+6");
    reveal_strlit("Italian");
    reveal_strlit("Maj11");
    reveal_strlit("Maj13");
    reveal_strlit("Maj7");
    reveal_strlit("Maj9");
    reveal_strlit("N");
    reveal_strlit("Neapolitan");
    reveal_strlit("Tristan");
    reveal_strlit("aug");
    reveal_strlit("aug7");
    reveal_strlit("augmented");
    reveal_strlit("augmented-seventh");
    reveal_strlit("dim");
    reveal_strlit("dim7");
    reveal_strlit("diminished");
    reveal_strlit("diminished-seventh");
    reveal_strlit("dominant");
    reveal_strlit("dominant-11th");
    reveal_strlit("dominant-13th");
    reveal_strlit("dominant-ninth");
    reveal_strlit("half-diminished");
    reveal_strlit("m");
    reveal_strlit("m11");
    reveal_strlit("m13");
    reveal_strlit("m6");
    reveal_strlit("m7");
    reveal_strlit("m7b5");
    reveal_strlit("m9");
    reveal_strlit("mMaj7");
    reveal_strlit("major");
    reveal_strlit("major-11th");
    reveal_strlit("major-13th");
    reveal_strlit("major-minor");
    reveal_strlit("major-ninth");
    reveal_strlit("major-seventh");
    reveal_strlit("major-sixth");
    reveal_strlit("minor");
    reveal_strlit("minor-11th");
    reveal_strlit("minor-13th");
    reveal_strlit("minor-ninth");
    reveal_strlit("minor-seventh");
    reveal_strlit("minor-sixth");
    reveal_strlit("none");
    reveal_strlit("other");
    reveal_strlit("power");
    reveal_strlit("sus2");
    reveal_strlit("sus4");
    reveal_strlit("suspended-fourth");
    reveal_strlit("suspended-second");
    if k == ""@ {
        assert(kind_table(k) == Some(""@));
    } else if k == "major"@ {
        assert(kind_table(k) == Some(""@));
    } else if k == "none"@ {
        assert(kind_table(k) == Some(""@));
    } else if k == "minor"@ {
        assert(kind_table(k) == Some("m"@));
        assert("m"@.len() > 0);
        assert(kind_of_suffix("m"@) == "minor"@);
    } else if k == "augmented"@ {
        assert(kind_table(k) == Some("aug"@));
        assert("aug"@.len() > 0);
        assert(kind_of_suffix("aug"@) == "augmented"@);
    } else if k == "diminished"@ {
        assert(kind_table(k) == Some("dim"@));
        assert("dim"@.len() > 0);
        assert(kind_of_suffix("dim"@) == "diminished"@);
    } else if k == "dominant"@ {
        assert(kind_table(k) == Some("7"@));
        assert("7"@.len() > 0);
        assert(kind_of_suffix("7"@) == "dominant"@);
    } else if k == "major-seventh"@ {
        assert(kind_table(k) == Some("Maj7"@));
        assert("Maj7"@.len() > 0);
        assert(kind_of_suffix("Maj7"@) == "major-seventh"@);
    } else if k == "minor-seventh"@ {
        assert(kind_table(k) == Some("m7"@));
        assert("m7"@.len() > 0);
        assert(kind_of_suffix("m7"@) == "minor-seventh"@);
    } else if k == "diminished-seventh"@ {
        assert(kind_table(k) == Some("dim7"@));
        assert("dim7"@.len() > 0);
        assert(kind_of_suffix("dim7"@) == "diminished-seventh"@);
    } else if k == "augmented-seventh"@ {
        assert(kind_table(k) == Some("aug7"@));
        assert("aug7"@.len() > 0);
        assert(kind_of_suffix("aug7"@) == "augmented-seventh"@);
    } else if k == "half-diminished"@ {
        assert(kind_table(k) == Some("m7b5"@));
        assert("m7b5"@.len() > 0);
        assert(kind_of_suffix("m7b5"@) == "half-diminished"@);
    } else if k == "major-minor"@ {
        assert(kind_table(k) == Some("mMaj7"@));
        assert("mMaj7"@.len() > 0);
        assert(kind_of_suffix("mMaj7"@) == "major-minor"@);
    } else if k == "major-sixth"@ {
        assert(kind_table(k) == Some("6"@));
        assert("6"@.len() > 0);
        assert(kind_of_suffix("6"@) == "major-sixth"@);
    } else if k == "minor-sixth"@ {
        assert(kind_table(k) == Some("m6"@));
        assert("m6"@.len() > 0);
        assert(kind_of_suffix("m6"@) == "minor-sixth"@);
    } else if k == "dominant-ninth"@ {
        assert(kind_table(k) == Some("9"@));
        assert("9"@.len() > 0);
        assert(kind_of_suffix("9"@) == "dominant-ninth"@);
    } else if k == "major-ninth"@ {
        assert(kind_table(k) == Some("Maj9"@));
        assert("Maj9"@.len() > 0);
        assert(kind_of_suffix("Maj9"@) == "major-ninth"@);
    } else if k == "minor-ninth"@ {
        assert(kind_table(k) == Some("m9"@));
        assert("m9"@.len() > 0);
        assert(kind_of_suffix("m9"@) == "minor-ninth"@);
    } else if k == "dominant-11th"@ {
        assert(kind_table(k) == Some("11"@));
        assert("11"@.len() > 0);
        assert(kind_of_suffix("11"@) == "dominant-11th"@);
    } else if k == "major-11th"@ {
        assert(kind_table(k) == Some("Maj11"@));
        assert("Maj11"@.len() > 0);
        assert(kind_of_suffix("Maj11"@) == "major-11th"@);
    } else if k == "minor-11th"@ {
        assert(kind_table(k) == Some("m11"@));
        assert("m11"@.len() > 0);
        assert(kind_of_suffix("m11"@) == "minor-11th"@);
    } else if k == "dominant-13th"@ {
        assert(kind_table(k) == Some("13"@));
        assert("13"@.len() > 0);
        assert(kind_of_suffix("13"@) == "dominant-13th"@);
    } else if k == "major-13th"@ {
        assert(kind_table(k) == Some("Maj13"@));
        assert("Maj13"@.len() > 0);
        assert(kind_of_suffix("Maj13"@) == "major-13th"@);
    } else if k == "minor-13th"@ {
        assert(kind_table(k) == Some("m13"@));
        assert("m13"@.len() > 0);
        assert(kind_of_suffix("m13"@) == "minor-13th"@);
    } else if k == "suspended-second"@ {
        assert(kind_table(k) == Some("sus2"@));
        assert("sus2"@.len() > 0);
        assert(kind_of_suffix("sus2"@) == "suspended-second"@);
    } else if k == "suspended-fourth"@ {
        assert(kind_table(k) == Some("sus4"@));
        assert("sus4"@.len() > 0);
        assert(kind_of_suffix("sus4"@) == "suspended-fourth"@);
    } else if k == "power"@ {
        assert(kind_table(k) == Some("5"@));
        assert("5"@.len() > 0);
        assert(kind_of_suffix("5"@) == "power"@);
    } else if k == "Neapolitan"@ {
        assert(kind_table(k) == Some("N"@));
        assert("N"@.len() > 0);
        assert(kind_of_suffix("N"@) == "Neapolitan"@);
    } else if k == "Italian"@ {
        assert(kind_table(k) == Some("It+6"@));
        assert("It+6"@.len() > 0);
        assert(kind_of_suffix("It+6"@) == "Italian"@);
    } else if k == "French"@ {
        assert(kind_table(k) == Some("Fr+6"@));
        assert("Fr+6"@.len() > 0);
        assert(kind_of_suffix("Fr+6"@) == "French"@);
    } else if k == "German"@ {
        assert(kind_table(k) == Some("Ger+6"@));
        assert("Ger+6"@.len() > 0);
        assert(kind_of_suffix("Ger+6"@) == "German"@);
    } else if k == "Tristan"@ {
        assert(kind_table(k) == Some("Tristan"@));
        assert("Tristan"@.len() > 0);
        assert(kind_of_suffix("Tristan"@) == "Tristan"@);
    } else if k == "other"@ {
        assert(kind_table(k) == Some(""@));
    }
}

// ---------------------------------------------------------------------------
// Time signatures
// ---------------------------------------------------------------------------

/// A `<time>` element with a number of beats and a beat type.
pub open spec fn time_element(beats: Seq<char>, beat_type: Seq<char>) -> Seq<char> {
    "<time><beats>"@ + spec_xml_escape(beats) + "</beats><beat-type>"@ + spec_xml_escape(beat_type)
        + "</beat-type></time>"@
}

/// A time signature read from a `<time>` element with beats and a beat type
/// (the beats without `/`) is written back as a `<time>` element with the
/// same beats and beat type; a common or cut time symbol is written back as
/// that symbol.
pub proof fn law_time_round_trip(d: Seq<XmlNodeView>, t: int)
    requires
        spec_parse_time(d, t) is Some,
        first_child_text(d, t, "beats"@) matches Some(b) ==> forall|i: int| 0 <= i < b.len() ==> b[i] != '/',
    ensures
        ({
            let x = spec_parse_time(d, t).unwrap();
            if x == "common"@ || x == "cut"@ {
                spec_time_to_musicxml(x) == Some(
                    "<time symbol=\""@ + x + "\"><beats>"@ + (if x == "common"@ {
                        "4"@
                    } else {
                        "2"@
                    }) + "</beats><beat-type>"@ + (if x == "common"@ {
                        "4"@
                    } else {
                        "2"@
                    }) + "</beat-type></time>"@,
                )
            } else {
                spec_time_to_musicxml(x) == Some(
                    time_element(first_child_text(d, t, "beats"@).unwrap(), first_child_text(d, t, "beat-type"@).unwrap()),
                )
            }
        }),
{
    reveal_strlit("common");
    reveal_strlit("cut");
    reveal_strlit("/");
    reveal_strlit("4");
    reveal_strlit("2");
    reveal_strlit("<time symbol=\"");
    reveal_strlit("\"><beats>");
    reveal_strlit("</beats><beat-type>");
    reveal_strlit("</beat-type></time>");
    reveal_strlit("<time symbol=\"common\"><beats>4</beats><beat-type>4</beat-type></time>");
    reveal_strlit("<time symbol=\"cut\"><beats>2</beats><beat-type>2</beat-type></time>");
    let x = spec_parse_time(d, t).unwrap();
    assert("common"@ != "cut"@) by {
        assert("common"@[1] != "cut"@[1]);
    }
    if x == "common"@ {
        assert(spec_time_to_musicxml(x) == Some(
            "<time symbol=\"common\"><beats>4</beats><beat-type>4</beat-type></time>"@,
        ));
        assert("<time symbol=\"common\"><beats>4</beats><beat-type>4</beat-type></time>"@ =~= "<time symbol=\""@ + x
            + "\"><beats>"@ + "4"@ + "</beats><beat-type>"@ + "4"@ + "</beat-type></time>"@);
    } else if x == "cut"@ {
        assert("<time symbol=\"cut\"><beats>2</beats><beat-type>2</beat-type></time>"@ =~= "<time symbol=\""@ + x
            + "\"><beats>"@ + "2"@ + "</beats><beat-type>"@ + "2"@ + "</beat-type></time>"@);
    } else {
        let sym = attribute(d, t, "symbol"@);
        assert(!crate::musicxml_read::opt_eq_ignore_case(sym, "common"@));
        assert(!crate::musicxml_read::opt_eq_ignore_case(sym, "cut"@));
        let b = first_child_text(d, t, "beats"@).unwrap();
        let bt = first_child_text(d, t, "beat-type"@).unwrap();
        assert(x == b + "/"@ + bt);
        let k = b.len() as int;
        assert(x[k] == '/');
        assert(forall|j: int| 0 <= j < k ==> x[j] != '/') by {
            assert forall|j: int| 0 <= j < k implies x[j] != '/' by {
                assert(x[j] == b[j]);
            }
        }
        assert(exists|i: int| 0 <= i < x.len() && x[i] == '/' && forall|j: int| 0 <= j < i ==> x[j] != '/');
        let c = choose|i: int| 0 <= i < x.len() && x[i] == '/' && forall|j: int| 0 <= j < i ==> x[j] != '/';
        if c < k {
            assert(x[c] == b[c]);
        }
        if c > k {
            assert(x[k] != '/');
        }
        assert(crate::text::first_index_of(x, '/') == Some(k));
        assert(x.take(k) =~= b);
        assert(x.skip(k + 1) =~= bt);
    }
}

// ---------------------------------------------------------------------------
// Chord roots
// ---------------------------------------------------------------------------

/// A chord symbol that the MusicXML reader writes from a root step, an
/// alteration of at most two semitones and a suffix (one that does not start
/// with `#` or `b`, as no kind's suffix does) reads back through the chord
/// symbol reader of the other direction as the same root, alteration and
/// suffix.
pub proof fn law_chord_root_round_trip(step: char, alter: int, suffix: Seq<char>)
    requires
        'A' <= step <= 'Z',
        -2 <= alter <= 2,
        suffix.len() == 0 || (suffix[0] != '#' && suffix[0] != 'b'),
    ensures
        crate::musicxml_parts::spec_chord_root(seq![step] + crate::musicxml_read::alter_suffix(alter) + suffix) == Some(
            (step, alter, suffix),
        ),
{
    reveal_strlit("#");
    reveal_strlit("##");
    reveal_strlit("b");
    reveal_strlit("bb");
    reveal_strlit("");
    let acc = crate::musicxml_read::alter_suffix(alter);
    let v = seq![step] + acc + suffix;
    let rest = v.skip(1);
    assert(rest =~= acc + suffix);
    assert(is_ascii_alpha(step));
    assert(crate::text::to_upper(step) == step);
    if alter == 2 {
        assert(rest.subrange(0, 2) =~= "##"@);
        assert(rest.skip(2) =~= suffix);
    } else if alter == -2 {
        assert(rest.subrange(0, 2) =~= "bb"@);
        crate::laws::lemma_differs_at(rest, "##"@, 0);
        assert(rest.skip(2) =~= suffix);
    } else if alter == 1 {
        assert(rest.subrange(0, 1) =~= "#"@);
        crate::laws::lemma_differs_at(rest, "##"@, 1);
        crate::laws::lemma_differs_at(rest, "bb"@, 0);
        assert(rest.skip(1) =~= suffix);
    } else if alter == -1 {
        assert(rest.subrange(0, 1) =~= "b"@);
        crate::laws::lemma_differs_at(rest, "##"@, 0);
        crate::laws::lemma_differs_at(rest, "bb"@, 1);
        crate::laws::lemma_differs_at(rest, "#"@, 0);
        assert(rest.skip(1) =~= suffix);
    } else {
        assert(rest =~= suffix);
        crate::laws::lemma_differs_at(rest, "##"@, 0);
        crate::laws::lemma_differs_at(rest, "bb"@, 0);
        crate::laws::lemma_differs_at(rest, "#"@, 0);
        crate::laws::lemma_differs_at(rest, "b"@, 0);
    }
}

} // verus!
