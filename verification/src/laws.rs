//! Properties of the library as a whole: what holds of every input and
//! across the two conversion directions.
use vstd::prelude::*;

use crate::durations::spec_duration_ticks;
use crate::model::{sat, PitchView, insert_pos_from, sort_by_start, EventView, LyricView, ScoreView};
use crate::musicxml_read::{sort_by_verse, verse_insert_pos, verse_key};
use crate::musicxml_parts::{
    escape_char, spec_clef_to_musicxml, spec_key_to_musicxml, spec_time_to_musicxml, spec_xml_escape,
};
use crate::musicxml_read::{clef_base, clef_with_octave, key_of_fifths, spec_parse_time};
use crate::scorify_writer::{
    octave_marks, spec_accidental_to_scorify, spec_pitch_to_string, dots_text, dotted_match,
    escape_typst_string, spec_duration_to_text, text_search,
};
use crate::durations::{
    dotted, duration_base, note_type_name, spec_duration_and_type, spec_duration_text_to_type, two_pow, type_base,
    type_search,
};
use crate::text::{all_digits, decimal, int_text, digit_char, digits_value, is_digit, parse_i32, parse_signed};
use crate::text::{first_index_of, has_at, is_ws, starts_with};
use crate::typst::{skip_ws, spec_expect, spec_string, string_from, unescape};
use crate::typst_writer::{
    default_options, spec_apply_patch, spec_emit_typst, typst_preamble, OptionsView, PatchView,
};
use crate::scorify_score::{group_end, group_staves, parts_from, spec_build_parts, PartStaffView, PartView};
use crate::model::StaffView;
use crate::scorify_tokens::{bracket_from, spec_parse_bracket_text};
use crate::scorify_writer::{
    articulation_text, articulations_text, escape_inline, join, lyric_tokens_from, note_attachments_text,
    note_marks_text, note_pitch_text, opt_wrap, pitches_text, spec_lyric_tokens_to_scorify, spec_note_to_string,
};
use crate::scorify_music::{
    articulation_of, articulation_run, attachments_from, lyrics_of, numbered_lyrics, spec_note_suffix, spec_parse_voice_event,
    words_from,
    Attachments, VoiceEventView,
};
use crate::model::{Articulation, NoteView};
use crate::xml::XmlNodeView;
use crate::musicxml_parts::{pitches_signature, spec_pitch_to_musicxml};
use crate::musicxml_writer::{note_prelude, pitch_note_tail, pitch_note_xml, pitch_notes_xml, spec_note_xml};

verus! {

// ---------------------------------------------------------------------------
// Escaping
// ---------------------------------------------------------------------------

/// Text escaped for XML holds none of `<`, `>`, `"` and `'`: each became an
/// entity reference.
pub proof fn law_xml_escape_has_no_markup(s: Seq<char>)
    ensures
        forall|i: int|
            0 <= i < spec_xml_escape(s).len() ==> {
                let c = #[trigger] spec_xml_escape(s)[i];
                c != '<' && c != '>' && c != '"' && c != '\''
            },
    decreases s.len(),
{
    if s.len() > 0 {
        law_xml_escape_has_no_markup(s.drop_last());
        let c = s.last();
        reveal_strlit("&amp;");
        reveal_strlit("&lt;");
        reveal_strlit("&gt;");
        reveal_strlit("&quot;");
        reveal_strlit("&apos;");
        let e = escape_char(c);
        assert(forall|i: int| 0 <= i < e.len() ==> e[i] != '<' && e[i] != '>' && e[i] != '"' && e[i] != '\'');
        let p = spec_xml_escape(s.drop_last());
        assert forall|i: int| 0 <= i < spec_xml_escape(s).len() implies {
            let c = #[trigger] spec_xml_escape(s)[i];
            c != '<' && c != '>' && c != '"' && c != '\''
        } by {
            if i < p.len() {
                assert(spec_xml_escape(s)[i] == p[i]);
            } else {
                assert(spec_xml_escape(s)[i] == e[i - p.len()]);
            }
        }
    }
}

proof fn lemma_typst_escape_append(a: Seq<char>, b: Seq<char>)
    ensures
        escape_typst_string(a + b) == escape_typst_string(a) + escape_typst_string(b),
    decreases b.len(),
{
    if b.len() > 0 {
        lemma_typst_escape_append(a, b.drop_last());
        assert((a + b).drop_last() =~= a + b.drop_last());
        assert((a + b).last() == b.last());
    } else {
        assert(a + b =~= a);
    }
}

pub(crate) proof fn lemma_string_from_escaped(s: Seq<char>, rest: Seq<char>, acc: Seq<char>)
    ensures
        string_from(escape_typst_string(s) + seq!['"'] + rest, 0, acc, false) == Some(
            (acc + s, escape_typst_string(s).len() + 1int),
        ),
    decreases s.len(),
{
    let t = escape_typst_string(s) + seq!['"'] + rest;
    if s.len() == 0 {
        assert(escape_typst_string(s) =~= Seq::<char>::empty());
        assert(t[0] == '"');
        assert(acc + s =~= acc);
    } else {
        let c = s[0];
        let tail = s.drop_first();
        assert(s =~= seq![c] + tail);
        lemma_typst_escape_append(seq![c], tail);
        assert(seq![c].drop_last() =~= Seq::<char>::empty());
        assert(seq![c].last() == c);
        let ec = escape_typst_string(seq![c]);
        assert(escape_typst_string(Seq::<char>::empty()) =~= Seq::<char>::empty());
        let et = escape_typst_string(tail);
        lemma_string_from_escaped(tail, rest, acc.push(c));
        let t2 = et + seq!['"'] + rest;
        assert(t =~= ec + t2);
        assert(acc.push(c) + tail =~= acc + s);
        if c == '\\' || c == '"' || c == '\n' {
            assert(ec.len() == 2);
            assert(t[0] == '\\');
            assert(unescape(t[1]) == c);
            assert(t.subrange(2, t.len() as int) =~= t2);
            lemma_string_from_shift(t, 2, t2, acc.push(c));
            assert(string_from(t, 0, acc, false) == string_from(t, 1, acc, true));
            assert(string_from(t, 1, acc, true) == string_from(t, 2, acc.push(unescape(t[1])), false));
        } else {
            assert(ec =~= seq![c]);
            assert(t[0] == c);
            assert(t.subrange(1, t.len() as int) =~= t2);
            lemma_string_from_shift(t, 1, t2, acc.push(c));
            assert(string_from(t, 0, acc, false) == string_from(t, 1, acc.push(c), false));
        }
    }
}

/// Reading a text from position `k` is reading its tail from the start.
pub(crate) proof fn lemma_string_from_shift(t: Seq<char>, k: int, t2: Seq<char>, acc: Seq<char>)
    requires
        0 <= k <= t.len(),
        t.subrange(k, t.len() as int) == t2,
    ensures
        string_from(t, k, acc, false) == match string_from(t2, 0, acc, false) {
            Some((v, e)) => Some((v, e + k)),
            None => None,
        },
{
    lemma_string_from_shift_at(t, k, t2, acc, false, 0);
}

proof fn lemma_string_from_shift_at(t: Seq<char>, k: int, t2: Seq<char>, acc: Seq<char>, esc: bool, j: int)
    requires
        0 <= k <= t.len(),
        0 <= j,
        t.subrange(k, t.len() as int) == t2,
    ensures
        string_from(t, k + j, acc, esc) == match string_from(t2, j, acc, esc) {
            Some((v, e)) => Some((v, e + k)),
            None => None,
        },
    decreases t2.len() - j,
{
    if j < t2.len() {
        assert(t[k + j] == t2[j]);
        let c = t2[j];
        if esc {
            lemma_string_from_shift_at(t, k, t2, acc.push(unescape(c)), false, j + 1);
        } else if c == '\\' {
            lemma_string_from_shift_at(t, k, t2, acc, true, j + 1);
        } else if c == '"' {
        } else {
            lemma_string_from_shift_at(t, k, t2, acc.push(c), false, j + 1);
        }
    }
}

/// A text that the Typst writer puts in a string literal reads back
/// unchanged through the Scorify reader's string literals, whatever follows.
pub proof fn law_typst_string_round_trip(s: Seq<char>, rest: Seq<char>)
    ensures
        spec_string(seq!['"'] + escape_typst_string(s) + seq!['"'] + rest, 0) == Some(
            (s, escape_typst_string(s).len() + 2int),
        ),
{
    let t = seq!['"'] + escape_typst_string(s) + seq!['"'] + rest;
    reveal_strlit("//");
    assert(t[0] == '"');
    assert(t.subrange(0, 2)[0] == '"');
    assert(!has_at(t, 0, "//"@));
    assert(skip_ws(t, 0) == 0);
    assert(spec_expect(t, 0, '"') == Some(1int));
    let t2 = escape_typst_string(s) + seq!['"'] + rest;
    assert(t.subrange(1, t.len() as int) =~= t2);
    lemma_string_from_escaped(s, rest, seq![]);
    assert(Seq::<char>::empty() + s =~= s);
    lemma_string_from_shift(t, 1, t2, seq![]);
}

// ---------------------------------------------------------------------------
// What the MusicXML reader produces, the MusicXML writer takes
// ---------------------------------------------------------------------------

proof fn lemma_key_literals()
    ensures
        "Cb"@.len() == 2 && "Cb"@[0] == 'C' && "Cb"@[1] == 'b',
        "Gb"@.len() == 2 && "Gb"@[0] == 'G' && "Gb"@[1] == 'b',
        "Db"@.len() == 2 && "Db"@[0] == 'D' && "Db"@[1] == 'b',
        "Ab"@.len() == 2 && "Ab"@[0] == 'A' && "Ab"@[1] == 'b',
        "Eb"@.len() == 2 && "Eb"@[0] == 'E' && "Eb"@[1] == 'b',
        "Bb"@.len() == 2 && "Bb"@[0] == 'B' && "Bb"@[1] == 'b',
        "F"@.len() == 1 && "F"@[0] == 'F',
        "C"@.len() == 1 && "C"@[0] == 'C',
        "G"@.len() == 1 && "G"@[0] == 'G',
        "D"@.len() == 1 && "D"@[0] == 'D',
        "A"@.len() == 1 && "A"@[0] == 'A',
        "E"@.len() == 1 && "E"@[0] == 'E',
        "B"@.len() == 1 && "B"@[0] == 'B',
        "F#"@.len() == 2 && "F#"@[0] == 'F' && "F#"@[1] == '#',
        "C#"@.len() == 2 && "C#"@[0] == 'C' && "C#"@[1] == '#',
        "ab"@.len() == 2 && "ab"@[0] == 'a' && "ab"@[1] == 'b',
        "eb"@.len() == 2 && "eb"@[0] == 'e' && "eb"@[1] == 'b',
        "bb"@.len() == 2 && "bb"@[0] == 'b' && "bb"@[1] == 'b',
        "f"@.len() == 1 && "f"@[0] == 'f',
        "c"@.len() == 1 && "c"@[0] == 'c',
        "g"@.len() == 1 && "g"@[0] == 'g',
        "d"@.len() == 1 && "d"@[0] == 'd',
        "a"@.len() == 1 && "a"@[0] == 'a',
        "e"@.len() == 1 && "e"@[0] == 'e',
        "b"@.len() == 1 && "b"@[0] == 'b',
        "f#"@.len() == 2 && "f#"@[0] == 'f' && "f#"@[1] == '#',
        "c#"@.len() == 2 && "c#"@[0] == 'c' && "c#"@[1] == '#',
        "g#"@.len() == 2 && "g#"@[0] == 'g' && "g#"@[1] == '#',
        "d#"@.len() == 2 && "d#"@[0] == 'd' && "d#"@[1] == '#',
        "a#"@.len() == 2 && "a#"@[0] == 'a' && "a#"@[1] == '#',
{
    reveal_strlit("Cb");
    reveal_strlit("Gb");
    reveal_strlit("Db");
    reveal_strlit("Ab");
    reveal_strlit("Eb");
    reveal_strlit("Bb");
    reveal_strlit("F");
    reveal_strlit("C");
    reveal_strlit("G");
    reveal_strlit("D");
    reveal_strlit("A");
    reveal_strlit("E");
    reveal_strlit("B");
    reveal_strlit("F#");
    reveal_strlit("C#");
    reveal_strlit("ab");
    reveal_strlit("eb");
    reveal_strlit("bb");
    reveal_strlit("f");
    reveal_strlit("c");
    reveal_strlit("g");
    reveal_strlit("d");
    reveal_strlit("a");
    reveal_strlit("e");
    reveal_strlit("b");
    reveal_strlit("f#");
    reveal_strlit("c#");
    reveal_strlit("g#");
    reveal_strlit("d#");
    reveal_strlit("a#");
}

/// Every key signature the MusicXML reader names (fifths from -7 to 7, major
/// or minor) the MusicXML writer turns back into the same fifths and mode.
pub proof fn law_key_round_trip(fifths: int, minor: bool)
    requires
        -7 <= fifths <= 7,
    ensures
        key_of_fifths(fifths, minor) is Some,
        spec_key_to_musicxml(key_of_fifths(fifths, minor).unwrap()) == Some(
            (
                fifths,
                if minor {
                    Some("minor"@)
                } else {
                    None
                },
            ),
        ),
{
    lemma_key_literals();
}

/// Every clef the MusicXML reader names the MusicXML writer accepts.
pub proof fn law_read_clefs_are_writable(sign: Seq<char>, line: int, change: int, number: Option<usize>)
    ensures
        spec_clef_to_musicxml(clef_with_octave(clef_base(sign, line), change), number) is Some,
{
}

/// Every time signature the MusicXML reader reads the MusicXML writer accepts.
pub proof fn law_read_times_are_writable(d: Seq<XmlNodeView>, t: int)
    ensures
        spec_parse_time(d, t) matches Some(x) ==> spec_time_to_musicxml(x) is Some,
{
    match spec_parse_time(d, t) {
        Some(x) => {
            reveal_strlit("/");
            let sym = crate::xml::attribute(d, t, "symbol"@);
            if !crate::musicxml_read::opt_eq_ignore_case(sym, "common"@) && !crate::musicxml_read::opt_eq_ignore_case(
                sym,
                "cut"@,
            ) {
                let beats = crate::xml::first_child_text(d, t, "beats"@).unwrap();
                assert(x[beats.len() as int] == '/');
                lemma_first_index_exists(x, '/', beats.len() as int);
            }
        },
        None => {},
    }
}

proof fn lemma_first_index_exists(s: Seq<char>, c: char, i: int)
    requires
        0 <= i < s.len(),
        s[i] == c,
    ensures
        first_index_of(s, c) is Some,
{
    assert(exists|j: int| 0 <= j < s.len() && s[j] == c);
}

// ---------------------------------------------------------------------------
// The Typst call
// ---------------------------------------------------------------------------

proof fn lemma_typst_escape_plain(s: Seq<char>)
    requires
        forall|i: int| 0 <= i < s.len() ==> s[i] != '\\' && s[i] != '"' && s[i] != '\n',
    ensures
        escape_typst_string(s) == s,
    decreases s.len(),
{
    if s.len() > 0 {
        lemma_typst_escape_plain(s.drop_last());
        assert(s.drop_last().push(s.last()) =~= s);
    } else {
        assert(s =~= Seq::<char>::empty());
    }
}

/// With the default options, the Typst call starts with the import of
/// Scorify 0.3.0.
pub proof fn law_default_output_imports_scorify(score: ScoreView)
    ensures
        starts_with(spec_emit_typst(score, default_options()), "#import \"@preview/scorify:0.3.0\": score\n\n"@),
{
    let o = default_options();
    reveal_strlit("@preview/scorify:0.3.0");
    lemma_typst_escape_plain("@preview/scorify:0.3.0"@);
    let head = "#import \""@ + "@preview/scorify:0.3.0"@ + "\": score\n\n"@;
    reveal_strlit("#import \"");
    reveal_strlit("\": score\n\n");
    reveal_strlit("#import \"@preview/scorify:0.3.0\": score\n\n");
    assert(head =~= "#import \"@preview/scorify:0.3.0\": score\n\n"@);
    assert(typst_preamble(o) =~= Seq::<char>::empty() + head);
    let out = spec_emit_typst(score, o);
    assert(out.subrange(0, head.len() as int) =~= head);
}

/// Without the import and the comment, the output is the `#score(...)` call alone.
pub proof fn law_bare_output_is_the_score_call(score: ScoreView, o: OptionsView)
    requires
        !o.include_import,
        !o.include_comment,
    ensures
        starts_with(spec_emit_typst(score, o), "#score(\n"@),
        crate::text::ends_with(spec_emit_typst(score, o), ")\n"@),
{
    assert(typst_preamble(o) =~= Seq::<char>::empty());
    let out = spec_emit_typst(score, o);
    let open = "#score(\n"@;
    assert(out.subrange(0, open.len() as int) =~= open);
    let close = ")\n"@;
    assert(out.subrange(out.len() - close.len(), out.len() as int) =~= close);
}

/// A patch that sets nothing leaves the options as they are; a patch that
/// sets everything replaces them.
pub proof fn law_patch(o: OptionsView, p: PatchView)
    ensures
        p.include_import is None && p.package is None && p.measures_per_line is None && p.include_comment is None
            ==> spec_apply_patch(o, p) == o,
        p.include_import matches Some(b) ==> spec_apply_patch(o, p).include_import == b,
        p.package matches Some(s) ==> spec_apply_patch(o, p).package == s,
        p.measures_per_line matches Some(n) ==> spec_apply_patch(o, p).measures_per_line == Some(n),
        p.include_comment matches Some(b) ==> spec_apply_patch(o, p).include_comment == b,
{
}

// ---------------------------------------------------------------------------
// Orderings
// ---------------------------------------------------------------------------

proof fn lemma_insert_pos(t: Seq<EventView>, k: int, key: int)
    requires
        0 <= k <= t.len(),
        forall|m: int| 0 <= m < k ==> t[m].start <= key,
    ensures
        k <= insert_pos_from(t, k, key) <= t.len(),
        forall|m: int| 0 <= m < insert_pos_from(t, k, key) ==> t[m].start <= key,
        insert_pos_from(t, k, key) < t.len() ==> t[insert_pos_from(t, k, key)].start > key,
    decreases t.len() - k,
{
    if k < t.len() && t[k].start <= key {
        lemma_insert_pos(t, k + 1, key);
    }
}

/// Events come out of `sort_by_start` in order of start, all of them and
/// nothing else.
pub proof fn law_events_sorted_by_start(s: Seq<EventView>)
    ensures
        sort_by_start(s).len() == s.len(),
        forall|i: int, j: int|
            0 <= i <= j < s.len() ==> (#[trigger] sort_by_start(s)[i]).start <= (#[trigger] sort_by_start(s)[j]).start,
        sort_by_start(s).to_multiset() == s.to_multiset(),
    decreases s.len(),
{
    if s.len() > 0 {
        let t = sort_by_start(s.drop_last());
        law_events_sorted_by_start(s.drop_last());
        let x = s.last();
        lemma_insert_pos(t, 0, x.start);
        let p = insert_pos_from(t, 0, x.start);
        let r = t.insert(p, x);
        assert(r == sort_by_start(s));
        assert forall|i: int, j: int| 0 <= i <= j < r.len() implies (#[trigger] r[i]).start <= (#[trigger] r[j]).start by {
            if i < p {
                if j < p {
                } else if j == p {
                } else {
                    assert(r[j] == t[j - 1]);
                }
            } else if i == p {
                if j > p {
                    assert(r[j] == t[j - 1]);
                    assert(t[p].start > x.start);
                    assert(t[p].start <= t[j - 1].start);
                }
            } else {
                assert(r[i] == t[i - 1]);
                assert(r[j] == t[j - 1]);
            }
        }
        vstd::seq_lib::to_multiset_insert(t, p, x);
        vstd::seq_lib::to_multiset_build(s.drop_last(), x);
        assert(s.drop_last().push(x) =~= s);
    } else {
        assert(sort_by_start(s) == s);
    }
}

proof fn lemma_verse_pos(t: Seq<LyricView>, k: int, key: int)
    requires
        0 <= k <= t.len(),
        forall|m: int| 0 <= m < k ==> verse_key(t[m].verse) <= key,
    ensures
        k <= verse_insert_pos(t, k, key) <= t.len(),
        forall|m: int| 0 <= m < verse_insert_pos(t, k, key) ==> verse_key(t[m].verse) <= key,
        verse_insert_pos(t, k, key) < t.len() ==> verse_key(t[verse_insert_pos(t, k, key)].verse) > key,
    decreases t.len() - k,
{
    if k < t.len() && verse_key(t[k].verse) <= key {
        lemma_verse_pos(t, k + 1, key);
    }
}

/// Lyrics come out of `sort_by_verse` ordered by verse (lyrics without a
/// verse last), all of them and nothing else.
pub proof fn law_lyrics_sorted_by_verse(s: Seq<LyricView>)
    ensures
        sort_by_verse(s).len() == s.len(),
        forall|i: int, j: int|
            0 <= i <= j < s.len() ==> verse_key((#[trigger] sort_by_verse(s)[i]).verse) <= verse_key(
                (#[trigger] sort_by_verse(s)[j]).verse,
            ),
        sort_by_verse(s).to_multiset() == s.to_multiset(),
    decreases s.len(),
{
    if s.len() > 0 {
        let t = sort_by_verse(s.drop_last());
        law_lyrics_sorted_by_verse(s.drop_last());
        let x = s.last();
        let key = verse_key(x.verse);
        lemma_verse_pos(t, 0, key);
        let p = verse_insert_pos(t, 0, key);
        let r = t.insert(p, x);
        assert(r == sort_by_verse(s));
        assert forall|i: int, j: int| 0 <= i <= j < r.len() implies verse_key((#[trigger] r[i]).verse) <= verse_key(
            (#[trigger] r[j]).verse,
        ) by {
            if i < p {
                if j > p {
                    assert(r[j] == t[j - 1]);
                }
            } else if i == p {
                if j > p {
                    assert(r[j] == t[j - 1]);
                    assert(verse_key(t[p].verse) <= verse_key(t[j - 1].verse));
                }
            } else {
                assert(r[i] == t[i - 1]);
                assert(r[j] == t[j - 1]);
            }
        }
        vstd::seq_lib::to_multiset_insert(t, p, x);
        vstd::seq_lib::to_multiset_build(s.drop_last(), x);
        assert(s.drop_last().push(x) =~= s);
    } else {
        assert(sort_by_verse(s) == s);
    }
}

// ---------------------------------------------------------------------------
// Durations across the two directions
// ---------------------------------------------------------------------------

/// The decimal digits of a number read back as that number.
pub proof fn lemma_decimal_digits(n: nat)
    ensures
        decimal(n).len() > 0,
        all_digits(decimal(n)),
        digits_value(decimal(n)) == n,
    decreases n,
{
    let c = digit_char(n % 10);
    assert((c as u32) == 48 + n % 10);
    if n >= 10 {
        lemma_decimal_digits(n / 10);
        let p = decimal(n / 10);
        let s = p.push(c);
        assert(s.drop_last() =~= p);
        assert(s.last() == c);
        assert forall|j: int| 0 <= j < s.len() implies is_digit(s[j]) by {
            if j < p.len() {
                assert(s[j] == p[j]);
            }
        }
        assert(digits_value(s) == digits_value(p) * 10 + n % 10);
    } else {
        let s = seq![c];
        assert(s.drop_last() =~= Seq::<char>::empty());
        assert(s.last() == c);
        assert(digits_value(s) == digits_value(Seq::<char>::empty()) * 10 + n % 10);
    }
}

proof fn lemma_text_search_shape(ticks: int, div: int, di: nat, dots: nat)
    requires
        text_search(ticks, div, di, dots) is Some,
    ensures
        exists|k: nat, d: nat|
            #![trigger two_pow(k), two_pow(d)]
            k < 8 && d < 4 && dotted_match(ticks, div, two_pow(k) as int, d) && text_search(ticks, div, di, dots)
                == Some(decimal(two_pow(k)) + dots_text(d)),
    decreases 8 - di, 4 - dots,
{
    if di < 8 {
        if dots >= 4 {
            lemma_text_search_shape(ticks, div, di + 1, 0);
        } else if dotted_match(ticks, div, two_pow(di) as int, dots) {
            assert(two_pow(di) == two_pow(di) && two_pow(dots) == two_pow(dots));
        } else {
            lemma_text_search_shape(ticks, div, di, dots + 1);
        }
    }
}

proof fn lemma_small_powers(k: nat)
    requires
        k < 8,
    ensures
        k == 0 ==> two_pow(k) == 1,
        k == 1 ==> two_pow(k) == 2,
        k == 2 ==> two_pow(k) == 4,
        k == 3 ==> two_pow(k) == 8,
        k == 4 ==> two_pow(k) == 16,
        k == 5 ==> two_pow(k) == 32,
        k == 6 ==> two_pow(k) == 64,
        k == 7 ==> two_pow(k) == 128,
        two_pow(k + 1) == 2 * two_pow(k),
{
    reveal_with_fuel(two_pow, 9);
}

proof fn lemma_duration_base_power(k: nat)
    requires
        k < 8,
    ensures
        duration_base(decimal(two_pow(k))) == Some(3072int / (two_pow(k) as int)),
        3072int % (two_pow(k) as int) == 0,
{
    lemma_small_powers(k);
    lemma_decimal_digits(two_pow(k));
    let v = two_pow(k) as int;
    assert(v == 1 || v == 2 || v == 4 || v == 8 || v == 16 || v == 32 || v == 64 || v == 128);
    assert(3072int % v == 0);
    let t = decimal(two_pow(k));
    reveal_strlit("maxima");
    reveal_strlit("longa");
    reveal_strlit("breve");
    assert(is_digit(t[0]));
    assert("maxima"@[0] == 'm' && "longa"@[0] == 'l' && "breve"@[0] == 'b');
    assert(t != "maxima"@ && t != "longa"@ && t != "breve"@);
    assert(t[0] != '+' && t[0] != '-');
    assert(parse_signed(t) == Some(two_pow(k) as int));
    assert(two_pow(k) <= 128);
    assert(parse_i32(t) == Some(two_pow(k) as int));
}

/// The length identity behind the duration law, for each denominator and
/// number of dots.
proof fn lemma_length_identity(den: int, p: int, ticks: int, div: int)
    requires
        den == 1 || den == 2 || den == 4 || den == 8 || den == 16 || den == 32 || den == 64 || den == 128,
        p == 1 || p == 2 || p == 4 || p == 8,
        4 * div * (2 * p - 1) == ticks * den * p,
    ensures
        (3072int / den) * (2 * p - 1) <= 3072 * 15,
        ((3072int / den) * (2 * p - 1) / p) * div == ticks * 768,
{
    if den == 1 {
        if p == 1 {
            assert(3072int / den == 3072);
            assert((3072int / den) * (2 * p - 1) / p == 3072);
            assert(4 * div * 1 == ticks * 1) by (nonlinear_arith)
                requires
                    den == 1,
                    p == 1,
                    4 * div * (2 * p - 1) == ticks * den * p,
            ;
            assert(3072 * div == ticks * 768);
        } else if p == 2 {
            assert(3072int / den == 3072);
            assert((3072int / den) * (2 * p - 1) / p == 4608);
            assert(4 * div * 3 == ticks * 2) by (nonlinear_arith)
                requires
                    den == 1,
                    p == 2,
                    4 * div * (2 * p - 1) == ticks * den * p,
            ;
            assert(4608 * div == ticks * 768);
        } else if p == 4 {
            assert(3072int / den == 3072);
            assert((3072int / den) * (2 * p - 1) / p == 5376);
            assert(4 * div * 7 == ticks * 4) by (nonlinear_arith)
                requires
                    den == 1,
                    p == 4,
                    4 * div * (2 * p - 1) == ticks * den * p,
            ;
            assert(5376 * div == ticks * 768);
        } else if p == 8 {
            assert(3072int / den == 3072);
            assert((3072int / den) * (2 * p - 1) / p == 5760);
            assert(4 * div * 15 == ticks * 8) by (nonlinear_arith)
                requires
                    den == 1,
                    p == 8,
                    4 * div * (2 * p - 1) == ticks * den * p,
            ;
            assert(5760 * div == ticks * 768);
        }
    } else if den == 2 {
        if p == 1 {
            assert(3072int / den == 1536);
            assert((3072int / den) * (2 * p - 1) / p == 1536);
            assert(4 * div * 1 == ticks * 2) by (nonlinear_arith)
                requires
                    den == 2,
                    p == 1,
                    4 * div * (2 * p - 1) == ticks * den * p,
            ;
            assert(1536 * div == ticks * 768);
        } else if p == 2 {
            assert(3072int / den == 1536);
            assert((3072int / den) * (2 * p - 1) / p == 2304);
            assert(4 * div * 3 == ticks * 4) by (nonlinear_arith)
                requires
                    den == 2,
                    p == 2,
                    4 * div * (2 * p - 1) == ticks * den * p,
            ;
            assert(2304 * div == ticks * 768);
        } else if p == 4 {
            assert(3072int / den == 1536);
            assert((3072int / den) * (2 * p - 1) / p == 2688);
            assert(4 * div * 7 == ticks * 8) by (nonlinear_arith)
                requires
                    den == 2,
                    p == 4,
                    4 * div * (2 * p - 1) == ticks * den * p,
            ;
            assert(2688 * div == ticks * 768);
        } else if p == 8 {
            assert(3072int / den == 1536);
            assert((3072int / den) * (2 * p - 1) / p == 2880);
            assert(4 * div * 15 == ticks * 16) by (nonlinear_arith)
                requires
                    den == 2,
                    p == 8,
                    4 * div * (2 * p - 1) == ticks * den * p,
            ;
            assert(2880 * div == ticks * 768);
        }
    } else if den == 4 {
        if p == 1 {
            assert(3072int / den == 768);
            assert((3072int / den) * (2 * p - 1) / p == 768);
            assert(4 * div * 1 == ticks * 4) by (nonlinear_arith)
                requires
                    den == 4,
                    p == 1,
                    4 * div * (2 * p - 1) == ticks * den * p,
            ;
            assert(768 * div == ticks * 768);
        } else if p == 2 {
            assert(3072int / den == 768);
            assert((3072int / den) * (2 * p - 1) / p == 1152);
            assert(4 * div * 3 == ticks * 8) by (nonlinear_arith)
                requires
                    den == 4,
                    p == 2,
                    4 * div * (2 * p - 1) == ticks * den * p,
            ;
            assert(1152 * div == ticks * 768);
        } else if p == 4 {
            assert(3072int / den == 768);
            assert((3072int / den) * (2 * p - 1) / p == 1344);
            assert(4 * div * 7 == ticks * 16) by (nonlinear_arith)
                requires
                    den == 4,
                    p == 4,
                    4 * div * (2 * p - 1) == ticks * den * p,
            ;
            assert(1344 * div == ticks * 768);
        } else if p == 8 {
            assert(3072int / den == 768);
            assert((3072int / den) * (2 * p - 1) / p == 1440);
            assert(4 * div * 15 == ticks * 32) by (nonlinear_arith)
                requires
                    den == 4,
                    p == 8,
                    4 * div * (2 * p - 1) == ticks * den * p,
            ;
            assert(1440 * div == ticks * 768);
        }
    } else if den == 8 {
        if p == 1 {
            assert(3072int / den == 384);
            assert((3072int / den) * (2 * p - 1) / p == 384);
            assert(4 * div * 1 == ticks * 8) by (nonlinear_arith)
                requires
                    den == 8,
                    p == 1,
                    4 * div * (2 * p - 1) == ticks * den * p,
            ;
            assert(384 * div == ticks * 768);
        } else if p == 2 {
            assert(3072int / den == 384);
            assert((3072int / den) * (2 * p - 1) / p == 576);
            assert(4 * div * 3 == ticks * 16) by (nonlinear_arith)
                requires
                    den == 8,
                    p == 2,
                    4 * div * (2 * p - 1) == ticks * den * p,
            ;
            assert(576 * div == ticks * 768);
        } else if p == 4 {
            assert(3072int / den == 384);
            assert((3072int / den) * (2 * p - 1) / p == 672);
            assert(4 * div * 7 == ticks * 32) by (nonlinear_arith)
                requires
                    den == 8,
                    p == 4,
                    4 * div * (2 * p - 1) == ticks * den * p,
            ;
            assert(672 * div == ticks * 768);
        } else if p == 8 {
            assert(3072int / den == 384);
            assert((3072int / den) * (2 * p - 1) / p == 720);
            assert(4 * div * 15 == ticks * 64) by (nonlinear_arith)
                requires
                    den == 8,
                    p == 8,
                    4 * div * (2 * p - 1) == ticks * den * p,
            ;
            assert(720 * div == ticks * 768);
        }
    } else if den == 16 {
        if p == 1 {
            assert(3072int / den == 192);
            assert((3072int / den) * (2 * p - 1) / p == 192);
            assert(4 * div * 1 == ticks * 16) by (nonlinear_arith)
                requires
                    den == 16,
                    p == 1,
                    4 * div * (2 * p - 1) == ticks * den * p,
            ;
            assert(192 * div == ticks * 768);
        } else if p == 2 {
            assert(3072int / den == 192);
            assert((3072int / den) * (2 * p - 1) / p == 288);
            assert(4 * div * 3 == ticks * 32) by (nonlinear_arith)
                requires
                    den == 16,
                    p == 2,
                    4 * div * (2 * p - 1) == ticks * den * p,
            ;
            assert(288 * div == ticks * 768);
        } else if p == 4 {
            assert(3072int / den == 192);
            assert((3072int / den) * (2 * p - 1) / p == 336);
            assert(4 * div * 7 == ticks * 64) by (nonlinear_arith)
                requires
                    den == 16,
                    p == 4,
                    4 * div * (2 * p - 1) == ticks * den * p,
            ;
            assert(336 * div == ticks * 768);
        } else if p == 8 {
            assert(3072int / den == 192);
            assert((3072int / den) * (2 * p - 1) / p == 360);
            assert(4 * div * 15 == ticks * 128) by (nonlinear_arith)
                requires
                    den == 16,
                    p == 8,
                    4 * div * (2 * p - 1) == ticks * den * p,
            ;
            assert(360 * div == ticks * 768);
        }
    } else if den == 32 {
        if p == 1 {
            assert(3072int / den == 96);
            assert((3072int / den) * (2 * p - 1) / p == 96);
            assert(4 * div * 1 == ticks * 32) by (nonlinear_arith)
                requires
                    den == 32,
                    p == 1,
                    4 * div * (2 * p - 1) == ticks * den * p,
            ;
            assert(96 * div == ticks * 768);
        } else if p == 2 {
            assert(3072int / den == 96);
            assert((3072int / den) * (2 * p - 1) / p == 144);
            assert(4 * div * 3 == ticks * 64) by (nonlinear_arith)
                requires
                    den == 32,
                    p == 2,
                    4 * div * (2 * p - 1) == ticks * den * p,
            ;
            assert(144 * div == ticks * 768);
        } else if p == 4 {
            assert(3072int / den == 96);
            assert((3072int / den) * (2 * p - 1) / p == 168);
            assert(4 * div * 7 == ticks * 128) by (nonlinear_arith)
                requires
                    den == 32,
                    p == 4,
                    4 * div * (2 * p - 1) == ticks * den * p,
            ;
            assert(168 * div == ticks * 768);
        } else if p == 8 {
            assert(3072int / den == 96);
            assert((3072int / den) * (2 * p - 1) / p == 180);
            assert(4 * div * 15 == ticks * 256) by (nonlinear_arith)
                requires
                    den == 32,
                    p == 8,
                    4 * div * (2 * p - 1) == ticks * den * p,
            ;
            assert(180 * div == ticks * 768);
        }
    } else if den == 64 {
        if p == 1 {
            assert(3072int / den == 48);
            assert((3072int / den) * (2 * p - 1) / p == 48);
            assert(4 * div * 1 == ticks * 64) by (nonlinear_arith)
                requires
                    den == 64,
                    p == 1,
                    4 * div * (2 * p - 1) == ticks * den * p,
            ;
            assert(48 * div == ticks * 768);
        } else if p == 2 {
            assert(3072int / den == 48);
            assert((3072int / den) * (2 * p - 1) / p == 72);
            assert(4 * div * 3 == ticks * 128) by (nonlinear_arith)
                requires
                    den == 64,
                    p == 2,
                    4 * div * (2 * p - 1) == ticks * den * p,
            ;
            assert(72 * div == ticks * 768);
        } else if p == 4 {
            assert(3072int / den == 48);
            assert((3072int / den) * (2 * p - 1) / p == 84);
            assert(4 * div * 7 == ticks * 256) by (nonlinear_arith)
                requires
                    den == 64,
                    p == 4,
                    4 * div * (2 * p - 1) == ticks * den * p,
            ;
            assert(84 * div == ticks * 768);
        } else if p == 8 {
            assert(3072int / den == 48);
            assert((3072int / den) * (2 * p - 1) / p == 90);
            assert(4 * div * 15 == ticks * 512) by (nonlinear_arith)
                requires
                    den == 64,
                    p == 8,
                    4 * div * (2 * p - 1) == ticks * den * p,
            ;
            assert(90 * div == ticks * 768);
        }
    } else if den == 128 {
        if p == 1 {
            assert(3072int / den == 24);
            assert((3072int / den) * (2 * p - 1) / p == 24);
            assert(4 * div * 1 == ticks * 128) by (nonlinear_arith)
                requires
                    den == 128,
                    p == 1,
                    4 * div * (2 * p - 1) == ticks * den * p,
            ;
            assert(24 * div == ticks * 768);
        } else if p == 2 {
            assert(3072int / den == 24);
            assert((3072int / den) * (2 * p - 1) / p == 36);
            assert(4 * div * 3 == ticks * 256) by (nonlinear_arith)
                requires
                    den == 128,
                    p == 2,
                    4 * div * (2 * p - 1) == ticks * den * p,
            ;
            assert(36 * div == ticks * 768);
        } else if p == 4 {
            assert(3072int / den == 24);
            assert((3072int / den) * (2 * p - 1) / p == 42);
            assert(4 * div * 7 == ticks * 512) by (nonlinear_arith)
                requires
                    den == 128,
                    p == 4,
                    4 * div * (2 * p - 1) == ticks * den * p,
            ;
            assert(42 * div == ticks * 768);
        } else if p == 8 {
            assert(3072int / den == 24);
            assert((3072int / den) * (2 * p - 1) / p == 45);
            assert(4 * div * 15 == ticks * 1024) by (nonlinear_arith)
                requires
                    den == 128,
                    p == 8,
                    4 * div * (2 * p - 1) == ticks * den * p,
            ;
            assert(45 * div == ticks * 768);
        }
    }
}

/// A duration that the MusicXML reader writes for `ticks` (with `div` ticks
/// per quarter) is a power-of-two denominator up to 128 and up to three
/// dots, and the Scorify reader gives it, at 768 ticks per quarter, exactly
/// the same length.
pub proof fn law_written_durations_read_back(ticks: int, div: int)
    requires
        spec_duration_to_text(ticks, div) is Some,
    ensures
        exists|k: nat, d: nat|
            #![trigger two_pow(k), two_pow(d)]
            {
                &&& k < 8
                &&& d < 4
                &&& spec_duration_to_text(ticks, div) == Some(decimal(two_pow(k)) + dots_text(d))
                &&& spec_duration_ticks(decimal(two_pow(k)), d) is Some
                &&& spec_duration_ticks(decimal(two_pow(k)), d).unwrap() * div == ticks * 768
            },
{
    lemma_text_search_shape(ticks, div, 0, 0);
    let (k, d) = choose|k: nat, d: nat|
        #![trigger two_pow(k), two_pow(d)]
        k < 8 && d < 4 && dotted_match(ticks, div, two_pow(k) as int, d) && text_search(ticks, div, 0, 0) == Some(
            decimal(two_pow(k)) + dots_text(d),
        );
    lemma_duration_base_power(k);
    lemma_small_powers(k);
    lemma_small_powers(d);
    let den = two_pow(k) as int;
    let p = two_pow(d) as int;
    let m = two_pow(d + 1) - 1;
    assert(m == 2 * p - 1);
    assert(4 * div * m == ticks * den * p);
    lemma_length_identity(den, p, ticks, div);
    let base = 3072int / den;
    let t = base * m / p;
    assert(spec_duration_ticks(decimal(two_pow(k)), d) == Some(t));
}

// ---------------------------------------------------------------------------
// Pitches across the two directions
// ---------------------------------------------------------------------------

pub(crate) proof fn lemma_octave_marks_read(s: Seq<char>, i: int, octave: int, n: nat, up: bool)
    requires
        0 <= i,
        i + n == s.len(),
        forall|j: int| i <= j < s.len() ==> s[j] == (if up { '\'' } else { ',' }),
        i64::MIN <= octave <= i64::MAX,
        i64::MIN <= (if up { octave + n } else { octave - n }) <= i64::MAX,
    ensures
        crate::scorify_tokens::octave_from(s, i, octave) == Some(if up { octave + n } else { octave - n }),
    decreases n,
{
    if n > 0 {
        if up {
            assert(sat(octave + 1) == octave + 1);
            lemma_octave_marks_read(s, i + 1, octave + 1, (n - 1) as nat, up);
        } else {
            assert(sat(octave - 1) == octave - 1);
            lemma_octave_marks_read(s, i + 1, octave - 1, (n - 1) as nat, up);
        }
    }
}

/// A sequence that differs from `prefix` at a position both have does not
/// start with `prefix`.
pub(crate) proof fn lemma_differs_at(s: Seq<char>, prefix: Seq<char>, k: int)
    requires
        0 <= k < prefix.len(),
        k < s.len() ==> s[k] != prefix[k],
    ensures
        !crate::text::starts_with(s, prefix),
{
    if crate::text::starts_with(s, prefix) {
        assert(s.subrange(0, prefix.len() as int)[k] == s[k]);
    }
}

/// A pitch that the MusicXML reader writes in a clef (a letter, an
/// alteration of at most two semitones without a written accidental, an
/// octave) reads back through the Scorify reader in the same clef as the
/// same step, alteration and octave.
pub proof fn law_pitch_round_trip(p: PitchView, clef: Seq<char>)
    requires
        crate::text::is_ascii_alpha(p.step),
        -2 <= p.alter <= 2,
        p.accidental_text is None,
        i64::MIN <= p.octave <= i64::MAX,
    ensures
        crate::scorify_tokens::spec_parse_pitch(spec_pitch_to_string(p, clef), clef) matches Some(q) && q.step
            == crate::text::to_lower(p.step) && q.alter == p.alter && q.octave == p.octave,
{
    let base = crate::scorify_tokens::spec_clef_base_octave(clef);
    let delta = p.octave - base;
    let acc = spec_accidental_to_scorify(p.alter, p.accidental_text);
    let marks = octave_marks(delta);
    let t = spec_pitch_to_string(p, clef);
    reveal_strlit("");
    reveal_strlit("#");
    reveal_strlit("##");
    reveal_strlit("&");
    reveal_strlit("&&");
    reveal_strlit("=");
    reveal_strlit("sharp");
    reveal_strlit("double-sharp");
    reveal_strlit("sharp-sharp");
    reveal_strlit("flat");
    reveal_strlit("flat-flat");
    reveal_strlit("double-flat");
    reveal_strlit("natural");
    assert(crate::scorify_writer::ascii_lower(seq![]) =~= Seq::<char>::empty());
    assert("sharp"@.len() == 5 && "double-sharp"@.len() == 12 && "sharp-sharp"@.len() == 11 && "flat"@.len() == 4
        && "flat-flat"@.len() == 9 && "double-flat"@.len() == 11 && "natural"@.len() == 7);
    assert(acc == if p.alter == 2 {
        seq!['#', '#']
    } else if p.alter == 1 {
        seq!['#']
    } else if p.alter == -1 {
        seq!['&']
    } else if p.alter == -2 {
        seq!['&', '&']
    } else {
        Seq::<char>::empty()
    });
    assert(t =~= seq![p.step] + acc + marks);
    let rest = t.skip(1);
    assert(rest =~= acc + marks);
    let n: nat = if delta >= 0 {
        delta as nat
    } else {
        (-delta) as nat
    };
    assert(marks.len() == n);
    assert(forall|j: int| 0 <= j < marks.len() ==> marks[j] == '\'' || marks[j] == ',');
    let a: int = 1 + acc.len() as int;
    assert(t.len() == a + n);
    assert(forall|j: int| a <= j < t.len() ==> t[j] == marks[j - a]);
    if marks.len() > 0 {
        assert(rest[acc.len() as int] == marks[0]);
        assert(marks[0] == '\'' || marks[0] == ',');
    }
    if p.alter == 2 {
        assert(rest.subrange(0, 2) =~= "##"@);
    } else if p.alter == -2 {
        assert(rest.subrange(0, 2) =~= "&&"@);
        lemma_differs_at(rest, "##"@, 0);
    } else if p.alter == 1 {
        assert(rest.subrange(0, 1) =~= "#"@);
        lemma_differs_at(rest, "##"@, 1);
        lemma_differs_at(rest, "&&"@, 0);
    } else if p.alter == -1 {
        assert(rest.subrange(0, 1) =~= "&"@);
        lemma_differs_at(rest, "##"@, 0);
        lemma_differs_at(rest, "&&"@, 1);
        lemma_differs_at(rest, "#"@, 0);
    } else {
        assert(rest =~= marks);
        lemma_differs_at(rest, "##"@, 0);
        lemma_differs_at(rest, "&&"@, 0);
        lemma_differs_at(rest, "#"@, 0);
        lemma_differs_at(rest, "&"@, 0);
        lemma_differs_at(rest, "="@, 0);
    }
    assert(crate::scorify_tokens::spec_accidental(rest).0 == p.alter);
    assert(crate::scorify_tokens::accidental_len(rest) == acc.len());
    if delta > 0 {
        lemma_octave_marks_read(t, a, base, n, true);
    } else if delta < 0 {
        lemma_octave_marks_read(t, a, base, n, false);
    } else {
        assert(t.len() == a);
    }
}

// ---------------------------------------------------------------------------
// Grouping staves into parts
// ---------------------------------------------------------------------------

/// The clefs of the staves of parts, part after part.
pub open spec fn part_clefs(parts: Seq<PartView>) -> Seq<Seq<char>>
    decreases parts.len(),
{
    if parts.len() == 0 {
        seq![]
    } else {
        part_clefs(parts.drop_last()) + parts.last().staves.map_values(|s: PartStaffView| s.clef)
    }
}

/// The clefs of staves, in order.
pub open spec fn staff_clefs(staves: Seq<StaffView>) -> Seq<Seq<char>> {
    staves.map_values(|s: StaffView| s.clef)
}

proof fn lemma_group_clefs(grouped: Seq<StaffView>)
    requires
        group_staves(grouped) is Some,
    ensures
        group_staves(grouped).unwrap().map_values(|s: PartStaffView| s.clef) == staff_clefs(grouped),
    decreases grouped.len(),
{
    if grouped.len() > 0 {
        lemma_group_clefs(grouped.drop_last());
        let prev = group_staves(grouped.drop_last()).unwrap();
        let cur = group_staves(grouped).unwrap();
        assert(cur.drop_last() == prev);
        assert(cur.map_values(|s: PartStaffView| s.clef) =~= prev.map_values(|s: PartStaffView| s.clef).push(
            grouped.last().clef,
        ));
        assert(staff_clefs(grouped) =~= staff_clefs(grouped.drop_last()).push(grouped.last().clef));
    } else {
        assert(group_staves(grouped).unwrap() =~= Seq::<PartStaffView>::empty());
        assert(staff_clefs(grouped) =~= Seq::<Seq<char>>::empty());
    }
}

proof fn lemma_parts_from_cover(staves: Seq<StaffView>, index: int, acc: Seq<PartView>)
    requires
        0 <= index <= staves.len(),
        parts_from(staves, index, acc) is Some,
    ensures
        ({
            let ps = parts_from(staves, index, acc).unwrap();
            &&& part_clefs(ps) == part_clefs(acc) + staff_clefs(staves.subrange(index, staves.len() as int))
            &&& acc.len() <= ps.len()
            &&& forall|i: int| 0 <= i < acc.len() ==> ps[i] == acc[i]
            &&& forall|i: int| acc.len() <= i < ps.len() ==> (#[trigger] ps[i]).id == "P"@ + decimal((i + 1) as nat)
        }),
    decreases staves.len() - index,
{
    if index >= staves.len() {
        assert(staff_clefs(staves.subrange(index, staves.len() as int)) =~= Seq::<Seq<char>>::empty());
        assert(part_clefs(acc) + Seq::<Seq<char>>::empty() =~= part_clefs(acc));
    } else {
        let end = group_end(staves, index);
        let grouped = staves.subrange(index, end);
        let pst = group_staves(grouped).unwrap();
        let part = PartView {
            id: "P"@ + decimal((acc.len() + 1) as nat),
            name: grouped[0].instrument_name,
            abbreviation: grouped[0].instrument_name_cont,
            staves: pst,
        };
        let acc2 = acc.push(part);
        lemma_parts_from_cover(staves, end, acc2);
        lemma_group_clefs(grouped);
        assert(acc2.drop_last() == acc);
        assert(part_clefs(acc2) == part_clefs(acc) + staff_clefs(grouped));
        assert(staff_clefs(staves.subrange(index, staves.len() as int)) =~= staff_clefs(grouped) + staff_clefs(
            staves.subrange(end, staves.len() as int),
        ));
        let ps = parts_from(staves, index, acc).unwrap();
        assert(ps[acc.len() as int] == acc2[acc.len() as int]);
    }
}

/// Grouping the staves of a Scorify score into MusicXML parts keeps every
/// staff, in order, each in exactly one part, and numbers the parts `P1`,
/// `P2` and so on.
pub proof fn law_parts_cover_staves(score: ScoreView)
    requires
        spec_build_parts(score) is Some,
    ensures
        part_clefs(spec_build_parts(score).unwrap()) == staff_clefs(score.staves),
        forall|i: int|
            0 <= i < spec_build_parts(score).unwrap().len() ==> (#[trigger] spec_build_parts(score).unwrap()[i]).id
                == "P"@ + decimal((i + 1) as nat),
{
    lemma_parts_from_cover(score.staves, 0, seq![]);
    assert(score.staves.subrange(0, score.staves.len() as int) =~= score.staves);
    assert(part_clefs(Seq::<PartView>::empty()) + staff_clefs(score.staves) =~= staff_clefs(score.staves));
}

// ---------------------------------------------------------------------------
// Bracketed attachments
// ---------------------------------------------------------------------------

proof fn lemma_inline_escape_append(a: Seq<char>, b: Seq<char>)
    ensures
        escape_inline(a + b) == escape_inline(a) + escape_inline(b),
    decreases b.len(),
{
    if b.len() > 0 {
        lemma_inline_escape_append(a, b.drop_last());
        assert((a + b).drop_last() =~= a + b.drop_last());
        assert((a + b).last() == b.last());
        assert(escape_inline(a + b) =~= escape_inline(a) + escape_inline(b));
    } else {
        assert(a + b =~= a);
        assert(escape_inline(b) =~= Seq::<char>::empty());
        assert(escape_inline(a) + escape_inline(b) =~= escape_inline(a));
    }
}

proof fn lemma_bracket_shift_at(t: Seq<char>, k: int, t2: Seq<char>, acc: Seq<char>, esc: bool, j: int)
    requires
        0 <= k <= t.len(),
        0 <= j,
        t.subrange(k, t.len() as int) == t2,
    ensures
        bracket_from(t, k + j, acc, esc) == match bracket_from(t2, j, acc, esc) {
            Some((v, e)) => Some((v, e + k)),
            None => None,
        },
    decreases t2.len() - j,
{
    if j < t2.len() {
        assert(t[k + j] == t2[j]);
        let c = t2[j];
        if esc {
            lemma_bracket_shift_at(t, k, t2, acc.push(c), false, j + 1);
        } else if c == '\\' {
            lemma_bracket_shift_at(t, k, t2, acc, true, j + 1);
        } else if c == ']' {
        } else {
            lemma_bracket_shift_at(t, k, t2, acc.push(c), false, j + 1);
        }
    }
}

proof fn lemma_bracket_from_escaped(s: Seq<char>, rest: Seq<char>, acc: Seq<char>)
    requires
        forall|i: int| 0 <= i < s.len() ==> s[i] != '\\',
    ensures
        bracket_from(escape_inline(s) + seq![']'] + rest, 0, acc, false) == Some(
            (acc + s, escape_inline(s).len() + 1int),
        ),
    decreases s.len(),
{
    let t = escape_inline(s) + seq![']'] + rest;
    if s.len() == 0 {
        assert(escape_inline(s) =~= Seq::<char>::empty());
        assert(t[0] == ']');
        assert(acc + s =~= acc);
    } else {
        let c = s[0];
        let tail = s.drop_first();
        assert(s =~= seq![c] + tail);
        lemma_inline_escape_append(seq![c], tail);
        assert(seq![c].drop_last() =~= Seq::<char>::empty());
        assert(seq![c].last() == c);
        let ec = escape_inline(seq![c]);
        assert(escape_inline(Seq::<char>::empty()) =~= Seq::<char>::empty());
        let et = escape_inline(tail);
        assert forall|i: int| 0 <= i < tail.len() implies tail[i] != '\\' by {
            assert(tail[i] == s[i + 1]);
        }
        lemma_bracket_from_escaped(tail, rest, acc.push(c));
        let t2 = et + seq![']'] + rest;
        assert(t =~= ec + t2);
        assert(acc.push(c) + tail =~= acc + s);
        if c == ']' {
            assert(ec.len() == 2);
            assert(t[0] == '\\');
            assert(t[1] == ']');
            assert(t.subrange(2, t.len() as int) =~= t2);
            lemma_bracket_shift_at(t, 2, t2, acc.push(c), false, 0);
            assert(bracket_from(t, 0, acc, false) == bracket_from(t, 1, acc, true));
            assert(bracket_from(t, 1, acc, true) == bracket_from(t, 2, acc.push(t[1]), false));
        } else {
            assert(ec =~= seq![c]);
            assert(t[0] == c);
            assert(t.subrange(1, t.len() as int) =~= t2);
            lemma_bracket_shift_at(t, 1, t2, acc.push(c), false, 0);
            assert(bracket_from(t, 0, acc, false) == bracket_from(t, 1, acc.push(c), false));
        }
    }
}

/// A text without backslashes that the Scorify writer puts between brackets
/// (each `]` escaped) reads back unchanged through the Scorify reader's
/// bracketed text, which stops at the closing `]`, whatever comes before
/// and after.
pub proof fn law_bracket_text_round_trip(before: Seq<char>, s: Seq<char>, rest: Seq<char>)
    requires
        forall|i: int| 0 <= i < s.len() ==> s[i] != '\\',
    ensures
        spec_parse_bracket_text(before + escape_inline(s) + seq![']'] + rest, before.len() as int) == Some(
            (s, before.len() + escape_inline(s).len() + 1int),
        ),
{
    let t = before + escape_inline(s) + seq![']'] + rest;
    let k = before.len() as int;
    let t2 = escape_inline(s) + seq![']'] + rest;
    assert(t.subrange(k, t.len() as int) =~= t2);
    lemma_bracket_from_escaped(s, rest, seq![]);
    lemma_bracket_shift_at(t, k, t2, seq![], false, 0);
    assert(Seq::<char>::empty() + s =~= s);
}

// ---------------------------------------------------------------------------
// Ticks back to note types
// ---------------------------------------------------------------------------

/// The Scorify duration texts of the MusicXML note types, longest first.
pub open spec fn standard_duration(j: int) -> Seq<char> {
    if j == 0 {
        "maxima"@
    } else if j == 1 {
        "longa"@
    } else if j == 2 {
        "breve"@
    } else if j == 3 {
        "1"@
    } else if j == 4 {
        "2"@
    } else if j == 5 {
        "4"@
    } else if j == 6 {
        "8"@
    } else if j == 7 {
        "16"@
    } else if j == 8 {
        "32"@
    } else if j == 9 {
        "64"@
    } else {
        "128"@
    }
}

proof fn lemma_standard_digits(j: int)
    requires
        3 <= j < 11,
    ensures
        standard_duration(j) == decimal(two_pow((j - 3) as nat)),
{
    reveal_with_fuel(two_pow, 9);
    reveal_strlit("1");
    reveal_strlit("2");
    reveal_strlit("4");
    reveal_strlit("8");
    reveal_strlit("16");
    reveal_strlit("32");
    reveal_strlit("64");
    reveal_strlit("128");
    let n = two_pow((j - 3) as nat);
    assert(decimal(1) =~= seq!['1']);
    assert(decimal(16) =~= seq!['1', '6']);
    assert(decimal(12) =~= seq!['1', '2']);
    assert(decimal(128) =~= seq!['1', '2', '8']);
    assert(decimal(3) =~= seq!['3']);
    assert(decimal(6) =~= seq!['6']);
    assert(decimal(32) =~= seq!['3', '2']);
    assert(decimal(64) =~= seq!['6', '4']);
    assert(decimal(2) =~= seq!['2']);
    assert(decimal(4) =~= seq!['4']);
    assert(decimal(8) =~= seq!['8']);
}

#[verifier::spinoff_prover]
proof fn lemma_standard_duration(j: int)
    requires
        0 <= j < 11,
    ensures
        duration_base(standard_duration(j)) == Some(type_base(j)),
        spec_duration_text_to_type(standard_duration(j)) == note_type_name(j),
{
    reveal_strlit("maxima");
    reveal_strlit("longa");
    reveal_strlit("breve");
    reveal_strlit("1");
    reveal_strlit("2");
    reveal_strlit("4");
    reveal_strlit("8");
    reveal_strlit("16");
    reveal_strlit("32");
    reveal_strlit("64");
    reveal_strlit("128");
    if j >= 3 {
        lemma_standard_digits(j);
        lemma_duration_base_power((j - 3) as nat);
        lemma_small_powers((j - 3) as nat);
        let m = (j - 3) as nat;
        let v = two_pow(m) as int;
        if j == 3 {
            assert(v == 1);
            assert(3072int / v == 3072int / 1int);
        } else if j == 4 {
            assert(v == 2);
            assert(3072int / v == 3072int / 2int);
        } else if j == 5 {
            assert(v == 4);
            assert(3072int / v == 3072int / 4int);
        } else if j == 6 {
            assert(v == 8);
            assert(3072int / v == 3072int / 8int);
        } else if j == 7 {
            assert(v == 16);
            assert(3072int / v == 3072int / 16int);
        } else if j == 8 {
            assert(v == 32);
            assert(3072int / v == 3072int / 32int);
        } else if j == 9 {
            assert(v == 64);
            assert(3072int / v == 3072int / 64int);
        } else {
            assert(v == 128);
            assert(3072int / v == 3072int / 128int);
        }
        assert(3072int / v == type_base(j));
        let s = standard_duration(j);
        assert(s[0] != "maxima"@[0] && s[0] != "longa"@[0] && s[0] != "breve"@[0]);
    }
}

/// Each note type with up to three dots, as ticks: eighths of its length
/// times 8, 12, 14 or 15.
proof fn lemma_dotted_value(j: int, d: nat)
    requires
        0 <= j < 11,
        d <= 3,
    ensures
        type_base(j) % 8 == 0,
        dotted(j, d) == (type_base(j) / 8) * (if d == 0 {
            8int
        } else if d == 1 {
            12int
        } else if d == 2 {
            14int
        } else {
            15int
        }),
{
    reveal_with_fuel(two_pow, 5);
    let b = type_base(j);
    let c = b / 8;
    assert(b == 8 * c);
    if d == 0 {
        assert(two_pow(1) == 2 && two_pow(0) == 1);
        assert(b * (2 - 1) / 1 == 8 * c);
    } else if d == 1 {
        assert(two_pow(2) == 4 && two_pow(1) == 2);
        assert(b * (4 - 1) / 2 == 12 * c) by (nonlinear_arith)
            requires
                b == 8 * c,
        ;
    } else if d == 2 {
        assert(two_pow(3) == 8 && two_pow(2) == 4);
        assert(b * (8 - 1) / 4 == 14 * c) by (nonlinear_arith)
            requires
                b == 8 * c,
        ;
    } else {
        assert(two_pow(4) == 16 && two_pow(3) == 8);
        assert(b * (16 - 1) / 8 == 15 * c) by (nonlinear_arith)
            requires
                b == 8 * c,
        ;
    }
}

proof fn lemma_type_base_order(a: int, b: int)
    requires
        0 <= a < b < 11,
    ensures
        type_base(a) >= 2 * type_base(b),
    decreases b - a,
{
    if a + 1 < b {
        lemma_type_base_order(a + 1, b);
    }
}

proof fn lemma_search_skips(v: int, i0: int, i: int)
    requires
        0 <= i0 <= i <= 44,
        forall|m: int| i0 <= m < i ==> #[trigger] dotted(m / 4, (m % 4) as nat) != v,
    ensures
        type_search(v, i0) == type_search(v, i),
    decreases i - i0,
{
    if i0 < i {
        lemma_search_skips(v, i0 + 1, i);
    }
}

/// The ticks of a standard Scorify duration with up to three dots determine
/// the MusicXML note type and dot count: the writer recovers from them the
/// note type of the duration text and the dots.
pub proof fn law_ticks_determine_note_type(j: int, dots: nat)
    requires
        0 <= j < 11,
        dots <= 3,
    ensures
        spec_duration_ticks(standard_duration(j), dots) is Some,
        spec_duration_and_type(spec_duration_ticks(standard_duration(j), dots).unwrap(), None, 0) == Some(
            (spec_duration_text_to_type(standard_duration(j)), dots),
        ),
{
    lemma_standard_duration(j);
    lemma_small_powers(dots);
    lemma_small_powers(dots + 1);
    let v = dotted(j, dots);
    lemma_dotted_value(j, dots);
    assert(type_base(j) * (two_pow(dots + 1) - 1) <= 24576 * 15);
    assert(spec_duration_ticks(standard_duration(j), dots) == Some(v));
    let i = 4 * j + dots;
    assert forall|m: int| 0 <= m < i implies #[trigger] dotted(m / 4, (m % 4) as nat) != v by {
        let jm = m / 4;
        let dm = (m % 4) as nat;
        lemma_dotted_value(jm, dm);
        if jm < j {
            lemma_type_base_order(jm, j);
        }
    }
    lemma_search_skips(v, 0, i);
    assert(i / 4 == j && i % 4 == dots);
}

// ---------------------------------------------------------------------------
// Note tokens across the two directions
// ---------------------------------------------------------------------------

proof fn lemma_marks_run(s: Seq<char>, i: int, n: int)
    requires
        0 <= i,
        0 <= n,
        i + n <= s.len(),
        forall|k: int| i <= k < i + n ==> s[k] == '\'' || s[k] == ',',
        i + n < s.len() ==> s[i + n] != '\'' && s[i + n] != ',',
    ensures
        crate::scorify_tokens::marks_run(s, i) == n,
    decreases n,
{
    if n > 0 {
        lemma_marks_run(s, i + 1, n - 1);
    }
}

/// A written pitch at the start of a token, followed by a character that
/// is neither an accidental nor an octave mark, is the token's pitch part.
proof fn lemma_pitch_in_token(p: PitchView, clef: Seq<char>, w: Seq<char>)
    requires
        crate::text::is_ascii_alpha(p.step),
        -2 <= p.alter <= 2,
        p.accidental_text is None,
        w.len() > 0 ==> w[0] != '#' && w[0] != '&' && w[0] != '=' && w[0] != '\'' && w[0] != ',',
    ensures
        crate::scorify_tokens::spec_pitch_token_len(spec_pitch_to_string(p, clef) + w) == Some(
            spec_pitch_to_string(p, clef).len() as int,
        ),
{
    let base = crate::scorify_tokens::spec_clef_base_octave(clef);
    let delta = p.octave - base;
    let acc = spec_accidental_to_scorify(p.alter, p.accidental_text);
    let marks = octave_marks(delta);
    let t = spec_pitch_to_string(p, clef);
    let tt = t + w;
    reveal_strlit("");
    reveal_strlit("#");
    reveal_strlit("##");
    reveal_strlit("&");
    reveal_strlit("&&");
    reveal_strlit("=");
    reveal_strlit("sharp");
    reveal_strlit("double-sharp");
    reveal_strlit("sharp-sharp");
    reveal_strlit("flat");
    reveal_strlit("flat-flat");
    reveal_strlit("double-flat");
    reveal_strlit("natural");
    assert(crate::scorify_writer::ascii_lower(seq![]) =~= Seq::<char>::empty());
    assert("sharp"@.len() == 5 && "double-sharp"@.len() == 12 && "sharp-sharp"@.len() == 11 && "flat"@.len() == 4
        && "flat-flat"@.len() == 9 && "double-flat"@.len() == 11 && "natural"@.len() == 7);
    assert(acc == if p.alter == 2 {
        seq!['#', '#']
    } else if p.alter == 1 {
        seq!['#']
    } else if p.alter == -1 {
        seq!['&']
    } else if p.alter == -2 {
        seq!['&', '&']
    } else {
        Seq::<char>::empty()
    });
    assert(t =~= seq![p.step] + acc + marks);
    let rest = tt.skip(1);
    assert(rest =~= acc + marks + w);
    let n: nat = if delta >= 0 {
        delta as nat
    } else {
        (-delta) as nat
    };
    assert(marks.len() == n);
    assert(forall|j: int| 0 <= j < marks.len() ==> marks[j] == '\'' || marks[j] == ',');
    let a: int = 1 + acc.len() as int;
    assert(t.len() == a + n);
    assert(forall|j: int| a <= j < t.len() ==> tt[j] == marks[j - a]);
    let al = acc.len() as int;
    assert(forall|j: int| al <= j < al + n ==> rest[j] == marks[j - al]);
    if w.len() > 0 {
        assert(rest[al + n] == w[0]);
        assert(tt[a + n] == w[0]);
    }
    if marks.len() > 0 {
        assert(rest[al] == marks[0]);
        assert(marks[0] == '\'' || marks[0] == ',');
    }
    if p.alter == 2 {
        assert(rest.subrange(0, 2) =~= "##"@);
    } else if p.alter == -2 {
        assert(rest.subrange(0, 2) =~= "&&"@);
        lemma_differs_at(rest, "##"@, 0);
    } else if p.alter == 1 {
        assert(rest.subrange(0, 1) =~= "#"@);
        lemma_differs_at(rest, "##"@, 1);
        lemma_differs_at(rest, "&&"@, 0);
    } else if p.alter == -1 {
        assert(rest.subrange(0, 1) =~= "&"@);
        lemma_differs_at(rest, "##"@, 0);
        lemma_differs_at(rest, "&&"@, 1);
        lemma_differs_at(rest, "#"@, 0);
    } else {
        lemma_differs_at(rest, "##"@, 0);
        lemma_differs_at(rest, "&&"@, 0);
        lemma_differs_at(rest, "#"@, 0);
        lemma_differs_at(rest, "&"@, 0);
        lemma_differs_at(rest, "="@, 0);
    }
    assert(crate::scorify_tokens::accidental_len(rest) == acc.len());
    assert(tt.len() > 0 && tt[0] == p.step);
    lemma_marks_run(tt, a, n as int);
}

/// The character that writes an articulation.
pub open spec fn articulation_char(a: Articulation) -> char {
    match a {
        Articulation::Accent => '>',
        Articulation::Staccato => '*',
        Articulation::Tenuto => '-',
        Articulation::Fermata => '_',
    }
}

proof fn lemma_articulations_chars(s: Seq<Articulation>)
    ensures
        articulations_text(s).len() == s.len(),
        forall|k: int| 0 <= k < s.len() ==> articulations_text(s)[k] == articulation_char(s[k]),
    decreases s.len(),
{
    reveal_strlit(">");
    reveal_strlit("*");
    reveal_strlit("-");
    reveal_strlit("_");
    if s.len() > 0 {
        lemma_articulations_chars(s.drop_last());
        let a = s.last();
        assert(articulation_text(a) =~= seq![articulation_char(a)]);
        assert forall|k: int| 0 <= k < s.len() implies articulations_text(s)[k] == articulation_char(s[k]) by {
            if k < s.len() - 1 {
                assert(s.drop_last()[k] == s[k]);
            }
        }
    }
}

proof fn lemma_articulation_run_at(t: Seq<char>, i: int, s: Seq<Articulation>)
    requires
        0 <= i,
        i + s.len() <= t.len(),
        forall|k: int| 0 <= k < s.len() ==> t[i + k] == articulation_char(s[k]),
        i + s.len() < t.len() ==> articulation_of(t[i + s.len()]) is None,
    ensures
        articulation_run(t, i) == s,
    decreases s.len(),
{
    if s.len() > 0 {
        let r = s.drop_first();
        assert forall|k: int| 0 <= k < r.len() implies t[i + 1 + k] == articulation_char(r[k]) by {
            assert(r[k] == s[k + 1]);
        }
        lemma_articulation_run_at(t, i + 1, r);
        assert(t[i] == articulation_char(s[0]));
        assert(articulation_of(t[i]) == Some(s[0]));
        assert(seq![s[0]] + r =~= s);
    } else {
        assert(articulation_run(t, i) =~= s);
    }
}

proof fn lemma_dot_run(s: Seq<char>, i: int, n: int)
    requires
        0 <= i,
        0 <= n,
        i + n <= s.len(),
        forall|k: int| i <= k < i + n ==> s[k] == '.',
        i + n < s.len() ==> s[i + n] != '.',
    ensures
        crate::scorify_tokens::dot_run(s, i) == n,
    decreases n,
{
    if n > 0 {
        lemma_dot_run(s, i + 1, n - 1);
    }
}

proof fn lemma_digits_run(s: Seq<char>, i: int, n: int)
    requires
        0 <= i,
        0 <= n,
        i + n <= s.len(),
        forall|k: int| i <= k < i + n ==> is_digit(s[k]),
        i + n < s.len() ==> !is_digit(s[i + n]),
    ensures
        crate::scorify_tokens::digit_run(s, i) == n,
    decreases n,
{
    if n > 0 {
        lemma_digits_run(s, i + 1, n - 1);
    }
}

/// A standard duration text and its dots, at `at` of a token and followed
/// by a character that is neither a digit nor a dot, read as that text and
/// those dots.
proof fn lemma_duration_in_token(tok: Seq<char>, at: int, j: int, dots: nat)
    requires
        0 <= j < 11,
        0 <= at,
        at + standard_duration(j).len() + dots <= tok.len(),
        tok.subrange(at, at + standard_duration(j).len()) == standard_duration(j),
        forall|k: int| at + standard_duration(j).len() <= k < at + standard_duration(j).len() + dots ==> tok[k] == '.',
        at + standard_duration(j).len() + dots < tok.len() ==> !is_digit(tok[at + standard_duration(j).len() + dots])
            && tok[at + standard_duration(j).len() + dots] != '.',
    ensures
        crate::scorify_tokens::spec_parse_duration(tok, at) == Some(
            (standard_duration(j), dots, at + standard_duration(j).len() + dots),
        ),
{
    reveal_strlit("maxima");
    reveal_strlit("longa");
    reveal_strlit("breve");
    let name = standard_duration(j);
    let ln = name.len() as int;
    assert(forall|k: int| 0 <= k < ln ==> tok[at + k] == #[trigger] name[k]) by {
        assert forall|k: int| 0 <= k < ln implies tok[at + k] == #[trigger] name[k] by {
            assert(tok[at + k] == tok.subrange(at, at + ln)[k]);
        }
    }
    if j >= 3 {
        lemma_standard_digits(j);
        lemma_decimal_digits(two_pow((j - 3) as nat));
        assert(is_digit(name[0]));
        assert(!has_at(tok, at, "maxima"@)) by {
            if has_at(tok, at, "maxima"@) {
                assert(tok.subrange(at, at + 6)[0] == tok[at]);
            }
        }
        assert(!has_at(tok, at, "longa"@)) by {
            if has_at(tok, at, "longa"@) {
                assert(tok.subrange(at, at + 5)[0] == tok[at]);
            }
        }
        assert(!has_at(tok, at, "breve"@)) by {
            if has_at(tok, at, "breve"@) {
                assert(tok.subrange(at, at + 5)[0] == tok[at]);
            }
        }
        assert(forall|k: int| at <= k < at + ln ==> is_digit(tok[k])) by {
            assert forall|k: int| at <= k < at + ln implies is_digit(tok[k]) by {
                assert(tok[k] == name[k - at]);
            }
        }
        if at + ln < tok.len() {
            if dots > 0 {
                assert(tok[at + ln] == '.');
            }
        }
        lemma_digits_run(tok, at, ln);
    } else if j == 0 {
        assert(has_at(tok, at, "maxima"@));
    } else if j == 1 {
        assert(tok[at] == name[0]);
        assert(tok[at] == 'l');
        assert(!has_at(tok, at, "maxima"@)) by {
            if has_at(tok, at, "maxima"@) {
                assert(tok.subrange(at, at + 6)[0] == tok[at]);
            }
        }
        assert(has_at(tok, at, "longa"@));
    } else {
        assert(tok[at] == name[0]);
        assert(tok[at] == 'b');
        assert(!has_at(tok, at, "maxima"@)) by {
            if has_at(tok, at, "maxima"@) {
                assert(tok.subrange(at, at + 6)[0] == tok[at]);
            }
        }
        assert(!has_at(tok, at, "longa"@)) by {
            if has_at(tok, at, "longa"@) {
                assert(tok.subrange(at, at + 5)[0] == tok[at]);
            }
        }
        assert(has_at(tok, at, "breve"@));
    }
    lemma_dot_run(tok, at + ln, dots as int);
}

/// Bracketed text at `q`, escaped and closed, reads back.
proof fn lemma_bracket_at(tok: Seq<char>, q: int, x: Seq<char>)
    requires
        0 <= q,
        q + escape_inline(x).len() + 1 <= tok.len(),
        tok.subrange(q, q + escape_inline(x).len() + 1) == escape_inline(x) + seq![']'],
        forall|i: int| 0 <= i < x.len() ==> x[i] != '\\',
    ensures
        spec_parse_bracket_text(tok, q) == Some((x, q + escape_inline(x).len() + 1)),
{
    let e = q + escape_inline(x).len() + 1;
    let before = tok.take(q);
    let rest = tok.skip(e);
    assert(tok =~= before + escape_inline(x) + seq![']'] + rest) by {
        assert forall|i: int| 0 <= i < tok.len() implies tok[i] == (before + escape_inline(x) + seq![']'] + rest)[i] by {
            if q <= i < e {
                assert(tok[i] == tok.subrange(q, e)[i - q]);
            }
        }
    }
    law_bracket_text_round_trip(before, x, rest);
}

/// The attachments text of a note without lyrics: dynamic, text, chord symbol.
pub open spec fn plain_attachments_text(d: Option<Seq<char>>, st: Option<Seq<char>>, cs: Option<Seq<char>>) -> Seq<char> {
    opt_wrap("v["@, d) + opt_wrap("text["@, st) + opt_wrap("["@, cs)
}

pub open spec fn no_backslash(o: Option<Seq<char>>) -> bool {
    match o {
        Some(x) => forall|i: int| 0 <= i < x.len() ==> x[i] != '\\',
        None => true,
    }
}

/// One bracketed attachment `open` + text + `]` at `p`, where no other of
/// the three prefixes is read first, reads as that text.
proof fn lemma_wrap_at(tok: Seq<char>, p: int, open: Seq<char>, x: Seq<char>)
    requires
        0 <= p,
        p + opt_wrap(open, Some(x)).len() <= tok.len(),
        tok.subrange(p, p + opt_wrap(open, Some(x)).len()) == opt_wrap(open, Some(x)),
        forall|i: int| 0 <= i < x.len() ==> x[i] != '\\',
    ensures
        tok.subrange(p, p + open.len()) == open,
        spec_parse_bracket_text(tok, p + open.len()) == Some((x, p + opt_wrap(open, Some(x)).len())),
{
    reveal_strlit("]");
    let w = opt_wrap(open, Some(x));
    let q = p + open.len();
    assert(w =~= open + (escape_inline(x) + seq![']']));
    assert(tok.subrange(p, p + open.len()) =~= open) by {
        assert forall|i: int| 0 <= i < open.len() implies tok.subrange(p, p + open.len())[i] == open[i] by {
            assert(tok[p + i] == tok.subrange(p, p + w.len())[i]);
        }
    }
    assert(tok.subrange(q, q + escape_inline(x).len() + 1) =~= escape_inline(x) + seq![']']) by {
        assert forall|i: int| 0 <= i < escape_inline(x).len() + 1 implies tok.subrange(q, q + escape_inline(x).len() + 1)[i]
            == (escape_inline(x) + seq![']'])[i] by {
            assert(tok[q + i] == tok.subrange(p, p + w.len())[open.len() + i]);
        }
    }
    lemma_bracket_at(tok, q, x);
}

/// The attachments of a note without lyrics, at the end of a token, read
/// back as those attachments.
#[verifier::spinoff_prover]
proof fn lemma_plain_attachments(tok: Seq<char>, p: int, d: Option<Seq<char>>, st: Option<Seq<char>>, cs: Option<Seq<char>>)
    requires
        0 <= p,
        p + plain_attachments_text(d, st, cs).len() <= tok.len(),
        tok.subrange(p, p + plain_attachments_text(d, st, cs).len()) == plain_attachments_text(d, st, cs),
        no_backslash(d),
        no_backslash(st),
        no_backslash(cs),
    ensures
        attachments_from(tok, p, Attachments { dynamic: None, staff_text: None, chord_symbol: None, segments: seq![] })
            == attachments_from(
            tok,
            p + plain_attachments_text(d, st, cs).len(),
            Attachments { dynamic: d, staff_text: st, chord_symbol: cs, segments: seq![] },
        ),
{
    reveal_strlit("v[");
    reveal_strlit("text[");
    reveal_strlit("[");
    reveal_strlit("]");
    let a1 = opt_wrap("v["@, d);
    let a2 = opt_wrap("text["@, st);
    let a3 = opt_wrap("["@, cs);
    let all = plain_attachments_text(d, st, cs);
    assert forall|i: int| p <= i < p + all.len() implies tok[i] == all[i - p] by {
        assert(tok[i] == tok.subrange(p, p + all.len())[i - p]);
    }
    let e1 = p + a1.len();
    let e2 = e1 + a2.len();
    let a0 = Attachments { dynamic: None, staff_text: None, chord_symbol: None, segments: seq![] };
    let b1 = Attachments { dynamic: d, ..a0 };
    let b2 = Attachments { staff_text: st, ..b1 };
    let b3 = Attachments { chord_symbol: cs, ..b2 };
    // chord symbol
    if let Some(x) = cs {
        assert(tok.subrange(e2, e2 + a3.len()) =~= a3) by {
            assert forall|i: int| 0 <= i < a3.len() implies tok.subrange(e2, e2 + a3.len())[i] == a3[i] by {
                assert(tok[e2 + i] == all[a1.len() + a2.len() + i]);
            }
        }
        lemma_wrap_at(tok, e2, "["@, x);
        assert(tok[e2] == '[');
        assert(!has_at(tok, e2, "v["@)) by {
            if has_at(tok, e2, "v["@) {
                assert(tok.subrange(e2, e2 + 2)[0] == tok[e2]);
            }
        }
        assert(!has_at(tok, e2, "text["@)) by {
            if has_at(tok, e2, "text["@) {
                assert(tok.subrange(e2, e2 + 5)[0] == tok[e2]);
            }
        }
        assert(attachments_from(tok, e2, b2) == attachments_from(tok, e2 + a3.len(), b3));
    } else {
        assert(b2 == b3);
    }
    // staff text
    if let Some(x) = st {
        assert(tok.subrange(e1, e1 + a2.len()) =~= a2) by {
            assert forall|i: int| 0 <= i < a2.len() implies tok.subrange(e1, e1 + a2.len())[i] == a2[i] by {
                assert(tok[e1 + i] == all[a1.len() + i]);
            }
        }
        lemma_wrap_at(tok, e1, "text["@, x);
        assert(tok[e1] == tok.subrange(e1, e1 + 5)[0]);
        assert(!has_at(tok, e1, "v["@)) by {
            if has_at(tok, e1, "v["@) {
                assert(tok.subrange(e1, e1 + 2)[0] == tok[e1]);
            }
        }
        assert(attachments_from(tok, e1, b1) == attachments_from(tok, e2, b2));
    } else {
        assert(b1 == b2);
    }
    // dynamic
    if let Some(x) = d {
        assert(tok.subrange(p, p + a1.len()) =~= a1) by {
            assert forall|i: int| 0 <= i < a1.len() implies tok.subrange(p, p + a1.len())[i] == a1[i] by {
                assert(tok[p + i] == all[i]);
            }
        }
        lemma_wrap_at(tok, p, "v["@, x);
        assert(attachments_from(tok, p, a0) == attachments_from(tok, e1, b1));
    } else {
        assert(a0 == b1);
    }
}

proof fn lemma_attachments_first(d: Option<Seq<char>>, st: Option<Seq<char>>, cs: Option<Seq<char>>)
    ensures
        plain_attachments_text(d, st, cs).len() > 0 ==> plain_attachments_text(d, st, cs)[0] == 'v'
            || plain_attachments_text(d, st, cs)[0] == 't' || plain_attachments_text(d, st, cs)[0] == '[',
{
    reveal_strlit("v[");
    reveal_strlit("text[");
    reveal_strlit("[");
    let a1 = opt_wrap("v["@, d);
    let a2 = opt_wrap("text["@, st);
    let a3 = opt_wrap("["@, cs);
    let all = plain_attachments_text(d, st, cs);
    if a1.len() > 0 {
        assert(all[0] == a1[0]);
    } else if a2.len() > 0 {
        assert(all[0] == a2[0]);
    } else if a3.len() > 0 {
        assert(all[0] == a3[0]);
    }
}

/// The marks that end the duration of a token (slur start, articulations,
/// tie, slur end), followed by the attachments and lyrics of the note, read
/// back as those marks, attachments and lyrics.
#[verifier::spinoff_prover]
#[verifier::rlimit(40)]
proof fn lemma_marks_suffix(tok: Seq<char>, e0: int, n: NoteView)
    requires
        0 <= e0,
        e0 + note_marks_text(n).len() + note_attachments_text(n).len() == tok.len(),
        tok.subrange(e0, tok.len() as int) == note_marks_text(n) + note_attachments_text(n),
        no_backslash(n.dynamic),
        no_backslash(n.staff_text),
        no_backslash(n.chord_symbol),
        lyric_texts_plain(n.lyrics),
        lyrics_read_back(n.lyrics),
    ensures
        spec_note_suffix(tok, e0) matches Some(sx) && sx.slur_start == n.slur_start && sx.articulations
            == n.articulations && sx.tie_start == n.tie_start && sx.slur_stop == n.slur_stop
            && sx.attachments.dynamic == n.dynamic && sx.attachments.staff_text == n.staff_text
            && sx.attachments.chord_symbol == n.chord_symbol && sx.lyrics == n.lyrics,
{
    reveal_strlit("(");
    reveal_strlit("~");
    reveal_strlit(")");
    reveal_strlit("v[");
    reveal_strlit("text[");
    reveal_strlit("[");
    let arts = n.articulations;
    lemma_articulations_chars(arts);
    let s1: Seq<char> = if n.slur_start { seq!['('] } else { seq![] };
    let at = articulations_text(arts);
    let ti: Seq<char> = if n.tie_start { seq!['~'] } else { seq![] };
    let s2: Seq<char> = if n.slur_stop { seq![')'] } else { seq![] };
    let m = note_marks_text(n);
    let att = plain_attachments_text(n.dynamic, n.staff_text, n.chord_symbol);
    let lyr = flat(lyric_tokens_from(n.lyrics, 0, 1));
    lemma_join_no_sep(spec_lyric_tokens_to_scorify(n.lyrics));
    let tail = note_attachments_text(n);
    assert(tail =~= att + lyr);
    assert(m =~= s1 + at + ti + s2);
    let mm = m + tail;
    assert forall|k: int| 0 <= k < mm.len() implies tok[e0 + k] == mm[k] by {
        assert(tok[e0 + k] == tok.subrange(e0, tok.len() as int)[k]);
    }
    let p1 = e0 + s1.len();
    let p2 = p1 + arts.len();
    let p3 = p2 + ti.len();
    let p4 = p3 + s2.len();
    // what follows the marks
    lemma_attachments_first(n.dynamic, n.staff_text, n.chord_symbol);
    lemma_lyrics_first(n.lyrics, 0, 1);
    if tail.len() > 0 {
        assert(tok[p4] == mm[m.len() as int]);
        if att.len() > 0 {
            assert(tail[0] == att[0]);
        } else {
            assert(tail[0] == lyr[0]);
        }
        assert(tok[p4] == 'v' || tok[p4] == 't' || tok[p4] == '[' || tok[p4] == 'l');
    }
    // slur start
    if e0 < tok.len() {
        assert(tok[e0] == mm[0]);
        if !n.slur_start {
            if arts.len() > 0 {
                assert(mm[0] == at[0]);
            }
            assert(tok[e0] != '(');
        }
    }
    // articulations
    assert forall|k: int| 0 <= k < arts.len() implies tok[p1 + k] == articulation_char(arts[k]) by {
        assert(tok[p1 + k] == mm[s1.len() + k]);
        assert(mm[s1.len() + k] == at[k]);
    }
    if p2 < tok.len() {
        assert(tok[p2] == mm[p2 - e0]);
    }
    lemma_articulation_run_at(tok, p1, arts);
    if p3 < tok.len() {
        assert(tok[p3] == mm[p3 - e0]);
    }
    let p5 = p4 + att.len();
    assert(tok.subrange(p4, p5) =~= att) by {
        assert forall|k: int| 0 <= k < att.len() implies tok.subrange(p4, p5)[k] == att[k] by {
            assert(tok[p4 + k] == mm[m.len() + k]);
            assert(tail[k] == att[k]);
        }
    }
    lemma_plain_attachments(tok, p4, n.dynamic, n.staff_text, n.chord_symbol);
    assert(tok.subrange(p5, tok.len() as int) =~= lyr) by {
        assert forall|k: int| 0 <= k < lyr.len() implies tok.subrange(p5, tok.len() as int)[k] == lyr[k] by {
            assert(tok[p5 + k] == mm[m.len() + att.len() + k]);
            assert(tail[att.len() + k] == lyr[k]);
        }
    }
    let b3 = Attachments { dynamic: n.dynamic, staff_text: n.staff_text, chord_symbol: n.chord_symbol, segments: seq![] };
    lemma_read_lyrics(tok, p5, n.lyrics, 0, 1, b3);
    assert(b3.segments + written_segments(n.lyrics, 0, 1) =~= written_segments(n.lyrics, 0, 1));
    lemma_lyrics_of_written(n.lyrics);
}

// Lyrics of a note token

/// Texts one after the other.
pub open spec fn flat(parts: Seq<Seq<char>>) -> Seq<char>
    decreases parts.len(),
{
    if parts.len() == 0 {
        seq![]
    } else {
        flat(parts.drop_last()) + parts.last()
    }
}

proof fn lemma_join_no_sep(parts: Seq<Seq<char>>)
    ensures
        join(parts, seq![]) == flat(parts),
    decreases parts.len(),
{
    let e = Seq::<char>::empty();
    if parts.len() > 1 {
        lemma_join_no_sep(parts.drop_last());
        assert(join(parts, e) == join(parts.drop_last(), e) + e + parts.last());
        assert(join(parts.drop_last(), e) + e + parts.last() =~= flat(parts.drop_last()) + parts.last());
    } else if parts.len() == 1 {
        assert(parts.drop_last() =~= Seq::<Seq<char>>::empty());
        assert(flat(parts.drop_last()) =~= e);
        assert(e + parts[0] =~= parts[0]);
        assert(parts.last() == parts[0]);
    } else {
        assert(flat(parts) =~= e);
    }
}

proof fn lemma_flat_append(a: Seq<Seq<char>>, b: Seq<Seq<char>>)
    ensures
        flat(a + b) == flat(a) + flat(b),
    decreases b.len(),
{
    if b.len() > 0 {
        lemma_flat_append(a, b.drop_last());
        assert((a + b).drop_last() =~= a + b.drop_last());
        assert(flat(a + b) =~= flat(a) + flat(b));
    } else {
        assert(a + b =~= a);
        assert(flat(a) + flat(b) =~= flat(a));
    }
}

proof fn lemma_flat_fills(m: nat)
    ensures
        flat(Seq::new(m, |_i: int| "l"@)) == Seq::new(m, |_i: int| 'l'),
    decreases m,
{
    reveal_strlit("l");
    if m > 0 {
        lemma_flat_fills((m - 1) as nat);
        assert(Seq::new(m, |_i: int| "l"@).drop_last() =~= Seq::new((m - 1) as nat, |_i: int| "l"@));
        assert(flat(Seq::new(m, |_i: int| "l"@)) =~= Seq::new(m, |_i: int| 'l'));
    } else {
        assert(flat(Seq::new(m, |_i: int| "l"@)) =~= Seq::new(m, |_i: int| 'l'));
    }
}

/// The lyric segments the reader finds in written lyric tokens: one empty
/// segment per skipped verse, then the lyric's text.
pub open spec fn written_segments(ls: Seq<LyricView>, k: int, next: int) -> Seq<Option<Seq<char>>>
    decreases ls.len() - k,
{
    if k < 0 || k >= ls.len() {
        seq![]
    } else {
        let l = ls[k];
        let m: nat = match l.verse {
            Some(v) => if next < v {
                (v - next) as nat
            } else {
                0
            },
            None => 0,
        };
        let next2 = match l.verse {
            Some(v) => if v == u32::MAX {
                u32::MAX as int
            } else {
                v + 1
            },
            None => next,
        };
        Seq::new(m, |_i: int| None::<Seq<char>>) + seq![Some(l.text)] + written_segments(ls, k + 1, next2)
    }
}

pub open spec fn lyric_texts_plain(ls: Seq<LyricView>) -> bool {
    forall|k: int, i: int| 0 <= k < ls.len() && 0 <= i < ls[k].text.len() ==> ls[k].text[i] != '\\'
}

/// Empty `l` tokens at `p`, each followed by another `l`, read as empty segments.
proof fn lemma_read_fills(tok: Seq<char>, p: int, m: nat, a: Attachments)
    requires
        0 <= p,
        p + m < tok.len(),
        forall|i: int| p <= i <= p + m ==> tok[i] == 'l',
    ensures
        attachments_from(tok, p, a) == attachments_from(
            tok,
            p + m,
            Attachments { segments: a.segments + Seq::new(m, |_i: int| None::<Seq<char>>), ..a },
        ),
    decreases m,
{
    reveal_strlit("v[");
    reveal_strlit("text[");
    reveal_strlit("l[");
    if m > 0 {
        assert(!has_at(tok, p, "v["@)) by {
            if has_at(tok, p, "v["@) {
                assert(tok.subrange(p, p + 2)[0] == tok[p]);
            }
        }
        assert(!has_at(tok, p, "text["@)) by {
            if has_at(tok, p, "text["@) {
                assert(tok.subrange(p, p + 5)[0] == tok[p]);
            }
        }
        assert(!has_at(tok, p, "l["@)) by {
            if has_at(tok, p, "l["@) {
                assert(tok.subrange(p, p + 2)[1] == tok[p + 1]);
            }
        }
        let a1 = Attachments { segments: a.segments.push(None), ..a };
        assert(attachments_from(tok, p, a) == attachments_from(tok, p + 1, a1));
        lemma_read_fills(tok, p + 1, (m - 1) as nat, a1);
        assert(a1.segments + Seq::new((m - 1) as nat, |_i: int| None::<Seq<char>>) =~= a.segments + Seq::new(
            m,
            |_i: int| None::<Seq<char>>,
        ));
    } else {
        assert(a.segments + Seq::new(m, |_i: int| None::<Seq<char>>) =~= a.segments);
    }
}

/// Written lyric tokens at the end of a token read as their segments.
#[verifier::spinoff_prover]
proof fn lemma_read_lyrics(tok: Seq<char>, p: int, ls: Seq<LyricView>, k: int, next: int, a: Attachments)
    requires
        0 <= p,
        0 <= k <= ls.len(),
        lyric_texts_plain(ls),
        p + flat(lyric_tokens_from(ls, k, next)).len() == tok.len(),
        tok.subrange(p, tok.len() as int) == flat(lyric_tokens_from(ls, k, next)),
    ensures
        attachments_from(tok, p, a) == Some(
            Attachments { segments: a.segments + written_segments(ls, k, next), ..a },
        ),
    decreases ls.len() - k,
{
    reveal_strlit("l");
    reveal_strlit("l[");
    reveal_strlit("]");
    reveal_strlit("v[");
    reveal_strlit("text[");
    if k >= ls.len() {
        assert(a.segments + written_segments(ls, k, next) =~= a.segments);
        assert(Attachments { segments: a.segments, ..a } == a);
    } else {
        let l = ls[k];
        let m: nat = match l.verse {
            Some(v) => if next < v {
                (v - next) as nat
            } else {
                0
            },
            None => 0,
        };
        let next2 = match l.verse {
            Some(v) => if v == u32::MAX {
                u32::MAX as int
            } else {
                v + 1
            },
            None => next,
        };
        let fills = Seq::new(m, |_i: int| "l"@);
        let lt = "l["@ + escape_inline(l.text) + "]"@;
        let rest = lyric_tokens_from(ls, k + 1, next2);
        assert(lyric_tokens_from(ls, k, next) =~= fills + seq![lt] + rest);
        lemma_flat_append(fills + seq![lt], rest);
        lemma_flat_append(fills, seq![lt]);
        assert(seq![lt].drop_last() =~= Seq::<Seq<char>>::empty());
        assert(flat(Seq::<Seq<char>>::empty()) =~= Seq::<char>::empty());
        assert(flat(seq![lt]) == flat(seq![lt].drop_last()) + lt);
        assert(flat(seq![lt]) =~= lt);
        lemma_flat_fills(m);
        let w = flat(lyric_tokens_from(ls, k, next));
        let fr = flat(rest);
        assert(w =~= Seq::new(m, |_i: int| 'l') + lt + fr);
        assert forall|i: int| 0 <= i < w.len() implies tok[p + i] == w[i] by {
            assert(tok[p + i] == tok.subrange(p, tok.len() as int)[i]);
        }
        let q = p + m;
        assert(lt[0] == 'l' && lt[1] == '[');
        assert forall|i: int| p <= i <= q implies tok[i] == 'l' by {
            assert(tok[i] == w[i - p]);
            if i == q {
                assert(w[m as int] == lt[0]);
            }
        }
        lemma_read_fills(tok, p, m, a);
        let am = Attachments { segments: a.segments + Seq::new(m, |_i: int| None::<Seq<char>>), ..a };
        // the lyric token at q
        assert(tok[q + 1] == w[m as int + 1]);
        assert(w[m as int + 1] == lt[1]);
        assert(tok.subrange(q, q + 2) =~= "l["@);
        assert(!has_at(tok, q, "v["@)) by {
            if has_at(tok, q, "v["@) {
                assert(tok.subrange(q, q + 2)[0] == tok[q]);
            }
        }
        assert(!has_at(tok, q, "text["@)) by {
            if has_at(tok, q, "text["@) {
                assert(tok.subrange(q, q + 5)[0] == tok[q]);
            }
        }
        let x = l.text;
        let ex = escape_inline(x);
        assert(tok.subrange(q + 2, q + 2 + ex.len() + 1) =~= ex + seq![']']) by {
            assert forall|i: int| 0 <= i < ex.len() + 1 implies tok.subrange(q + 2, q + 2 + ex.len() + 1)[i] == (ex
                + seq![']'])[i] by {
                assert(tok[q + 2 + i] == w[m + 2 + i]);
            }
        }
        assert forall|i: int| 0 <= i < x.len() implies x[i] != '\\' by {
            assert(ls[k].text[i] != '\\');
        }
        lemma_bracket_at(tok, q + 2, x);
        let e = q + 2 + ex.len() + 1;
        let a2 = Attachments { segments: am.segments.push(Some(x)), ..am };
        assert(attachments_from(tok, q, am) == attachments_from(tok, e, a2));
        assert(tok.subrange(e, tok.len() as int) =~= fr) by {
            assert forall|i: int| 0 <= i < fr.len() implies tok.subrange(e, tok.len() as int)[i] == fr[i] by {
                assert(tok[e + i] == w[m + lt.len() + i]);
            }
        }
        lemma_read_lyrics(tok, e, ls, k + 1, next2, a2);
        assert(a2.segments + written_segments(ls, k + 1, next2) =~= a.segments + written_segments(ls, k, next));
    }
}

proof fn lemma_numbered_nones(s: Seq<Option<Seq<char>>>, m: nat)
    ensures
        numbered_lyrics(s + Seq::new(m, |_i: int| None::<Seq<char>>)) == numbered_lyrics(s),
    decreases m,
{
    let x = s + Seq::new(m, |_i: int| None::<Seq<char>>);
    if m > 0 {
        lemma_numbered_nones(s, (m - 1) as nat);
        assert(x.drop_last() =~= s + Seq::new((m - 1) as nat, |_i: int| None::<Seq<char>>));
        assert(numbered_lyrics(x) =~= numbered_lyrics(x.drop_last()));
    } else {
        assert(x =~= s);
    }
}

/// Lyrics numbered as verses: every lyric has a verse from 1 on, in
/// increasing order.
pub open spec fn numbered_verses(ls: Seq<LyricView>) -> bool {
    &&& forall|k: int| 0 <= k < ls.len() ==> (#[trigger] ls[k]).verse is Some && ls[k].verse.unwrap() >= 1
    &&& forall|i: int, j: int| 0 <= i < j < ls.len() ==> (#[trigger] ls[i]).verse.unwrap() < (#[trigger] ls[j]).verse.unwrap()
}

proof fn lemma_numbered_segments(s: Seq<Option<Seq<char>>>, ls: Seq<LyricView>, k: int, next: int)
    requires
        0 <= k <= ls.len(),
        1 <= next,
        s.len() == next - 1,
        numbered_verses(ls),
        k < ls.len() ==> next <= ls[k].verse.unwrap(),
    ensures
        numbered_lyrics(s + written_segments(ls, k, next)) == numbered_lyrics(s) + ls.skip(k),
        k < ls.len() ==> (s + written_segments(ls, k, next)).len() == ls[ls.len() - 1].verse.unwrap(),
        written_segments(ls, k, next).len() >= ls.len() - k,
    decreases ls.len() - k,
{
    if k >= ls.len() {
        assert(s + written_segments(ls, k, next) =~= s);
        assert(numbered_lyrics(s) + ls.skip(k) =~= numbered_lyrics(s));
    } else {
        let l = ls[k];
        let v = l.verse.unwrap();
        let m = (v - next) as nat;
        let nones = Seq::new(m, |_i: int| None::<Seq<char>>);
        let s1 = s + nones + seq![Some(l.text)];
        assert(s1.len() == v);
        lemma_numbered_nones(s, m);
        assert(s1.drop_last() =~= s + nones);
        assert(s1.last() == Some(l.text));
        assert(numbered_lyrics(s1) == numbered_lyrics(s + nones) + seq![LyricView { verse: Some(s1.len() as u32), text: l.text }]);
        assert(LyricView { verse: Some(s1.len() as u32), text: l.text } == l);
        if k + 1 < ls.len() {
            assert(ls[k].verse.unwrap() < ls[k + 1].verse.unwrap());
            let next2 = v + 1;
            assert(written_segments(ls, k, next) =~= nones + seq![Some(l.text)] + written_segments(ls, k + 1, next2));
            lemma_numbered_segments(s1, ls, k + 1, next2);
            assert(s + written_segments(ls, k, next) =~= s1 + written_segments(ls, k + 1, next2));
            assert(ls.skip(k) =~= seq![l] + ls.skip(k + 1));
            assert(numbered_lyrics(s) + ls.skip(k) =~= numbered_lyrics(s1) + ls.skip(k + 1));
        } else {
            let next2: int = if v == u32::MAX { u32::MAX as int } else { v + 1 };
            assert(written_segments(ls, k + 1, next2) =~= Seq::<Option<Seq<char>>>::empty());
            assert(written_segments(ls, k, next) =~= nones + seq![Some(l.text)]);
            assert(s + written_segments(ls, k, next) =~= s1);
            assert(ls.skip(k) =~= seq![l]);
            assert(numbered_lyrics(s) + ls.skip(k) =~= numbered_lyrics(s1));
        }
    }
}

/// Written lyric tokens begin with `l`.
proof fn lemma_lyrics_first(ls: Seq<LyricView>, k: int, next: int)
    ensures
        flat(lyric_tokens_from(ls, k, next)).len() > 0 ==> flat(lyric_tokens_from(ls, k, next))[0] == 'l',
    decreases ls.len() - k,
{
    reveal_strlit("l");
    reveal_strlit("l[");
    reveal_strlit("]");
    if 0 <= k < ls.len() {
        let l = ls[k];
        let m: nat = match l.verse {
            Some(v) => if next < v {
                (v - next) as nat
            } else {
                0
            },
            None => 0,
        };
        let next2 = match l.verse {
            Some(v) => if v == u32::MAX {
                u32::MAX as int
            } else {
                v + 1
            },
            None => next,
        };
        let fills = Seq::new(m, |_i: int| "l"@);
        let lt = "l["@ + escape_inline(l.text) + "]"@;
        let rest = lyric_tokens_from(ls, k + 1, next2);
        assert(lyric_tokens_from(ls, k, next) =~= fills + seq![lt] + rest);
        lemma_flat_append(fills + seq![lt], rest);
        lemma_flat_append(fills, seq![lt]);
        assert(seq![lt].drop_last() =~= Seq::<Seq<char>>::empty());
        assert(flat(seq![lt]) == flat(seq![lt].drop_last()) + lt);
        assert(flat(Seq::<Seq<char>>::empty()) =~= Seq::<char>::empty());
        assert(flat(seq![lt]) =~= lt);
        lemma_flat_fills(m);
        let w = flat(lyric_tokens_from(ls, k, next));
        assert(w =~= Seq::new(m, |_i: int| 'l') + lt + flat(rest));
        assert(lt[0] == 'l');
        if m > 0 {
            assert(w[0] == 'l');
        } else {
            assert(w[0] == lt[0]);
        }
    } else {
        assert(lyric_tokens_from(ls, k, next) =~= Seq::<Seq<char>>::empty());
        assert(flat(Seq::<Seq<char>>::empty()) =~= Seq::<char>::empty());
    }
}

/// The lyrics that a written note gives back: none, one lyric without a
/// verse, or lyrics numbered by increasing verses from 1 on (but verse 1
/// alone, which reads back as a lyric without a verse).
pub open spec fn lyrics_read_back(ls: Seq<LyricView>) -> bool {
    ||| ls.len() == 0
    ||| ls.len() == 1 && ls[0].verse is None
    ||| numbered_verses(ls) && !(ls.len() == 1 && ls[0].verse == Some(1u32))
}

/// The segments read from written lyrics number as those lyrics.
proof fn lemma_lyrics_of_written(ls: Seq<LyricView>)
    requires
        lyrics_read_back(ls),
    ensures
        lyrics_of(written_segments(ls, 0, 1)) == Some(ls),
{
    let w = written_segments(ls, 0, 1);
    if ls.len() == 0 {
        assert(w =~= Seq::<Option<Seq<char>>>::empty());
        assert(numbered_lyrics(w) =~= ls);
    } else if ls.len() == 1 && ls[0].verse is None {
        assert(written_segments(ls, 1, 1) =~= Seq::<Option<Seq<char>>>::empty());
        assert(w =~= seq![Some(ls[0].text)]);
        assert(ls =~= seq![LyricView { verse: None, text: ls[0].text }]);
    } else {
        let e = Seq::<Option<Seq<char>>>::empty();
        lemma_numbered_segments(e, ls, 0, 1);
        assert(e + w =~= w);
        assert(numbered_lyrics(e) =~= Seq::<LyricView>::empty());
        assert(Seq::<LyricView>::empty() + ls.skip(0) =~= ls);
        if ls.len() >= 2 {
            assert(w.len() >= 2);
        } else {
            assert(w.len() == ls[0].verse.unwrap());
            assert(ls[0].verse != Some(1u32));
        }
    }
}

/// A written pitch at the start of a token, followed by a duration, is the
/// token's one pitch, read back.
#[verifier::spinoff_prover]
proof fn lemma_token_pitch(p: PitchView, clef: Seq<char>, w: Seq<char>)
    requires
        'a' <= p.step <= 'g',
        -2 <= p.alter <= 2,
        p.accidental_text is None,
        i64::MIN <= p.octave <= i64::MAX,
        w.len() > 0,
        w[0] != '#' && w[0] != '&' && w[0] != '=' && w[0] != '\'' && w[0] != ',',
    ensures
        crate::scorify_music::spec_note_pitches(spec_pitch_to_string(p, clef) + w, clef) matches Some((ps, at))
            && at == spec_pitch_to_string(p, clef).len() && ps.len() == 1 && ps[0].step == p.step && ps[0].alter
            == p.alter && ps[0].octave == p.octave,
        (spec_pitch_to_string(p, clef) + w)[0] == p.step,
{
    let pt = spec_pitch_to_string(p, clef);
    let tok = pt + w;
    assert(crate::text::is_ascii_alpha(p.step));
    lemma_pitch_in_token(p, clef, w);
    assert(tok.take(pt.len() as int) =~= pt);
    law_pitch_round_trip(p, clef);
    assert(pt =~= seq![p.step] + spec_accidental_to_scorify(p.alter, p.accidental_text) + octave_marks(
        p.octave - crate::scorify_tokens::spec_clef_base_octave(clef),
    ));
    assert(tok[0] == pt[0]);
    assert(crate::text::to_lower(p.step) == p.step);
}

/// A standard duration text, its dots and then marks or attachments, at `a0`
/// of a token, read back as that text and those dots.
#[verifier::spinoff_prover]
proof fn lemma_token_duration(tok: Seq<char>, a0: int, n: NoteView, j: int)
    requires
        0 <= j < 11,
        0 <= a0,
        n.duration_text == Some(standard_duration(j)),
        tok.len() == a0 + standard_duration(j).len() + n.dots + note_marks_text(n).len()
            + note_attachments_text(n).len(),
        tok.subrange(a0, tok.len() as int) == standard_duration(j) + dots_text(n.dots) + note_marks_text(n)
            + note_attachments_text(n),
    ensures
        crate::scorify_tokens::spec_parse_duration(tok, a0) == Some(
            (standard_duration(j), n.dots, a0 + standard_duration(j).len() + n.dots),
        ),
        tok.subrange(a0 + standard_duration(j).len() + n.dots, tok.len() as int) == note_marks_text(n)
            + note_attachments_text(n),
{
    let name = standard_duration(j);
    let dt = name + dots_text(n.dots);
    let mt = note_marks_text(n);
    let at = note_attachments_text(n);
    let all = dt + mt + at;
    assert forall|k: int| a0 <= k < tok.len() implies tok[k] == all[k - a0] by {
        assert(tok[k] == tok.subrange(a0, tok.len() as int)[k - a0]);
    }
    assert(tok.subrange(a0, a0 + name.len()) =~= name) by {
        assert forall|k: int| 0 <= k < name.len() implies tok.subrange(a0, a0 + name.len())[k] == name[k] by {
            assert(tok[a0 + k] == all[k]);
        }
    }
    assert forall|k: int| a0 + name.len() <= k < a0 + name.len() + n.dots implies tok[k] == '.' by {
        assert(tok[k] == all[k - a0]);
        assert(all[k - a0] == dt[k - a0]);
    }
    let e0 = a0 + dt.len();
    let rest = mt + at;
    assert(tok.subrange(e0, tok.len() as int) =~= rest) by {
        assert forall|k: int| 0 <= k < rest.len() implies tok.subrange(e0, tok.len() as int)[k] == rest[k] by {
            assert(tok[e0 + k] == all[dt.len() + k]);
        }
    }
    lemma_marks_first(n);
    if e0 < tok.len() {
        assert(tok[e0] == rest[0]);
        if mt.len() == 0 {
            assert(rest[0] == at[0]);
            lemma_attachments_first(n.dynamic, n.staff_text, n.chord_symbol);
            lemma_lyrics_first(n.lyrics, 0, 1);
            lemma_join_no_sep(spec_lyric_tokens_to_scorify(n.lyrics));
            let att = plain_attachments_text(n.dynamic, n.staff_text, n.chord_symbol);
            let lyr = flat(lyric_tokens_from(n.lyrics, 0, 1));
            assert(at =~= att + lyr);
            if att.len() > 0 {
                assert(at[0] == att[0]);
            } else {
                assert(at[0] == lyr[0]);
            }
        } else {
            assert(rest[0] == mt[0]);
        }
        assert(!is_digit(tok[e0]) && tok[e0] != '.');
    }
    lemma_duration_in_token(tok, a0, j, n.dots);
}

/// A pitch the writer writes in a clef: its step first, then accidental
/// and octave marks, none of them whitespace or `>`.
proof fn lemma_pitch_chars(p: PitchView, clef: Seq<char>)
    requires
        'a' <= p.step <= 'g',
        -2 <= p.alter <= 2,
        p.accidental_text is None,
    ensures
        spec_pitch_to_string(p, clef).len() > 0,
        spec_pitch_to_string(p, clef)[0] == p.step,
        forall|i: int|
            0 <= i < spec_pitch_to_string(p, clef).len() ==> !is_ws(#[trigger] spec_pitch_to_string(p, clef)[i])
                && spec_pitch_to_string(p, clef)[i] != '>',
{
    reveal_strlit("");
    reveal_strlit("#");
    reveal_strlit("##");
    reveal_strlit("&");
    reveal_strlit("&&");
    reveal_strlit("=");
    reveal_strlit("sharp");
    reveal_strlit("double-sharp");
    reveal_strlit("sharp-sharp");
    reveal_strlit("flat");
    reveal_strlit("flat-flat");
    reveal_strlit("double-flat");
    reveal_strlit("natural");
    let acc = spec_accidental_to_scorify(p.alter, p.accidental_text);
    let marks = octave_marks(p.octave - crate::scorify_tokens::spec_clef_base_octave(clef));
    let t = spec_pitch_to_string(p, clef);
    assert(crate::scorify_writer::ascii_lower(seq![]) =~= Seq::<char>::empty());
    assert(acc == if p.alter == 2 {
        seq!['#', '#']
    } else if p.alter == 1 {
        seq!['#']
    } else if p.alter == -1 {
        seq!['&']
    } else if p.alter == -2 {
        seq!['&', '&']
    } else {
        Seq::<char>::empty()
    });
    assert(t =~= seq![p.step] + acc + marks);
    assert(forall|j: int| 0 <= j < marks.len() ==> marks[j] == '\'' || marks[j] == ',');
    assert forall|i: int| 0 <= i < t.len() implies !is_ws(#[trigger] t[i]) && t[i] != '>' by {
        if i == 0 {
        } else if i < 1 + acc.len() {
            assert(t[i] == acc[i - 1]);
        } else {
            assert(t[i] == marks[i - 1 - acc.len()]);
        }
    }
}

/// Joining with a separator, the first part first.
proof fn lemma_join_front(ps: Seq<Seq<char>>, sep: Seq<char>)
    requires
        ps.len() >= 2,
    ensures
        join(ps, sep) == ps[0] + sep + join(ps.drop_first(), sep),
    decreases ps.len(),
{
    if ps.len() == 2 {
        assert(ps.drop_last().len() == 1);
        assert(join(ps.drop_last(), sep) == ps[0]);
        assert(ps.drop_first().len() == 1);
        assert(join(ps.drop_first(), sep) == ps[1]);
    } else {
        lemma_join_front(ps.drop_last(), sep);
        assert(ps.drop_last().drop_first() =~= ps.drop_first().drop_last());
        assert(ps.drop_last()[0] == ps[0]);
        assert(ps.drop_first().last() == ps.last());
        assert(join(ps.drop_first(), sep) == join(ps.drop_first().drop_last(), sep) + sep + ps.drop_first().last());
    }
}

/// Parts without `>`, joined by spaces, hold no `>`.
proof fn lemma_join_no_gt(ps: Seq<Seq<char>>)
    requires
        forall|k: int, i: int| 0 <= k < ps.len() && 0 <= i < ps[k].len() ==> ps[k][i] != '>',
    ensures
        forall|i: int| 0 <= i < join(ps, " "@).len() ==> join(ps, " "@)[i] != '>',
    decreases ps.len(),
{
    reveal_strlit(" ");
    if ps.len() == 1 {
        assert forall|i: int| 0 <= i < join(ps, " "@).len() implies join(ps, " "@)[i] != '>' by {
            assert(ps[0][i] != '>');
        }
    } else if ps.len() > 1 {
        let a = join(ps.drop_last(), " "@);
        lemma_join_no_gt(ps.drop_last());
        assert forall|i: int| 0 <= i < join(ps, " "@).len() implies join(ps, " "@)[i] != '>' by {
            if i < a.len() {
                assert(join(ps, " "@)[i] == a[i]);
            } else if i > a.len() {
                assert(join(ps, " "@)[i] == ps.last()[i - a.len() - 1]);
                assert(ps[ps.len() - 1][i - a.len() - 1] != '>');
            }
        }
    }
}

/// A word without whitespace at `i` goes into the current word.
proof fn lemma_word_run(s: Seq<char>, i: int, w: Seq<char>, cur: Seq<char>, acc: Seq<Seq<char>>)
    requires
        0 <= i,
        i + w.len() <= s.len(),
        forall|k: int| 0 <= k < w.len() ==> s[i + k] == w[k] && !is_ws(w[k]),
    ensures
        words_from(s, i, cur, acc) == words_from(s, i + w.len(), cur + w, acc),
    decreases w.len(),
{
    if w.len() > 0 {
        assert(s[i] == w[0]);
        let r = w.drop_first();
        assert forall|k: int| 0 <= k < r.len() implies s[i + 1 + k] == r[k] && !is_ws(r[k]) by {
            assert(r[k] == w[k + 1]);
        }
        lemma_word_run(s, i + 1, r, cur.push(w[0]), acc);
        assert(cur.push(w[0]) + r =~= cur + w);
    } else {
        assert(cur + w =~= cur);
    }
}

/// Words without whitespace joined by single spaces split back into those words.
proof fn lemma_words_join(s: Seq<char>, i: int, ps: Seq<Seq<char>>, acc: Seq<Seq<char>>)
    requires
        0 <= i <= s.len(),
        ps.len() >= 1,
        s.subrange(i, s.len() as int) == join(ps, " "@),
        forall|k: int| 0 <= k < ps.len() ==> (#[trigger] ps[k]).len() > 0,
        forall|k: int, j: int| 0 <= k < ps.len() && 0 <= j < ps[k].len() ==> !is_ws(ps[k][j]),
    ensures
        words_from(s, i, seq![], acc) == acc + ps,
    decreases ps.len(),
{
    reveal_strlit(" ");
    let p0 = ps[0];
    assert(p0.len() > 0);
    if ps.len() == 1 {
        assert(join(ps, " "@) == p0);
        assert forall|k: int| 0 <= k < p0.len() implies s[i + k] == p0[k] && !is_ws(p0[k]) by {
            assert(s[i + k] == s.subrange(i, s.len() as int)[k]);
        }
        lemma_word_run(s, i, p0, seq![], acc);
        assert(Seq::<char>::empty() + p0 =~= p0);
        assert(acc.push(p0) =~= acc + ps);
    } else {
        lemma_join_front(ps, " "@);
        let rest = ps.drop_first();
        let jr = join(rest, " "@);
        let all = join(ps, " "@);
        assert(all =~= p0 + " "@ + jr);
        assert forall|k: int| 0 <= k < p0.len() implies s[i + k] == p0[k] && !is_ws(p0[k]) by {
            assert(s[i + k] == s.subrange(i, s.len() as int)[k]);
            assert(all[k] == p0[k]);
        }
        lemma_word_run(s, i, p0, seq![], acc);
        assert(Seq::<char>::empty() + p0 =~= p0);
        let j = i + p0.len();
        assert(s[j] == s.subrange(i, s.len() as int)[p0.len() as int]);
        assert(all[p0.len() as int] == ' ');
        assert(is_ws(s[j]));
        assert(words_from(s, j, p0, acc) == words_from(s, j + 1, seq![], acc.push(p0)));
        assert(s.subrange(j + 1, s.len() as int) =~= jr) by {
            assert forall|k: int| 0 <= k < jr.len() implies s.subrange(j + 1, s.len() as int)[k] == jr[k] by {
                assert(s[j + 1 + k] == s.subrange(i, s.len() as int)[p0.len() + 1 + k]);
                assert(all[p0.len() + 1 + k] == jr[k]);
            }
        }
        assert forall|k: int| 0 <= k < rest.len() implies (#[trigger] rest[k]).len() > 0 by {
            assert(rest[k] == ps[k + 1]);
        }
        assert forall|k: int, m: int| 0 <= k < rest.len() && 0 <= m < rest[k].len() implies !is_ws(rest[k][m]) by {
            assert(rest[k] == ps[k + 1]);
        }
        lemma_words_join(s, j + 1, rest, acc.push(p0));
        assert(acc.push(p0) + rest =~= acc + ps);
    }
}

/// Written pitches read back one by one, in the same clef.
proof fn lemma_chord_pitches(ps: Seq<PitchView>, clef: Seq<char>, m: int)
    requires
        0 <= m <= ps.len(),
        forall|k: int|
            0 <= k < ps.len() ==> 'a' <= (#[trigger] ps[k]).step <= 'g' && -2 <= ps[k].alter <= 2
                && ps[k].accidental_text is None && i64::MIN <= ps[k].octave <= i64::MAX,
    ensures
        crate::scorify_music::parse_pitches(pitches_text(ps, clef).take(m), clef) matches Some(qs) && qs.len() == m
            && forall|k: int|
            0 <= k < m ==> (#[trigger] qs[k]).step == ps[k].step && qs[k].alter == ps[k].alter && qs[k].octave
                == ps[k].octave,
    decreases m,
{
    let ws = pitches_text(ps, clef).take(m);
    if m > 0 {
        lemma_chord_pitches(ps, clef, m - 1);
        assert(ws.drop_last() =~= pitches_text(ps, clef).take(m - 1));
        assert(ws.last() == spec_pitch_to_string(ps[m - 1], clef));
        let p = ps[m - 1];
        assert(crate::text::is_ascii_alpha(p.step));
        law_pitch_round_trip(p, clef);
        assert(crate::text::to_lower(p.step) == p.step);
    } else {
        assert(ws =~= Seq::<Seq<char>>::empty());
    }
}

/// The written pitch part of a note (one pitch, or a chord of pitches in
/// angle brackets), followed by a duration, reads back as those pitches.
#[verifier::spinoff_prover]
proof fn lemma_token_pitches(n: NoteView, w: Seq<char>)
    requires
        n.pitches.len() >= 1,
        forall|k: int|
            0 <= k < n.pitches.len() ==> 'a' <= (#[trigger] n.pitches[k]).step <= 'g' && -2 <= n.pitches[k].alter
                <= 2 && n.pitches[k].accidental_text is None && i64::MIN <= n.pitches[k].octave <= i64::MAX,
        w.len() > 0,
        w[0] != '#' && w[0] != '&' && w[0] != '=' && w[0] != '\'' && w[0] != ',',
    ensures
        crate::scorify_music::spec_note_pitches(note_pitch_text(n) + w, n.clef) matches Some((ps, at)) && at
            == note_pitch_text(n).len() && ps.len() == n.pitches.len() && forall|k: int|
            0 <= k < ps.len() ==> (#[trigger] ps[k]).step == n.pitches[k].step && ps[k].alter == n.pitches[k].alter
                && ps[k].octave == n.pitches[k].octave,
        (note_pitch_text(n) + w)[0] != 'r' && (note_pitch_text(n) + w)[0] != 's',
{
    let t = note_pitch_text(n) + w;
    if n.pitches.len() == 1 {
        let p = n.pitches[0];
        lemma_token_pitch(p, n.clef, w);
    } else {
        reveal_strlit("<");
        reveal_strlit(">");
        reveal_strlit(" ");
        let pts = pitches_text(n.pitches, n.clef);
        let j = join(pts, " "@);
        assert(t =~= seq!['<'] + j + seq!['>'] + w);
        assert forall|k: int| 0 <= k < pts.len() implies (#[trigger] pts[k]).len() > 0 by {
            lemma_pitch_chars(n.pitches[k], n.clef);
        }
        assert forall|k: int, i: int| 0 <= k < pts.len() && 0 <= i < pts[k].len() implies !is_ws(pts[k][i])
            && pts[k][i] != '>' by {
            lemma_pitch_chars(n.pitches[k], n.clef);
            assert(pts[k] == spec_pitch_to_string(n.pitches[k], n.clef));
        }
        lemma_join_no_gt(pts);
        let u = t.skip(1);
        assert(u =~= j + seq!['>'] + w);
        let e = j.len() as int;
        assert(u[e] == '>');
        assert(forall|jj: int| 0 <= jj < e ==> u[jj] != '>') by {
            assert forall|jj: int| 0 <= jj < e implies u[jj] != '>' by {
                assert(u[jj] == j[jj]);
            }
        }
        assert(exists|i: int| 0 <= i < u.len() && u[i] == '>');
        assert(exists|i: int| 0 <= i < u.len() && u[i] == '>' && forall|jj: int| 0 <= jj < i ==> u[jj] != '>');
        let c = choose|i: int| 0 <= i < u.len() && u[i] == '>' && forall|jj: int| 0 <= jj < i ==> u[jj] != '>';
        if c < e {
            assert(u[c] != '>');
        }
        if c > e {
            assert(u[e] != '>');
        }
        assert(first_index_of(u, '>') == Some(e));
        assert(u.take(e) =~= j);
        assert(j.subrange(0, j.len() as int) =~= j);
        lemma_words_join(j, 0, pts, seq![]);
        assert(Seq::<Seq<char>>::empty() + pts =~= pts);
        lemma_chord_pitches(n.pitches, n.clef, pts.len() as int);
        assert(pts.take(pts.len() as int) =~= pts);
        assert(note_pitch_text(n).len() == e + 2);
    }
}

/// A note token that the Scorify writer writes reads back through the
/// Scorify reader, in the same clef, as the same note: its pitches, one or
/// a chord (each a letter `a` to `g` altered by at most two semitones, with
/// no written accidental), keep their steps, alterations and octaves; a standard written
/// duration with at most three dots keeps its text and dots and gives the
/// ticks of that duration; slurs, tie, articulations, dynamic, text and
/// chord symbol (none holding a backslash) come back as they were, and so do
/// lyrics without backslashes that are none, one lyric without a verse, or
/// lyrics of increasing verses from 1 on other than verse 1 alone.
#[verifier::spinoff_prover]
pub proof fn law_note_token_round_trip(n: NoteView, duration: int, div: int, j: int)
    requires
        n.pitches.len() >= 1,
        forall|k: int|
            0 <= k < n.pitches.len() ==> 'a' <= (#[trigger] n.pitches[k]).step <= 'g' && -2 <= n.pitches[k].alter
                <= 2 && n.pitches[k].accidental_text is None && i64::MIN <= n.pitches[k].octave <= i64::MAX,
        0 <= j < 11,
        n.duration_text == Some(standard_duration(j)),
        n.dots <= 3,
        no_backslash(n.dynamic),
        no_backslash(n.staff_text),
        no_backslash(n.chord_symbol),
        lyric_texts_plain(n.lyrics),
        lyrics_read_back(n.lyrics),
    ensures
        spec_duration_ticks(standard_duration(j), n.dots) is Some,
        spec_parse_voice_event(spec_note_to_string(n, duration, div), n.clef) matches Some(VoiceEventView::Note(d, m))
            && d == spec_duration_ticks(standard_duration(j), n.dots).unwrap()
            && m.clef == n.clef
            && m.pitches.len() == n.pitches.len()
            && (forall|k: int| 0 <= k < m.pitches.len() ==> (#[trigger] m.pitches[k]).step == n.pitches[k].step
                && m.pitches[k].alter == n.pitches[k].alter && m.pitches[k].octave == n.pitches[k].octave)
            && m.duration_text == n.duration_text
            && m.dots == n.dots
            && m.slur_start == n.slur_start
            && m.slur_stop == n.slur_stop
            && m.tie_start == n.tie_start
            && m.articulations == n.articulations
            && m.dynamic == n.dynamic
            && m.staff_text == n.staff_text
            && m.chord_symbol == n.chord_symbol
            && m.lyrics == n.lyrics,
{
    let tok = spec_note_to_string(n, duration, div);
    let pt = note_pitch_text(n);
    let name = standard_duration(j);
    let w = name + dots_text(n.dots) + note_marks_text(n) + note_attachments_text(n);
    assert(tok =~= pt + w);
    lemma_standard_duration(j);
    assert(name.len() > 0) by {
        reveal_strlit("maxima");
        reveal_strlit("longa");
        reveal_strlit("breve");
        if j >= 3 {
            lemma_standard_digits(j);
            lemma_decimal_digits(two_pow((j - 3) as nat));
        }
    }
    assert(w[0] == name[0]);
    assert(is_digit(name[0]) || name[0] == 'm' || name[0] == 'l' || name[0] == 'b') by {
        reveal_strlit("maxima");
        reveal_strlit("longa");
        reveal_strlit("breve");
        if j >= 3 {
            lemma_standard_digits(j);
            lemma_decimal_digits(two_pow((j - 3) as nat));
        }
    }
    lemma_token_pitches(n, w);
    let a0 = pt.len() as int;
    assert(tok.subrange(a0, tok.len() as int) =~= w);
    lemma_token_duration(tok, a0, n, j);
    law_ticks_determine_note_type(j, n.dots);
    lemma_marks_suffix(tok, a0 + name.len() + n.dots, n);
}

/// The marks after a note's duration begin with a slur, an articulation, a
/// tie or a slur end.
proof fn lemma_marks_first(n: NoteView)
    ensures
        note_marks_text(n).len() > 0 ==> {
            let c = note_marks_text(n)[0];
            c == '(' || articulation_of(c) is Some || c == '~' || c == ')'
        },
{
    reveal_strlit("(");
    reveal_strlit("~");
    reveal_strlit(")");
    lemma_articulations_chars(n.articulations);
    let s1: Seq<char> = if n.slur_start { seq!['('] } else { seq![] };
    let at = articulations_text(n.articulations);
    let ti: Seq<char> = if n.tie_start { seq!['~'] } else { seq![] };
    let s2: Seq<char> = if n.slur_stop { seq![')'] } else { seq![] };
    let m = note_marks_text(n);
    assert(m =~= s1 + at + ti + s2);
    if m.len() > 0 {
        if s1.len() > 0 {
            assert(m[0] == s1[0]);
        } else if at.len() > 0 {
            assert(m[0] == at[0]);
            assert(at[0] == articulation_char(n.articulations[0]));
        } else if ti.len() > 0 {
            assert(m[0] == ti[0]);
        } else {
            assert(m[0] == s2[0]);
        }
    }
}

// ---------------------------------------------------------------------------
// Ties across written notes
// ---------------------------------------------------------------------------

/// The tie marks of a `<note>` element: a tie start, then a tie stop.
pub open spec fn tie_marks(start: bool, stop: bool) -> Seq<char> {
    (if start {
        "<tie type=\"start\"/>"@
    } else {
        seq![]
    }) + (if stop {
        "<tie type=\"stop\"/>"@
    } else {
        seq![]
    })
}

/// The `<note>` element of the `k`-th pitch of a note, from its opening tag
/// to its tie marks, then what follows them.
pub open spec fn note_element(
    note: NoteView,
    k: int,
    duration: int,
    note_type: Seq<char>,
    dots: nat,
    voice: nat,
    staff: Option<usize>,
    tie_stop: bool,
) -> Seq<char> {
    "      <note>"@ + (if k > 0 {
        "<chord/>"@
    } else {
        seq![]
    }) + spec_pitch_to_musicxml(note.pitches[k]) + "<duration>"@ + int_text(duration) + "</duration>"@ + tie_marks(
        note.tie_start,
        tie_stop,
    ) + "<voice>"@ + decimal(voice) + "</voice>"@ + pitch_note_tail(note, k, note_type, dots, staff, tie_stop)
}

proof fn lemma_pitch_notes_flat(
    note: NoteView,
    k: int,
    duration: int,
    note_type: Seq<char>,
    dots: nat,
    voice: nat,
    staff: Option<usize>,
    tie_stop: bool,
)
    requires
        0 <= k,
    ensures
        pitch_notes_xml(note, k, duration, note_type, dots, voice, staff, tie_stop) == flat(
            Seq::new(k as nat, |i: int| note_element(note, i, duration, note_type, dots, voice, staff, tie_stop)),
        ),
    decreases k,
{
    let lines = Seq::new(k as nat, |i: int| note_element(note, i, duration, note_type, dots, voice, staff, tie_stop));
    if k > 0 {
        lemma_pitch_notes_flat(note, k - 1, duration, note_type, dots, voice, staff, tie_stop);
        assert(lines.drop_last() =~= Seq::new(
            (k - 1) as nat,
            |i: int| note_element(note, i, duration, note_type, dots, voice, staff, tie_stop),
        ));
        assert(pitch_note_xml(note, k - 1, duration, note_type, dots, voice, staff, tie_stop) =~= lines.last());
    } else {
        assert(flat(lines) =~= Seq::<char>::empty());
    }
}

/// Writing a note keeps the book of open ties: a note that starts a tie
/// leaves its pitches' signature open; one that does not closes it, unless
/// the note itself is marked as ending a tie (then the book is left as it
/// was). The note is written as one `<note>` element per pitch, every one
/// but the first marked as a chord, each with a tie start exactly when the
/// note starts a tie and a tie stop exactly when the note is marked as
/// ending one or its signature was open.
pub proof fn law_note_ties(note: NoteView, duration: int, voice: nat, staff: Option<usize>, ties: Set<Seq<char>>)
    requires
        note.duration_text is Some,
        note_prelude(note) is Some,
    ensures
        ({
            let sig = pitches_signature(note.pitches);
            let stop = note.tie_stop || ties.contains(sig);
            match spec_note_xml(note, duration, voice, staff, ties) {
                Some((x, t)) => {
                    &&& t == (if note.tie_start {
                        ties.insert(sig)
                    } else if note.tie_stop {
                        ties
                    } else {
                        ties.remove(sig)
                    })
                    &&& match spec_duration_and_type(duration, note.duration_text, note.dots) {
                        Some((note_type, dots)) => x == note_prelude(note).unwrap() + flat(
                            Seq::new(
                                note.pitches.len(),
                                |i: int| note_element(note, i, duration, note_type, dots, voice, staff, stop),
                            ),
                        ),
                        None => false,
                    }
                },
                None => false,
            }
        }),
{
    let sig = pitches_signature(note.pitches);
    let stop = note.tie_stop || ties.contains(sig);
    let (note_type, dots) = spec_duration_and_type(duration, note.duration_text, note.dots).unwrap();
    lemma_pitch_notes_flat(note, note.pitches.len() as int, duration, note_type, dots, voice, staff, stop);
    if note.tie_start && !note.tie_stop {
        assert(ties.remove(sig).insert(sig) =~= ties.insert(sig));
    }
    let lines = Seq::new(
        note.pitches.len(),
        |i: int| note_element(note, i, duration, note_type, dots, voice, staff, stop),
    );
    let x = spec_note_xml(note, duration, voice, staff, ties).unwrap().0;
    assert(x == note_prelude(note).unwrap() + flat(lines));
}

} // verus!
