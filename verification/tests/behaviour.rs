use std::io::Write;

use musicxml_to_scorify::durations::duration_to_ticks;
use musicxml_to_scorify::durations::duration_and_type;
use musicxml_to_scorify::model::{Articulation, LyricToken, NoteToken, PitchToken, Score, Staff, TimedEvent, Token};
use musicxml_to_scorify::musicxml_writer::{emit_note_xml, emit_rest_xml};
use musicxml_to_scorify::scorify_music::{parse_staff_music, parse_voice_event, VoiceEvent};
use musicxml_to_scorify::scorify_tokens::parse_bracket_text;
use musicxml_to_scorify::musicxml_parts::{clef_to_musicxml, key_to_musicxml, time_to_musicxml, xml_escape};
use musicxml_to_scorify::model::sorted_order;
use musicxml_to_scorify::scorify_score::{build_parts, parse_scorify_score};
use musicxml_to_scorify::scorify_tokens::parse_pitch;
use musicxml_to_scorify::scorify_writer::{
    duration_to_text, push_escaped_inline, push_escaped_typst, push_note, push_pitch,
};
use musicxml_to_scorify::typst::TypstParser;
use musicxml_to_scorify::typst_writer::{emit_typst, options_json_is_blank};
use musicxml_to_scorify::{
    convert_musicxml_file_to_scorify, convert_musicxml_to_scorify, convert_scorify_file_to_musicxml,
    convert_scorify_to_musicxml, is_mxl_file, read_musicxml_bytes, ConversionOptions, ConversionOptionsPatch,
    ConvertError,
};

fn chars(s: &str) -> Vec<char> {
    s.chars().collect()
}

fn text(v: &[char]) -> String {
    v.iter().collect()
}

fn bare() -> ConversionOptions {
    ConversionOptions {
        include_import: false,
        ..ConversionOptions::default()
    }
}

const ONE_NOTE: &str = r#"<score-partwise version="4.0">
  <part-list><score-part id="P1"><part-name>Voice</part-name></score-part></part-list>
  <part id="P1">
    <measure number="1">
      <attributes><divisions>1</divisions><time><beats>4</beats><beat-type>4</beat-type></time></attributes>
      <note><pitch><step>C</step><octave>4</octave></pitch><duration>4</duration><voice>1</voice><type>whole</type></note>
    </measure>
  </part>
</score-partwise>"#;

fn archive(entries: &[(&str, &[u8])]) -> Vec<u8> {
    let mut bytes = Vec::new();
    {
        let cursor = std::io::Cursor::new(&mut bytes);
        let mut zip = zip::ZipWriter::new(cursor);
        let options = zip::write::SimpleFileOptions::default();
        for (name, data) in entries {
            zip.start_file(*name, options).unwrap();
            zip.write_all(data).unwrap();
        }
        zip.finish().unwrap();
    }
    bytes
}

// ---------------------------------------------------------------------------
// Laws on concrete values
// ---------------------------------------------------------------------------

#[test]
fn xml_escape_replaces_every_markup_character() {
    let escaped = xml_escape(&chars("a<b>\"c'd&e"));
    assert_eq!(text(&escaped), "a&lt;b&gt;&quot;c&apos;d&amp;e");
    assert!(!escaped.iter().any(|c| matches!(c, '<' | '>' | '"' | '\'')));
}

#[test]
fn typst_string_escape_reads_back() {
    let original = chars("say \"hi\"\\ now\nnext");
    let mut literal = vec!['"'];
    push_escaped_typst(&mut literal, &original);
    literal.push('"');
    literal.extend(chars(", rest"));
    let mut parser = TypstParser::new(literal);
    let read = parser.parse_string().unwrap();
    assert_eq!(read, original);
}

#[test]
fn key_names_map_back_to_fifths_and_mode() {
    let (fifths, mode) = key_to_musicxml(&chars("c")).unwrap();
    assert_eq!(fifths, -3);
    assert_eq!(mode.map(|m| text(&m)), Some("minor".to_string()));
    let (fifths, mode) = key_to_musicxml(&chars("D")).unwrap();
    assert_eq!(fifths, 2);
    assert!(mode.is_none());
    match key_to_musicxml(&chars("H")) {
        Err(ConvertError::InvalidScorify(m)) => assert_eq!(m, "unsupported key 'H'"),
        other => panic!("unexpected {other:?}"),
    }
}

#[test]
fn read_keys_round_trip_through_the_writer() {
    let xml = ONE_NOTE.replace(
        "<divisions>1</divisions>",
        "<divisions>1</divisions><key><fifths>-3</fifths><mode>minor</mode></key>",
    );
    let typst = convert_musicxml_to_scorify(&xml, &bare()).unwrap();
    assert!(typst.contains("key: \"c\""), "{typst}");
    let back = convert_scorify_to_musicxml(&typst).unwrap();
    assert!(back.contains("<fifths>-3</fifths>"), "{back}");
    assert!(back.contains("<mode>minor</mode>"), "{back}");
}

#[test]
fn read_clefs_and_times_are_accepted_by_the_writer() {
    let clef = clef_to_musicxml(&chars("bass"), Some(2)).unwrap();
    assert_eq!(text(&clef), "<clef number=\"2\"><sign>F</sign><line>4</line></clef>");
    let time = time_to_musicxml(&chars("3/8")).unwrap();
    assert_eq!(text(&time), "<time><beats>3</beats><beat-type>8</beat-type></time>");
    let common = time_to_musicxml(&chars("common")).unwrap();
    assert_eq!(text(&common), "<time symbol=\"common\"><beats>4</beats><beat-type>4</beat-type></time>");
    match time_to_musicxml(&chars("four")) {
        Err(ConvertError::InvalidScorify(m)) => assert_eq!(m, "unsupported time signature 'four'"),
        other => panic!("unexpected {other:?}"),
    }
    match clef_to_musicxml(&chars("soprano"), None) {
        Err(ConvertError::InvalidScorify(m)) => assert_eq!(m, "unsupported clef 'soprano'"),
        other => panic!("unexpected {other:?}"),
    }
}

#[test]
fn default_output_starts_with_the_scorify_import() {
    let result = convert_musicxml_to_scorify(ONE_NOTE, &ConversionOptions::default()).unwrap();
    assert!(result.starts_with("#import \"@preview/scorify:0.3.0\": score"), "{result}");
}

#[test]
fn bare_output_is_the_score_call_alone() {
    let result = convert_musicxml_to_scorify(ONE_NOTE, &bare()).unwrap();
    assert!(result.starts_with("#score("), "{result}");
    assert!(!result.contains("//"), "{result}");
}

#[test]
fn default_options_match_the_documented_defaults() {
    let o = ConversionOptions::default();
    assert!(o.include_import);
    assert_eq!(o.package, "@preview/scorify:0.3.0");
    assert_eq!(o.measures_per_line, None);
    assert!(!o.include_comment);
}

#[test]
fn empty_patch_keeps_and_full_patch_replaces() {
    let o = ConversionOptions::default();
    let kept = o.apply_patch(ConversionOptionsPatch {
        include_import: None,
        package: None,
        measures_per_line: None,
        include_comment: None,
    });
    assert_eq!(kept.include_import, o.include_import);
    assert_eq!(kept.package, o.package);
    assert_eq!(kept.measures_per_line, o.measures_per_line);
    assert_eq!(kept.include_comment, o.include_comment);
    let replaced = o.apply_patch(ConversionOptionsPatch {
        include_import: Some(false),
        package: Some("@local/scorify:1.0.0".to_string()),
        measures_per_line: Some(3),
        include_comment: Some(true),
    });
    assert!(!replaced.include_import);
    assert_eq!(replaced.package, "@local/scorify:1.0.0");
    assert_eq!(replaced.measures_per_line, Some(3));
    assert!(replaced.include_comment);
}

#[test]
fn blank_options_json_is_recognised() {
    assert!(options_json_is_blank(""));
    assert!(options_json_is_blank("  \n\t"));
    assert!(!options_json_is_blank("{}"));
}

#[test]
fn events_are_ordered_by_start_keeping_ties_in_place() {
    let events: Vec<TimedEvent> = [4i64, 0, 2, 0]
        .iter()
        .map(|&start| TimedEvent { start, duration: 1, token: Token::Rest })
        .collect();
    let order = sorted_order(&events);
    assert_eq!(order, vec![1, 3, 2, 0]);
}

#[test]
fn lyric_verses_come_out_in_verse_order() {
    let xml = ONE_NOTE.replace(
        "<type>whole</type>",
        "<type>whole</type><lyric number=\"2\"><text>second</text></lyric><lyric number=\"1\"><text>first</text></lyric>",
    );
    let result = convert_musicxml_to_scorify(&xml, &bare()).unwrap();
    assert!(result.contains("music: \"c1l[first]l[second]\""), "{result}");
}

#[test]
fn written_durations_read_back_at_768_per_quarter() {
    let written = duration_to_text(3, 2).unwrap();
    assert_eq!(text(&written), "4.");
    assert_eq!(duration_to_ticks(&chars("4"), 1).unwrap(), 3 * 768 / 2);
    let written = duration_to_text(7, 2).unwrap();
    assert_eq!(text(&written), "2..");
    assert_eq!(duration_to_ticks(&chars("2"), 2).unwrap(), 7 * 768 / 2);
}

#[test]
fn pitches_read_back_in_their_clef() {
    let pitch = PitchToken { step: 'f', alter: 1, accidental_text: None, octave: 5 };
    let mut written = Vec::new();
    push_pitch(&mut written, &pitch, &chars("treble"));
    assert_eq!(text(&written), "f#'");
    let read = parse_pitch(&written, &chars("treble")).unwrap();
    assert_eq!((read.step, read.alter, read.octave), ('f', 1, 5));

    let low = PitchToken { step: 'b', alter: -1, accidental_text: None, octave: 1 };
    let mut written = Vec::new();
    push_pitch(&mut written, &low, &chars("bass"));
    assert_eq!(text(&written), "b&,,");
    let read = parse_pitch(&written, &chars("bass")).unwrap();
    assert_eq!((read.step, read.alter, read.octave), ('b', -1, 1));
}

#[test]
fn written_score_call_reads_back_as_the_score() {
    let staff = |clef: &str, music: &str, name: Option<&str>, brace_start: bool, brace_end: bool| Staff {
        clef: chars(clef),
        music: chars(music),
        instrument_name: name.map(chars),
        instrument_name_cont: None,
        brace_start,
        brace_end,
        bracket_start: false,
        bracket_end: false,
    };
    let score = Score {
        title: Some(chars("Say \"hi\"\\ now")),
        composer: None,
        key: None,
        time: Some(chars("3/4")),
        staves: vec![
            staff("treble", "c4 d4 e4 |", Some("Piano"), true, false),
            staff("bass", "c,2. |", None, false, true),
        ],
    };
    let options = ConversionOptions {
        include_comment: true,
        measures_per_line: Some(4),
        ..ConversionOptions::default()
    };
    let written = emit_typst(&score, &options);
    let read = parse_scorify_score(&written).unwrap();
    assert_eq!(read.title, score.title);
    assert_eq!(read.composer, None);
    assert_eq!(read.key, Some(chars("C")));
    assert_eq!(read.time, score.time);
    assert_eq!(read.staves.len(), 2);
    for (a, b) in read.staves.iter().zip(score.staves.iter()) {
        assert_eq!(a.clef, b.clef);
        assert_eq!(a.music, b.music);
        assert_eq!(a.instrument_name, b.instrument_name);
        assert_eq!(a.instrument_name_cont, b.instrument_name_cont);
        assert_eq!((a.brace_start, a.brace_end, a.bracket_start, a.bracket_end),
            (b.brace_start, b.brace_end, b.bracket_start, b.bracket_end));
    }
}

#[test]
fn staves_are_grouped_into_numbered_parts_in_order() {
    let typst = r#"#score(
  staves: (
    (clef: "treble", brace-start: true, music: "c1"),
    (clef: "bass", brace-end: true, music: "c1"),
    (clef: "alto", music: "c1"),
  ),
)"#;
    let result = convert_scorify_to_musicxml(typst).unwrap();
    let p1 = result.find("<part id=\"P1\">").unwrap();
    let p2 = result.find("<part id=\"P2\">").unwrap();
    assert!(!result.contains("id=\"P3\""), "{result}");
    let treble = result.find("<clef number=\"1\"><sign>G</sign><line>2</line></clef>").unwrap();
    let bass = result.find("<clef number=\"2\"><sign>F</sign><line>4</line></clef>").unwrap();
    let alto = result.find("<clef><sign>C</sign><line>3</line></clef>").unwrap();
    assert!(p1 < treble && treble < bass && bass < p2 && p2 < alto, "{result}");
    assert!(result.contains("<staves>2</staves>"), "{result}");
}

#[test]
fn rest_with_unwritable_length_writes_nothing() {
    let mut out = chars("<measure>");
    match emit_rest_xml(&mut out, 5, 1, None) {
        Err(ConvertError::InvalidScorify(m)) => assert_eq!(m, "could not map duration value 5 to a MusicXML note type"),
        _ => panic!("a rest of 5 ticks was written"),
    }
    assert_eq!(text(&out), "<measure>");
    assert!(emit_rest_xml(&mut out, 768, 1, Some(2)).is_ok());
    assert_eq!(
        text(&out),
        "<measure>      <note><rest/><duration>768</duration><voice>1</voice><type>quarter</type><staff>2</staff></note>\n"
    );
}

#[test]
fn rest_and_skip_suffix_messages_name_the_token_kind() {
    match parse_voice_event(&chars("r4x"), &chars("treble")) {
        Err(ConvertError::InvalidScorify(m)) => assert_eq!(m, "unexpected suffix on rest token 'r4x'"),
        _ => panic!("rest token with a suffix was read"),
    }
    match parse_voice_event(&chars("s4x"), &chars("treble")) {
        Err(ConvertError::InvalidScorify(m)) => assert_eq!(m, "unexpected suffix on skip token 's4x'"),
        _ => panic!("skip token with a suffix was read"),
    }
    match parse_voice_event(&chars("r"), &chars("treble")) {
        Err(ConvertError::InvalidScorify(m)) => assert_eq!(m, "missing duration in token fragment ''"),
        _ => panic!("rest token without a duration was read"),
    }
}

#[test]
fn note_token_errors_name_what_did_not_read() {
    let cases = [
        ("", "empty note token"),
        ("1c4", "invalid note token '1c4'"),
        ("<c e4", "unterminated chord token '<c e4'"),
        ("<c 1>4", "invalid note pitch '1'"),
        ("c", "missing duration in token fragment ''"),
        ("c5", "unsupported duration '5'"),
        ("c4v[mf", "unterminated bracketed attachment"),
        ("c4%", "could not parse token suffix in 'c4%'"),
    ];
    for (token, message) in cases {
        match parse_voice_event(&chars(token), &chars("treble")) {
            Err(ConvertError::InvalidScorify(m)) => assert_eq!(m, message),
            _ => panic!("token '{}' was read", token),
        }
    }
}

#[test]
fn staff_music_errors_name_what_did_not_read() {
    let cases = [
        ("c4 [d4", "unterminated grouping in music string"),
        ("c4 | d4 4x", "invalid note token '4x'"),
        ("v{c4 d4} |", "multi-voice token is missing ';' in 'v{c4 d4}'"),
        ("c4 | v{c4; #4}", "invalid note token '#4'"),
    ];
    for (music, message) in cases {
        match parse_staff_music(&chars(music), &chars("treble")) {
            Err(ConvertError::InvalidScorify(m)) => assert_eq!(m, message),
            _ => panic!("music '{}' was read", music),
        }
    }
}

#[test]
fn part_errors_name_the_staff_or_group() {
    let staff = |music: &str, brace_start: bool, brace_end: bool| Staff {
        clef: chars("treble"),
        music: chars(music),
        instrument_name: None,
        instrument_name_cont: None,
        brace_start,
        brace_end,
        bracket_start: false,
        bracket_end: false,
    };
    let score = |staves: Vec<Staff>| Score { title: None, composer: None, key: None, time: None, staves };
    match build_parts(&score(vec![staff("c1", false, false), staff("c1 | d1 |", true, false), staff("c1 |", false, true)])) {
        Err(ConvertError::InvalidScorify(m)) => assert_eq!(m, "staff group starting at staff 2 has mismatched measure counts"),
        _ => panic!("staves with mismatched measures were grouped"),
    }
    match build_parts(&score(vec![staff("c1", false, false), staff("c1 [", false, false)])) {
        Err(ConvertError::InvalidScorify(m)) => assert_eq!(m, "unterminated grouping in music string"),
        _ => panic!("staff with unterminated grouping was read"),
    }
}

#[test]
fn score_call_errors_name_what_did_not_read() {
    let cases = [
        ("#score staves", "expected '(' near 'staves'"),
        ("#score(: 1)", "expected identifier near ': 1)'"),
        ("#score(staves (1,))", "expected ':' near '(1,))'"),
        ("#score(staves: @)", "unsupported Typst value near '@)'"),
        ("#score(staves: \"abc)", "unterminated string"),
        ("#score(staves: (99999999999999999999,))",
            "invalid number '99999999999999999999': number too large to fit in target type"),
        ("#score(staves: (1,))", "each staff must be a tuple of named fields"),
        ("#score(staves: ((clef: \"treble\"),))", "missing required score field 'music'"),
        ("#score(staves: ((clef: 1, music: \"c1\"),))", "field 'clef' must be a string"),
        ("#score(staves: ((clef: \"treble\", music: \"c1\", brace-end: 2),))", "field 'brace-end' must be a boolean"),
        ("#score(title: \"T\")", "score is missing staves"),
        ("#score(staves: 3)", "staves must be a tuple"),
        ("#score(staves: (), measures-per-line: \"x\")", "field 'measures-per-line' must be a number"),
        ("#score(staves: (), title: 3)", "field 'title' must be a string"),
        ("#score(staves: ((clef: \"treble\", music: \"c4 x\"),))", "missing duration in token fragment ''"),
    ];
    for (source, message) in cases {
        match convert_scorify_to_musicxml(source) {
            Err(ConvertError::InvalidScorify(m)) => assert_eq!(m, message, "{source}"),
            other => panic!("source '{}' gave {:?}", source, other.map(|_| ())),
        }
    }
}

#[test]
fn writer_errors_name_what_cannot_be_written() {
    let cases = [
        ("#score(key: \"H\", staves: ((clef: \"treble\", music: \"c1\"),))", "unsupported key 'H'"),
        ("#score(time: \"four\", staves: ((clef: \"treble\", music: \"c1\"),))", "unsupported time signature 'four'"),
        ("#score(staves: ((clef: \"soprano\", music: \"c1\"),))", "unsupported clef 'soprano'"),
        ("#score(staves: ((clef: \"treble\", music: \"c1 | d1[7]\"),))", "invalid chord symbol '7'"),
        ("#score(staves: ((clef: \"treble\", music: \"c1[C/9]\"),))", "invalid chord symbol '9'"),
    ];
    for (source, message) in cases {
        match convert_scorify_to_musicxml(source) {
            Err(ConvertError::InvalidScorify(m)) => assert_eq!(m, message, "{source}"),
            other => panic!("source '{}' gave {:?}", source, other.map(|_| ())),
        }
    }
}

#[test]
fn written_notes_keep_the_book_of_open_ties() {
    let pitch = |step: char, octave: i64| PitchToken { step, alter: 0, accidental_text: None, octave };
    let note = |tie_start: bool, tie_stop: bool| NoteToken {
        clef: chars("treble"),
        pitches: vec![pitch('c', 4), pitch('e', 4)],
        duration_text: Some(chars("4")),
        dots: 0,
        tie_start,
        tie_stop,
        slur_start: false,
        slur_stop: false,
        dynamic: None,
        chord_symbol: None,
        staff_text: None,
        lyrics: vec![],
        articulations: vec![],
    };
    let count = |s: &str, pat: &str| s.matches(pat).count();
    let mut ties: Vec<Vec<char>> = Vec::new();
    let mut out = Vec::new();
    emit_note_xml(&mut out, &note(true, false), 768, 1, None, &mut ties).unwrap();
    let first = text(&out);
    assert_eq!(ties.len(), 1);
    assert_eq!(count(&first, "<note>"), 2);
    assert_eq!(count(&first, "<chord/>"), 1);
    assert_eq!(count(&first, "<tie type=\"start\"/>"), 2);
    assert_eq!(count(&first, "<tie type=\"stop\"/>"), 0);
    let mut out = Vec::new();
    emit_note_xml(&mut out, &note(false, false), 768, 1, None, &mut ties).unwrap();
    let second = text(&out);
    assert!(ties.is_empty());
    assert_eq!(count(&second, "<tie type=\"stop\"/>"), 2);
    assert_eq!(count(&second, "<tie type=\"start\"/>"), 0);
    let mut out = Vec::new();
    emit_note_xml(&mut out, &note(false, false), 768, 1, None, &mut ties).unwrap();
    assert_eq!(count(&text(&out), "<tie type=\"stop\"/>"), 0);
}

#[test]
fn bracket_text_reads_back_escaped_text() {
    let value = chars("a]b c");
    let mut token = chars("x[");
    push_escaped_inline(&mut token, &value);
    token.extend(chars("]l[rest]"));
    assert_eq!(text(&token), "x[a\\]b c]l[rest]");
    let (read, end) = parse_bracket_text(&token, 2).unwrap();
    assert_eq!(read, value);
    assert_eq!(end, 9);
    match parse_bracket_text(&chars("open"), 0) {
        Err(ConvertError::InvalidScorify(m)) => assert_eq!(m, "unterminated bracketed attachment"),
        _ => panic!("unterminated text was read"),
    }
}

#[test]
fn ticks_give_back_note_type_and_dots() {
    let cases = [("4", 1, "quarter"), ("breve", 0, "breve"), ("128", 3, "128th"), ("longa", 2, "long")];
    for (d, k, name) in cases {
        let ticks = duration_to_ticks(&chars(d), k).unwrap();
        let (t, dots) = duration_and_type(ticks, None, 0).unwrap();
        assert_eq!((text(&t), dots), (name.to_string(), k));
    }
    assert_eq!(duration_to_ticks(&chars("4"), 1).unwrap(), 1152);
    assert_eq!(duration_to_ticks(&chars("128"), 3).unwrap(), 45);
}

#[test]
fn written_note_token_reads_back() {
    let note = NoteToken {
        clef: chars("bass"),
        pitches: vec![PitchToken { step: 'e', alter: -1, accidental_text: None, octave: 2 }],
        duration_text: Some(chars("8")),
        dots: 2,
        tie_start: true,
        tie_stop: false,
        slur_start: true,
        slur_stop: true,
        dynamic: None,
        chord_symbol: None,
        staff_text: None,
        lyrics: vec![],
        articulations: vec![Articulation::Accent, Articulation::Fermata],
    };
    let mut token = Vec::new();
    push_note(&mut token, &note, 672, 768);
    assert_eq!(text(&token), "e&,8..(>_~)");
    match parse_voice_event(&token, &chars("bass")).unwrap() {
        VoiceEvent::Note { duration, note: m } => {
            assert_eq!(duration, 672);
            assert_eq!(m.pitches.len(), 1);
            assert_eq!((m.pitches[0].step, m.pitches[0].alter, m.pitches[0].octave), ('e', -1, 2));
            assert_eq!(m.duration_text, note.duration_text);
            assert_eq!(m.dots, 2);
            assert!(m.slur_start && m.slur_stop && m.tie_start);
            assert_eq!(m.articulations.len(), 2);
        },
        _ => panic!("note token was not read as a note"),
    }
}

#[test]
fn written_chord_token_reads_back() {
    let pitch = |step: char, alter: i64, octave: i64| PitchToken { step, alter, accidental_text: None, octave };
    let note = NoteToken {
        clef: chars("treble"),
        pitches: vec![pitch('c', 0, 4), pitch('e', -1, 4), pitch('g', 2, 5)],
        duration_text: Some(chars("2")),
        dots: 0,
        tie_start: false,
        tie_stop: false,
        slur_start: false,
        slur_stop: false,
        dynamic: None,
        chord_symbol: None,
        staff_text: None,
        lyrics: vec![LyricToken { verse: None, text: chars("oh") }],
        articulations: vec![],
    };
    let mut token = Vec::new();
    push_note(&mut token, &note, 0, 1);
    match parse_voice_event(&token, &chars("treble")).unwrap() {
        VoiceEvent::Note { duration, note: m } => {
            assert_eq!(duration, duration_to_ticks(&chars("2"), 0).unwrap());
            let read: Vec<(char, i64, i64)> = m.pitches.iter().map(|p| (p.step, p.alter, p.octave)).collect();
            assert_eq!(read, vec![('c', 0, 4), ('e', -1, 4), ('g', 2, 5)]);
            assert_eq!(m.lyrics.len(), 1);
            assert_eq!((m.lyrics[0].verse, text(&m.lyrics[0].text)), (None, "oh".to_string()));
        },
        _ => panic!("chord token was not read as a note"),
    }
}

#[test]
fn written_note_token_with_attachments_and_lyrics_reads_back() {
    let lyric = |verse: Option<u32>, t: &str| LyricToken { verse, text: chars(t) };
    let note = NoteToken {
        clef: chars("treble"),
        pitches: vec![PitchToken { step: 'g', alter: 1, accidental_text: None, octave: 4 }],
        duration_text: Some(chars("breve")),
        dots: 1,
        tie_start: false,
        tie_stop: false,
        slur_start: false,
        slur_stop: false,
        dynamic: Some(chars("mf")),
        chord_symbol: Some(chars("G7")),
        staff_text: Some(chars("a]b")),
        lyrics: vec![lyric(Some(1), "la"), lyric(Some(3), "lo")],
        articulations: vec![Articulation::Staccato],
    };
    let mut token = Vec::new();
    push_note(&mut token, &note, 0, 1);
    match parse_voice_event(&token, &chars("treble")).unwrap() {
        VoiceEvent::Note { duration, note: m } => {
            assert_eq!(duration, duration_to_ticks(&chars("breve"), 1).unwrap());
            assert_eq!((m.pitches[0].step, m.pitches[0].alter, m.pitches[0].octave), ('g', 1, 4));
            assert_eq!(m.duration_text, note.duration_text);
            assert_eq!(m.dots, 1);
            assert!(!m.slur_start && !m.slur_stop && !m.tie_start);
            assert_eq!(m.articulations.len(), 1);
            assert_eq!(m.dynamic, note.dynamic);
            assert_eq!(m.chord_symbol, note.chord_symbol);
            assert_eq!(m.staff_text, note.staff_text);
            let lyrics: Vec<(Option<u32>, String)> = m.lyrics.iter().map(|l| (l.verse, text(&l.text))).collect();
            assert_eq!(lyrics, vec![(Some(1), "la".to_string()), (Some(3), "lo".to_string())]);
        },
        _ => panic!("note token was not read as a note"),
    }
}

// ---------------------------------------------------------------------------
// Formulas
// ---------------------------------------------------------------------------

#[test]
fn duration_text_covers_plain_dotted_and_unwritable_lengths() {
    assert_eq!(duration_to_text(4, 1).map(|v| text(&v)), Some("1".to_string()));
    assert_eq!(duration_to_text(1, 2).map(|v| text(&v)), Some("8".to_string()));
    assert_eq!(duration_to_text(15, 4).map(|v| text(&v)), Some("2...".to_string()));
    assert_eq!(duration_to_text(5, 2), None);
    assert_eq!(duration_to_text(0, 2), None);
    assert_eq!(duration_to_text(2, 0), None);
}

#[test]
fn duration_ticks_of_named_and_numbered_lengths() {
    assert_eq!(duration_to_ticks(&chars("breve"), 0).unwrap(), 6144);
    assert_eq!(duration_to_ticks(&chars("longa"), 0).unwrap(), 12288);
    assert_eq!(duration_to_ticks(&chars("maxima"), 0).unwrap(), 24576);
    assert_eq!(duration_to_ticks(&chars("16"), 0).unwrap(), 192);
    assert_eq!(duration_to_ticks(&chars("8"), 3).unwrap(), 384 + 192 + 96 + 48);
    match duration_to_ticks(&chars("5"), 0) {
        Err(ConvertError::InvalidScorify(m)) => assert_eq!(m, "unsupported duration '5'"),
        other => panic!("unexpected {other:?}"),
    }
}

// ---------------------------------------------------------------------------
// Files, archives and errors
// ---------------------------------------------------------------------------

#[test]
fn recognises_compressed_files_by_name_or_magic() {
    assert!(is_mxl_file(b"", "Score.MXL"));
    assert!(is_mxl_file(b"", "mxl"));
    assert!(is_mxl_file(b"PK\x03\x04rest", "score.xml"));
    assert!(!is_mxl_file(b"<score-partwise/>", "score.musicxml"));
    assert!(!is_mxl_file(b"PK", "score"));
}

#[test]
fn plain_bytes_are_read_as_utf8_text() {
    let read = read_musicxml_bytes("<a>é</a>".as_bytes(), "a.musicxml").unwrap();
    assert_eq!(read, "<a>é</a>");
}

#[test]
fn archive_without_container_uses_first_score_entry() {
    let bytes = archive(&[("notes.txt", b"hello"), ("inner/Score.XML", ONE_NOTE.as_bytes())]);
    let read = read_musicxml_bytes(&bytes, "a.mxl").unwrap();
    assert_eq!(read, ONE_NOTE);
    let result = convert_musicxml_file_to_scorify(&bytes, "a.mxl", &bare()).unwrap();
    assert!(result.contains("music: \"c1\""), "{result}");
}

#[test]
fn archive_container_names_the_score() {
    let container = br#"<container><rootfiles><rootfile full-path="b.musicxml"/></rootfiles></container>"#;
    let bytes = archive(&[
        ("META-INF/container.xml", container),
        ("a.musicxml", b"not this one"),
        ("b.musicxml", ONE_NOTE.as_bytes()),
    ]);
    assert_eq!(read_musicxml_bytes(&bytes, "x.mxl").unwrap(), ONE_NOTE);
}

#[test]
fn archive_without_score_is_reported() {
    let bytes = archive(&[("notes.txt", b"hello")]);
    assert!(matches!(read_musicxml_bytes(&bytes, "x.mxl"), Err(ConvertError::NoScoreInArchive)));
}

#[test]
fn archive_naming_a_missing_score_is_a_zip_error() {
    let container = br#"<container><rootfiles><rootfile full-path="gone.musicxml"/></rootfiles></container>"#;
    let bytes = archive(&[("META-INF/container.xml", container)]);
    assert!(matches!(read_musicxml_bytes(&bytes, "x.mxl"), Err(ConvertError::Zip(_))));
}

#[test]
fn archive_score_that_is_not_utf8_is_an_io_error() {
    let bytes = archive(&[("score.musicxml", &[0xffu8, 0xfe, 0x00][..])]);
    assert!(matches!(read_musicxml_bytes(&bytes, "x.mxl"), Err(ConvertError::Io(_))));
}

#[test]
fn broken_archive_is_a_zip_error() {
    assert!(matches!(read_musicxml_bytes(b"not a zip", "x.mxl"), Err(ConvertError::Zip(_))));
    let result = convert_musicxml_file_to_scorify(b"PK\x03\x04junk", "score.xml", &bare());
    assert!(matches!(result, Err(ConvertError::Zip(_))));
}

#[test]
fn invalid_utf8_musicxml_is_reported() {
    let result = convert_musicxml_file_to_scorify(&[0x3c, 0xff, 0xfe], "a.musicxml", &bare());
    assert!(matches!(result, Err(ConvertError::Utf8(_))));
}

#[test]
fn invalid_utf8_scorify_is_reported() {
    assert!(matches!(convert_scorify_file_to_musicxml(&[0xff, 0x00]), Err(ConvertError::ScorifyUtf8(_))));
}

#[test]
fn malformed_xml_is_reported() {
    let result = convert_musicxml_to_scorify("<score-partwise><part>", &bare());
    assert!(matches!(result, Err(ConvertError::Xml(_))));
}

#[test]
fn document_without_score_is_reported() {
    let result = convert_musicxml_to_scorify("<score-timewise/>", &bare());
    assert!(matches!(result, Err(ConvertError::MissingScore)));
}

#[test]
fn score_without_parts_is_reported() {
    let result = convert_musicxml_to_scorify("<score-partwise version=\"4.0\"><part-list/></score-partwise>", &bare());
    assert!(matches!(result, Err(ConvertError::NoParts)));
}

#[test]
fn scorify_without_score_call_is_reported() {
    assert!(matches!(convert_scorify_to_musicxml("just text"), Err(ConvertError::MissingScorifyScore)));
}

#[test]
fn malformed_scorify_is_reported() {
    assert!(matches!(convert_scorify_to_musicxml("#score(title: \"x\""), Err(ConvertError::InvalidScorify(_))));
    let bad_note = "#score(staves: ((clef: \"treble\", music: \"9c4\"),))";
    assert!(matches!(convert_scorify_to_musicxml(bad_note), Err(ConvertError::InvalidScorify(_))));
}

#[test]
fn scorify_file_bytes_convert_like_text() {
    let typst = convert_musicxml_to_scorify(ONE_NOTE, &bare()).unwrap();
    let from_bytes = convert_scorify_file_to_musicxml(typst.as_bytes()).unwrap();
    let from_text = convert_scorify_to_musicxml(&typst).unwrap();
    assert_eq!(from_bytes, from_text);
    assert!(from_text.contains("<step>C</step>"), "{from_text}");
    assert!(from_text.contains("<octave>4</octave>"), "{from_text}");
}

#[test]
fn doctype_and_byte_order_mark_are_skipped() {
    let xml = format!("\u{feff}  <!DOCTYPE score-partwise>\n{ONE_NOTE}");
    let result = convert_musicxml_to_scorify(&xml, &bare()).unwrap();
    assert!(result.contains("music: \"c1\""), "{result}");
}
