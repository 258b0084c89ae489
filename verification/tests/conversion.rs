use std::io::Write;

use musicxml_to_scorify::{
    convert_musicxml_file_to_scorify, convert_musicxml_to_scorify, convert_scorify_to_musicxml, ConversionOptions,
    ConversionOptionsPatch,
};

/// The options a JSON object of option fields gives, read field by field
/// (the command-line and web front ends read such objects).
fn options_from_json(json: &str) -> ConversionOptions {
    let value: serde_json::Value = serde_json::from_str(json).unwrap();
    let patch = ConversionOptionsPatch {
        include_import: value.get("includeImport").and_then(|v| v.as_bool()),
        package: value.get("package").and_then(|v| v.as_str()).map(|s| s.to_string()),
        measures_per_line: value.get("measuresPerLine").and_then(|v| v.as_u64()).map(|n| n as u32),
        include_comment: value.get("includeComment").and_then(|v| v.as_bool()),
    };
    ConversionOptions::default().apply_patch(patch)
}

const SIMPLE_XML: &str = r#"
<?xml version="1.0" encoding="UTF-8"?>
<score-partwise version="4.0">
  <work><work-title>Tiny Tune</work-title></work>
  <identification><creator type="composer">A. Composer</creator></identification>
  <part-list>
<score-part id="P1"><part-name>Piano</part-name><part-abbreviation>Pno.</part-abbreviation></score-part>
  </part-list>
  <part id="P1">
<measure number="1">
  <attributes>
    <divisions>2</divisions>
    <key><fifths>2</fifths></key>
    <time><beats>4</beats><beat-type>4</beat-type></time>
    <staves>2</staves>
    <clef number="1"><sign>G</sign><line>2</line></clef>
    <clef number="2"><sign>F</sign><line>4</line></clef>
  </attributes>
  <direction><direction-type><dynamics><mf/></dynamics></direction-type></direction>
  <note>
    <pitch><step>F</step><alter>1</alter><octave>4</octave></pitch>
    <duration>2</duration><voice>1</voice><type>quarter</type><staff>1</staff>
    <lyric><syllabic>single</syllabic><text>Joy</text></lyric>
  </note>
  <note>
    <chord/>
    <pitch><step>A</step><octave>4</octave></pitch>
    <duration>2</duration><voice>1</voice><type>quarter</type><staff>1</staff>
  </note>
  <note>
    <rest/><duration>2</duration><voice>1</voice><type>quarter</type><staff>1</staff>
  </note>
  <backup><duration>4</duration></backup>
  <note>
    <pitch><step>D</step><octave>3</octave></pitch>
    <duration>4</duration><voice>5</voice><type>half</type><staff>2</staff>
  </note>
</measure>
  </part>
</score-partwise>
"#;

#[test]
fn converts_simple_grand_staff_score() {
    let result = convert_musicxml_to_scorify(
        SIMPLE_XML,
        &ConversionOptions {
            include_import: false,
            ..ConversionOptions::default()
        },
    )
    .unwrap();

    assert!(result.contains("title: \"Tiny Tune\""));
    assert!(result.contains("composer: \"A. Composer\""));
    assert!(result.contains("key: \"D\""));
    assert!(result.contains("time: \"4/4\""));
    assert!(result.contains("brace-start: true"));
    assert!(result.contains("brace-end: true"));
    assert!(
        result.contains("music: \"<f# a>4v[mf]l[Joy] r4\""),
        "{result}"
    );
    assert!(result.contains("music: \"d2\""), "{result}");
}

#[test]
fn maps_minor_keys_and_octaves() {
    let xml = r#"
<score-partwise version="4.0">
  <part-list><score-part id="P1"><part-name>Flute</part-name></score-part></part-list>
  <part id="P1"><measure number="1">
<attributes><divisions>1</divisions><key><fifths>-3</fifths><mode>minor</mode></key><clef><sign>G</sign><line>2</line></clef></attributes>
<note><pitch><step>C</step><octave>5</octave></pitch><duration>1</duration><type>quarter</type></note>
<note><pitch><step>B</step><alter>-1</alter><octave>3</octave></pitch><duration>1</duration><type>quarter</type></note>
  </measure></part>
</score-partwise>
"#;
    let result = convert_musicxml_to_scorify(
        xml,
        &ConversionOptions {
            include_import: false,
            ..ConversionOptions::default()
        },
    )
    .unwrap();

    assert!(result.contains("key: \"c\""));
    assert!(result.contains("c'4"));
    assert!(result.contains("b&,4"));
}

#[test]
fn accepts_musicxml_doctype_declarations() {
    let xml = r#"<?xml version="1.0" encoding="UTF-8"?>
<!DOCTYPE score-partwise PUBLIC "-//Recordare//DTD MusicXML 4.0 Partwise//EN" "http://www.musicxml.org/dtds/partwise.dtd">
<score-partwise version="4.0">
  <part-list><score-part id="P1"><part-name>Voice</part-name></score-part></part-list>
  <part id="P1"><measure number="1">
<attributes><divisions>1</divisions><time><beats>4</beats><beat-type>4</beat-type></time></attributes>
<note><pitch><step>C</step><octave>4</octave></pitch><duration>1</duration><type>quarter</type></note>
  </measure></part>
</score-partwise>
"#;

    let result = convert_musicxml_to_scorify(
        xml,
        &ConversionOptions {
            include_import: false,
            ..ConversionOptions::default()
        },
    )
    .unwrap();

    assert!(result.contains("time: \"4/4\""));
    assert!(result.contains("music: \"c4\""));
}

#[test]
fn emits_multiple_numbered_lyric_verses_on_one_note() {
    let xml = r#"
<score-partwise version="4.0">
  <part-list><score-part id="P1"><part-name>Voice</part-name></score-part></part-list>
  <part id="P1"><measure number="1">
<attributes><divisions>1</divisions><time><beats>4</beats><beat-type>4</beat-type></time></attributes>
<note>
  <pitch><step>C</step><octave>4</octave></pitch>
  <duration>1</duration>
  <type>quarter</type>
  <lyric number="2"><syllabic>single</syllabic><text>Second</text></lyric>
  <lyric number="1"><syllabic>begin</syllabic><text>First</text></lyric>
</note>
<note>
  <pitch><step>D</step><octave>4</octave></pitch>
  <duration>1</duration>
  <type>quarter</type>
  <lyric number="1"><syllabic>end</syllabic><text>verse</text></lyric>
  <lyric number="2"><syllabic>single</syllabic><text>line</text></lyric>
</note>
  </measure></part>
</score-partwise>
"#;

    let result = convert_musicxml_to_scorify(
        xml,
        &ConversionOptions {
            include_import: false,
            ..ConversionOptions::default()
        },
    )
    .unwrap();

    assert!(
        result.contains("music: \"c4l[First-]l[Second] d4l[verse]l[line]\""),
        "{result}"
    );
}

#[test]
fn emits_empty_lyric_placeholders_for_later_verse_only() {
    let xml = r#"
<score-partwise version="4.0">
  <part-list><score-part id="P1"><part-name>Voice</part-name></score-part></part-list>
  <part id="P1"><measure number="1">
<attributes><divisions>1</divisions><time><beats>4</beats><beat-type>4</beat-type></time></attributes>
<note>
  <pitch><step>C</step><octave>4</octave></pitch>
  <duration>1</duration>
  <type>quarter</type>
  <lyric number="3"><syllabic>single</syllabic><text>You,</text></lyric>
</note>
  </measure></part>
</score-partwise>
"#;

    let result = convert_musicxml_to_scorify(
        xml,
        &ConversionOptions {
            include_import: false,
            ..ConversionOptions::default()
        },
    )
    .unwrap();

    assert!(result.contains("music: \"c4lll[You,]\""), "{result}");
}

#[test]
fn maps_musicxml_harmony_kinds_to_compact_chord_symbols() {
    let xml = r#"
<score-partwise version="4.0">
  <part-list><score-part id="P1"><part-name>Lead Sheet</part-name></score-part></part-list>
  <part id="P1"><measure number="1">
<attributes><divisions>1</divisions><time><beats>4</beats><beat-type>4</beat-type></time></attributes>
<harmony print-frame="no"><root><root-step>F</root-step></root><kind text="6">major-sixth</kind></harmony>
<note><pitch><step>C</step><octave>4</octave></pitch><duration>1</duration><type>quarter</type></note>
<harmony><root><root-step>C</root-step></root><kind>major-seventh</kind></harmony>
<note><pitch><step>D</step><octave>4</octave></pitch><duration>1</duration><type>quarter</type></note>
<harmony><root><root-step>C</root-step></root><kind>dominant</kind></harmony>
<note><pitch><step>E</step><octave>4</octave></pitch><duration>1</duration><type>quarter</type></note>
<harmony><root><root-step>C</root-step></root><kind>minor-seventh</kind></harmony>
<note><pitch><step>F</step><octave>4</octave></pitch><duration>1</duration><type>quarter</type></note>
  </measure></part>
</score-partwise>
"#;

    let result = convert_musicxml_to_scorify(
        xml,
        &ConversionOptions {
            include_import: false,
            ..ConversionOptions::default()
        },
    )
    .unwrap();

    assert!(
        result.contains("music: \"c4[F6] d4[CMaj7] e4[C7] f4[Cm7]\""),
        "{result}"
    );
    assert!(!result.contains("major-sixth"), "{result}");
}

#[test]
fn normalizes_non_breaking_spaces_in_lyrics() {
    let xml = r#"
<score-partwise version="4.0">
  <part-list><score-part id="P1"><part-name>Voice</part-name></score-part></part-list>
  <part id="P1"><measure number="1">
<attributes><divisions>1</divisions><time><beats>4</beats><beat-type>4</beat-type></time></attributes>
<note>
  <pitch><step>C</step><octave>4</octave></pitch>
  <duration>1</duration>
  <type>quarter</type>
  <lyric><syllabic>begin</syllabic><text>1.&#160;Ev</text></lyric>
</note>
<note>
  <pitch><step>D</step><octave>4</octave></pitch>
  <duration>1</duration>
  <type>quarter</type>
  <lyric><syllabic>single</syllabic><text>2.&#194;&#160;Ev</text></lyric>
</note>
  </measure></part>
</score-partwise>
"#;

    let result = convert_musicxml_to_scorify(
        xml,
        &ConversionOptions {
            include_import: false,
            ..ConversionOptions::default()
        },
    )
    .unwrap();

    assert!(
        result.contains("music: \"c4l[1. Ev-] d4l[2. Ev]\""),
        "{result}"
    );
    assert!(!result.contains('\u{00a0}'), "{result}");
    assert!(!result.contains('\u{00c2}'), "{result}");
}

#[test]
fn converts_file_bytes_and_json_options() {
    let options = options_from_json(
        r#"{"includeImport":false,"includeComment":true,"measuresPerLine":2}"#,
    );
    let result =
        convert_musicxml_file_to_scorify(SIMPLE_XML.as_bytes(), "simple.musicxml", &options)
            .unwrap();

    assert!(result.starts_with("// Generated by musicxml-to-scorify."));
    assert!(!result.contains("#import"));
    assert!(result.contains("measures-per-line: 2"));
}

#[test]
fn extracts_compressed_mxl_bytes() {
    let mut bytes = Vec::new();
    {
        let cursor = std::io::Cursor::new(&mut bytes);
        let mut archive = zip::ZipWriter::new(cursor);
        let options = zip::write::SimpleFileOptions::default();

        archive
            .start_file("META-INF/container.xml", options)
            .unwrap();
        archive
            .write_all(
                br#"<?xml version="1.0" encoding="UTF-8"?>
<container version="1.0" xmlns="urn:oasis:names:tc:opendocument:xmlns:container">
  <rootfiles><rootfile full-path="score.musicxml"/></rootfiles>
</container>"#,
            )
            .unwrap();
        archive.start_file("score.musicxml", options).unwrap();
        archive.write_all(SIMPLE_XML.as_bytes()).unwrap();
        archive.finish().unwrap();
    }

    let result = convert_musicxml_file_to_scorify(
        &bytes,
        "simple.mxl",
        &ConversionOptions {
            include_import: false,
            ..ConversionOptions::default()
        },
    )
    .unwrap();

    assert!(result.contains("title: \"Tiny Tune\""));
    assert!(result.contains("music: \"<f# a>4v[mf]l[Joy] r4\""));
}

#[test]
fn converts_scorify_score_back_to_musicxml() {
    let typst = r#"
#import "@preview/scorify:0.3.0": score

#score(
title: "Simple Scorify Sample",
composer: "MusicXML Fixture",
key: "C",
time: "4/4",
staves: (
    (
        clef: "treble",
        instrument-name: "Flute",
        instrument-name-cont: "Fl.",
        music: "c4v[mf]l[Hel-] d4l[lo] e4*[G7] r4 |: f2~ f2 :|",
    ),
),
)
"#;

    let result = convert_scorify_to_musicxml(typst).unwrap();

    assert!(result.contains("<work-title>Simple Scorify Sample</work-title>"), "{result}");
    assert!(result.contains("<creator type=\"composer\">MusicXML Fixture</creator>"), "{result}");
    assert!(result.contains("<part-name>Flute</part-name>"), "{result}");
    assert!(result.contains("<dynamics><mf/></dynamics>"), "{result}");
    assert!(result.contains("<kind text=\"7\">other</kind>"), "{result}");
    assert!(result.contains("<repeat direction=\"forward\"/>"), "{result}");
    assert!(result.contains("<tie type=\"start\"/>"), "{result}");
    assert!(result.contains("<tie type=\"stop\"/>"), "{result}");
}

#[test]
fn round_trips_grand_staff_and_secondary_voice() {
    let xml = r#"
<score-partwise version="4.0">
<work><work-title>Tiny Tune</work-title></work>
<identification><creator type="composer">A. Composer</creator></identification>
<part-list>
    <score-part id="P1"><part-name>Piano</part-name><part-abbreviation>Pno.</part-abbreviation></score-part>
</part-list>
<part id="P1">
    <measure number="1">
        <attributes>
            <divisions>2</divisions>
            <key><fifths>2</fifths></key>
            <time><beats>4</beats><beat-type>4</beat-type></time>
            <staves>2</staves>
            <clef number="1"><sign>G</sign><line>2</line></clef>
            <clef number="2"><sign>F</sign><line>4</line></clef>
        </attributes>
        <note>
            <pitch><step>C</step><octave>4</octave></pitch>
            <duration>2</duration><voice>1</voice><type>quarter</type><staff>1</staff>
        </note>
        <backup><duration>2</duration></backup>
        <note>
            <rest/><duration>2</duration><voice>2</voice><type>quarter</type><staff>1</staff>
        </note>
        <note>
            <pitch><step>D</step><octave>3</octave></pitch>
            <duration>4</duration><voice>1</voice><type>half</type><staff>2</staff>
        </note>
    </measure>
</part>
</score-partwise>
"#;

    let typst = convert_musicxml_to_scorify(
        xml,
        &ConversionOptions {
            include_import: false,
            ..ConversionOptions::default()
        },
    )
    .unwrap();
    assert!(typst.contains("v{c4;r4}"), "{typst}");
    assert!(typst.contains("s4 d2"), "{typst}");
    let result = convert_scorify_to_musicxml(&typst).unwrap();

    assert!(result.contains("<staves>2</staves>"), "{result}");
    assert!(result.contains("<clef number=\"2\"><sign>F</sign><line>4</line></clef>"), "{result}");
    assert!(result.contains("<backup><duration>768</duration></backup>"), "{result}");
    assert!(result.contains("<voice>2</voice>"), "{result}");
    assert!(result.contains("<staff>2</staff>"), "{result}");
}
