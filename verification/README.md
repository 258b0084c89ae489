# musicxml-to-scorify

Converts MusicXML scores (plain `.musicxml`/`.xml` text or compressed `.mxl`
archives) into Typst [Scorify](https://github.com/justinbornais/typst-sheet-music)
`#score(...)` calls, and Scorify `#score(...)` calls back into MusicXML.

The conversion library is written in Verus: every function states what it
returns in its contract, and Verus proves the code against it.

## Layout

- `src/` — the verified library.
  - `lib.rs`: the entry points (`convert_musicxml_to_scorify`,
    `convert_musicxml_file_to_scorify`, `convert_scorify_to_musicxml`,
    `convert_scorify_file_to_musicxml`, `read_musicxml_bytes`).
  - `xml.rs`, `mxl.rs`, `encoding.rs`: the XML parser (roxmltree), the `.mxl`
    archive reader (zip) and UTF-8 decoding, each call behind a small trusted
    wrapper whose contract names what the call returns.
  - `musicxml_read.rs`, `musicxml_measure.rs`, `musicxml_part.rs`: reading a
    MusicXML document into a score; `scorify_writer.rs`, `typst_writer.rs`:
    writing it as Scorify music and a Typst call.
  - `typst.rs`, `scorify_tokens.rs`, `scorify_music.rs`, `scorify_score.rs`:
    reading a Typst `#score(...)` call and its Scorify music;
    `musicxml_parts.rs`, `musicxml_writer.rs`, `musicxml_score.rs`: writing
    MusicXML.
  - `laws.rs`, `read_back.rs`: properties of the library as a whole, proved
    (escaping and bracketed text, key/clef/time/duration/pitch round trips
    between the two directions, note types from tick counts, written note
    tokens reading back as their notes, ordering, option patches, grouping of
    staves into parts, and that a written `#score(...)` call reads back as its
    score).
- `tests/` — tests on concrete inputs.
- `app/` — the command-line program and the browser (wasm) entry points.
