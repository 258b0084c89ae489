use vstd::prelude::*;

pub mod durations;
pub mod encoding;
pub mod error;
pub mod laws;
pub mod model;
pub mod mxl;
pub mod musicxml_measure;
pub mod musicxml_part;
pub mod musicxml_parts;
pub mod musicxml_read;
pub mod musicxml_score;
pub mod musicxml_writer;
pub mod notation_laws;
pub mod read_back;
pub mod scorify_music;
pub mod scorify_score;
pub mod scorify_tokens;
pub mod scorify_writer;
pub mod text;
pub mod typst;
pub mod typst_writer;
pub mod xml;

pub use error::ConvertError;
pub use typst_writer::{ConversionOptions, ConversionOptionsPatch};

use crate::encoding::{string_from_utf8, utf8_decode};
use crate::musicxml_part::{musicxml_body, parse_musicxml, score_parts, score_root, spec_parse_musicxml};
use crate::musicxml_read::{chars_eq_ignore_case, eq_ignore_case};
use crate::mxl::{read_mxl, spec_read_mxl, MxlOutcome};
use crate::typst_writer::{emit_typst, spec_emit_typst};
use crate::xml::xml_parse;
use crate::musicxml_score::{emit_musicxml, spec_emit_musicxml, written_parts_message};
use crate::scorify_score::{
    build_parts, parse_scorify_score, parts_message, score_call_message_holds, spec_build_parts,
    spec_parse_scorify_score,
};
use crate::text::{chars_to_string, find_seq, str_to_chars};

verus! {

/// The MusicXML document of a Scorify source: its score, grouped into parts,
/// then written out.
pub open spec fn spec_scorify_to_musicxml(source: Seq<char>) -> Option<Seq<char>> {
    match spec_parse_scorify_score(source) {
        Some(score) => match spec_build_parts(score) {
            Some(parts) => spec_emit_musicxml(score, parts),
            None => None,
        },
        None => None,
    }
}

/// What the error of a Scorify source says: where the `#score(...)` call
/// does not read, its staves make no parts, or the parts cannot be written.
pub open spec fn scorify_error_message_holds(source: Seq<char>, e: ConvertError) -> bool {
    match find_seq(source, "#score"@) {
        None => true,
        Some(off) => match spec_parse_scorify_score(source) {
            None => score_call_message_holds(source.skip(off + 6), e),
            Some(score) => match spec_build_parts(score) {
                None => e matches ConvertError::InvalidScorify(m) && m@ == parts_message(score.staves, 0),
                Some(parts) => e matches ConvertError::InvalidScorify(m) && m@ == written_parts_message(parts, score, 0),
            },
        },
    }
}

/// Converts a Scorify source to a MusicXML document. Fails with
/// `MissingScorifyScore` exactly when the source holds no `#score`, and with
/// `InvalidScorify` when it holds one that cannot be read or written.
pub fn convert_scorify_to_musicxml(source: &str) -> (r: Result<String, ConvertError>)
    ensures
        match r {
            Ok(x) => spec_scorify_to_musicxml(source@) == Some(x@),
            Err(e) => {
                &&& spec_scorify_to_musicxml(source@) is None
                &&& (e is MissingScorifyScore <==> find_seq(source@, "#score"@) is None)
                &&& (e is MissingScorifyScore || e is InvalidScorify)
                &&& scorify_error_message_holds(source@, e)
            },
        },
{
    let chars = str_to_chars(source);
    let score = parse_scorify_score(chars.as_slice())?;
    let parts = build_parts(&score)?;
    let out = emit_musicxml(&score, &parts)?;
    Ok(chars_to_string(out.as_slice()))
}

/// Converts the bytes of a Scorify file: `ScorifyUtf8` when they are not
/// UTF-8, otherwise as `convert_scorify_to_musicxml` on their text.
pub fn convert_scorify_file_to_musicxml(bytes: &[u8]) -> (r: Result<String, ConvertError>)
    ensures
        match utf8_decode(bytes@) {
            None => match r {
                Ok(_) => false,
                Err(e) => e is ScorifyUtf8,
            },
            Some(text) => match r {
                Ok(x) => spec_scorify_to_musicxml(text) == Some(x@),
                Err(e) => {
                    &&& spec_scorify_to_musicxml(text) is None
                    &&& (e is MissingScorifyScore <==> find_seq(text, "#score"@) is None)
                    &&& (e is MissingScorifyScore || e is InvalidScorify)
                    &&& scorify_error_message_holds(text, e)
                },
            },
        },
{
    let source = match string_from_utf8(bytes) {
        Ok(s) => s,
        Err(e) => {
            return Err(ConvertError::ScorifyUtf8(e));
        },
    };
    convert_scorify_to_musicxml(source.as_str())
}

/// The index of the last `c` in `s`, if any.
pub open spec fn last_index_of(s: Seq<char>, c: char) -> Option<int>
    decreases s.len(),
{
    if s.len() == 0 {
        None
    } else if s.last() == c {
        Some(s.len() - 1)
    } else {
        last_index_of(s.drop_last(), c)
    }
}

/// What follows the last `.` of a file name (the whole name without one).
pub open spec fn file_extension(name: Seq<char>) -> Seq<char> {
    match last_index_of(name, '.') {
        Some(i) => name.skip(i + 1),
        None => name,
    }
}

/// Whether a file is compressed MusicXML: its extension is `mxl` in any
/// ASCII case, or its bytes start like a ZIP archive.
pub open spec fn spec_is_mxl_file(bytes: Seq<u8>, filename: Seq<char>) -> bool {
    eq_ignore_case(file_extension(filename), "mxl"@) || (bytes.len() >= 4 && bytes[0] == 0x50u8 && bytes[1] == 0x4Bu8
        && bytes[2] == 3u8 && bytes[3] == 4u8)
}

pub fn is_mxl_file(bytes: &[u8], filename: &str) -> (r: bool)
    ensures
        r == spec_is_mxl_file(bytes@, filename@),
{
    let name = str_to_chars(filename);
    let mut k = name.len();
    assert(name@.take(k as int) == name@);
    while k > 0 && name[k - 1] != '.'
        invariant
            k <= name@.len(),
            last_index_of(name@, '.') == last_index_of(name@.take(k as int), '.'),
        decreases k,
    {
        assert(name@.take(k as int).drop_last() == name@.take(k - 1));
        k -= 1;
    }
    proof {
        if k > 0 {
            assert(name@.take(k as int).last() == '.');
        } else {
            assert(name@.take(0) =~= Seq::<char>::empty());
        }
    }
    let ext = if k > 0 {
        crate::text::tail_chars(name.as_slice(), k)
    } else {
        name
    };
    let zip_magic = bytes.len() >= 4 && bytes[0] == 0x50u8 && bytes[1] == 0x4Bu8 && bytes[2] == 3u8 && bytes[3] == 4u8;
    chars_eq_ignore_case(ext.as_slice(), "mxl") || zip_magic
}

/// The MusicXML text of a file: the score of a compressed file, else the
/// bytes read as UTF-8.
pub open spec fn spec_musicxml_text(bytes: Seq<u8>, filename: Seq<char>) -> Option<Seq<char>> {
    if spec_is_mxl_file(bytes, filename) {
        match spec_read_mxl(bytes) {
            Some(MxlOutcome::Found(t)) => Some(t),
            _ => None,
        }
    } else {
        utf8_decode(bytes)
    }
}

/// The error that reading a file's text fails with.
pub open spec fn text_error_matches(bytes: Seq<u8>, filename: Seq<char>, e: ConvertError) -> bool {
    if spec_is_mxl_file(bytes, filename) {
        match spec_read_mxl(bytes) {
            None => e is Zip,
            Some(MxlOutcome::ZipFailure) => e is Zip,
            Some(MxlOutcome::ReadFailure) => e is Io,
            Some(MxlOutcome::NoScore) => e is NoScoreInArchive,
            Some(MxlOutcome::Found(_)) => false,
        }
    } else {
        e is Utf8
    }
}

/// The error that reading a MusicXML text into a score fails with.
pub open spec fn musicxml_error_matches(xml: Seq<char>, e: ConvertError) -> bool {
    match xml_parse(musicxml_body(xml)) {
        None => e is Xml,
        Some(d) => match score_root(d) {
            None => e is MissingScore,
            Some(root) => e is NoParts && score_parts(d, root).len() == 0,
        },
    }
}

/// The text of a MusicXML file, compressed or not.
pub fn read_musicxml_bytes(bytes: &[u8], filename: &str) -> (r: Result<String, ConvertError>)
    ensures
        match spec_musicxml_text(bytes@, filename@) {
            Some(t) => r matches Ok(x) && x@ == t,
            None => r matches Err(e) && text_error_matches(bytes@, filename@, e),
        },
{
    if is_mxl_file(bytes, filename) {
        let text = read_mxl(bytes)?;
        Ok(chars_to_string(text.as_slice()))
    } else {
        match string_from_utf8(bytes) {
            Ok(s) => Ok(s),
            Err(e) => Err(ConvertError::Utf8(e)),
        }
    }
}

/// Converts a MusicXML text to a Typst `#score(...)` call.
pub fn convert_musicxml_to_scorify(xml: &str, options: &ConversionOptions) -> (r: Result<String, ConvertError>)
    ensures
        match spec_parse_musicxml(xml@) {
            Some(score) => r matches Ok(x) && x@ == spec_emit_typst(score, options@),
            None => r matches Err(e) && musicxml_error_matches(xml@, e),
        },
{
    let score = parse_musicxml(xml)?;
    let out = emit_typst(&score, options);
    Ok(chars_to_string(out.as_slice()))
}

/// Converts a MusicXML file, compressed or not, to a Typst `#score(...)` call.
pub fn convert_musicxml_file_to_scorify(bytes: &[u8], filename: &str, options: &ConversionOptions) -> (r: Result<
    String,
    ConvertError,
>)
    ensures
        match spec_musicxml_text(bytes@, filename@) {
            None => r matches Err(e) && text_error_matches(bytes@, filename@, e),
            Some(t) => match spec_parse_musicxml(t) {
                Some(score) => r matches Ok(x) && x@ == spec_emit_typst(score, options@),
                None => r matches Err(e) && musicxml_error_matches(t, e),
            },
        },
{
    let xml = read_musicxml_bytes(bytes, filename)?;
    convert_musicxml_to_scorify(xml.as_str(), options)
}

} // verus!
