//! The library's error type.
use vstd::prelude::*;

verus! {

/// `roxmltree::Error`, carried through unread.
#[verifier::external_type_specification]
#[verifier::external_body]
pub struct ExXmlError(roxmltree::Error);

/// `std::string::FromUtf8Error`, carried through unread.
#[verifier::external_type_specification]
#[verifier::external_body]
pub struct ExFromUtf8Error(std::string::FromUtf8Error);

/// `zip::result::ZipError`, carried through unread.
#[verifier::external_type_specification]
#[verifier::external_body]
pub struct ExZipError(zip::result::ZipError);

/// `std::io::Error`, carried through unread.
#[verifier::external_type_specification]
#[verifier::external_body]
pub struct ExIoError(std::io::Error);

/// `serde_json::Error`, carried through unread.
#[verifier::external_type_specification]
#[verifier::external_body]
pub struct ExJsonError(serde_json::Error);

/// Why a conversion failed.
#[derive(Debug)]
pub enum ConvertError {
    /// The MusicXML text is not well-formed XML.
    Xml(roxmltree::Error),
    /// The MusicXML bytes are not UTF-8.
    Utf8(std::string::FromUtf8Error),
    /// The Scorify bytes are not UTF-8.
    ScorifyUtf8(std::string::FromUtf8Error),
    /// The `.mxl` archive could not be opened or read.
    Zip(zip::result::ZipError),
    /// An entry of the `.mxl` archive could not be read.
    Io(std::io::Error),
    /// The `.mxl` archive holds no score.
    NoScoreInArchive,
    /// The conversion options are not valid JSON for the options object.
    OptionsJson(serde_json::Error),
    /// The document has no `score-partwise` element.
    MissingScore,
    /// The score has no `part` element.
    NoParts,
    /// The Scorify text has no `#score` call.
    MissingScorifyScore,
    /// The Scorify text is malformed; the message says where.
    InvalidScorify(String),
}

} // verus!

verus! {

/// An `InvalidScorify` error with the given message.
pub fn invalid_scorify(message: &[char]) -> (e: ConvertError)
    ensures
        e matches ConvertError::InvalidScorify(m) && m@ == message@,
{
    ConvertError::InvalidScorify(crate::text::chars_to_string(message))
}

/// An `InvalidScorify` error whose message is `before`, then `subject`, then `after`.
pub fn invalid_scorify_about(before: &str, subject: &[char], after: &str) -> (e: ConvertError)
    ensures
        e matches ConvertError::InvalidScorify(m) && m@ == before@ + subject@ + after@,
{
    let mut m: Vec<char> = Vec::new();
    crate::text::push_str(&mut m, before);
    crate::text::push_chars(&mut m, subject);
    crate::text::push_str(&mut m, after);
    invalid_scorify(m.as_slice())
}

/// An `InvalidScorify` error with a fixed message.
pub fn invalid_scorify_str(message: &str) -> (e: ConvertError)
    ensures
        e matches ConvertError::InvalidScorify(m) && m@ == message@,
{
    let m = crate::text::str_to_chars(message);
    invalid_scorify(m.as_slice())
}

} // verus!
