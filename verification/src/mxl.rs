//! Compressed MusicXML: a ZIP archive that holds the score, found through
//! `META-INF/container.xml` or else by its file extension.
use vstd::prelude::*;

use std::io::Read;

use crate::error::ConvertError;

use crate::scorify_writer::ascii_lower;
use crate::musicxml_part::{musicxml_body, skip_bom};
use crate::text::{chars_to_string, ends_with, ends_with_str, skip_ws_from, tail_chars};
use crate::xml::{attribute, attribute_of, find_in_range, node_has_tag, nodes_view, read_xml, xml_parse};

verus! {

/// `zip::ZipArchive`, held only to be read entry by entry.
#[verifier::external_type_specification]
#[verifier::external_body]
#[verifier::reject_recursive_types(R)]
pub struct ExZipArchive<R>(zip::ZipArchive<R>);

/// `std::io::Cursor`, the reader over the archive's bytes.
#[verifier::external_type_specification]
#[verifier::external_body]
#[verifier::reject_recursive_types(T)]
pub struct ExCursor<T>(std::io::Cursor<T>);

/// One entry of an archive: its name, whether `by_index` opens it, and its
/// text when reading it to the end as UTF-8 succeeds.
pub struct ZipEntryView {
    pub name: Seq<char>,
    pub opens: bool,
    pub text: Option<Seq<char>>,
}

/// The entries of an open archive, in the order of its central directory.
pub uninterp spec fn zip_entries(a: zip::ZipArchive<std::io::Cursor<&[u8]>>) -> Seq<ZipEntryView>;

/// The entries of the archive that `ZipArchive::new` reads from the bytes,
/// or nothing when it refuses them.
pub uninterp spec fn zip_archive(bytes: Seq<u8>) -> Option<Seq<ZipEntryView>>;

/// Whether no two entries have the same name.
pub open spec fn distinct_names(es: Seq<ZipEntryView>) -> bool {
    forall|i: int, j: int| 0 <= i < es.len() && 0 <= j < es.len() && i != j ==> #[trigger] es[i].name != #[trigger] es[j].name
}

/// Opens an archive over bytes with `ZipArchive::new`. Its entries are those
/// `zip_archive` names, and their names are distinct (the archive keys its
/// entries by name).
#[verifier::external_body]
fn zip_open(bytes: &[u8]) -> (r: Result<zip::ZipArchive<std::io::Cursor<&[u8]>>, zip::result::ZipError>)
    ensures
        match r {
            Ok(a) => zip_archive(bytes@) == Some(zip_entries(a)) && distinct_names(zip_entries(a)),
            Err(_) => zip_archive(bytes@) is None,
        },
{
    zip::ZipArchive::new(std::io::Cursor::new(bytes))
}

/// The number of entries, from `ZipArchive::len`.
#[verifier::external_body]
fn zip_len(a: &zip::ZipArchive<std::io::Cursor<&[u8]>>) -> (r: usize)
    ensures
        r == zip_entries(*a).len(),
{
    a.len()
}

/// The name of entry `i`, from `ZipArchive::name_for_index`.
#[verifier::external_body]
fn zip_name_at(a: &zip::ZipArchive<std::io::Cursor<&[u8]>>, i: usize) -> (r: Vec<char>)
    requires
        i < zip_entries(*a).len(),
    ensures
        r@ == zip_entries(*a)[i as int].name,
{
    a.name_for_index(i).unwrap().chars().collect()
}

/// Opens entry `i` with `ZipArchive::by_index` and lets it go: whether it opens.
#[verifier::external_body]
fn zip_check_entry(a: &mut zip::ZipArchive<std::io::Cursor<&[u8]>>, i: usize) -> (r: Result<(), zip::result::ZipError>)
    requires
        i < zip_entries(*old(a)).len(),
    ensures
        zip_entries(*final(a)) == zip_entries(*old(a)),
        r is Ok <==> zip_entries(*old(a))[i as int].opens,
{
    a.by_index(i).map(|_| ())
}

/// Why reading an entry failed: it did not open, or its content did not read as UTF-8 text.
pub enum EntryError {
    Open(zip::result::ZipError),
    Read(std::io::Error),
}

/// The first entry named `name`.
pub open spec fn entry_index(es: Seq<ZipEntryView>, name: Seq<char>, k: int) -> Option<int>
    decreases es.len() - k,
{
    if k < 0 || k >= es.len() {
        None
    } else if es[k].name == name {
        Some(k)
    } else {
        entry_index(es, name, k + 1)
    }
}

/// What reading the entry named `name` gives: its text, or that it is
/// missing or does not open (`Err(true)`), or that it does not read (`Err(false)`).
pub open spec fn read_named(es: Seq<ZipEntryView>, name: Seq<char>) -> Result<Seq<char>, bool> {
    match entry_index(es, name, 0) {
        Some(j) => if es[j].opens {
            match es[j].text {
                Some(t) => Ok(t),
                None => Err(false),
            }
        } else {
            Err(true)
        },
        None => Err(true),
    }
}

/// Reads the entry named `name` to the end with `ZipArchive::by_name` and
/// `Read::read_to_string`.
#[verifier::external_body]
fn zip_read_named(a: &mut zip::ZipArchive<std::io::Cursor<&[u8]>>, name: &str) -> (r: Result<Vec<char>, EntryError>)
    ensures
        zip_entries(*final(a)) == zip_entries(*old(a)),
        match r {
            Ok(t) => read_named(zip_entries(*old(a)), name@) == Ok::<Seq<char>, bool>(t@),
            Err(EntryError::Open(_)) => read_named(zip_entries(*old(a)), name@) == Err::<Seq<char>, bool>(true),
            Err(EntryError::Read(_)) => read_named(zip_entries(*old(a)), name@) == Err::<Seq<char>, bool>(false),
        },
{
    let mut file = a.by_name(name).map_err(EntryError::Open)?;
    let mut text = String::new();
    file.read_to_string(&mut text).map_err(EntryError::Read)?;
    Ok(text.chars().collect())
}

proof fn lemma_entry_index_distinct(es: Seq<ZipEntryView>, i: int, k: int)
    requires
        distinct_names(es),
        0 <= k <= i < es.len(),
    ensures
        entry_index(es, es[i].name, k) == Some(i),
    decreases i - k,
{
    if k < i {
        assert(es[k].name != es[i].name);
        lemma_entry_index_distinct(es, i, k + 1);
    }
}

/// What reading a compressed score gives.
pub enum MxlOutcome {
    /// The score's text.
    Found(Seq<char>),
    /// An entry that had to be opened did not open.
    ZipFailure,
    /// An entry that had to be read did not read.
    ReadFailure,
    /// The archive holds no score.
    NoScore,
}

/// The container document's path of the score: the `full-path` of its first `rootfile`.
pub open spec fn container_score_path(text: Seq<char>) -> Option<Seq<char>> {
    match xml_parse(musicxml_body(text)) {
        Some(d) => match find_in_range(d, 0, d.len() as int, "rootfile"@) {
            Some(r) => attribute(d, r, "full-path"@),
            None => None,
        },
        None => None,
    }
}

/// Whether an entry's name ends in `.musicxml` or `.xml`, ignoring ASCII case.
pub open spec fn is_score_name(name: Seq<char>) -> bool {
    ends_with(ascii_lower(name), ".musicxml"@) || ends_with(ascii_lower(name), ".xml"@)
}

/// The first entry from `i` on with a score's name; every entry before it must open.
pub open spec fn scan_entries(es: Seq<ZipEntryView>, i: int) -> MxlOutcome
    decreases es.len() - i,
{
    if i < 0 || i >= es.len() {
        MxlOutcome::NoScore
    } else if !es[i].opens {
        MxlOutcome::ZipFailure
    } else if is_score_name(es[i].name) {
        match es[i].text {
            Some(t) => MxlOutcome::Found(t),
            None => MxlOutcome::ReadFailure,
        }
    } else {
        scan_entries(es, i + 1)
    }
}

/// The score of an archive: the file that `META-INF/container.xml` names
/// where it names one, else the first entry with a score's name.
pub open spec fn spec_read_mxl_entries(es: Seq<ZipEntryView>) -> MxlOutcome {
    let container = read_named(es, "META-INF/container.xml"@);
    if container == Err::<Seq<char>, bool>(false) {
        MxlOutcome::ReadFailure
    } else {
        let path = match container {
            Ok(t) => container_score_path(t),
            Err(_) => None,
        };
        match path {
            Some(p) => match read_named(es, p) {
                Ok(t) => MxlOutcome::Found(t),
                Err(missing) => if missing {
                    MxlOutcome::ZipFailure
                } else {
                    MxlOutcome::ReadFailure
                },
            },
            None => scan_entries(es, 0),
        }
    }
}

/// What reading a compressed score from bytes gives; nothing where the
/// bytes are not an archive.
pub open spec fn spec_read_mxl(bytes: Seq<u8>) -> Option<MxlOutcome> {
    match zip_archive(bytes) {
        Some(es) => Some(spec_read_mxl_entries(es)),
        None => None,
    }
}

/// The `full-path` of the first `rootfile` of a container document.
fn container_path(text: &Vec<char>) -> (r: Option<Vec<char>>)
    ensures
        crate::model::opt_view(r) == container_score_path(text@),
{
    let mut from: usize = 0;
    assert(text@.skip(0) == text@);
    while from < text.len() && text[from] == '\u{feff}'
        invariant
            from <= text@.len(),
            skip_bom(text@) == skip_bom(text@.skip(from as int)),
        decreases text@.len() - from,
    {
        assert(text@.skip(from as int).drop_first() == text@.skip(from + 1));
        from += 1;
    }
    assert(text@.skip(from as int) == text@.subrange(from as int, text@.len() as int));
    let start = skip_ws_from(text.as_slice(), from);
    let body = tail_chars(text.as_slice(), start);
    assert(body@ == musicxml_body(text@));
    let s = chars_to_string(body.as_slice());
    let nodes = match read_xml(s.as_str()) {
        Ok(n) => n,
        Err(_) => {
            return None;
        },
    };
    let ghost d = nodes_view(nodes@);
    let mut j: usize = 0;
    while j < nodes.len()
        invariant
            j <= nodes@.len(),
            d == nodes_view(nodes@),
            xml_parse(musicxml_body(text@)) == Some(d),
            find_in_range(d, 0, d.len() as int, "rootfile"@) == find_in_range(d, j as int, d.len() as int, "rootfile"@),
        decreases nodes@.len() - j,
    {
        if node_has_tag(&nodes, j, "rootfile") {
            return attribute_of(&nodes, j, "full-path");
        }
        j += 1;
    }
    None
}

fn score_name(name: &Vec<char>) -> (r: bool)
    ensures
        r == is_score_name(name@),
{
    let mut lower: Vec<char> = Vec::new();
    let mut i: usize = 0;
    while i < name.len()
        invariant
            i <= name@.len(),
            lower@ == ascii_lower(name@.take(i as int)),
        decreases name@.len() - i,
    {
        lower.push(crate::text::char_to_lower(name[i]));
        i += 1;
        assert(lower@ =~= ascii_lower(name@.take(i as int)));
    }
    assert(name@.take(name@.len() as int) == name@);
    ends_with_str(lower.as_slice(), ".musicxml") || ends_with_str(lower.as_slice(), ".xml")
}

fn entry_error(e: EntryError) -> (r: ConvertError)
    ensures
        match e {
            EntryError::Open(_) => r is Zip,
            EntryError::Read(_) => r is Io,
        },
{
    match e {
        EntryError::Open(z) => ConvertError::Zip(z),
        EntryError::Read(io) => ConvertError::Io(io),
    }
}

/// Reads the score of a compressed MusicXML file.
pub fn read_mxl(bytes: &[u8]) -> (r: Result<Vec<char>, ConvertError>)
    ensures
        match spec_read_mxl(bytes@) {
            None => r matches Err(e) && e is Zip,
            Some(MxlOutcome::Found(t)) => r matches Ok(x) && x@ == t,
            Some(MxlOutcome::ZipFailure) => r matches Err(e) && e is Zip,
            Some(MxlOutcome::ReadFailure) => r matches Err(e) && e is Io,
            Some(MxlOutcome::NoScore) => r matches Err(e) && e is NoScoreInArchive,
        },
{
    let mut archive = match zip_open(bytes) {
        Ok(a) => a,
        Err(e) => {
            return Err(ConvertError::Zip(e));
        },
    };
    let ghost es = zip_entries(archive);
    let container = match zip_read_named(&mut archive, "META-INF/container.xml") {
        Ok(t) => Some(t),
        Err(EntryError::Open(_)) => None,
        Err(EntryError::Read(io)) => {
            return Err(ConvertError::Io(io));
        },
    };
    let path = match &container {
        Some(t) => container_path(t),
        None => None,
    };
    if let Some(p) = path {
        let name = chars_to_string(p.as_slice());
        return match zip_read_named(&mut archive, name.as_str()) {
            Ok(t) => Ok(t),
            Err(e) => Err(entry_error(e)),
        };
    }
    let n = zip_len(&archive);
    let mut i: usize = 0;
    while i < n
        invariant
            i <= n == es.len(),
            zip_entries(archive) == es,
            zip_archive(bytes@) == Some(es),
            distinct_names(es),
            spec_read_mxl_entries(es) == scan_entries(es, i as int),
        decreases n - i,
    {
        if let Err(e) = zip_check_entry(&mut archive, i) {
            return Err(ConvertError::Zip(e));
        }
        let name = zip_name_at(&archive, i);
        if score_name(&name) {
            let s = chars_to_string(name.as_slice());
            proof {
                lemma_entry_index_distinct(es, i as int, 0);
            }
            return match zip_read_named(&mut archive, s.as_str()) {
                Ok(t) => Ok(t),
                Err(e) => Err(entry_error(e)),
            };
        }
        i += 1;
    }
    Err(ConvertError::NoScoreInArchive)
}

} // verus!
