//! Reading a `#score(...)` call into a score, and grouping its staves into parts.
use vstd::prelude::*;

use crate::error::{invalid_scorify, invalid_scorify_about, invalid_scorify_str, ConvertError};
use crate::model::{opt_view, Score, ScoreView, Staff, StaffView};
use crate::scorify_music::{
    measures_view, parse_staff_music, spec_parse_staff_music, staff_message, MeasureView, ParsedStaffMeasure,
};
use crate::text::{copy_chars, find_seq, find_str, push_usize, str_to_chars, tail_chars};
use crate::typst::{
    expect_message, fields_view, named_message, lemma_object_view, lemma_skip_ws_props, lemma_tuple_view, spec_expect, spec_named,
    value_view, values_view, TypstField, TypstParser, TypstValue, ValueView,
};

verus! {

/// The value of the last field named `key` (a later field replaces an earlier one).
pub open spec fn lookup(fields: Seq<(Seq<char>, ValueView)>, key: Seq<char>) -> Option<ValueView>
    decreases fields.len(),
{
    if fields.len() == 0 {
        None
    } else if fields.last().0 == key {
        Some(fields.last().1)
    } else {
        lookup(fields.drop_last(), key)
    }
}

fn find_field<'a>(values: &'a Vec<TypstField>, key: &str) -> (r: Option<&'a TypstValue>)
    ensures
        match r {
            Some(v) => lookup(fields_view(values@), key@) == Some(value_view(*v)),
            None => lookup(fields_view(values@), key@) is None,
        },
{
    let k = str_to_chars(key);
    let mut i = values.len();
    assert(fields_view(values@).take(i as int) == fields_view(values@));
    while i > 0
        invariant
            i <= values.len(),
            k@ == key@,
            lookup(fields_view(values@), key@) == lookup(fields_view(values@).take(i as int), key@),
        decreases i,
    {
        let ghost fv = fields_view(values@).take(i as int);
        assert(fv.drop_last() == fields_view(values@).take(i - 1));
        if crate::text::chars_equal(values[i - 1].key.as_slice(), k.as_slice()) {
            return Some(&values[i - 1].value);
        }
        i -= 1;
    }
    None
}

/// A string field that may be absent: `None` when it is present with another type.
pub open spec fn spec_optional_string(fields: Seq<(Seq<char>, ValueView)>, key: Seq<char>) -> Option<Option<Seq<char>>> {
    match lookup(fields, key) {
        Some(ValueView::Str(v)) => Some(Some(v)),
        Some(_) => None,
        None => Some(None),
    }
}

pub open spec fn spec_optional_bool(fields: Seq<(Seq<char>, ValueView)>, key: Seq<char>) -> Option<Option<bool>> {
    match lookup(fields, key) {
        Some(ValueView::Bool(v)) => Some(Some(v)),
        Some(_) => None,
        None => Some(None),
    }
}

pub open spec fn spec_optional_number(fields: Seq<(Seq<char>, ValueView)>, key: Seq<char>) -> Option<Option<int>> {
    match lookup(fields, key) {
        Some(ValueView::Number(v)) => Some(Some(v)),
        Some(_) => None,
        None => Some(None),
    }
}

pub open spec fn spec_required_string(fields: Seq<(Seq<char>, ValueView)>, key: Seq<char>) -> Option<Seq<char>> {
    match spec_optional_string(fields, key) {
        Some(Some(v)) => Some(v),
        _ => None,
    }
}

/// A string field that may be absent.
pub fn optional_string(values: &Vec<TypstField>, key: &str) -> (r: Result<Option<Vec<char>>, ConvertError>)
    ensures
        match r {
            Ok(v) => spec_optional_string(fields_view(values@), key@) == Some(opt_view(v)),
            Err(e) => spec_optional_string(fields_view(values@), key@) is None && (e matches ConvertError::InvalidScorify(m)
                && m@ == field_kind_message(key@, "string"@)),
        },
{
    match find_field(values, key) {
        Some(TypstValue::String(v)) => Ok(Some(copy_chars(v.as_slice()))),
        Some(other) => {
            proof {
                let ghost vv = value_view(*other);
                assert(!(vv is Str));
            }
            Err(field_kind_error(key, "string"))
        },
        None => Ok(None),
    }
}

/// The message of a field that holds no string, boolean or number where one is wanted.
pub open spec fn field_kind_message(key: Seq<char>, kind: Seq<char>) -> Seq<char> {
    "field '"@ + key + "' must be a "@ + kind
}

fn field_kind_error(key: &str, kind: &str) -> (e: ConvertError)
    ensures
        e matches ConvertError::InvalidScorify(m) && m@ == field_kind_message(key@, kind@),
{
    let mut m = str_to_chars("field '");
    crate::text::push_str(&mut m, key);
    crate::text::push_str(&mut m, "' must be a ");
    crate::text::push_str(&mut m, kind);
    invalid_scorify(m.as_slice())
}

/// The message of a required string field that is not a string or is absent.
pub open spec fn required_message(fields: Seq<(Seq<char>, ValueView)>, key: Seq<char>) -> Seq<char> {
    if spec_optional_string(fields, key) is None {
        field_kind_message(key, "string"@)
    } else {
        "missing required score field '"@ + key + "'"@
    }
}

/// A string field that must be present.
pub fn required_string(values: &Vec<TypstField>, key: &str) -> (r: Result<Vec<char>, ConvertError>)
    ensures
        match r {
            Ok(v) => spec_required_string(fields_view(values@), key@) == Some(v@),
            Err(e) => spec_required_string(fields_view(values@), key@) is None && (e matches ConvertError::InvalidScorify(m)
                && m@ == required_message(fields_view(values@), key@)),
        },
{
    match optional_string(values, key)? {
        Some(v) => Ok(v),
        None => Err(invalid_scorify_about("missing required score field '", str_to_chars(key).as_slice(), "'")),
    }
}

/// A boolean field that may be absent.
pub fn optional_bool(values: &Vec<TypstField>, key: &str) -> (r: Result<Option<bool>, ConvertError>)
    ensures
        match r {
            Ok(v) => spec_optional_bool(fields_view(values@), key@) == Some(v),
            Err(e) => spec_optional_bool(fields_view(values@), key@) is None && (e matches ConvertError::InvalidScorify(m)
                && m@ == field_kind_message(key@, "boolean"@)),
        },
{
    match find_field(values, key) {
        Some(TypstValue::Bool(v)) => Ok(Some(*v)),
        Some(other) => {
            proof {
                let ghost vv = value_view(*other);
                assert(!(vv is Bool));
            }
            Err(field_kind_error(key, "boolean"))
        },
        None => Ok(None),
    }
}

/// A number field that may be absent.
pub fn optional_number(values: &Vec<TypstField>, key: &str) -> (r: Result<Option<i64>, ConvertError>)
    ensures
        match r {
            Ok(v) => spec_optional_number(fields_view(values@), key@) == Some(
                match v {
                    Some(n) => Some(n as int),
                    None => None,
                },
            ),
            Err(e) => spec_optional_number(fields_view(values@), key@) is None && (e matches ConvertError::InvalidScorify(m)
                && m@ == field_kind_message(key@, "number"@)),
        },
{
    match find_field(values, key) {
        Some(TypstValue::Number(v)) => Ok(Some(*v)),
        Some(other) => {
            proof {
                let ghost vv = value_view(*other);
                assert(!(vv is Number));
            }
            Err(field_kind_error(key, "number"))
        },
        None => Ok(None),
    }
}

pub open spec fn bool_or_false(b: Option<Option<bool>>) -> Option<bool> {
    match b {
        Some(Some(v)) => Some(v),
        Some(None) => Some(false),
        None => None,
    }
}

/// A staff from its named fields.
pub open spec fn spec_staff(obj: Seq<(Seq<char>, ValueView)>) -> Option<StaffView> {
    match (
        spec_required_string(obj, "clef"@),
        spec_required_string(obj, "music"@),
        spec_optional_string(obj, "instrument-name"@),
        spec_optional_string(obj, "instrument-name-cont"@),
        bool_or_false(spec_optional_bool(obj, "brace-start"@)),
        bool_or_false(spec_optional_bool(obj, "brace-end"@)),
        bool_or_false(spec_optional_bool(obj, "bracket-start"@)),
        bool_or_false(spec_optional_bool(obj, "bracket-end"@)),
    ) {
        (Some(clef), Some(music), Some(iname), Some(icont), Some(bs), Some(be), Some(ks), Some(ke)) => Some(
            StaffView {
                clef,
                music,
                instrument_name: iname,
                instrument_name_cont: icont,
                brace_start: bs,
                brace_end: be,
                bracket_start: ks,
                bracket_end: ke,
            },
        ),
        _ => None,
    }
}

/// The staves of the `staves` tuple: each entry must be a tuple of named fields.
pub open spec fn spec_staves(entries: Seq<ValueView>) -> Option<Seq<StaffView>>
    decreases entries.len(),
{
    if entries.len() == 0 {
        Some(seq![])
    } else {
        match spec_staves(entries.drop_last()) {
            Some(prev) => match entries.last() {
                ValueView::Object(obj) => match spec_staff(obj) {
                    Some(st) => Some(prev.push(st)),
                    None => None,
                },
                _ => None,
            },
            None => None,
        }
    }
}

/// The score of a `#score(...)` call whose fields are `fields`.
pub open spec fn spec_score_of_fields(fields: Seq<(Seq<char>, ValueView)>) -> Option<ScoreView> {
    match lookup(fields, "staves"@) {
        Some(ValueView::Tuple(entries)) => match (
            spec_optional_number(fields, "measures-per-line"@),
            spec_staves(entries),
            spec_optional_string(fields, "title"@),
            spec_optional_string(fields, "composer"@),
            spec_optional_string(fields, "key"@),
            spec_optional_string(fields, "time"@),
        ) {
            (Some(_), Some(staves), Some(title), Some(composer), Some(key), Some(time)) => Some(
                ScoreView { title, composer, key, time, staves },
            ),
            _ => None,
        },
        _ => None,
    }
}

/// The fields of the `#score(...)` call that starts at the first `#score` of the source.
pub open spec fn spec_score_fields(source: Seq<char>) -> Option<Seq<(Seq<char>, ValueView)>> {
    match find_seq(source, "#score"@) {
        Some(off) => {
            let s = source.skip(off + 6);
            match spec_expect(s, 0, '(') {
                Some(q) => match spec_named(s, q, ')', seq![]) {
                    Some((fields, e)) => match spec_expect(s, e, ')') {
                        Some(_) => Some(fields),
                        None => None,
                    },
                    None => None,
                },
                None => None,
            }
        },
        None => None,
    }
}

/// The score that a Scorify source describes.
pub open spec fn spec_parse_scorify_score(source: Seq<char>) -> Option<ScoreView> {
    match spec_score_fields(source) {
        Some(fields) => spec_score_of_fields(fields),
        None => None,
    }
}

/// The message of the first field of a staff that does not read.
pub open spec fn staff_fields_message(obj: Seq<(Seq<char>, ValueView)>) -> Seq<char> {
    if spec_required_string(obj, "clef"@) is None {
        required_message(obj, "clef"@)
    } else if spec_required_string(obj, "music"@) is None {
        required_message(obj, "music"@)
    } else if spec_optional_string(obj, "instrument-name"@) is None {
        field_kind_message("instrument-name"@, "string"@)
    } else if spec_optional_string(obj, "instrument-name-cont"@) is None {
        field_kind_message("instrument-name-cont"@, "string"@)
    } else if spec_optional_bool(obj, "brace-start"@) is None {
        field_kind_message("brace-start"@, "boolean"@)
    } else if spec_optional_bool(obj, "brace-end"@) is None {
        field_kind_message("brace-end"@, "boolean"@)
    } else if spec_optional_bool(obj, "bracket-start"@) is None {
        field_kind_message("bracket-start"@, "boolean"@)
    } else {
        field_kind_message("bracket-end"@, "boolean"@)
    }
}

/// The message of the first entry of the `staves` tuple, from `i` on, that
/// is no staff.
pub open spec fn staves_message_from(entries: Seq<ValueView>, i: int) -> Seq<char>
    decreases entries.len() - i,
{
    if i < 0 || i >= entries.len() {
        seq![]
    } else {
        match entries[i] {
            ValueView::Object(obj) => if spec_staff(obj) is None {
                staff_fields_message(obj)
            } else {
                staves_message_from(entries, i + 1)
            },
            _ => "each staff must be a tuple of named fields"@,
        }
    }
}

/// The message of the fields of a `#score(...)` call that do not make a score.
pub open spec fn score_fields_message(fields: Seq<(Seq<char>, ValueView)>) -> Seq<char> {
    match lookup(fields, "staves"@) {
        None => "score is missing staves"@,
        Some(v) => if spec_optional_number(fields, "measures-per-line"@) is None {
            field_kind_message("measures-per-line"@, "number"@)
        } else {
            match v {
                ValueView::Tuple(entries) => if spec_staves(entries) is None {
                    staves_message_from(entries, 0)
                } else if spec_optional_string(fields, "title"@) is None {
                    field_kind_message("title"@, "string"@)
                } else if spec_optional_string(fields, "composer"@) is None {
                    field_kind_message("composer"@, "string"@)
                } else if spec_optional_string(fields, "key"@) is None {
                    field_kind_message("key"@, "string"@)
                } else {
                    field_kind_message("time"@, "string"@)
                },
                _ => "staves must be a tuple"@,
            }
        },
    }
}

fn parse_staff_fields(object: &Vec<TypstField>) -> (r: Result<Staff, ConvertError>)
    ensures
        match r {
            Ok(st) => spec_staff(fields_view(object@)) == Some(st@),
            Err(e) => spec_staff(fields_view(object@)) is None && (e matches ConvertError::InvalidScorify(m) && m@
                == staff_fields_message(fields_view(object@))),
        },
{
    let clef = required_string(object, "clef")?;
    let music = required_string(object, "music")?;
    let instrument_name = optional_string(object, "instrument-name")?;
    let instrument_name_cont = optional_string(object, "instrument-name-cont")?;
    let brace_start = match optional_bool(object, "brace-start")? {
        Some(b) => b,
        None => false,
    };
    let brace_end = match optional_bool(object, "brace-end")? {
        Some(b) => b,
        None => false,
    };
    let bracket_start = match optional_bool(object, "bracket-start")? {
        Some(b) => b,
        None => false,
    };
    let bracket_end = match optional_bool(object, "bracket-end")? {
        Some(b) => b,
        None => false,
    };
    Ok(Staff { clef, music, instrument_name, instrument_name_cont, brace_start, brace_end, bracket_start, bracket_end })
}

fn parse_staves(entries: &Vec<TypstValue>) -> (r: Result<Vec<Staff>, ConvertError>)
    ensures
        match r {
            Ok(staves) => spec_staves(values_view(entries@)) == Some(staves@.map_values(|s: Staff| s@)),
            Err(e) => spec_staves(values_view(entries@)) is None && (e matches ConvertError::InvalidScorify(m) && m@
                == staves_message_from(values_view(entries@), 0)),
        },
{
    let mut staves: Vec<Staff> = Vec::new();
    let mut i: usize = 0;
    assert(staves@.map_values(|s: Staff| s@) =~= Seq::<StaffView>::empty());
    while i < entries.len()
        invariant
            i <= entries.len(),
            spec_staves(values_view(entries@).take(i as int)) == Some(staves@.map_values(|s: Staff| s@)),
            staves_message_from(values_view(entries@), 0) == staves_message_from(values_view(entries@), i as int),
        decreases entries.len() - i,
    {
        assert(values_view(entries@).take(i + 1).drop_last() == values_view(entries@).take(i as int));
        assert(values_view(entries@).take(i + 1).last() == value_view(entries@[i as int]));
        let object = match &entries[i] {
            TypstValue::Object(o) => o,
            _ => {
                proof {
                    lemma_staves_prefix_none(values_view(entries@), i + 1);
                }
                return Err(invalid_scorify_str("each staff must be a tuple of named fields"));
            },
        };
        proof {
            lemma_object_view(*object);
        }
        let staff = match parse_staff_fields(object) {
            Ok(st) => st,
            Err(e) => {
                proof {
                    lemma_staves_prefix_none(values_view(entries@), i + 1);
                }
                return Err(e);
            },
        };
        assert(staves_message_from(values_view(entries@), i as int) == staves_message_from(
            values_view(entries@),
            i + 1,
        ));
        let ghost prev = staves@;
        let ghost sv = staff@;
        staves.push(staff);
        assert(staves@.map_values(|s: Staff| s@) =~= prev.map_values(|s: Staff| s@).push(sv));
        i += 1;
    }
    assert(values_view(entries@).take(entries.len() as int) == values_view(entries@));
    Ok(staves)
}

fn score_from_fields(fields: &Vec<TypstField>) -> (r: Result<Score, ConvertError>)
    ensures
        match r {
            Ok(score) => spec_score_of_fields(fields_view(fields@)) == Some(score@),
            Err(e) => spec_score_of_fields(fields_view(fields@)) is None && (e matches ConvertError::InvalidScorify(m)
                && m@ == score_fields_message(fields_view(fields@))),
        },
{
    let staves_value = match find_field(fields, "staves") {
        Some(v) => v,
        None => {
            return Err(invalid_scorify_str("score is missing staves"));
        },
    };
    let _ = optional_number(fields, "measures-per-line")?;
    let entries = match staves_value {
        TypstValue::Tuple(t) => t,
        _ => {
            return Err(invalid_scorify_str("staves must be a tuple"));
        },
    };
    proof {
        lemma_tuple_view(*entries);
    }
    let staves = parse_staves(entries)?;
    let title = optional_string(fields, "title")?;
    let composer = optional_string(fields, "composer")?;
    let key = optional_string(fields, "key")?;
    let time = optional_string(fields, "time")?;
    let score = Score { title, composer, key, time, staves };
    Ok(score)
}

/// What the error of a `#score(...)` call (its text after `#score` is `s`)
/// says: the missing `(` or `)`, the first argument that does not read, or
/// the first field that does not make a score.
pub open spec fn score_call_message_holds(s: Seq<char>, e: ConvertError) -> bool {
    match spec_expect(s, 0, '(') {
        None => e matches ConvertError::InvalidScorify(m) && m@ == expect_message(s, 0, '('),
        Some(q) => match spec_named(s, q, ')', seq![]) {
            None => e matches ConvertError::InvalidScorify(m) && m@ == named_message(s, q, ')'),
            Some((fields, en)) => match spec_expect(s, en, ')') {
                None => e matches ConvertError::InvalidScorify(m) && m@ == expect_message(s, en, ')'),
                Some(_) => e matches ConvertError::InvalidScorify(m) && m@ == score_fields_message(fields),
            },
        },
    }
}

/// Reads the `#score(...)` call of a Scorify source into a score.
#[verifier::rlimit(60)]
pub fn parse_scorify_score(source: &[char]) -> (r: Result<Score, ConvertError>)
    ensures
        match r {
            Ok(score) => spec_parse_scorify_score(source@) == Some(score@),
            Err(e) => spec_parse_scorify_score(source@) is None && (e is MissingScorifyScore <==> find_seq(
                source@,
                "#score"@,
            ) is None) && (e is MissingScorifyScore || e is InvalidScorify) && (find_seq(source@, "#score"@) matches Some(
                off,
            ) ==> score_call_message_holds(source@.skip(off + 6), e)),
        },
{
    proof {
        reveal_strlit("#score");
    }
    let off = match find_str(source, "#score") {
        Some(o) => o,
        None => {
            return Err(ConvertError::MissingScorifyScore);
        },
    };
    assert("#score"@.len() == 6);
    assert(off + 6 <= source@.len());
    let n = source.len();
    assert(off + 6 <= n);
    let start = off + 6;
    let rest = tail_chars(source, start);
    assert(rest@ == source@.skip(off + 6));
    let mut parser = TypstParser::new(rest);
    parser.skip_ws_comments();
    proof {
        lemma_skip_ws_props(source@.skip(off + 6), 0);
    }
    parser.expect('(')?;
    let fields = parser.parse_named_args(')')?;
    parser.expect(')')?;
    assert(spec_score_fields(source@) == Some(fields_view(fields@)));
    score_from_fields(&fields)
}

proof fn lemma_staves_prefix_none(entries: Seq<ValueView>, k: int)
    requires
        0 <= k <= entries.len(),
        spec_staves(entries.take(k)) is None,
    ensures
        spec_staves(entries) is None,
    decreases entries.len() - k,
{
    if k < entries.len() {
        assert(entries.take(k + 1).drop_last() == entries.take(k));
        lemma_staves_prefix_none(entries, k + 1);
    } else {
        assert(entries.take(k) == entries);
    }
}

// ---------------------------------------------------------------------------
// Grouping staves into parts
// ---------------------------------------------------------------------------

pub open spec fn group_flag_end(st: StaffView, brace: bool) -> bool {
    if brace {
        st.brace_end
    } else {
        st.bracket_end
    }
}

/// Smallest `e >= from` with `e == len` or `staves[e - 1]` closing the group.
pub open spec fn group_scan(staves: Seq<StaffView>, e: int, brace: bool) -> int
    decreases staves.len() - e,
{
    if e < 1 || e >= staves.len() {
        e
    } else if group_flag_end(staves[e - 1], brace) {
        e
    } else {
        group_scan(staves, e + 1, brace)
    }
}

pub open spec fn min_int(a: int, b: int) -> int {
    if a <= b {
        a
    } else {
        b
    }
}

/// End (exclusive) of the part that starts at staff `start`: a brace or
/// bracket group runs to the staff that closes it, and spans at least two
/// staves where two remain; any other staff is a part of its own.
pub open spec fn group_end(staves: Seq<StaffView>, start: int) -> int {
    let n = staves.len() as int;
    if staves[start].brace_start || staves[start].bracket_start {
        let brace = staves[start].brace_start;
        let e = group_scan(staves, start + 1, brace);
        if e == start + 1 {
            min_int(start + 2, n)
        } else {
            e
        }
    } else {
        start + 1
    }
}

/// The view of one staff of a part.
pub struct PartStaffView {
    pub staff_number: nat,
    pub clef: Seq<char>,
    pub measures: Seq<MeasureView>,
}

/// The view of a part.
pub struct PartView {
    pub id: Seq<char>,
    pub name: Option<Seq<char>>,
    pub abbreviation: Option<Seq<char>>,
    pub staves: Seq<PartStaffView>,
}

/// One staff of a part, numbered from 1 within the part.
pub struct PartStaff {
    pub staff_number: usize,
    pub clef: Vec<char>,
    pub measures: Vec<ParsedStaffMeasure>,
}

impl View for PartStaff {
    type V = PartStaffView;

    open spec fn view(&self) -> PartStaffView {
        PartStaffView { staff_number: self.staff_number as nat, clef: self.clef@, measures: measures_view(self.measures@) }
    }
}

/// A MusicXML part: one staff, or a group of staves joined by a brace or bracket.
pub struct PartSpec {
    pub id: Vec<char>,
    pub name: Option<Vec<char>>,
    pub abbreviation: Option<Vec<char>>,
    pub staves: Vec<PartStaff>,
}

impl View for PartSpec {
    type V = PartView;

    open spec fn view(&self) -> PartView {
        PartView {
            id: self.id@,
            name: opt_view(self.name),
            abbreviation: opt_view(self.abbreviation),
            staves: self.staves@.map_values(|s: PartStaff| s@),
        }
    }
}

pub open spec fn parts_view(v: Seq<PartSpec>) -> Seq<PartView> {
    v.map_values(|p: PartSpec| p@)
}

/// The staves of a group, read into measures; all must have as many
/// measures as the first.
pub open spec fn group_staves(grouped: Seq<StaffView>) -> Option<Seq<PartStaffView>>
    decreases grouped.len(),
{
    if grouped.len() == 0 {
        Some(seq![])
    } else {
        match group_staves(grouped.drop_last()) {
            Some(prev) => {
                let st = grouped.last();
                match spec_parse_staff_music(st.music, st.clef) {
                    Some(ms) => if prev.len() > 0 && prev[0].measures.len() != ms.len() {
                        None
                    } else {
                        Some(prev.push(PartStaffView { staff_number: grouped.len(), clef: st.clef, measures: ms }))
                    },
                    None => None,
                }
            },
            None => None,
        }
    }
}

/// The parts of the staves from `index` on, after the parts `acc`.
pub open spec fn parts_from(staves: Seq<StaffView>, index: int, acc: Seq<PartView>) -> Option<Seq<PartView>>
    decreases staves.len() - index,
{
    if index < 0 || index >= staves.len() {
        Some(acc)
    } else {
        let end = group_end(staves, index);
        if end <= index || end > staves.len() {
            None
        } else {
            let grouped = staves.subrange(index, end);
            match group_staves(grouped) {
                Some(pstaves) => parts_from(
                    staves,
                    end,
                    acc.push(
                        PartView {
                            id: "P"@ + crate::text::decimal((acc.len() + 1) as nat),
                            name: grouped[0].instrument_name,
                            abbreviation: grouped[0].instrument_name_cont,
                            staves: pstaves,
                        },
                    ),
                ),
                None => None,
            }
        }
    }
}

pub open spec fn spec_build_parts(score: ScoreView) -> Option<Seq<PartView>> {
    parts_from(score.staves, 0, seq![])
}

/// Parts ready to be written: each has a staff, all its staves have as many
/// measures, and its staves are numbered from 1.
pub open spec fn parts_well_formed(parts: Seq<PartView>) -> bool {
    forall|i: int|
        0 <= i < parts.len() ==> {
            let p = #[trigger] parts[i];
            &&& p.staves.len() > 0
            &&& forall|j: int|
                0 <= j < p.staves.len() ==> (#[trigger] p.staves[j]).measures.len() == p.staves[0].measures.len()
                    && p.staves[j].staff_number == j + 1
        }
}

fn closes_group(st: &Staff, brace: bool) -> (r: bool)
    ensures
        r == group_flag_end(st@, brace),
{
    if brace {
        st.brace_end
    } else {
        st.bracket_end
    }
}

fn group_scan_exec(staves: &Vec<Staff>, start: usize, brace: bool) -> (r: usize)
    requires
        start < staves.len(),
    ensures
        r == group_scan(staves@.map_values(|s: Staff| s@), start + 1, brace),
        start + 1 <= r <= staves.len(),
{
    let ghost sv = staves@.map_values(|s: Staff| s@);
    let n = staves.len();
    let mut e = start + 1;
    while e < n && !closes_group(&staves[e - 1], brace)
        invariant
            start + 1 <= e <= n == staves.len(),
            sv == staves@.map_values(|s: Staff| s@),
            group_scan(sv, start + 1, brace) == group_scan(sv, e as int, brace),
        decreases n - e,
    {
        e += 1;
    }
    e
}

/// Reads the music of the staves `start..end` as one part's staves.
/// The message of the first staff of a group, from `k` on, whose music
/// does not read or whose measures are not as many as those of the first
/// staff (`count`); `start` is the index of the group's first staff.
pub open spec fn group_message(grouped: Seq<StaffView>, k: int, count: Option<nat>, start: int) -> Seq<char>
    decreases grouped.len() - k,
{
    if k < 0 || k >= grouped.len() {
        seq![]
    } else {
        let st = grouped[k];
        match spec_parse_staff_music(st.music, st.clef) {
            None => staff_message(st.music, st.clef),
            Some(ms) => if count is Some && count.unwrap() != ms.len() {
                "staff group starting at staff "@ + crate::text::decimal((start + 1) as nat)
                    + " has mismatched measure counts"@
            } else {
                group_message(
                    grouped,
                    k + 1,
                    if count is Some {
                        count
                    } else {
                        Some(ms.len())
                    },
                    start,
                )
            },
        }
    }
}

/// The message of the first group of staves, from `index` on, that does not read.
pub open spec fn parts_message(staves: Seq<StaffView>, index: int) -> Seq<char>
    decreases staves.len() - index,
{
    if index < 0 || index >= staves.len() {
        seq![]
    } else {
        let end = group_end(staves, index);
        if end <= index || end > staves.len() {
            seq![]
        } else if group_staves(staves.subrange(index, end)) is None {
            group_message(staves.subrange(index, end), 0, None, index)
        } else {
            parts_message(staves, end)
        }
    }
}

fn read_group(staves: &Vec<Staff>, start: usize, end: usize) -> (r: Result<Vec<PartStaff>, ConvertError>)
    requires
        start < end <= staves.len(),
    ensures
        match r {
            Ok(ps) => group_staves(staves@.map_values(|s: Staff| s@).subrange(start as int, end as int)) == Some(
                ps@.map_values(|s: PartStaff| s@),
            ) && ps@.len() == end - start && forall|j: int|
                0 <= j < ps@.len() ==> (#[trigger] ps@[j]).measures@.len() == ps@[0].measures@.len()
                    && ps@[j].staff_number == j + 1,
            Err(e) => group_staves(staves@.map_values(|s: Staff| s@).subrange(start as int, end as int)) is None
                && (e matches ConvertError::InvalidScorify(m) && m@ == group_message(
                staves@.map_values(|s: Staff| s@).subrange(start as int, end as int),
                0,
                None,
                start as int,
            )),
        },
{
    let ghost grouped = staves@.map_values(|s: Staff| s@).subrange(start as int, end as int);
    let mut pstaves: Vec<PartStaff> = Vec::new();
    let mut k = start;
    assert(pstaves@.map_values(|s: PartStaff| s@) =~= Seq::<PartStaffView>::empty());
    assert(grouped.take(0) =~= Seq::<StaffView>::empty());
    while k < end
        invariant
            start <= k <= end <= staves.len(),
            grouped == staves@.map_values(|s: Staff| s@).subrange(start as int, end as int),
            group_staves(grouped.take(k - start)) == Some(pstaves@.map_values(|s: PartStaff| s@)),
            group_message(grouped, 0, None, start as int) == group_message(
                grouped,
                k - start,
                if pstaves@.len() > 0 {
                    Some(pstaves@[0].measures@.len())
                } else {
                    None
                },
                start as int,
            ),
            pstaves@.len() == k - start,
            forall|j: int|
                0 <= j < pstaves@.len() ==> (#[trigger] pstaves@[j]).measures@.len() == pstaves@[0].measures@.len()
                    && pstaves@[j].staff_number == j + 1,
        decreases end - k,
    {
        let gs = &staves[k];
        assert(grouped.take(k + 1 - start).drop_last() == grouped.take(k - start));
        assert(grouped.take(k + 1 - start).last() == gs@);
        let measures = match parse_staff_music(gs.music.as_slice(), gs.clef.as_slice()) {
            Ok(m) => m,
            Err(e) => {
                proof {
                    lemma_group_prefix_none(grouped, k + 1 - start);
                }
                return Err(e);
            },
        };
        if pstaves.len() > 0 && pstaves[0].measures.len() != measures.len() {
            let mut m = str_to_chars("staff group starting at staff ");
            push_usize(&mut m, start + 1);
            crate::text::push_str(&mut m, " has mismatched measure counts");
            proof {
                lemma_group_prefix_none(grouped, k + 1 - start);
            }
            return Err(invalid_scorify(m.as_slice()));
        }
        let ghost prev = pstaves@;
        let ps = PartStaff { staff_number: k - start + 1, clef: copy_chars(gs.clef.as_slice()), measures };
        let ghost pv = ps@;
        pstaves.push(ps);
        assert(pstaves@.map_values(|s: PartStaff| s@) =~= prev.map_values(|s: PartStaff| s@).push(pv));
        k += 1;
    }
    assert(grouped.take(end - start) == grouped);
    Ok(pstaves)
}

/// Groups the staves of a score into parts and reads each staff's music.
#[verifier::rlimit(80)]
pub fn build_parts(score: &Score) -> (r: Result<Vec<PartSpec>, ConvertError>)
    ensures
        match r {
            Ok(parts) => spec_build_parts(score@) == Some(parts_view(parts@)) && parts_well_formed(parts_view(parts@)),
            Err(e) => spec_build_parts(score@) is None && (e matches ConvertError::InvalidScorify(m) && m@
                == parts_message(score@.staves, 0)),
        },
{
    let ghost sv = score@.staves;
    let n = score.staves.len();
    let mut parts: Vec<PartSpec> = Vec::new();
    let mut index: usize = 0;
    assert(parts_view(parts@) =~= Seq::<PartView>::empty());
    while index < n
        invariant
            index <= n == score.staves.len(),
            parts@.len() <= index,
            sv == score@.staves,
            spec_build_parts(score@) == parts_from(sv, index as int, parts_view(parts@)),
            parts_message(sv, 0) == parts_message(sv, index as int),
            parts_well_formed(parts_view(parts@)),
        decreases n - index,
    {
        let start = index;
        let staff = &score.staves[index];
        let mut end = start + 1;
        if staff.brace_start || staff.bracket_start {
            end = group_scan_exec(&score.staves, start, staff.brace_start);
            if end == start + 1 {
                end = if start + 1 < n {
                    start + 2
                } else {
                    n
                };
            }
        }
        assert(end == group_end(sv, start as int));
        let pstaves = match read_group(&score.staves, start, end) {
            Ok(p) => p,
            Err(e) => {
                return Err(e);
            },
        };
        let first = &score.staves[start];
        let mut id = str_to_chars("P");
        push_usize(&mut id, parts.len() + 1);
        let name = match &first.instrument_name {
            Some(v) => Some(copy_chars(v.as_slice())),
            None => None,
        };
        let abbreviation = match &first.instrument_name_cont {
            Some(v) => Some(copy_chars(v.as_slice())),
            None => None,
        };
        let part = PartSpec { id, name, abbreviation, staves: pstaves };
        let ghost prev = parts@;
        let ghost pv = part@;
        assert(sv.subrange(start as int, end as int)[0] == first@);
        parts.push(part);
        assert(parts_view(parts@) =~= parts_view(prev).push(pv));
        assert(parts_view(parts@)[parts@.len() - 1] == pv);
        index = end;
    }
    Ok(parts)
}

proof fn lemma_group_prefix_none(grouped: Seq<StaffView>, k: int)
    requires
        0 <= k <= grouped.len(),
        group_staves(grouped.take(k)) is None,
    ensures
        group_staves(grouped) is None,
    decreases grouped.len() - k,
{
    if k < grouped.len() {
        assert(grouped.take(k + 1).drop_last() == grouped.take(k));
        lemma_group_prefix_none(grouped, k + 1);
    } else {
        assert(grouped.take(k) == grouped);
    }
}

} // verus!
