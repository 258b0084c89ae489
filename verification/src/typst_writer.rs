//! Writing a score as a Typst `#score(...)` call, and the options that shape it.
use vstd::prelude::*;

use crate::model::{opt_view, Score, ScoreView, Staff, StaffView};
use crate::scorify_writer::{escape_typst_string, push_escaped_typst};
use crate::text::{decimal, push_decimal, push_str, str_to_chars, trim};

verus! {

/// How a score is written: with the package import, with which package,
/// with a fixed number of measures per line, with a comment on top.
#[derive(Debug, Clone)]
pub struct ConversionOptions {
    pub include_import: bool,
    pub package: String,
    pub measures_per_line: Option<u32>,
    pub include_comment: bool,
}

/// The mathematical value of `ConversionOptions`.
pub struct OptionsView {
    pub include_import: bool,
    pub package: Seq<char>,
    pub measures_per_line: Option<u32>,
    pub include_comment: bool,
}

impl View for ConversionOptions {
    type V = OptionsView;

    open spec fn view(&self) -> OptionsView {
        OptionsView {
            include_import: self.include_import,
            package: self.package@,
            measures_per_line: self.measures_per_line,
            include_comment: self.include_comment,
        }
    }
}

/// The options used where none are given: the import of Scorify 0.3.0,
/// Scorify's own line breaks, no comment.
pub open spec fn default_options() -> OptionsView {
    OptionsView {
        include_import: true,
        package: "@preview/scorify:0.3.0"@,
        measures_per_line: None,
        include_comment: false,
    }
}

impl Default for ConversionOptions {
    fn default() -> (r: Self)
        ensures
            r@ == default_options(),
    {
        ConversionOptions {
            include_import: true,
            package: String::from_str("@preview/scorify:0.3.0"),
            measures_per_line: None,
            include_comment: false,
        }
    }
}

/// Options that a caller sets, each left as it is where not given.
pub struct ConversionOptionsPatch {
    pub include_import: Option<bool>,
    pub package: Option<String>,
    pub measures_per_line: Option<u32>,
    pub include_comment: Option<bool>,
}

/// The mathematical value of `ConversionOptionsPatch`.
pub struct PatchView {
    pub include_import: Option<bool>,
    pub package: Option<Seq<char>>,
    pub measures_per_line: Option<u32>,
    pub include_comment: Option<bool>,
}

impl View for ConversionOptionsPatch {
    type V = PatchView;

    open spec fn view(&self) -> PatchView {
        PatchView {
            include_import: self.include_import,
            package: match &self.package {
                Some(p) => Some(p@),
                None => None,
            },
            measures_per_line: self.measures_per_line,
            include_comment: self.include_comment,
        }
    }
}

/// Options with a patch applied: what the patch gives wins.
pub open spec fn spec_apply_patch(o: OptionsView, p: PatchView) -> OptionsView {
    OptionsView {
        include_import: match p.include_import {
            Some(b) => b,
            None => o.include_import,
        },
        package: match p.package {
            Some(s) => s,
            None => o.package,
        },
        measures_per_line: match p.measures_per_line {
            Some(n) => Some(n),
            None => o.measures_per_line,
        },
        include_comment: match p.include_comment {
            Some(b) => b,
            None => o.include_comment,
        },
    }
}

fn copy_string(s: &String) -> (r: String)
    ensures
        r@ == s@,
{
    let chars = str_to_chars(s.as_str());
    crate::text::chars_to_string(chars.as_slice())
}

impl ConversionOptions {
    /// These options with what a patch sets.
    pub fn apply_patch(&self, patch: ConversionOptionsPatch) -> (r: Self)
        ensures
            r@ == spec_apply_patch(self@, patch@),
    {
        ConversionOptions {
            include_import: match patch.include_import {
                Some(b) => b,
                None => self.include_import,
            },
            package: match patch.package {
                Some(s) => s,
                None => copy_string(&self.package),
            },
            measures_per_line: match patch.measures_per_line {
                Some(n) => Some(n),
                None => self.measures_per_line,
            },
            include_comment: match patch.include_comment {
                Some(b) => b,
                None => self.include_comment,
            },
        }
    }
}

/// Whether an options text is empty but for whitespace: such a text means
/// the default options.
pub fn options_json_is_blank(options_json: &str) -> (r: bool)
    ensures
        r == (trim(options_json@).len() == 0),
{
    let chars = str_to_chars(options_json);
    crate::text::is_blank(chars.as_slice())
}

// ---------------------------------------------------------------------------
// The Typst call
// ---------------------------------------------------------------------------

/// A named string argument: `indent`, the name, `: "`, the escaped value, `",` and a newline.
pub open spec fn string_arg(indent: Seq<char>, name: Seq<char>, value: Seq<char>) -> Seq<char> {
    indent + name + ": \""@ + escape_typst_string(value) + "\",\n"@
}

pub open spec fn opt_string_arg(indent: Seq<char>, name: Seq<char>, value: Option<Seq<char>>) -> Seq<char> {
    match value {
        Some(v) => string_arg(indent, name, v),
        None => seq![],
    }
}

pub open spec fn flag_arg(set: bool, line: Seq<char>) -> Seq<char> {
    if set {
        line
    } else {
        seq![]
    }
}

/// The start of a staff: its clef and instrument names.
pub open spec fn staff_head(s: StaffView) -> Seq<char> {
    "    (\n"@ + string_arg("      "@, "clef"@, s.clef) + opt_string_arg("      "@, "instrument-name"@, s.instrument_name)
        + opt_string_arg("      "@, "instrument-name-cont"@, s.instrument_name_cont)
}

/// The brace and bracket flags of a staff.
pub open spec fn staff_flags(s: StaffView) -> Seq<char> {
    flag_arg(s.brace_start, "      brace-start: true,\n"@) + flag_arg(s.brace_end, "      brace-end: true,\n"@) + flag_arg(
        s.bracket_start,
        "      bracket-start: true,\n"@,
    ) + flag_arg(s.bracket_end, "      bracket-end: true,\n"@)
}

/// One staff of the `staves` tuple.
pub open spec fn staff_typst(s: StaffView) -> Seq<char> {
    staff_head(s) + staff_flags(s) + string_arg("      "@, "music"@, s.music) + "    ),\n"@
}

pub open spec fn staves_typst(staves: Seq<StaffView>) -> Seq<char>
    decreases staves.len(),
{
    if staves.len() == 0 {
        seq![]
    } else {
        staves_typst(staves.drop_last()) + staff_typst(staves.last())
    }
}

/// The lines before the `#score(` call: the comment and the import.
pub open spec fn typst_preamble(o: OptionsView) -> Seq<char> {
    flag_arg(o.include_comment, "// Generated by musicxml-to-scorify.\n"@) + flag_arg(
        o.include_import,
        "#import \""@ + escape_typst_string(o.package) + "\": score\n\n"@,
    )
}

/// The score's own arguments: title, composer, key (C where none), time and
/// measures per line.
pub open spec fn score_args(score: ScoreView, o: OptionsView) -> Seq<char> {
    opt_string_arg("  "@, "title"@, score.title) + opt_string_arg("  "@, "composer"@, score.composer) + string_arg(
        "  "@,
        "key"@,
        match score.key {
            Some(k) => k,
            None => "C"@,
        },
    ) + opt_string_arg("  "@, "time"@, score.time) + match o.measures_per_line {
        Some(n) => "  measures-per-line: "@ + decimal(n as nat) + ",\n"@,
        None => seq![],
    }
}

/// A score as a Typst `#score(...)` call.
pub open spec fn spec_emit_typst(score: ScoreView, o: OptionsView) -> Seq<char> {
    typst_preamble(o) + "#score(\n"@ + score_args(score, o) + "  staves: (\n"@ + staves_typst(score.staves) + "  ),\n"@
        + ")\n"@
}

fn push_string_arg(out: &mut Vec<char>, indent: &str, name: &str, value: &[char])
    ensures
        final(out)@ == old(out)@ + string_arg(indent@, name@, value@),
{
    let ghost start = out@;
    push_str(out, indent);
    push_str(out, name);
    push_str(out, ": \"");
    push_escaped_typst(out, value);
    push_str(out, "\",\n");
    assert(out@ =~= start + string_arg(indent@, name@, value@));
}

fn push_opt_string_arg(out: &mut Vec<char>, indent: &str, name: &str, value: &Option<Vec<char>>)
    ensures
        final(out)@ == old(out)@ + opt_string_arg(indent@, name@, opt_view(*value)),
{
    let ghost start = out@;
    if let Some(v) = value {
        push_string_arg(out, indent, name, v.as_slice());
    }
    assert(out@ =~= start + opt_string_arg(indent@, name@, opt_view(*value)));
}

fn push_flag(out: &mut Vec<char>, set: bool, line: &str)
    ensures
        final(out)@ == old(out)@ + flag_arg(set, line@),
{
    let ghost start = out@;
    if set {
        push_str(out, line);
    }
    assert(out@ =~= start + flag_arg(set, line@));
}

fn push_staff_head(out: &mut Vec<char>, s: &Staff)
    ensures
        final(out)@ == old(out)@ + staff_head(s@),
{
    let ghost start = out@;
    push_str(out, "    (\n");
    push_string_arg(out, "      ", "clef", s.clef.as_slice());
    push_opt_string_arg(out, "      ", "instrument-name", &s.instrument_name);
    push_opt_string_arg(out, "      ", "instrument-name-cont", &s.instrument_name_cont);
    assert(out@ =~= start + staff_head(s@));
}

fn push_staff_flags(out: &mut Vec<char>, s: &Staff)
    ensures
        final(out)@ == old(out)@ + staff_flags(s@),
{
    let ghost start = out@;
    push_flag(out, s.brace_start, "      brace-start: true,\n");
    push_flag(out, s.brace_end, "      brace-end: true,\n");
    push_flag(out, s.bracket_start, "      bracket-start: true,\n");
    push_flag(out, s.bracket_end, "      bracket-end: true,\n");
    assert(out@ =~= start + staff_flags(s@));
}

fn push_staff(out: &mut Vec<char>, s: &Staff)
    ensures
        final(out)@ == old(out)@ + staff_typst(s@),
{
    let ghost start = out@;
    push_staff_head(out, s);
    push_staff_flags(out, s);
    push_string_arg(out, "      ", "music", s.music.as_slice());
    push_str(out, "    ),\n");
    assert(out@ =~= start + staff_typst(s@));
}

fn push_preamble(out: &mut Vec<char>, options: &ConversionOptions)
    ensures
        final(out)@ == old(out)@ + typst_preamble(options@),
{
    let ghost start = out@;
    push_flag(out, options.include_comment, "// Generated by musicxml-to-scorify.\n");
    let ghost mid = out@;
    if options.include_import {
        push_str(out, "#import \"");
        let package = str_to_chars(options.package.as_str());
        push_escaped_typst(out, package.as_slice());
        push_str(out, "\": score\n\n");
    }
    assert(out@ =~= start + typst_preamble(options@));
}

fn push_score_args(out: &mut Vec<char>, score: &Score, options: &ConversionOptions)
    ensures
        final(out)@ == old(out)@ + score_args(score@, options@),
{
    let ghost start = out@;
    push_opt_string_arg(out, "  ", "title", &score.title);
    push_opt_string_arg(out, "  ", "composer", &score.composer);
    let key = match &score.key {
        Some(k) => crate::text::copy_chars(k.as_slice()),
        None => str_to_chars("C"),
    };
    push_string_arg(out, "  ", "key", key.as_slice());
    push_opt_string_arg(out, "  ", "time", &score.time);
    let ghost mid = out@;
    if let Some(n) = options.measures_per_line {
        push_str(out, "  measures-per-line: ");
        push_decimal(out, n as u64);
        push_str(out, ",\n");
    }
    assert(out@ =~= start + score_args(score@, options@));
}

/// Writes a score as a Typst `#score(...)` call.
pub fn emit_typst(score: &Score, options: &ConversionOptions) -> (r: Vec<char>)
    ensures
        r@ == spec_emit_typst(score@, options@),
{
    let mut out: Vec<char> = Vec::new();
    push_preamble(&mut out, options);
    push_str(&mut out, "#score(\n");
    push_score_args(&mut out, score, options);
    push_str(&mut out, "  staves: (\n");
    let ghost head = out@;
    let ghost sv = score@.staves;
    let mut i: usize = 0;
    assert(sv.take(0) =~= Seq::<StaffView>::empty());
    while i < score.staves.len()
        invariant
            i <= score.staves@.len(),
            sv == score@.staves,
            out@ == head + staves_typst(sv.take(i as int)),
        decreases score.staves@.len() - i,
    {
        assert(sv.take(i + 1).drop_last() == sv.take(i as int));
        assert(sv.take(i + 1).last() == score.staves@[i as int]@);
        push_staff(&mut out, &score.staves[i]);
        i += 1;
        assert(out@ =~= head + staves_typst(sv.take(i as int)));
    }
    assert(sv.take(score.staves@.len() as int) == sv);
    push_str(&mut out, "  ),\n");
    push_str(&mut out, ")\n");
    assert(out@ =~= spec_emit_typst(score@, options@));
    out
}

} // verus!
