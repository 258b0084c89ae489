//! What the Typst writer writes, the Scorify reader reads back: the
//! `#score(...)` call of a score parses to that score.
use vstd::prelude::*;

use crate::laws::{lemma_decimal_digits, lemma_string_from_escaped, lemma_string_from_shift};
use crate::model::{ScoreView, StaffView};
use crate::scorify_score::{
    lookup, spec_parse_scorify_score, spec_score_fields, spec_score_of_fields, spec_staff, spec_staves,
};
use crate::scorify_tokens::digit_run;
use crate::scorify_writer::escape_typst_string;
use crate::text::{decimal, find_seq, has_at, is_digit, is_ws, parse_i64, parse_signed};
use crate::typst_writer::{
    flag_arg, opt_string_arg, score_args, spec_emit_typst, staff_flags, staff_head, staff_typst,
    staves_typst, string_arg, typst_preamble, OptionsView,
};
use crate::typst::{
    ident_run, is_ident_char, skip_ws, spec_expect, spec_identifier, spec_looks_like_named_arg,
    spec_named, spec_items, spec_string, spec_tuple, spec_value, ws_run, ValueView,
};

verus! {

// ---------------------------------------------------------------------------
// Reading single pieces at a position
// ---------------------------------------------------------------------------

/// Spaces and newlines up to `q`, where a character that is neither
/// whitespace nor `/` stands, are skipped to `q`.
pub proof fn lemma_skip_blank(s: Seq<char>, p: int, q: int)
    requires
        0 <= p <= q < s.len(),
        forall|i: int| p <= i < q ==> s[i] == ' ' || s[i] == '\n',
        !is_ws(s[q]),
        s[q] != '/',
    ensures
        skip_ws(s, p) == q,
    decreases q - p,
{
    reveal_strlit("//");
    assert(!has_at(s, p, "//"@)) by {
        if has_at(s, p, "//"@) {
            assert(s.subrange(p, p + 2)[0] == s[p]);
        }
    }
    if p < q {
        lemma_skip_blank(s, p + 1, q);
    }
}

/// An identifier character is neither whitespace nor `/`.
pub proof fn lemma_ident_not_blank(c: char)
    requires
        is_ident_char(c),
    ensures
        !is_ws(c),
        c != '/',
{
}

pub proof fn lemma_ident_run(s: Seq<char>, q: int, n: int)
    requires
        0 <= q,
        0 <= n,
        q + n < s.len(),
        forall|i: int| q <= i < q + n ==> is_ident_char(s[i]),
        !is_ident_char(s[q + n]),
    ensures
        ident_run(s, q) == n,
    decreases n,
{
    if n > 0 {
        lemma_ident_run(s, q + 1, n - 1);
    }
}

pub proof fn lemma_digit_run(s: Seq<char>, q: int, n: int)
    requires
        0 <= q,
        0 <= n,
        q + n < s.len(),
        forall|i: int| q <= i < q + n ==> is_digit(s[i]),
        !is_digit(s[q + n]),
    ensures
        digit_run(s, q) == n,
    decreases n,
{
    if n > 0 {
        lemma_digit_run(s, q + 1, n - 1);
    }
}

/// A named field `name:` followed by a value and a comma: reading the fields
/// from `p` reads this one and goes on after the comma.
pub proof fn lemma_field_step(
    s: Seq<char>,
    p: int,
    q: int,
    name: Seq<char>,
    v: ValueView,
    e: int,
    term: char,
    acc: Seq<(Seq<char>, ValueView)>,
)
    requires
        0 <= p <= q,
        skip_ws(s, p) == q,
        name.len() > 0,
        forall|i: int| 0 <= i < name.len() ==> is_ident_char(name[i]),
        name[0] != term,
        q + name.len() < s.len(),
        s.subrange(q, q + name.len()) == name,
        s[q + name.len()] == ':',
        spec_value(s, q + name.len() + 1) == Some((v, e)),
        q + name.len() + 1 <= e < s.len(),
        s[e] == ',',
    ensures
        spec_named(s, p, term, acc) == spec_named(s, e + 1, term, acc.push((name, v))),
{
    let n = name.len() as int;
    assert(s[q] == s.subrange(q, q + n)[0]);
    lemma_ident_not_blank(s[q]);
    lemma_skip_blank(s, q, q);
    assert forall|i: int| q <= i < q + n implies is_ident_char(s[i]) by {
        assert(s[i] == s.subrange(q, q + n)[i - q]);
    }
    lemma_ident_run(s, q, n);
    assert(spec_identifier(s, q) == Some((name, q + n)));
    lemma_skip_blank(s, q + n, q + n);
    assert(spec_expect(s, q + n, ':') == Some(q + n + 1));
    lemma_skip_blank(s, e, e);
}

/// The fields end where `term` comes after blanks.
pub proof fn lemma_named_end(s: Seq<char>, p: int, q: int, term: char, acc: Seq<(Seq<char>, ValueView)>)
    requires
        0 <= p <= q < s.len(),
        skip_ws(s, p) == q,
        s[q] == term,
    ensures
        spec_named(s, p, term, acc) == Some((acc, q)),
{
}

/// ` "` + an escaped text + `"` reads as that text.
pub proof fn lemma_text_value(s: Seq<char>, p: int, t: Seq<char>)
    requires
        0 <= p,
        p + escape_typst_string(t).len() + 3 <= s.len(),
        s.subrange(p, p + escape_typst_string(t).len() + 3) == " \""@ + escape_typst_string(t) + "\""@,
    ensures
        spec_value(s, p) == Some((ValueView::Str(t), p + escape_typst_string(t).len() + 3)),
{
    reveal_strlit(" \"");
    reveal_strlit("\"");
    let w = " \""@ + escape_typst_string(t) + "\""@;
    let n = escape_typst_string(t).len() as int;
    assert(s[p] == w[0]);
    assert(s[p + 1] == w[1]);
    lemma_skip_blank(s, p, p + 1);
    lemma_skip_blank(s, p + 1, p + 1);
    assert(spec_expect(s, p + 1, '"') == Some(p + 2));
    let t2 = s.subrange(p + 2, s.len() as int);
    let rest = s.subrange(p + n + 3, s.len() as int);
    assert forall|i: int| 0 <= i < n + 1 implies t2[i] == (escape_typst_string(t) + seq!['"'])[i] by {
        assert(t2[i] == s[p + 2 + i]);
        assert(s[p + 2 + i] == w[2 + i]);
    }
    assert(t2 =~= escape_typst_string(t) + seq!['"'] + rest);
    lemma_string_from_escaped(t, rest, seq![]);
    lemma_string_from_shift(s, p + 2, t2, seq![]);
    assert(Seq::<char>::empty() + t =~= t);
    assert(spec_string(s, p + 1) == Some((t, p + n + 3)));
}

/// ` true` reads as `true`.
pub proof fn lemma_yes_value(s: Seq<char>, p: int)
    requires
        0 <= p,
        p + 5 <= s.len(),
        s.subrange(p, p + 5) == " true"@,
    ensures
        spec_value(s, p) == Some((ValueView::Bool(true), p + 5)),
{
    reveal_strlit(" true");
    reveal_strlit("true");
    assert(s[p] == s.subrange(p, p + 5)[0]);
    assert(s[p + 1] == s.subrange(p, p + 5)[1]);
    lemma_skip_blank(s, p, p + 1);
    assert(s.subrange(p + 1, p + 5) =~= "true"@) by {
        assert forall|i: int| 0 <= i < 4 implies s.subrange(p + 1, p + 5)[i] == "true"@[i] by {
            assert(s.subrange(p + 1, p + 5)[i] == s[p + 1 + i]);
            assert(s[p + 1 + i] == s.subrange(p, p + 5)[i + 1]);
        }
    }
    assert(has_at(s, p + 1, "true"@));
}

/// A space and the decimal digits of `n` read as `n`, where no digit follows.
pub proof fn lemma_count_value(s: Seq<char>, p: int, n: nat)
    requires
        0 <= p,
        n <= i64::MAX,
        p + decimal(n).len() + 1 < s.len(),
        s.subrange(p, p + decimal(n).len() + 1) == " "@ + decimal(n),
        !is_digit(s[p + decimal(n).len() + 1]),
    ensures
        spec_value(s, p) == Some((ValueView::Number(n as int), p + decimal(n).len() + 1)),
{
    reveal_strlit(" ");
    reveal_strlit("true");
    reveal_strlit("false");
    lemma_decimal_digits(n);
    let d = decimal(n);
    let k = d.len() as int;
    let w = " "@ + d;
    assert(s[p] == w[0]);
    assert forall|i: int| p + 1 <= i < p + 1 + k implies s[i] == d[i - p - 1] by {
        assert(s[i] == s.subrange(p, p + k + 1)[i - p]);
    }
    assert(is_digit(d[0]));
    assert(is_digit(s[p + 1]));
    lemma_skip_blank(s, p, p + 1);
    assert(!has_at(s, p + 1, "true"@)) by {
        if has_at(s, p + 1, "true"@) {
            assert(s.subrange(p + 1, p + 5)[0] == s[p + 1]);
        }
    }
    assert(!has_at(s, p + 1, "false"@)) by {
        if has_at(s, p + 1, "false"@) {
            assert(s.subrange(p + 1, p + 6)[0] == s[p + 1]);
        }
    }
    lemma_digit_run(s, p + 1, k);
    assert(s.subrange(p + 1, p + 1 + k) =~= d);
    assert(d[0] != '+' && d[0] != '-');
    assert(parse_signed(d) == Some(n as int));
    assert(parse_i64(d) == Some(n as int));
}

// ---------------------------------------------------------------------------
// Runs of named fields
// ---------------------------------------------------------------------------

/// A field value as the Typst writer spells it.
pub enum Written {
    Text(Seq<char>),
    Yes,
    Count(nat),
}

/// The text after the `:` of a field.
pub open spec fn written_text(w: Written) -> Seq<char> {
    match w {
        Written::Text(t) => " \""@ + escape_typst_string(t) + "\""@,
        Written::Yes => " true"@,
        Written::Count(n) => " "@ + decimal(n),
    }
}

/// The value the reader gives for a written field value.
pub open spec fn written_value(w: Written) -> ValueView {
    match w {
        Written::Text(t) => ValueView::Str(t),
        Written::Yes => ValueView::Bool(true),
        Written::Count(n) => ValueView::Number(n as int),
    }
}

/// One line `indent name: value,` of a field that is present.
pub open spec fn field_line(indent: Seq<char>, name: Seq<char>, w: Written) -> Seq<char> {
    indent + name + ":"@ + written_text(w) + ",\n"@
}

/// The line of a slot: its field's line, or nothing where it has no value.
pub open spec fn slot_text(sl: (Seq<char>, Seq<char>, Option<Written>)) -> Seq<char> {
    match sl.2 {
        Some(w) => field_line(sl.0, sl.1, w),
        None => seq![],
    }
}

pub open spec fn slots_text(sls: Seq<(Seq<char>, Seq<char>, Option<Written>)>) -> Seq<char>
    decreases sls.len(),
{
    if sls.len() == 0 {
        seq![]
    } else {
        slots_text(sls.drop_last()) + slot_text(sls.last())
    }
}

/// The named values the reader gives for the slots that are present.
pub open spec fn slots_entries(sls: Seq<(Seq<char>, Seq<char>, Option<Written>)>) -> Seq<(Seq<char>, ValueView)>
    decreases sls.len(),
{
    if sls.len() == 0 {
        seq![]
    } else {
        match sls.last().2 {
            Some(w) => slots_entries(sls.drop_last()).push((sls.last().1, written_value(w))),
            None => slots_entries(sls.drop_last()),
        }
    }
}

/// The value of the last present slot named `key`.
pub open spec fn slot_lookup(sls: Seq<(Seq<char>, Seq<char>, Option<Written>)>, key: Seq<char>) -> Option<ValueView>
    decreases sls.len(),
{
    if sls.len() == 0 {
        None
    } else if sls.last().1 == key && sls.last().2 is Some {
        Some(written_value(sls.last().2.unwrap()))
    } else {
        slot_lookup(sls.drop_last(), key)
    }
}

/// A slot the reader can read back: the shared indent, an identifier as
/// name that does not start with the closing character, a number that fits.
pub open spec fn good_slot(sl: (Seq<char>, Seq<char>, Option<Written>), indent: Seq<char>, term: char) -> bool {
    &&& sl.0 == indent
    &&& sl.1.len() > 0
    &&& forall|i: int| 0 <= i < sl.1.len() ==> is_ident_char(#[trigger] sl.1[i])
    &&& sl.1[0] != term
    &&& (sl.2 matches Some(Written::Count(n)) ==> n <= i64::MAX)
}

pub proof fn lemma_slots_lookup(sls: Seq<(Seq<char>, Seq<char>, Option<Written>)>, key: Seq<char>)
    ensures
        lookup(slots_entries(sls), key) == slot_lookup(sls, key),
    decreases sls.len(),
{
    if sls.len() > 0 {
        lemma_slots_lookup(sls.drop_last(), key);
        if let Some(w) = sls.last().2 {
            assert(slots_entries(sls).drop_last() == slots_entries(sls.drop_last()));
        }
    }
}

/// Slots without text have no present field.
pub proof fn lemma_slots_empty(sls: Seq<(Seq<char>, Seq<char>, Option<Written>)>)
    ensures
        slots_text(sls).len() == 0 ==> slots_entries(sls).len() == 0,
    decreases sls.len(),
{
    reveal_strlit(",\n");
    if sls.len() > 0 {
        lemma_slots_empty(sls.drop_last());
    }
}

/// A text of slots that is not empty ends with a newline.
pub proof fn lemma_slots_text_ends(sls: Seq<(Seq<char>, Seq<char>, Option<Written>)>)
    ensures
        slots_text(sls).len() > 0 ==> slots_text(sls).last() == '\n',
    decreases sls.len(),
{
    reveal_strlit(",\n");
    if sls.len() > 0 {
        lemma_slots_text_ends(sls.drop_last());
        if let Some(w) = sls.last().2 {
            let line = field_line(sls.last().0, sls.last().1, w);
            assert(line.last() == '\n');
        }
    }
}

/// The parts of a field line at `start`.
pub proof fn lemma_line_at(s: Seq<char>, start: int, indent: Seq<char>, name: Seq<char>, w: Written)
    requires
        0 <= start,
        start + field_line(indent, name, w).len() <= s.len(),
        s.subrange(start, start + field_line(indent, name, w).len()) == field_line(indent, name, w),
    ensures
        ({
            let q = start + indent.len();
            let q3 = q + name.len() + 1;
            let e = q3 + written_text(w).len();
            &&& forall|i: int| start <= i < q ==> s[i] == indent[i - start]
            &&& s.subrange(q, q + name.len()) == name
            &&& s[q + name.len()] == ':'
            &&& s.subrange(q3, e) == written_text(w)
            &&& s[e] == ','
            &&& s[e + 1] == '\n'
            &&& e + 2 == start + field_line(indent, name, w).len()
        }),
{
    reveal_strlit(":");
    reveal_strlit(",\n");
    let line = field_line(indent, name, w);
    let q = start + indent.len();
    let q3 = q + name.len() + 1;
    let wt = written_text(w);
    let e = q3 + wt.len();
    assert forall|i: int| start <= i < start + line.len() implies s[i] == line[i - start] by {
        assert(s[i] == s.subrange(start, start + line.len())[i - start]);
    }
    assert(s.subrange(q, q + name.len()) =~= name) by {
        assert forall|i: int| 0 <= i < name.len() implies s.subrange(q, q + name.len())[i] == name[i] by {
            assert(s[q + i] == line[indent.len() + i]);
        }
    }
    assert(s[q + name.len()] == line[indent.len() + name.len() as int]);
    assert(s.subrange(q3, e) =~= wt) by {
        assert forall|i: int| 0 <= i < wt.len() implies s.subrange(q3, e)[i] == wt[i] by {
            assert(s[q3 + i] == line[indent.len() + name.len() as int + 1 + i]);
        }
    }
    assert(s[e] == line[e - start]);
    assert(s[e + 1] == line[e + 1 - start]);
}

/// A run of field lines at `p`, after blanks from `p0`, reads as the named
/// values of its present slots, up to the newline that ends it.
#[verifier::spinoff_prover]
pub proof fn lemma_slots_read(
    s: Seq<char>,
    p0: int,
    p: int,
    sls: Seq<(Seq<char>, Seq<char>, Option<Written>)>,
    indent: Seq<char>,
    term: char,
    acc: Seq<(Seq<char>, ValueView)>,
)
    requires
        0 <= p0 <= p + indent.len(),
        0 <= p,
        forall|i: int| p0 <= i < p ==> s[i] == ' ' || s[i] == '\n',
        forall|i: int| 0 <= i < indent.len() ==> indent[i] == ' ',
        forall|k: int| 0 <= k < sls.len() ==> good_slot(#[trigger] sls[k], indent, term),
        p + slots_text(sls).len() <= s.len(),
        s.subrange(p, p + slots_text(sls).len()) == slots_text(sls),
    ensures
        slots_text(sls).len() > 0 ==> spec_named(s, p0, term, acc) == spec_named(
            s,
            p + slots_text(sls).len() - 1,
            term,
            acc + slots_entries(sls),
        ),
    decreases sls.len(),
{
    if sls.len() > 0 {
        let init = sls.drop_last();
        let sl = sls.last();
        let t0 = slots_text(init);
        let all = slots_text(sls);
        assert(all == t0 + slot_text(sl));
        assert forall|k: int| 0 <= k < init.len() implies good_slot(#[trigger] init[k], indent, term) by {
            assert(init[k] == sls[k]);
        }
        assert(s.subrange(p, p + t0.len()) =~= t0) by {
            assert forall|i: int| 0 <= i < t0.len() implies s.subrange(p, p + t0.len())[i] == t0[i] by {
                assert(s[p + i] == s.subrange(p, p + all.len())[i]);
                assert(all[i] == t0[i]);
            }
        }
        lemma_slots_read(s, p0, p, init, indent, term, acc);
        match sl.2 {
            None => {
                assert(all =~= t0);
                assert(slots_entries(sls) == slots_entries(init));
            },
            Some(w) => {
                assert(good_slot(sls[sls.len() - 1], indent, term));
                let name = sl.1;
                let line = field_line(indent, name, w);
                let start = p + t0.len();
                assert(s.subrange(start, start + line.len()) =~= line) by {
                    assert forall|i: int| 0 <= i < line.len() implies s.subrange(start, start + line.len())[i]
                        == line[i] by {
                        assert(s[start + i] == s.subrange(p, p + all.len())[t0.len() + i]);
                        assert(all[t0.len() + i] == line[i]);
                    }
                }
                lemma_line_at(s, start, indent, name, w);
                let q = start + indent.len();
                let q3 = q + name.len() + 1;
                let wt = written_text(w);
                let e = q3 + wt.len();
                let pp = if t0.len() == 0 {
                    p0
                } else {
                    start - 1
                };
                if t0.len() > 0 {
                    lemma_slots_text_ends(init);
                    assert(s[start - 1] == s.subrange(p, p + t0.len())[t0.len() - 1]);
                }
                assert(s[q] == s.subrange(q, q + name.len())[0]);
                lemma_ident_not_blank(s[q]);
                lemma_skip_blank(s, pp, q);
                match w {
                    Written::Text(t) => {
                        reveal_strlit(" \"");
                        reveal_strlit("\"");
                        lemma_text_value(s, q3, t);
                    },
                    Written::Yes => {
                        reveal_strlit(" true");
                        lemma_yes_value(s, q3);
                    },
                    Written::Count(n) => {
                        reveal_strlit(" ");
                        lemma_count_value(s, q3, n);
                    },
                }
                lemma_field_step(s, pp, q, name, written_value(w), e, term, acc + slots_entries(init));
                assert(acc + slots_entries(sls) =~= (acc + slots_entries(init)).push((name, written_value(w))));
                if t0.len() == 0 {
                    lemma_slots_empty(init);
                    assert(acc + slots_entries(init) =~= acc);
                }
            },
        }
    }
}

// ---------------------------------------------------------------------------
// Staves
// ---------------------------------------------------------------------------

pub open spec fn opt_text(o: Option<Seq<char>>) -> Option<Written> {
    match o {
        Some(t) => Some(Written::Text(t)),
        None => None,
    }
}

pub open spec fn flag(b: bool) -> Option<Written> {
    if b {
        Some(Written::Yes)
    } else {
        None
    }
}

/// The fields of a staff in the order the writer writes them.
pub open spec fn staff_slots(st: StaffView) -> Seq<(Seq<char>, Seq<char>, Option<Written>)> {
    seq![
        ("      "@, "clef"@, Some(Written::Text(st.clef))),
        ("      "@, "instrument-name"@, opt_text(st.instrument_name)),
        ("      "@, "instrument-name-cont"@, opt_text(st.instrument_name_cont)),
        ("      "@, "brace-start"@, flag(st.brace_start)),
        ("      "@, "brace-end"@, flag(st.brace_end)),
        ("      "@, "bracket-start"@, flag(st.bracket_start)),
        ("      "@, "bracket-end"@, flag(st.bracket_end)),
        ("      "@, "music"@, Some(Written::Text(st.music))),
    ]
}

/// The value the reader gives for a written staff.
pub open spec fn staff_object(st: StaffView) -> ValueView {
    ValueView::Object(slots_entries(staff_slots(st)))
}

/// A string argument is the field line of its text.
pub proof fn lemma_string_arg_line(indent: Seq<char>, name: Seq<char>, v: Seq<char>)
    ensures
        string_arg(indent, name, v) == field_line(indent, name, Written::Text(v)),
        opt_string_arg(indent, name, Some(v)) == slot_text((indent, name, Some(Written::Text(v)))),
        opt_string_arg(indent, name, None) == slot_text((indent, name, None)),
{
    reveal_strlit(": \"");
    reveal_strlit("\",\n");
    reveal_strlit(":");
    reveal_strlit(" \"");
    reveal_strlit("\"");
    reveal_strlit(",\n");
    assert(string_arg(indent, name, v) =~= field_line(indent, name, Written::Text(v)));
}

pub proof fn lemma_opt_string_arg_slot(indent: Seq<char>, name: Seq<char>, v: Option<Seq<char>>)
    ensures
        opt_string_arg(indent, name, v) == slot_text((indent, name, opt_text(v))),
{
    match v {
        Some(x) => lemma_string_arg_line(indent, name, x),
        None => {},
    }
}

/// A flag line is the field line of `true`.
pub proof fn lemma_flag_slot(b: bool, name: Seq<char>, line: Seq<char>)
    requires
        line == "      "@ + name + ": true,\n"@,
    ensures
        flag_arg(b, line) == slot_text(("      "@, name, flag(b))),
{
    reveal_strlit(": true,\n");
    reveal_strlit(":");
    reveal_strlit(" true");
    reveal_strlit(",\n");
    if b {
        assert(line =~= field_line("      "@, name, Written::Yes));
    }
}

/// The slots text of eight slots, one after the other.
pub proof fn lemma_eight_slots(sls: Seq<(Seq<char>, Seq<char>, Option<Written>)>)
    requires
        sls.len() == 8,
    ensures
        slots_text(sls) == slot_text(sls[0]) + slot_text(sls[1]) + slot_text(sls[2]) + slot_text(sls[3]) + slot_text(
            sls[4],
        ) + slot_text(sls[5]) + slot_text(sls[6]) + slot_text(sls[7]),
        slots_text(sls.skip(1)) == slot_text(sls[1]) + slot_text(sls[2]) + slot_text(sls[3]) + slot_text(sls[4])
            + slot_text(sls[5]) + slot_text(sls[6]) + slot_text(sls[7]),
{
    reveal_with_fuel(slots_text, 9);
    let r = sls.skip(1);
    assert(r.len() == 7);
    assert(r.drop_last().drop_last().drop_last().drop_last().drop_last().drop_last().drop_last() =~= Seq::<
        (Seq<char>, Seq<char>, Option<Written>),
    >::empty());
    assert(sls.drop_last().drop_last().drop_last().drop_last().drop_last().drop_last().drop_last().drop_last()
        =~= Seq::<(Seq<char>, Seq<char>, Option<Written>)>::empty());
    assert(slots_text(r) =~= slot_text(sls[1]) + slot_text(sls[2]) + slot_text(sls[3]) + slot_text(sls[4])
        + slot_text(sls[5]) + slot_text(sls[6]) + slot_text(sls[7]));
    assert(slots_text(sls) =~= slot_text(sls[0]) + slot_text(sls[1]) + slot_text(sls[2]) + slot_text(sls[3])
        + slot_text(sls[4]) + slot_text(sls[5]) + slot_text(sls[6]) + slot_text(sls[7]));
}

pub proof fn lemma_staff_flags(st: StaffView)
    ensures
        staff_flags(st) == slot_text(staff_slots(st)[3]) + slot_text(staff_slots(st)[4]) + slot_text(
            staff_slots(st)[5],
        ) + slot_text(staff_slots(st)[6]),
{
    reveal_strlit("      brace-start: true,\n");
    reveal_strlit("      brace-end: true,\n");
    reveal_strlit("      bracket-start: true,\n");
    reveal_strlit("      bracket-end: true,\n");
    reveal_strlit("      ");
    reveal_strlit("brace-start");
    reveal_strlit("brace-end");
    reveal_strlit("bracket-start");
    reveal_strlit("bracket-end");
    reveal_strlit(": true,\n");
    assert("      brace-start: true,\n"@ =~= "      "@ + "brace-start"@ + ": true,\n"@);
    lemma_flag_slot(st.brace_start, "brace-start"@, "      brace-start: true,\n"@);
    assert("      brace-end: true,\n"@ =~= "      "@ + "brace-end"@ + ": true,\n"@);
    lemma_flag_slot(st.brace_end, "brace-end"@, "      brace-end: true,\n"@);
    assert("      bracket-start: true,\n"@ =~= "      "@ + "bracket-start"@ + ": true,\n"@);
    lemma_flag_slot(st.bracket_start, "bracket-start"@, "      bracket-start: true,\n"@);
    assert("      bracket-end: true,\n"@ =~= "      "@ + "bracket-end"@ + ": true,\n"@);
    lemma_flag_slot(st.bracket_end, "bracket-end"@, "      bracket-end: true,\n"@);
}

pub proof fn lemma_staff_head(st: StaffView)
    ensures
        staff_head(st) == "    (\n"@ + slot_text(staff_slots(st)[0]) + slot_text(staff_slots(st)[1]) + slot_text(
            staff_slots(st)[2],
        ),
{
    lemma_string_arg_line("      "@, "clef"@, st.clef);
    lemma_opt_string_arg_slot("      "@, "instrument-name"@, st.instrument_name);
    lemma_opt_string_arg_slot("      "@, "instrument-name-cont"@, st.instrument_name_cont);
}

pub proof fn lemma_staff_text(st: StaffView)
    ensures
        staff_typst(st) == "    (\n"@ + slots_text(staff_slots(st)) + "    ),\n"@,
{
    let sls = staff_slots(st);
    lemma_eight_slots(sls);
    lemma_staff_flags(st);
    lemma_staff_head(st);
    lemma_string_arg_line("      "@, "music"@, st.music);
    let t0 = slot_text(sls[0]);
    let t1 = slot_text(sls[1]);
    let t2 = slot_text(sls[2]);
    let t3 = slot_text(sls[3]);
    let t4 = slot_text(sls[4]);
    let t5 = slot_text(sls[5]);
    let t6 = slot_text(sls[6]);
    let t7 = slot_text(sls[7]);
    let h = staff_head(st);
    let f = staff_flags(st);
    assert(staff_typst(st) == h + f + t7 + "    ),\n"@);
    lemma_concat_ten("    (\n"@, t0, t1, t2, t3, t4, t5, t6, t7, "    ),\n"@);
}

/// The clef line comes first in a staff's fields.
pub proof fn lemma_staff_first(st: StaffView)
    ensures
        slots_text(staff_slots(st)) == field_line("      "@, "clef"@, Written::Text(st.clef)) + slots_text(
            staff_slots(st).skip(1),
        ),
{
    let sls = staff_slots(st);
    lemma_eight_slots(sls);
    lemma_concat_front(
        slot_text(sls[0]),
        slot_text(sls[1]),
        slot_text(sls[2]),
        slot_text(sls[3]),
        slot_text(sls[4]),
        slot_text(sls[5]),
        slot_text(sls[6]),
        slot_text(sls[7]),
    );
}

pub proof fn lemma_concat_front(
    t0: Seq<char>,
    t1: Seq<char>,
    t2: Seq<char>,
    t3: Seq<char>,
    t4: Seq<char>,
    t5: Seq<char>,
    t6: Seq<char>,
    t7: Seq<char>,
)
    ensures
        t0 + t1 + t2 + t3 + t4 + t5 + t6 + t7 == t0 + (t1 + t2 + t3 + t4 + t5 + t6 + t7),
{
    assert(t0 + t1 + t2 + t3 + t4 + t5 + t6 + t7 =~= t0 + (t1 + t2 + t3 + t4 + t5 + t6 + t7));
}

/// Regrouping a concatenation of ten texts.
pub proof fn lemma_concat_ten(
    a: Seq<char>,
    t0: Seq<char>,
    t1: Seq<char>,
    t2: Seq<char>,
    t3: Seq<char>,
    t4: Seq<char>,
    t5: Seq<char>,
    t6: Seq<char>,
    t7: Seq<char>,
    z: Seq<char>,
)
    ensures
        (a + t0 + t1 + t2) + (t3 + t4 + t5 + t6) + t7 + z == a + (t0 + t1 + t2 + t3 + t4 + t5 + t6 + t7) + z,
{
    assert((a + t0 + t1 + t2) + (t3 + t4 + t5 + t6) + t7 + z =~= a + (t0 + t1 + t2 + t3 + t4 + t5 + t6 + t7) + z);
}

/// What the reader finds for each field name of a written staff.
pub proof fn lemma_staff_lookups(st: StaffView)
    ensures
        slot_lookup(staff_slots(st), "clef"@) == Some(ValueView::Str(st.clef)),
        slot_lookup(staff_slots(st), "music"@) == Some(ValueView::Str(st.music)),
        slot_lookup(staff_slots(st), "instrument-name"@) == match st.instrument_name {
            Some(t) => Some(ValueView::Str(t)),
            None => None::<ValueView>,
        },
        slot_lookup(staff_slots(st), "instrument-name-cont"@) == match st.instrument_name_cont {
            Some(t) => Some(ValueView::Str(t)),
            None => None::<ValueView>,
        },
        slot_lookup(staff_slots(st), "brace-start"@) == if st.brace_start {
            Some(ValueView::Bool(true))
        } else {
            None
        },
        slot_lookup(staff_slots(st), "brace-end"@) == if st.brace_end {
            Some(ValueView::Bool(true))
        } else {
            None
        },
        slot_lookup(staff_slots(st), "bracket-start"@) == if st.bracket_start {
            Some(ValueView::Bool(true))
        } else {
            None
        },
        slot_lookup(staff_slots(st), "bracket-end"@) == if st.bracket_end {
            Some(ValueView::Bool(true))
        } else {
            None
        },
{
    reveal_with_fuel(slot_lookup, 9);
    reveal_strlit("clef");
    reveal_strlit("music");
    reveal_strlit("instrument-name");
    reveal_strlit("instrument-name-cont");
    reveal_strlit("brace-start");
    reveal_strlit("brace-end");
    reveal_strlit("bracket-start");
    reveal_strlit("bracket-end");
    assert("brace-start"@[4] != "bracket-end"@[4]);
    let sls = staff_slots(st);
    let d0 = sls;
    let d1 = d0.drop_last();
    let d2 = d1.drop_last();
    let d3 = d2.drop_last();
    let d4 = d3.drop_last();
    let d5 = d4.drop_last();
    let d6 = d5.drop_last();
    let d7 = d6.drop_last();
    assert(d0.last() == sls[7]);
    assert(d1.last() == sls[6]);
    assert(d2.last() == sls[5]);
    assert(d3.last() == sls[4]);
    assert(d4.last() == sls[3]);
    assert(d5.last() == sls[2]);
    assert(d6.last() == sls[1]);
    assert(d7.last() == sls[0]);
    assert(sls[0].1 == "clef"@);
    assert(sls[1].1 == "instrument-name"@);
    assert(sls[2].1 == "instrument-name-cont"@);
    assert(sls[3].1 == "brace-start"@);
    assert(sls[4].1 == "brace-end"@);
    assert(sls[5].1 == "bracket-start"@);
    assert(sls[6].1 == "bracket-end"@);
    assert(sls[7].1 == "music"@);
    assert(d7.drop_last() =~= Seq::<(Seq<char>, Seq<char>, Option<Written>)>::empty());
    assert(slot_lookup(d6, "clef"@) == slot_lookup(d7, "clef"@));
    assert(slot_lookup(d5, "clef"@) == slot_lookup(d6, "clef"@));
    assert(slot_lookup(d4, "clef"@) == slot_lookup(d5, "clef"@));
    assert(slot_lookup(d3, "clef"@) == slot_lookup(d4, "clef"@));
    assert(slot_lookup(d2, "clef"@) == slot_lookup(d3, "clef"@));
    assert(slot_lookup(d1, "clef"@) == slot_lookup(d2, "clef"@));
    assert(slot_lookup(d0, "clef"@) == slot_lookup(d1, "clef"@));
    assert(slot_lookup(d5, "instrument-name"@) == slot_lookup(d6, "instrument-name"@));
    assert(slot_lookup(d4, "instrument-name"@) == slot_lookup(d5, "instrument-name"@));
    assert(slot_lookup(d3, "instrument-name"@) == slot_lookup(d4, "instrument-name"@));
    assert(slot_lookup(d2, "instrument-name"@) == slot_lookup(d3, "instrument-name"@));
    assert(slot_lookup(d1, "instrument-name"@) == slot_lookup(d2, "instrument-name"@));
    assert(slot_lookup(d0, "instrument-name"@) == slot_lookup(d1, "instrument-name"@));
    assert(slot_lookup(d4, "instrument-name-cont"@) == slot_lookup(d5, "instrument-name-cont"@));
    assert(slot_lookup(d3, "instrument-name-cont"@) == slot_lookup(d4, "instrument-name-cont"@));
    assert(slot_lookup(d2, "instrument-name-cont"@) == slot_lookup(d3, "instrument-name-cont"@));
    assert(slot_lookup(d1, "instrument-name-cont"@) == slot_lookup(d2, "instrument-name-cont"@));
    assert(slot_lookup(d0, "instrument-name-cont"@) == slot_lookup(d1, "instrument-name-cont"@));
    assert(slot_lookup(d3, "brace-start"@) == slot_lookup(d4, "brace-start"@));
    assert(slot_lookup(d2, "brace-start"@) == slot_lookup(d3, "brace-start"@));
    assert(slot_lookup(d1, "brace-start"@) == slot_lookup(d2, "brace-start"@));
    assert(slot_lookup(d0, "brace-start"@) == slot_lookup(d1, "brace-start"@));
    assert(slot_lookup(d2, "brace-end"@) == slot_lookup(d3, "brace-end"@));
    assert(slot_lookup(d1, "brace-end"@) == slot_lookup(d2, "brace-end"@));
    assert(slot_lookup(d0, "brace-end"@) == slot_lookup(d1, "brace-end"@));
    assert(slot_lookup(d1, "bracket-start"@) == slot_lookup(d2, "bracket-start"@));
    assert(slot_lookup(d0, "bracket-start"@) == slot_lookup(d1, "bracket-start"@));
    assert(slot_lookup(d0, "bracket-end"@) == slot_lookup(d1, "bracket-end"@));
}

/// The fields of a written staff read back as that staff.
pub proof fn lemma_staff_read(st: StaffView)
    ensures
        spec_staff(slots_entries(staff_slots(st))) == Some(st),
{
    let e = slots_entries(staff_slots(st));
    lemma_staff_lookups(st);
    lemma_slots_lookup(staff_slots(st), "clef"@);
    lemma_slots_lookup(staff_slots(st), "music"@);
    lemma_slots_lookup(staff_slots(st), "instrument-name"@);
    lemma_slots_lookup(staff_slots(st), "instrument-name-cont"@);
    lemma_slots_lookup(staff_slots(st), "brace-start"@);
    lemma_slots_lookup(staff_slots(st), "brace-end"@);
    lemma_slots_lookup(staff_slots(st), "bracket-start"@);
    lemma_slots_lookup(staff_slots(st), "bracket-end"@);
}

/// The slots of a written staff can be read back.
pub proof fn lemma_staff_slots_good(st: StaffView)
    ensures
        forall|k: int| 0 <= k < staff_slots(st).len() ==> good_slot(#[trigger] staff_slots(st)[k], "      "@, ')'),
        forall|i: int| 0 <= i < "      "@.len() ==> "      "@[i] == ' ',
        staff_slots(st).len() == 8,
{
    reveal_strlit("      ");
    reveal_strlit("clef");
    reveal_strlit("music");
    reveal_strlit("instrument-name");
    reveal_strlit("instrument-name-cont");
    reveal_strlit("brace-start");
    reveal_strlit("brace-end");
    reveal_strlit("bracket-start");
    reveal_strlit("bracket-end");
    let sls = staff_slots(st);
    assert forall|k: int| 0 <= k < sls.len() implies good_slot(#[trigger] sls[k], "      "@, ')') by {
        let n = sls[k].1;
        assert(forall|i: int| 0 <= i < n.len() ==> is_ident_char(#[trigger] n[i]));
    }
}

/// A written staff without its leading spaces and trailing comma.
pub open spec fn staff_inner(st: StaffView) -> Seq<char> {
    "(\n"@ + slots_text(staff_slots(st)) + "    )"@
}

/// The pieces of a written staff at `r`.
pub proof fn lemma_staff_inner_at(s: Seq<char>, r: int, st: StaffView)
    requires
        0 <= r,
        r + staff_inner(st).len() <= s.len(),
        s.subrange(r, r + staff_inner(st).len()) == staff_inner(st),
    ensures
        ({
            let l = slots_text(staff_slots(st));
            let n = l.len() as int;
            &&& staff_inner(st).len() == n + 7
            &&& s[r] == '('
            &&& s[r + 1] == '\n'
            &&& s.subrange(r + 2, r + 2 + n) == l
            &&& forall|i: int| r + 2 + n <= i < r + 6 + n ==> s[i] == ' '
            &&& s[r + 6 + n] == ')'
        }),
{
    reveal_strlit("(\n");
    reveal_strlit("    )");
    let l = slots_text(staff_slots(st));
    let x = staff_inner(st);
    let n = l.len() as int;
    assert forall|i: int| r <= i < r + x.len() implies s[i] == x[i - r] by {
        assert(s[i] == s.subrange(r, r + x.len())[i - r]);
    }
    assert(s.subrange(r + 2, r + 2 + n) =~= l) by {
        assert forall|i: int| 0 <= i < n implies s.subrange(r + 2, r + 2 + n)[i] == l[i] by {
            assert(s[r + 2 + i] == x[2 + i]);
        }
    }
    assert(s[r] == x[0]);
    assert(s[r + 1] == x[1]);
    assert(s[r + 6 + n] == x[6 + n]);
}

/// The fields of a written staff at `r` read as its named values.
#[verifier::spinoff_prover]
pub proof fn lemma_staff_fields(s: Seq<char>, r: int, st: StaffView)
    requires
        0 <= r,
        r + staff_inner(st).len() <= s.len(),
        s.subrange(r, r + staff_inner(st).len()) == staff_inner(st),
    ensures
        skip_ws(s, r + 1) == r + 8,
        s[r + 8] != ')',
        spec_looks_like_named_arg(s, r + 8),
        spec_named(s, r + 8, ')', seq![]) == Some(
            (slots_entries(staff_slots(st)), r + 6 + slots_text(staff_slots(st)).len()),
        ),
{
    reveal_strlit("      ");
    reveal_strlit("clef");
    let sls = staff_slots(st);
    let l = slots_text(sls);
    let n = l.len() as int;
    lemma_staff_inner_at(s, r, st);
    // the clef line comes first
    lemma_staff_first(st);
    let line0 = field_line("      "@, "clef"@, Written::Text(st.clef));
    assert(s.subrange(r + 2, r + 2 + line0.len()) =~= line0) by {
        assert forall|i: int| 0 <= i < line0.len() implies s.subrange(r + 2, r + 2 + line0.len())[i] == line0[i] by {
            assert(s[r + 2 + i] == s.subrange(r + 2, r + 2 + n)[i]);
        }
    }
    lemma_line_at(s, r + 2, "      "@, "clef"@, Written::Text(st.clef));
    assert(s[r + 8] == s.subrange(r + 8, r + 12)[0]);
    lemma_ident_not_blank(s[r + 8]);
    lemma_skip_blank(s, r + 1, r + 8);
    let rr = r + 8;
    assert forall|i: int| rr <= i < rr + 4 implies is_ident_char(s[i]) by {
        assert(s[i] == s.subrange(r + 8, r + 12)[i - rr]);
    }
    lemma_ident_run(s, rr, 4);
    assert(ws_run(s, rr + 4) == 0);
    // the fields
    lemma_staff_slots_good(st);
    lemma_slots_read(s, rr, r + 2, sls, "      "@, ')', seq![]);
    // the closing parenthesis
    lemma_slots_text_ends(sls);
    assert(s[r + 1 + n] == s.subrange(r + 2, r + 2 + n)[n - 1]);
    lemma_skip_blank(s, r + 1 + n, r + 6 + n);
    lemma_named_end(s, r + 1 + n, r + 6 + n, ')', seq![] + slots_entries(sls));
    assert(seq![] + slots_entries(sls) =~= slots_entries(sls));
}

/// A written staff at `r` reads as its object.
#[verifier::spinoff_prover]
pub proof fn lemma_staff_value(s: Seq<char>, r: int, st: StaffView)
    requires
        0 <= r,
        r + staff_inner(st).len() <= s.len(),
        s.subrange(r, r + staff_inner(st).len()) == staff_inner(st),
    ensures
        spec_value(s, r) == Some((staff_object(st), r + staff_inner(st).len())),
{
    let n = slots_text(staff_slots(st)).len() as int;
    lemma_staff_inner_at(s, r, st);
    lemma_staff_fields(s, r, st);
    lemma_skip_blank(s, r, r);
    lemma_skip_blank(s, r + 6 + n, r + 6 + n);
    assert(spec_expect(s, r, '(') == Some(r + 1));
    assert(spec_expect(s, r + 6 + n, ')') == Some(r + 7 + n));
    assert(spec_tuple(s, r) == Some((staff_object(st), r + 7 + n)));
}

/// The values the reader gives for written staves.
pub open spec fn staff_objects(sts: Seq<StaffView>) -> Seq<ValueView> {
    sts.map_values(|st: StaffView| staff_object(st))
}

pub proof fn lemma_staves_append(a: Seq<StaffView>, b: Seq<StaffView>)
    ensures
        staves_typst(a + b) == staves_typst(a) + staves_typst(b),
    decreases b.len(),
{
    if b.len() == 0 {
        assert(a + b =~= a);
        assert(staves_typst(a) + staves_typst(b) =~= staves_typst(a));
    } else {
        lemma_staves_append(a, b.drop_last());
        assert((a + b).drop_last() =~= a + b.drop_last());
        assert(staves_typst(a) + staves_typst(b) =~= staves_typst(a) + staves_typst(b.drop_last()) + staff_typst(
            b.last(),
        ));
    }
}

/// The text of the staves around staff `k`.
pub proof fn lemma_staves_split(sts: Seq<StaffView>, k: int)
    requires
        0 <= k < sts.len(),
    ensures
        staves_typst(sts) == staves_typst(sts.take(k)) + staff_typst(sts[k]) + staves_typst(sts.skip(k + 1)),
        staves_typst(sts.take(k + 1)) == staves_typst(sts.take(k)) + staff_typst(sts[k]),
{
    assert(sts.take(k + 1).drop_last() =~= sts.take(k));
    assert(sts =~= sts.take(k + 1) + sts.skip(k + 1));
    lemma_staves_append(sts.take(k + 1), sts.skip(k + 1));
}

/// A written staff is four spaces, its inner text and `,` with a newline.
pub proof fn lemma_staff_shape(st: StaffView)
    ensures
        staff_typst(st) == "    "@ + staff_inner(st) + ",\n"@,
        staff_typst(st).len() == staff_inner(st).len() + 6,
        forall|i: int| 0 <= i < 4 ==> staff_typst(st)[i] == ' ',
        staff_typst(st)[4] == '(',
{
    reveal_strlit("    ");
    reveal_strlit(",\n");
    reveal_strlit("    (\n");
    reveal_strlit("    ),\n");
    reveal_strlit("(\n");
    reveal_strlit("    )");
    lemma_staff_text(st);
    assert(staff_typst(st) =~= "    "@ + staff_inner(st) + ",\n"@);
}

/// A piece of a text found at `b` is found at the matching place.
pub proof fn lemma_slice(s: Seq<char>, b: int, w: Seq<char>, j: int, m: int)
    requires
        0 <= b,
        0 <= j <= m <= w.len(),
        b + w.len() <= s.len(),
        s.subrange(b, b + w.len()) == w,
    ensures
        s.subrange(b + j, b + m) == w.subrange(j, m),
{
    assert forall|i: int| 0 <= i < m - j implies s.subrange(b + j, b + m)[i] == w.subrange(j, m)[i] by {
        assert(s[b + j + i] == s.subrange(b, b + w.len())[j + i]);
    }
    assert(s.subrange(b + j, b + m) =~= w.subrange(j, m));
}

/// Where staff `k` of a `staves` tuple at `b` stands, and what follows it.
pub proof fn lemma_staves_layout(s: Seq<char>, b: int, sts: Seq<StaffView>, k: int)
    requires
        0 <= b,
        0 <= k < sts.len(),
        b + staves_typst(sts).len() + 3 <= s.len(),
        s.subrange(b, b + staves_typst(sts).len() + 3) == staves_typst(sts) + "  )"@,
    ensures
        ({
            let r = b + staves_typst(sts.take(k)).len() + 4;
            let x = staff_inner(sts[k]);
            let e = r + x.len();
            &&& s.subrange(r, r + x.len()) == x
            &&& s[e] == ','
            &&& s[e + 1] == '\n'
            &&& e + 2 == b + staves_typst(sts.take(k + 1)).len()
        }),
{
    let all = staves_typst(sts);
    let w = all + "  )"@;
    let pre = staves_typst(sts.take(k));
    let st = sts[k];
    let cur = staff_typst(st);
    let x = staff_inner(st);
    lemma_staves_split(sts, k);
    lemma_staff_shape(st);
    let off = pre.len() as int;
    assert(w.subrange(off, off + cur.len()) =~= cur);
    lemma_slice(s, b, w, off, off + cur.len());
    reveal_strlit("    ");
    reveal_strlit(",\n");
    let xl = x.len() as int;
    assert(cur.subrange(4, 4 + xl) =~= x);
    lemma_slice(s, b + off, cur, 4, 4 + xl);
    let e = b + off + 4 + xl;
    assert(s[e] == s.subrange(b + off, b + off + cur.len())[4 + xl]);
    assert(s[e + 1] == s.subrange(b + off, b + off + cur.len())[5 + xl]);
}

/// What follows staff `k`: the rest of the staves and the tuple's end.
pub proof fn lemma_staves_rest(s: Seq<char>, b: int, sts: Seq<StaffView>, k: int)
    requires
        0 <= b,
        0 <= k < sts.len(),
        b + staves_typst(sts).len() + 3 <= s.len(),
        s.subrange(b, b + staves_typst(sts).len() + 3) == staves_typst(sts) + "  )"@,
    ensures
        ({
            let n = b + staves_typst(sts.take(k + 1)).len();
            let rest = staves_typst(sts.skip(k + 1)) + "  )"@;
            &&& n + rest.len() == b + staves_typst(sts).len() + 3
            &&& s.subrange(n, n + rest.len()) == rest
        }),
{
    let all = staves_typst(sts);
    let w = all + "  )"@;
    lemma_staves_split(sts, k);
    let n0 = staves_typst(sts.take(k + 1)).len() as int;
    let rest = staves_typst(sts.skip(k + 1)) + "  )"@;
    assert(w =~= staves_typst(sts.take(k + 1)) + rest);
    assert(w.subrange(n0, w.len() as int) =~= rest);
    lemma_slice(s, b, w, n0, w.len() as int);
}

/// After a staff that is not the last, the next staff's parenthesis follows four spaces.
pub proof fn lemma_staves_next(s: Seq<char>, b: int, sts: Seq<StaffView>, k: int)
    requires
        0 <= b,
        0 <= k,
        k + 1 < sts.len(),
        b + staves_typst(sts).len() + 3 <= s.len(),
        s.subrange(b, b + staves_typst(sts).len() + 3) == staves_typst(sts) + "  )"@,
    ensures
        ({
            let n = b + staves_typst(sts.take(k + 1)).len();
            &&& forall|i: int| n <= i < n + 4 ==> s[i] == ' '
            &&& s[n + 4] == '('
            &&& n + 5 < s.len()
        }),
{
    lemma_staves_rest(s, b, sts, k);
    let n = b + staves_typst(sts.take(k + 1)).len();
    let rest = staves_typst(sts.skip(k + 1)) + "  )"@;
    let nxt = staff_typst(sts[k + 1]);
    lemma_staff_shape(sts[k + 1]);
    assert(sts.skip(k + 1)[0] == sts[k + 1]);
    lemma_staves_split(sts.skip(k + 1), 0);
    assert(sts.skip(k + 1).take(0) =~= Seq::<StaffView>::empty());
    assert(forall|i: int| 0 <= i < 5 ==> rest[i] == nxt[i]);
    assert(rest.len() > 5);
    assert forall|i: int| n <= i < n + 5 implies s[i] == nxt[i - n] by {
        assert(s[i] == s.subrange(n, n + rest.len())[i - n]);
    }
}

/// After the last staff come two spaces and the tuple's parenthesis.
pub proof fn lemma_staves_last(s: Seq<char>, b: int, sts: Seq<StaffView>)
    requires
        0 <= b,
        0 < sts.len(),
        b + staves_typst(sts).len() + 3 <= s.len(),
        s.subrange(b, b + staves_typst(sts).len() + 3) == staves_typst(sts) + "  )"@,
    ensures
        ({
            let n = b + staves_typst(sts.take(sts.len() as int)).len();
            &&& n == b + staves_typst(sts).len()
            &&& s[n] == ' ' && s[n + 1] == ' ' && s[n + 2] == ')'
        }),
{
    reveal_strlit("  )");
    let k = sts.len() - 1;
    lemma_staves_rest(s, b, sts, k);
    assert(sts.take(k + 1) =~= sts);
    assert(sts.skip(k + 1) =~= Seq::<StaffView>::empty());
    let n = b + staves_typst(sts).len();
    let rest = staves_typst(sts.skip(k + 1)) + "  )"@;
    assert(rest =~= "  )"@);
    assert(s[n] == s.subrange(n, n + 3)[0]);
    assert(s[n + 1] == s.subrange(n, n + 3)[1]);
    assert(s[n + 2] == s.subrange(n, n + 3)[2]);
}

/// The staves of a `staves` tuple read, from staff `k` on, as their objects.
#[verifier::spinoff_prover]
pub proof fn lemma_staves_items(s: Seq<char>, b: int, sts: Seq<StaffView>, k: int, acc: Seq<ValueView>)
    requires
        0 <= b,
        0 <= k < sts.len(),
        b + staves_typst(sts).len() + 3 <= s.len(),
        s.subrange(b, b + staves_typst(sts).len() + 3) == staves_typst(sts) + "  )"@,
    ensures
        spec_items(s, b + staves_typst(sts.take(k)).len() + 4, acc) == Some(
            (acc + staff_objects(sts.skip(k)), b + staves_typst(sts).len() + 2),
        ),
    decreases sts.len() - k,
{
    let st = sts[k];
    let r = b + staves_typst(sts.take(k)).len() + 4;
    let x = staff_inner(st);
    let e = r + x.len();
    lemma_staves_layout(s, b, sts, k);
    lemma_staves_rest(s, b, sts, k);
    lemma_staff_value(s, r, st);
    lemma_skip_blank(s, e, e);
    let obj = staff_object(st);
    if k + 1 < sts.len() {
        lemma_staves_next(s, b, sts, k);
        assert forall|i: int| e + 1 <= i < e + 6 implies s[i] == ' ' || s[i] == '\n' by {
            if i > e + 1 {
                assert(e + 2 <= i < e + 6);
            }
        }
        assert(s[e + 6] == '(');
        lemma_skip_blank(s, e + 1, e + 6);
        lemma_staves_items(s, b, sts, k + 1, acc.push(obj));
        assert(acc.push(obj) + staff_objects(sts.skip(k + 1)) =~= acc + staff_objects(sts.skip(k)));
    } else {
        lemma_staves_last(s, b, sts);
        lemma_skip_blank(s, e + 1, e + 4);
        assert(acc.push(obj) =~= acc + staff_objects(sts.skip(k)));
    }
}

/// The `staves` value: a space, `(`, a newline, the staves, two spaces and `)`.
pub open spec fn staves_value_text(sts: Seq<StaffView>) -> Seq<char> {
    " (\n"@ + staves_typst(sts) + "  )"@
}

/// The written `staves` value reads as the tuple of the staves' objects.
#[verifier::spinoff_prover]
pub proof fn lemma_staves_value(s: Seq<char>, p: int, sts: Seq<StaffView>)
    requires
        0 <= p,
        p + staves_value_text(sts).len() <= s.len(),
        s.subrange(p, p + staves_value_text(sts).len()) == staves_value_text(sts),
    ensures
        spec_value(s, p) == Some((ValueView::Tuple(staff_objects(sts)), p + staves_value_text(sts).len())),
{
    reveal_strlit(" (\n");
    reveal_strlit("  )");
    let w = staves_value_text(sts);
    let all = staves_typst(sts);
    let b = p + 3;
    assert(s[p] == s.subrange(p, p + w.len())[0]);
    assert(s[p + 1] == s.subrange(p, p + w.len())[1]);
    assert(s[p + 2] == s.subrange(p, p + w.len())[2]);
    assert(w.subrange(3, w.len() as int) =~= all + "  )"@);
    lemma_slice(s, p, w, 3, w.len() as int);
    lemma_skip_blank(s, p, p + 1);
    lemma_skip_blank(s, p + 1, p + 1);
    assert(spec_expect(s, p + 1, '(') == Some(p + 2));
    if sts.len() == 0 {
        assert(all =~= Seq::<char>::empty());
        assert(s[b] == s.subrange(b, b + 3)[0]);
        assert(s[b + 1] == s.subrange(b, b + 3)[1]);
        assert(s[b + 2] == s.subrange(b, b + 3)[2]);
        lemma_skip_blank(s, p + 2, b + 2);
        assert(staff_objects(sts) =~= Seq::<ValueView>::empty());
        assert(spec_tuple(s, p + 1) == Some((ValueView::Tuple(staff_objects(sts)), b + 3)));
    } else {
        lemma_staves_split(sts, 0);
        assert(sts.take(0) =~= Seq::<StaffView>::empty());
        lemma_staff_shape(sts[0]);
        let first = staff_typst(sts[0]);
        assert(forall|i: int| 0 <= i < 5 ==> (all + "  )"@)[i] == first[i]);
        assert forall|i: int| b <= i < b + 5 implies s[i] == first[i - b] by {
            assert(s[i] == s.subrange(b, b + all.len() + 3)[i - b]);
        }
        assert forall|i: int| p + 2 <= i < b + 4 implies s[i] == ' ' || s[i] == '\n' by {
            if i >= b {
                assert(s[i] == first[i - b]);
            }
        }
        lemma_skip_blank(s, p + 2, b + 4);
        assert(ident_run(s, b + 4) == 0);
        assert(!spec_looks_like_named_arg(s, b + 4));
        lemma_staves_items(s, b, sts, 0, seq![]);
        assert(sts.skip(0) =~= sts);
        assert(seq![] + staff_objects(sts) =~= staff_objects(sts));
        lemma_staves_last(s, b, sts);
        assert(sts.take(sts.len() as int) =~= sts);
        lemma_skip_blank(s, b + all.len() + 2, b + all.len() + 2);
        assert(spec_expect(s, b + all.len() + 2, ')') == Some(b + all.len() + 3));
        assert(spec_tuple(s, p + 1) == Some((ValueView::Tuple(staff_objects(sts)), b + all.len() + 3)));
    }
}

// ---------------------------------------------------------------------------
// The score call
// ---------------------------------------------------------------------------

/// The key the writer writes: the score's, or C where it has none.
pub open spec fn written_key(score: ScoreView) -> Seq<char> {
    match score.key {
        Some(k) => k,
        None => "C"@,
    }
}

/// The score's own arguments in the order the writer writes them.
pub open spec fn score_slots(score: ScoreView, o: OptionsView) -> Seq<(Seq<char>, Seq<char>, Option<Written>)> {
    seq![
        ("  "@, "title"@, opt_text(score.title)),
        ("  "@, "composer"@, opt_text(score.composer)),
        ("  "@, "key"@, Some(Written::Text(written_key(score)))),
        ("  "@, "time"@, opt_text(score.time)),
        ("  "@, "measures-per-line"@, match o.measures_per_line {
            Some(n) => Some(Written::Count(n as nat)),
            None => None,
        }),
    ]
}

pub proof fn lemma_measures_line(n: u32)
    ensures
        "  measures-per-line: "@ + decimal(n as nat) + ",\n"@ == field_line(
            "  "@,
            "measures-per-line"@,
            Written::Count(n as nat),
        ),
{
    reveal_strlit("  measures-per-line: ");
    reveal_strlit("  ");
    reveal_strlit("measures-per-line");
    reveal_strlit(":");
    reveal_strlit(" ");
    assert("  measures-per-line: "@ =~= "  "@ + "measures-per-line"@ + ":"@ + " "@);
    assert("  measures-per-line: "@ + decimal(n as nat) + ",\n"@ =~= field_line(
        "  "@,
        "measures-per-line"@,
        Written::Count(n as nat),
    ));
}

pub proof fn lemma_score_args_text(score: ScoreView, o: OptionsView)
    ensures
        score_args(score, o) == slots_text(score_slots(score, o)),
{
    let sls = score_slots(score, o);
    reveal_with_fuel(slots_text, 6);
    assert(sls.drop_last().drop_last().drop_last().drop_last().drop_last() =~= Seq::<
        (Seq<char>, Seq<char>, Option<Written>),
    >::empty());
    lemma_opt_string_arg_slot("  "@, "title"@, score.title);
    lemma_opt_string_arg_slot("  "@, "composer"@, score.composer);
    lemma_string_arg_line("  "@, "key"@, written_key(score));
    lemma_opt_string_arg_slot("  "@, "time"@, score.time);
    if let Some(n) = o.measures_per_line {
        lemma_measures_line(n);
    }
    assert(slots_text(sls) =~= slot_text(sls[0]) + slot_text(sls[1]) + slot_text(sls[2]) + slot_text(sls[3])
        + slot_text(sls[4]));
}

/// The score's arguments can be read back.
pub proof fn lemma_score_slots_good(score: ScoreView, o: OptionsView)
    ensures
        forall|k: int| 0 <= k < score_slots(score, o).len() ==> good_slot(#[trigger] score_slots(score, o)[k], "  "@, ')'),
        forall|i: int| 0 <= i < "  "@.len() ==> "  "@[i] == ' ',
        slot_text(score_slots(score, o)[2]).len() > 0,
{
    reveal_strlit("  ");
    reveal_strlit("title");
    reveal_strlit("composer");
    reveal_strlit("key");
    reveal_strlit("time");
    reveal_strlit("measures-per-line");
    let sls = score_slots(score, o);
    assert forall|k: int| 0 <= k < sls.len() implies good_slot(#[trigger] sls[k], "  "@, ')') by {
        let n = sls[k].1;
        assert(forall|i: int| 0 <= i < n.len() ==> is_ident_char(#[trigger] n[i]));
    }
}

/// What the reader finds for each argument name of a written score.
pub proof fn lemma_score_lookups(score: ScoreView, o: OptionsView)
    ensures
        slot_lookup(score_slots(score, o), "title"@) == match score.title {
            Some(t) => Some(ValueView::Str(t)),
            None => None::<ValueView>,
        },
        slot_lookup(score_slots(score, o), "composer"@) == match score.composer {
            Some(t) => Some(ValueView::Str(t)),
            None => None::<ValueView>,
        },
        slot_lookup(score_slots(score, o), "key"@) == Some(ValueView::Str(written_key(score))),
        slot_lookup(score_slots(score, o), "time"@) == match score.time {
            Some(t) => Some(ValueView::Str(t)),
            None => None::<ValueView>,
        },
        slot_lookup(score_slots(score, o), "measures-per-line"@) == match o.measures_per_line {
            Some(n) => Some(ValueView::Number(n as int)),
            None => None::<ValueView>,
        },
{
    reveal_with_fuel(slot_lookup, 6);
    reveal_strlit("title");
    reveal_strlit("composer");
    reveal_strlit("key");
    reveal_strlit("time");
    reveal_strlit("measures-per-line");
    let sls = score_slots(score, o);
    let d0 = sls;
    let d1 = d0.drop_last();
    let d2 = d1.drop_last();
    let d3 = d2.drop_last();
    let d4 = d3.drop_last();
    assert(d0.last() == sls[4]);
    assert(d1.last() == sls[3]);
    assert(d2.last() == sls[2]);
    assert(d3.last() == sls[1]);
    assert(d4.last() == sls[0]);
    assert(sls[0].1 == "title"@);
    assert(sls[1].1 == "composer"@);
    assert(sls[2].1 == "key"@);
    assert(sls[3].1 == "time"@);
    assert(sls[4].1 == "measures-per-line"@);
    assert(d4.drop_last() =~= Seq::<(Seq<char>, Seq<char>, Option<Written>)>::empty());
    assert(slot_lookup(d3, "title"@) == slot_lookup(d4, "title"@));
    assert(slot_lookup(d2, "title"@) == slot_lookup(d3, "title"@));
    assert(slot_lookup(d1, "title"@) == slot_lookup(d2, "title"@));
    assert(slot_lookup(d0, "title"@) == slot_lookup(d1, "title"@));
    assert(slot_lookup(d2, "composer"@) == slot_lookup(d3, "composer"@));
    assert(slot_lookup(d1, "composer"@) == slot_lookup(d2, "composer"@));
    assert(slot_lookup(d0, "composer"@) == slot_lookup(d1, "composer"@));
    assert(slot_lookup(d1, "key"@) == slot_lookup(d2, "key"@));
    assert(slot_lookup(d0, "key"@) == slot_lookup(d1, "key"@));
    assert(slot_lookup(d0, "time"@) == slot_lookup(d1, "time"@));
}

/// Written staves read back as those staves.
pub proof fn lemma_staves_read(sts: Seq<StaffView>)
    ensures
        spec_staves(staff_objects(sts)) == Some(sts),
    decreases sts.len(),
{
    if sts.len() > 0 {
        lemma_staves_read(sts.drop_last());
        assert(staff_objects(sts).drop_last() =~= staff_objects(sts.drop_last()));
        lemma_staff_read(sts.last());
        assert(sts.drop_last().push(sts.last()) =~= sts);
    } else {
        assert(staff_objects(sts) =~= Seq::<ValueView>::empty());
        assert(sts =~= Seq::<StaffView>::empty());
    }
}

/// The text of a `#score` call after `#score`.
pub open spec fn score_call_body(score: ScoreView, o: OptionsView) -> Seq<char> {
    "(\n"@ + score_args(score, o) + "  staves:"@ + staves_value_text(score.staves) + ",\n"@ + ")\n"@
}

/// The named values the reader gives for a written score call.
pub open spec fn score_entries(score: ScoreView, o: OptionsView) -> Seq<(Seq<char>, ValueView)> {
    slots_entries(score_slots(score, o)).push(("staves"@, ValueView::Tuple(staff_objects(score.staves))))
}

/// Regrouping the pieces of a written Typst call.
pub proof fn lemma_emit_regroup(pre: Seq<char>, a: Seq<char>, st: Seq<char>)
    ensures
        pre + "#score(\n"@ + a + "  staves: (\n"@ + st + "  ),\n"@ + ")\n"@ == pre + "#score"@ + ("(\n"@ + a
            + "  staves:"@ + (" (\n"@ + st + "  )"@) + ",\n"@ + ")\n"@),
{
    reveal_strlit("#score(\n");
    reveal_strlit("#score");
    reveal_strlit("(\n");
    reveal_strlit("  staves: (\n");
    reveal_strlit("  staves:");
    reveal_strlit(" (\n");
    reveal_strlit("  ),\n");
    reveal_strlit("  )");
    reveal_strlit(",\n");
    reveal_strlit(")\n");
    assert(pre + "#score(\n"@ + a + "  staves: (\n"@ + st + "  ),\n"@ + ")\n"@ =~= pre + "#score"@ + ("(\n"@ + a
        + "  staves:"@ + (" (\n"@ + st + "  )"@) + ",\n"@ + ")\n"@));
}

pub proof fn lemma_emit_shape(score: ScoreView, o: OptionsView)
    ensures
        spec_emit_typst(score, o) == typst_preamble(o) + "#score"@ + score_call_body(score, o),
{
    lemma_emit_regroup(typst_preamble(o), score_args(score, o), staves_typst(score.staves));
}

/// Where the pieces of a score call body stand.
pub proof fn lemma_body_layout(a: Seq<char>, sv: Seq<char>)
    ensures
        ({
            let s = "(\n"@ + a + "  staves:"@ + sv + ",\n"@ + ")\n"@;
            let na = a.len() as int;
            let e1 = na + 11 + sv.len();
            &&& s.len() == e1 + 4
            &&& s[0] == '('
            &&& s[1] == '\n'
            &&& s.subrange(2, 2 + na) == a
            &&& s[2 + na] == ' '
            &&& s[3 + na] == ' '
            &&& s.subrange(4 + na, 10 + na) == "staves"@
            &&& s[10 + na] == ':'
            &&& s.subrange(11 + na, e1) == sv
            &&& s[e1] == ','
            &&& s[e1 + 1] == '\n'
            &&& s[e1 + 2] == ')'
        }),
{
    reveal_strlit("(\n");
    reveal_strlit("  staves:");
    reveal_strlit("staves");
    reveal_strlit(",\n");
    reveal_strlit(")\n");
    let s = "(\n"@ + a + "  staves:"@ + sv + ",\n"@ + ")\n"@;
    let na = a.len() as int;
    let e1 = na + 11 + sv.len();
    assert(s.subrange(2, 2 + na) =~= a);
    assert(s.subrange(4 + na, 10 + na) =~= "staves"@);
    assert(s.subrange(11 + na, e1) =~= sv);
}

/// The score's own arguments in a written call body read as their values.
#[verifier::spinoff_prover]
pub proof fn lemma_body_args(score: ScoreView, o: OptionsView)
    ensures
        ({
            let s = score_call_body(score, o);
            let na = score_args(score, o).len() as int;
            &&& spec_named(s, 1, ')', seq![]) == spec_named(s, 1 + na, ')', slots_entries(score_slots(score, o)))
            &&& s[1 + na] == '\n'
            &&& spec_expect(s, 0, '(') == Some(1int)
        }),
{
    let s = score_call_body(score, o);
    let a = score_args(score, o);
    let sls = score_slots(score, o);
    let sv = staves_value_text(score.staves);
    let na = a.len() as int;
    lemma_body_layout(a, sv);
    lemma_score_args_text(score, o);
    lemma_score_slots_good(score, o);
    lemma_skip_blank(s, 0, 0);
    lemma_score_args_nonempty(score, o);
    lemma_slots_read(s, 1, 2, sls, "  "@, ')', seq![]);
    assert(seq![] + slots_entries(sls) =~= slots_entries(sls));
    lemma_slots_text_ends(sls);
    assert(s[1 + na] == s.subrange(2, 2 + na)[na - 1]);
}

/// A `staves` argument after the newline at `1 + na` reads as the staves'
/// tuple, and the call's parenthesis closes after it.
#[verifier::spinoff_prover]
pub proof fn lemma_staves_arg(s: Seq<char>, na: int, sts: Seq<StaffView>, acc: Seq<(Seq<char>, ValueView)>)
    requires
        0 <= na,
        s.len() == na + 15 + staves_value_text(sts).len(),
        s[1 + na] == '\n',
        s[2 + na] == ' ',
        s[3 + na] == ' ',
        s.subrange(4 + na, 10 + na) == "staves"@,
        s[10 + na] == ':',
        s.subrange(11 + na, na + 11 + staves_value_text(sts).len()) == staves_value_text(sts),
        s[na + 11 + staves_value_text(sts).len()] == ',',
        s[na + 12 + staves_value_text(sts).len()] == '\n',
        s[na + 13 + staves_value_text(sts).len()] == ')',
    ensures
        ({
            let e1 = na + 11 + staves_value_text(sts).len();
            &&& spec_named(s, 1 + na, ')', acc) == Some(
                (acc.push(("staves"@, ValueView::Tuple(staff_objects(sts)))), e1 + 2),
            )
            &&& spec_expect(s, e1 + 2, ')') == Some(e1 + 3)
        }),
{
    let sv = staves_value_text(sts);
    let e1 = na + 11 + sv.len();
    let q = 4 + na;
    lemma_staves_value(s, 11 + na, sts);
    reveal_strlit("staves");
    assert(s[q] == s.subrange(q, q + 6)[0]);
    lemma_skip_blank(s, 1 + na, q);
    assert(forall|i: int| 0 <= i < "staves"@.len() ==> is_ident_char(#[trigger] "staves"@[i]));
    lemma_field_step(s, 1 + na, q, "staves"@, ValueView::Tuple(staff_objects(sts)), e1, ')', acc);
    lemma_skip_blank(s, e1 + 1, e1 + 2);
    lemma_named_end(
        s,
        e1 + 1,
        e1 + 2,
        ')',
        acc.push(("staves"@, ValueView::Tuple(staff_objects(sts)))),
    );
    lemma_skip_blank(s, e1 + 2, e1 + 2);
}

/// The `staves` argument after arguments `a` that end with a newline.
#[verifier::spinoff_prover]
pub proof fn lemma_body_staves_at(s: Seq<char>, a: Seq<char>, sts: Seq<StaffView>, acc: Seq<(Seq<char>, ValueView)>)
    requires
        s == "(\n"@ + a + "  staves:"@ + staves_value_text(sts) + ",\n"@ + ")\n"@,
        a.len() > 0,
        a.last() == '\n',
    ensures
        ({
            let na = a.len() as int;
            let e = s.len() - 1;
            &&& spec_named(s, 1 + na, ')', acc) == Some(
                (acc.push(("staves"@, ValueView::Tuple(staff_objects(sts)))), e - 1),
            )
            &&& spec_expect(s, e - 1, ')') == Some(e)
        }),
{
    let na = a.len() as int;
    lemma_body_layout(a, staves_value_text(sts));
    assert(s[1 + na] == s.subrange(2, 2 + na)[na - 1]);
    lemma_staves_arg(s, na, sts, acc);
}

/// The `staves` argument of a written call body reads as the staves' tuple,
/// and the call ends after it.
pub proof fn lemma_body_staves(score: ScoreView, o: OptionsView)
    ensures
        ({
            let s = score_call_body(score, o);
            let na = score_args(score, o).len() as int;
            let e = s.len() - 1;
            &&& spec_named(s, 1 + na, ')', slots_entries(score_slots(score, o))) == Some((score_entries(score, o), e - 1))
            &&& spec_expect(s, e - 1, ')') == Some(e)
        }),
{
    lemma_args_end(score, o);
    lemma_body_staves_at(
        score_call_body(score, o),
        score_args(score, o),
        score.staves,
        slots_entries(score_slots(score, o)),
    );
}

/// The score's arguments end with a newline.
pub proof fn lemma_args_end(score: ScoreView, o: OptionsView)
    ensures
        score_args(score, o).len() > 0,
        score_args(score, o).last() == '\n',
{
    lemma_score_args_text(score, o);
    lemma_score_args_nonempty(score, o);
    lemma_slots_text_ends(score_slots(score, o));
}

/// A score always has its key argument, so its arguments are not empty.
pub proof fn lemma_score_args_nonempty(score: ScoreView, o: OptionsView)
    ensures
        slots_text(score_slots(score, o)).len() > 0,
{
    let sls = score_slots(score, o);
    reveal_with_fuel(slots_text, 6);
    assert(sls.drop_last().drop_last().drop_last().drop_last().drop_last() =~= Seq::<
        (Seq<char>, Seq<char>, Option<Written>),
    >::empty());
    reveal_strlit(",\n");
    assert(slot_text(sls[2]).len() > 0);
    assert(slots_text(sls) =~= slot_text(sls[0]) + slot_text(sls[1]) + slot_text(sls[2]) + slot_text(sls[3])
        + slot_text(sls[4]));
}

/// The comment line holds no `#`.
pub proof fn lemma_comment_has_no_hash()
    ensures
        forall|i: int|
            0 <= i < "// Generated by musicxml-to-scorify.\n"@.len() ==> #[trigger] "// Generated by musicxml-to-scorify.\n"@[i]
                != '#',
{
    reveal_strlit("// Generated by musicxml-to-scorify.\n");
}

/// In an import line, `#score` can only stand inside the package name.
pub proof fn lemma_import_line(pkg: Seq<char>, j: int)
    requires
        find_seq(pkg, "#score"@) is None,
        0 <= j < ("#import \""@ + pkg + "\": score\n\n"@).len(),
    ensures
        !has_at("#import \""@ + pkg + "\": score\n\n"@ + "#score"@, j, "#score"@),
{
    reveal_strlit("#import \"");
    reveal_strlit("\": score\n\n");
    reveal_strlit("#score");
    let line = "#import \""@ + pkg + "\": score\n\n"@;
    let t = line + "#score"@;
    let n = "#score"@;
    let m = pkg.len() as int;
    if has_at(t, j, n) {
        assert forall|i: int| 0 <= i < 6 implies t[j + i] == n[i] by {
            assert(t.subrange(j, j + 6)[i] == t[j + i]);
        }
        if j == 0 {
            assert(t[1] == 'i');
            assert(t.subrange(j, j + 6)[1] == t[1]);
        } else if j < 9 {
            assert(t[j] == "#import \""@[j]);
            assert(t.subrange(j, j + 6)[0] == t[j]);
        } else if j < 9 + m {
            if j + 6 <= 9 + m {
                assert(pkg.subrange(j - 9, j - 3) =~= n) by {
                    assert forall|i: int| 0 <= i < 6 implies pkg.subrange(j - 9, j - 3)[i] == n[i] by {
                        assert(pkg[j - 9 + i] == t[j + i]);
                    }
                }
                assert(has_at(pkg, j - 9, n));
            } else {
                assert(t[9 + m] == '"');
                assert(t[9 + m] == n[9 + m - j]);
            }
        } else {
            assert(t[j] == "\": score\n\n"@[j - 9 - m]);
            assert(t.subrange(j, j + 6)[0] == t[j]);
        }
    }
}

/// The first place a text holds `needle`.
pub proof fn lemma_first_at(t: Seq<char>, k: int, needle: Seq<char>)
    requires
        has_at(t, k, needle),
        forall|j: int| 0 <= j < k ==> !has_at(t, j, needle),
    ensures
        find_seq(t, needle) == Some(k),
{
}

/// Before `#score`, a comment without `#` and an import line whose package
/// holds no `#score` hold no `#score` either.
pub proof fn lemma_no_score_before(c: Seq<char>, imp: Seq<char>, pkg: Seq<char>, body: Seq<char>, j: int)
    requires
        forall|i: int| 0 <= i < c.len() ==> #[trigger] c[i] != '#',
        imp.len() == 0 || (imp == "#import \""@ + pkg + "\": score\n\n"@ && find_seq(pkg, "#score"@) is None),
        0 <= j < c.len() + imp.len(),
    ensures
        !has_at(c + imp + "#score"@ + body, j, "#score"@),
{
    reveal_strlit("#score");
    let t = c + imp + "#score"@ + body;
    let n = "#score"@;
    if has_at(t, j, n) {
        assert(t.subrange(j, j + 6)[0] == t[j]);
        if j < c.len() {
            assert(t[j] == c[j]);
        } else {
            let u = imp + "#score"@;
            let jj = j - c.len();
            assert(u.subrange(jj, jj + 6) =~= t.subrange(j, j + 6)) by {
                assert forall|i: int| 0 <= i < 6 implies #[trigger] u.subrange(jj, jj + 6)[i] == t.subrange(j, j + 6)[i] by {
                    assert(t[j + i] == u[jj + i]);
                }
            }
            assert(has_at(u, jj, n));
            if imp.len() > 0 {
                lemma_import_line(pkg, jj);
            }
        }
    }
}

/// `#score` first stands right after the preamble.
pub proof fn lemma_find_score(o: OptionsView, body: Seq<char>)
    requires
        o.include_import ==> find_seq(escape_typst_string(o.package), "#score"@) is None,
    ensures
        find_seq(typst_preamble(o) + "#score"@ + body, "#score"@) == Some(typst_preamble(o).len() as int),
{
    reveal_strlit("#score");
    let c = flag_arg(o.include_comment, "// Generated by musicxml-to-scorify.\n"@);
    let imp = flag_arg(o.include_import, "#import \""@ + escape_typst_string(o.package) + "\": score\n\n"@);
    let pre = typst_preamble(o);
    assert(pre == c + imp);
    let t = pre + "#score"@ + body;
    let k = pre.len() as int;
    lemma_comment_has_no_hash();
    assert forall|i: int| 0 <= i < c.len() implies #[trigger] c[i] != '#' by {
        if o.include_comment {
            assert(c[i] == "// Generated by musicxml-to-scorify.\n"@[i]);
        }
    }
    assert forall|j: int| 0 <= j < k implies !has_at(t, j, "#score"@) by {
        lemma_no_score_before(c, imp, escape_typst_string(o.package), body, j);
    }
    assert(t.subrange(k, k + 6) =~= "#score"@);
    lemma_first_at(t, k, "#score"@);
}

/// The named values of a written score call make up that score.
pub proof fn lemma_score_fields_read(score: ScoreView, o: OptionsView)
    ensures
        spec_score_of_fields(score_entries(score, o)) == Some(
            ScoreView {
                title: score.title,
                composer: score.composer,
                key: Some(written_key(score)),
                time: score.time,
                staves: score.staves,
            },
        ),
{
    reveal_strlit("staves");
    reveal_strlit("title");
    reveal_strlit("composer");
    reveal_strlit("key");
    reveal_strlit("time");
    reveal_strlit("measures-per-line");
    let sls = score_slots(score, o);
    let f = score_entries(score, o);
    assert(f.drop_last() == slots_entries(sls));
    lemma_score_lookups(score, o);
    lemma_slots_lookup(sls, "title"@);
    lemma_slots_lookup(sls, "composer"@);
    lemma_slots_lookup(sls, "key"@);
    lemma_slots_lookup(sls, "time"@);
    lemma_slots_lookup(sls, "measures-per-line"@);
    lemma_staves_read(score.staves);
    assert(f.last().0 == "staves"@);
    assert("staves"@ != "title"@ && "staves"@ != "composer"@ && "staves"@ != "key"@ && "staves"@ != "time"@
        && "staves"@ != "measures-per-line"@);
    assert(lookup(f, "title"@) == lookup(f.drop_last(), "title"@));
    assert(lookup(f, "composer"@) == lookup(f.drop_last(), "composer"@));
    assert(lookup(f, "key"@) == lookup(f.drop_last(), "key"@));
    assert(lookup(f, "time"@) == lookup(f.drop_last(), "time"@));
    assert(lookup(f, "measures-per-line"@) == lookup(f.drop_last(), "measures-per-line"@));
}

/// A character that escaping leaves alone and that never ends an escape.
pub open spec fn plain_char(c: char) -> bool {
    c != '\\' && c != '"' && c != 'n' && c != '\n'
}

/// Where an escaped text ends with plain characters, the text ends with them.
pub proof fn lemma_escaped_suffix(q: Seq<char>, w: Seq<char>)
    requires
        forall|k: int| 0 <= k < w.len() ==> plain_char(#[trigger] w[k]),
        w.len() <= escape_typst_string(q).len(),
        escape_typst_string(q).subrange(escape_typst_string(q).len() - w.len(), escape_typst_string(q).len() as int)
            == w,
    ensures
        w.len() <= q.len(),
        q.subrange(q.len() - w.len(), q.len() as int) == w,
    decreases q.len(),
{
    let e = escape_typst_string(q);
    if w.len() == 0 {
        assert(q.subrange(q.len() as int, q.len() as int) =~= w);
    } else {
        assert(q.len() > 0);
        let q1 = q.drop_last();
        let e1 = escape_typst_string(q1);
        let c = q.last();
        assert(e.last() == e.subrange(e.len() - w.len(), e.len() as int)[w.len() - 1]);
        assert(e.last() == w.last());
        assert(plain_char(w[w.len() - 1]));
        assert(c != '\\' && c != '"' && c != '\n');
        assert(e == e1.push(c));
        let w1 = w.drop_last();
        assert(e1.subrange(e1.len() - w1.len(), e1.len() as int) =~= w1) by {
            assert forall|k: int| 0 <= k < w1.len() implies e1.subrange(e1.len() - w1.len(), e1.len() as int)[k]
                == w1[k] by {
                assert(e1[e1.len() - w1.len() + k] == e[e.len() - w.len() + k]);
                assert(e[e.len() - w.len() + k] == e.subrange(e.len() - w.len(), e.len() as int)[k]);
            }
        }
        lemma_escaped_suffix(q1, w1);
        assert(q.subrange(q.len() - w.len(), q.len() as int) =~= q1.subrange(q1.len() - w1.len(), q1.len() as int)
            .push(c));
    }
}

/// A `#score` in an escaped text that reaches into its last piece comes from
/// a `#score` at the end of the text.
pub proof fn lemma_window_at_end(p: Seq<char>, i: int)
    requires
        p.len() > 0,
        has_at(escape_typst_string(p), i, "#score"@),
        i + 6 > escape_typst_string(p.drop_last()).len(),
    ensures
        has_at(p, p.len() - 6, "#score"@),
{
    reveal_strlit("#score");
    let n = "#score"@;
    let e = escape_typst_string(p);
    let p1 = p.drop_last();
    let e1 = escape_typst_string(p1);
    let c = p.last();
    assert forall|k: int| 0 <= k < 6 implies e[i + k] == n[k] by {
        assert(e[i + k] == e.subrange(i, i + 6)[k]);
    }
    if c == '\\' || c == '"' || c == '\n' {
        assert(e[e1.len() as int] == '\\');
        assert(e[e1.len() as int] == n[e1.len() - i]);
    } else {
        assert(e == e1.push(c));
        let w = n.subrange(0, 5);
        assert forall|k: int| 0 <= k < w.len() implies plain_char(#[trigger] w[k]) by {}
        assert(e1.subrange(e1.len() - 5, e1.len() as int) =~= w) by {
            assert forall|k: int| 0 <= k < 5 implies e1.subrange(e1.len() - 5, e1.len() as int)[k] == w[k] by {
                assert(e1[e1.len() - 5 + k] == e[i + k]);
            }
        }
        lemma_escaped_suffix(p1, w);
        assert(c == n[5]);
        assert(p.subrange(p.len() - 6, p.len() as int) =~= n) by {
            assert forall|k: int| 0 <= k < 6 implies p.subrange(p.len() - 6, p.len() as int)[k] == n[k] by {
                if k < 5 {
                    assert(p[p.len() - 6 + k] == p1.subrange(p1.len() - 5, p1.len() as int)[k]);
                }
            }
        }
    }
}

/// Escaping a text that holds no `#score` gives a text that holds none.
pub proof fn lemma_escape_no_score_at(p: Seq<char>)
    requires
        forall|j: int| !#[trigger] has_at(p, j, "#score"@),
    ensures
        forall|i: int| !#[trigger] has_at(escape_typst_string(p), i, "#score"@),
    decreases p.len(),
{
    reveal_strlit("#score");
    let n = "#score"@;
    let e = escape_typst_string(p);
    if p.len() > 0 {
        let p1 = p.drop_last();
        let e1 = escape_typst_string(p1);
        assert forall|j: int| !#[trigger] has_at(p1, j, n) by {
            if has_at(p1, j, n) {
                assert(p.subrange(j, j + n.len()) =~= p1.subrange(j, j + n.len()));
                assert(has_at(p, j, n));
            }
        }
        lemma_escape_no_score_at(p1);
        assert forall|i: int| !#[trigger] has_at(e, i, n) by {
            if has_at(e, i, n) {
                if i + n.len() <= e1.len() {
                    assert(e1.subrange(i, i + n.len()) =~= e.subrange(i, i + n.len()));
                    assert(has_at(e1, i, n));
                } else {
                    lemma_window_at_end(p, i);
                    assert(has_at(p, p.len() - 6, n));
                }
            }
        }
    }
}

/// Escaping a text that holds no `#score` gives a text that holds none.
pub proof fn lemma_escape_keeps_out_score(p: Seq<char>)
    requires
        find_seq(p, "#score"@) is None,
    ensures
        find_seq(escape_typst_string(p), "#score"@) is None,
{
    lemma_escape_no_score_at(p);
}

/// A score that the Typst writer writes reads back through the Scorify
/// reader as the same score, with `C` as its key where it had none. This
/// holds unless the import line's package name holds `#score` itself.
pub proof fn law_written_score_reads_back(score: ScoreView, o: OptionsView)
    requires
        o.include_import ==> find_seq(o.package, "#score"@) is None,
    ensures
        spec_parse_scorify_score(spec_emit_typst(score, o)) == Some(
            ScoreView {
                title: score.title,
                composer: score.composer,
                key: Some(written_key(score)),
                time: score.time,
                staves: score.staves,
            },
        ),
{
    let body = score_call_body(score, o);
    let pre = typst_preamble(o);
    if o.include_import {
        lemma_escape_keeps_out_score(o.package);
    }
    lemma_emit_shape(score, o);
    lemma_find_score(o, body);
    let t = pre + "#score"@ + body;
    reveal_strlit("#score");
    assert(t.skip(pre.len() + 6int) =~= body);
    lemma_body_args(score, o);
    lemma_body_staves(score, o);
    assert(spec_score_fields(t) == Some(score_entries(score, o)));
    lemma_score_fields_read(score, o);
}

} // verus!

