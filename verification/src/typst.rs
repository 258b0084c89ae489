//! A reader for the Typst values that a `#score(...)` call holds.
use vstd::prelude::*;

use crate::error::{invalid_scorify, invalid_scorify_str, ConvertError};
use crate::scorify_tokens::digit_run;
use crate::text::{
    char_eq, char_is_ascii_alnum, char_is_digit, char_is_whitespace, has_at, has_str_at, is_ascii_alnum,
    is_ws, parse_i64, parse_i64_range, push_chars, push_str, slice_chars, str_to_chars,
};

verus! {

/// The mathematical value of a Typst value.
pub enum ValueView {
    Bool(bool),
    Number(int),
    Str(Seq<char>),
    Tuple(Seq<ValueView>),
    Object(Seq<(Seq<char>, ValueView)>),
}

/// A Typst value: a boolean, an integer, a string, a tuple or a tuple of named fields.
pub enum TypstValue {
    Bool(bool),
    Number(i64),
    String(Vec<char>),
    Tuple(Vec<TypstValue>),
    Object(Vec<TypstField>),
}

/// A named field of a Typst value.
pub struct TypstField {
    pub key: Vec<char>,
    pub value: TypstValue,
}

pub open spec fn value_view(v: TypstValue) -> ValueView
    decreases v,
{
    match v {
        TypstValue::Bool(b) => ValueView::Bool(b),
        TypstValue::Number(n) => ValueView::Number(n as int),
        TypstValue::String(s) => ValueView::Str(s@),
        TypstValue::Tuple(items) => ValueView::Tuple(
            Seq::new(
                items@.len(),
                |i: int|
                    if 0 <= i < items@.len() {
                        value_view(items@[i])
                    } else {
                        ValueView::Bool(false)
                    },
            ),
        ),
        TypstValue::Object(fields) => ValueView::Object(
            Seq::new(
                fields@.len(),
                |i: int|
                    if 0 <= i < fields@.len() {
                        (fields@[i].key@, value_view(fields@[i].value))
                    } else {
                        (seq![], ValueView::Bool(false))
                    },
            ),
        ),
    }
}

pub open spec fn values_view(v: Seq<TypstValue>) -> Seq<ValueView> {
    Seq::new(v.len(), |i: int| value_view(v[i]))
}

pub open spec fn fields_view(v: Seq<TypstField>) -> Seq<(Seq<char>, ValueView)> {
    Seq::new(v.len(), |i: int| (v[i].key@, value_view(v[i].value)))
}

// ---------------------------------------------------------------------------
// The grammar, over positions in the source
// ---------------------------------------------------------------------------

/// First index at or after `p` that holds `c`.
pub open spec fn next_index_of(s: Seq<char>, p: int, c: char) -> Option<int>
    decreases s.len() - p,
{
    if p < 0 || p >= s.len() {
        None
    } else if s[p] == c {
        Some(p)
    } else {
        next_index_of(s, p + 1, c)
    }
}

pub proof fn lemma_tuple_view(items: Vec<TypstValue>)
    ensures
        value_view(TypstValue::Tuple(items)) == ValueView::Tuple(values_view(items@)),
{
    if let ValueView::Tuple(x) = value_view(TypstValue::Tuple(items)) {
        assert(x =~= values_view(items@));
    }
}

pub proof fn lemma_object_view(fields: Vec<TypstField>)
    ensures
        value_view(TypstValue::Object(fields)) == ValueView::Object(fields_view(fields@)),
{
    if let ValueView::Object(x) = value_view(TypstValue::Object(fields)) {
        assert(x =~= fields_view(fields@));
    }
}

/// Position after whitespace and `//` line comments from `p` on.
pub open spec fn skip_ws(s: Seq<char>, p: int) -> int
    decreases s.len() - p,
{
    if p < 0 || p >= s.len() {
        p
    } else if has_at(s, p, "//"@) {
        match next_index_of(s, p, '\n') {
            Some(k) => if p <= k < s.len() {
                skip_ws(s, k + 1)
            } else {
                p
            },
            None => s.len() as int,
        }
    } else if is_ws(s[p]) {
        skip_ws(s, p + 1)
    } else {
        p
    }
}

pub open spec fn is_ident_char(c: char) -> bool {
    is_ascii_alnum(c) || c == '-' || c == '_'
}

pub open spec fn ident_run(s: Seq<char>, p: int) -> nat
    decreases s.len() - p,
{
    if 0 <= p < s.len() && is_ident_char(s[p]) {
        1 + ident_run(s, p + 1)
    } else {
        0
    }
}

pub open spec fn ws_run(s: Seq<char>, p: int) -> nat
    decreases s.len() - p,
{
    if 0 <= p < s.len() && is_ws(s[p]) {
        1 + ws_run(s, p + 1)
    } else {
        0
    }
}

/// Position after `c`, which must be the next character after whitespace and comments.
pub open spec fn spec_expect(s: Seq<char>, p: int, c: char) -> Option<int> {
    let q = skip_ws(s, p);
    if 0 <= q < s.len() && s[q] == c {
        Some(q + 1)
    } else {
        None
    }
}

/// An identifier (letters, digits, `-`, `_`) after whitespace and comments.
pub open spec fn spec_identifier(s: Seq<char>, p: int) -> Option<(Seq<char>, int)> {
    let q = skip_ws(s, p);
    let n = ident_run(s, q);
    if n == 0 {
        None
    } else {
        Some((s.subrange(q, q + n), q + n))
    }
}

pub open spec fn unescape(c: char) -> char {
    if c == 'n' {
        '\n'
    } else {
        c
    }
}

/// The rest of a string literal from `p` on.
pub open spec fn string_from(s: Seq<char>, p: int, acc: Seq<char>, escape: bool) -> Option<(Seq<char>, int)>
    decreases s.len() - p,
{
    if p < 0 || p >= s.len() {
        None
    } else if escape {
        string_from(s, p + 1, acc.push(unescape(s[p])), false)
    } else if s[p] == '\\' {
        string_from(s, p + 1, acc, true)
    } else if s[p] == '"' {
        Some((acc, p + 1))
    } else {
        string_from(s, p + 1, acc.push(s[p]), false)
    }
}

pub open spec fn spec_string(s: Seq<char>, p: int) -> Option<(Seq<char>, int)> {
    match spec_expect(s, p, '"') {
        Some(q) => string_from(s, q, seq![], false),
        None => None,
    }
}

pub proof fn lemma_skip_ws_props(s: Seq<char>, p: int)
    requires
        0 <= p <= s.len(),
    ensures
        p <= skip_ws(s, p) <= s.len(),
        skip_ws(s, skip_ws(s, p)) == skip_ws(s, p),
    decreases s.len() - p,
{
    reveal_strlit("//");
    if p < s.len() {
        if has_at(s, p, "//"@) {
            match next_index_of(s, p, '\n') {
                Some(k) => {
                    if p <= k < s.len() {
                        lemma_skip_ws_props(s, k + 1);
                    }
                },
                None => {},
            }
        } else if is_ws(s[p]) {
            lemma_skip_ws_props(s, p + 1);
        }
    }
}

/// Whether an identifier and then `:` follow position `p`.
pub open spec fn spec_looks_like_named_arg(s: Seq<char>, p: int) -> bool {
    let n = ident_run(s, p);
    n > 0 && {
        let k = p + n + ws_run(s, p + n);
        0 <= k < s.len() && s[k] == ':'
    }
}

/// A value from position `p`: string, tuple, `true`, `false` or integer.
pub open spec fn spec_value(s: Seq<char>, p: int) -> Option<(ValueView, int)>
    decreases s.len() - p, 3int,
{
    if p < 0 || p > s.len() {
        None
    } else {
        let q = skip_ws(s, p);
        if q < p || q > s.len() {
            None
        } else if q < s.len() && s[q] == '"' {
            match spec_string(s, q) {
                Some((v, e)) => Some((ValueView::Str(v), e)),
                None => None,
            }
        } else if q < s.len() && s[q] == '(' {
            spec_tuple(s, q)
        } else if has_at(s, q, "true"@) {
            Some((ValueView::Bool(true), q + 4))
        } else if has_at(s, q, "false"@) {
            Some((ValueView::Bool(false), q + 5))
        } else {
            let n = digit_run(s, q);
            if n > 0 {
                match parse_i64(s.subrange(q, q + n)) {
                    Some(v) => Some((ValueView::Number(v), q + n)),
                    None => None,
                }
            } else {
                None
            }
        }
    }
}

/// A parenthesised value from position `p`: `()`, named fields, or a tuple.
pub open spec fn spec_tuple(s: Seq<char>, p: int) -> Option<(ValueView, int)>
    decreases s.len() - p, 2int,
{
    if p < 0 || p > s.len() {
        None
    } else {
        match spec_expect(s, p, '(') {
            Some(q) => {
                let r = skip_ws(s, q);
                if r <= p || r > s.len() {
                    None
                } else if r < s.len() && s[r] == ')' {
                    Some((ValueView::Tuple(seq![]), r + 1))
                } else if spec_looks_like_named_arg(s, r) {
                    match spec_named(s, r, ')', seq![]) {
                        Some((fields, e)) => match spec_expect(s, e, ')') {
                            Some(f) => Some((ValueView::Object(fields), f)),
                            None => None,
                        },
                        None => None,
                    }
                } else {
                    match spec_items(s, r, seq![]) {
                        Some((vals, e)) => match spec_expect(s, e, ')') {
                            Some(f) => Some((ValueView::Tuple(vals), f)),
                            None => None,
                        },
                        None => None,
                    }
                }
            },
            None => None,
        }
    }
}

/// Named fields `key: value` separated by optional commas, up to `term`.
pub open spec fn spec_named(s: Seq<char>, p: int, term: char, acc: Seq<(Seq<char>, ValueView)>) -> Option<(Seq<(Seq<char>, ValueView)>, int)>
    decreases s.len() - p, 1int,
{
    if p < 0 || p > s.len() {
        None
    } else {
        let q = skip_ws(s, p);
        if q < p || q > s.len() {
            None
        } else if q < s.len() && s[q] == term {
            Some((acc, q))
        } else {
            match spec_identifier(s, q) {
                Some((key, q2)) => match spec_expect(s, q2, ':') {
                    Some(q3) => if q3 <= p || q3 > s.len() {
                        None
                    } else {
                        match spec_value(s, q3) {
                            Some((v, e)) => {
                                let r = skip_ws(s, e);
                                let r2 = if 0 <= r < s.len() && s[r] == ',' {
                                    r + 1
                                } else {
                                    r
                                };
                                if r2 <= p || r2 > s.len() {
                                    None
                                } else {
                                    spec_named(s, r2, term, acc.push((key, v)))
                                }
                            },
                            None => None,
                        }
                    },
                    None => None,
                },
                None => None,
            }
        }
    }
}

/// Comma-separated values; stops before a `)` that follows a trailing comma.
pub open spec fn spec_items(s: Seq<char>, p: int, acc: Seq<ValueView>) -> Option<(Seq<ValueView>, int)>
    decreases s.len() - p, 4int,
{
    if p < 0 || p > s.len() {
        None
    } else {
        match spec_value(s, p) {
            Some((v, e)) => {
                let r = skip_ws(s, e);
                if 0 <= r < s.len() && s[r] == ',' {
                    let r2 = skip_ws(s, r + 1);
                    if 0 <= r2 < s.len() && s[r2] == ')' {
                        Some((acc.push(v), r2))
                    } else if r2 <= p || r2 > s.len() {
                        None
                    } else {
                        spec_items(s, r2, acc.push(v))
                    }
                } else {
                    Some((acc.push(v), r))
                }
            },
            None => None,
        }
    }
}

// ---------------------------------------------------------------------------
// The reader
// ---------------------------------------------------------------------------

/// At most the first 32 characters of the text from `q` on, as error
/// messages show it.
pub open spec fn near(s: Seq<char>, q: int) -> Seq<char> {
    let rest = s.subrange(q, s.len() as int);
    rest.take(if rest.len() < 32 {
        rest.len() as int
    } else {
        32
    })
}

/// The message of a value at `p` that does not read (a run of digits fails
/// to read only when it is too large for an `i64`).
pub open spec fn value_message(s: Seq<char>, p: int) -> Seq<char>
    decreases s.len() - p, 3int,
{
    if p < 0 || p > s.len() {
        seq![]
    } else {
        let q = skip_ws(s, p);
        if q < p || q > s.len() {
            seq![]
        } else if q < s.len() && s[q] == '"' {
            if spec_expect(s, q, '"') is None {
                expect_message(s, q, '"')
            } else {
                "unterminated string"@
            }
        } else if q < s.len() && s[q] == '(' {
            tuple_message(s, q)
        } else if has_at(s, q, "true"@) || has_at(s, q, "false"@) {
            seq![]
        } else if digit_run(s, q) > 0 {
            "invalid number '"@ + s.subrange(q, q + digit_run(s, q)) + "': number too large to fit in target type"@
        } else {
            "unsupported Typst value near '"@ + near(s, q) + "'"@
        }
    }
}

/// The message of a parenthesised value at `p` that does not read.
pub open spec fn tuple_message(s: Seq<char>, p: int) -> Seq<char>
    decreases s.len() - p, 2int,
{
    if p < 0 || p > s.len() {
        seq![]
    } else {
        match spec_expect(s, p, '(') {
            None => expect_message(s, p, '('),
            Some(q) => {
                let r = skip_ws(s, q);
                if r <= p || r > s.len() {
                    seq![]
                } else if r < s.len() && s[r] == ')' {
                    seq![]
                } else if spec_looks_like_named_arg(s, r) {
                    match spec_named(s, r, ')', seq![]) {
                        None => named_message(s, r, ')'),
                        Some((_, e)) => expect_message(s, e, ')'),
                    }
                } else {
                    match spec_items(s, r, seq![]) {
                        None => items_message(s, r),
                        Some((_, e)) => expect_message(s, e, ')'),
                    }
                }
            },
        }
    }
}

/// The message of the first named field, from `p` on up to `term`, that
/// does not read.
pub open spec fn named_message(s: Seq<char>, p: int, term: char) -> Seq<char>
    decreases s.len() - p, 1int,
{
    if p < 0 || p > s.len() {
        seq![]
    } else {
        let q = skip_ws(s, p);
        if q < p || q > s.len() {
            seq![]
        } else if q < s.len() && s[q] == term {
            seq![]
        } else {
            match spec_identifier(s, q) {
                None => "expected identifier near '"@ + near(s, skip_ws(s, q)) + "'"@,
                Some((_, q2)) => match spec_expect(s, q2, ':') {
                    None => expect_message(s, q2, ':'),
                    Some(q3) => if q3 <= p || q3 > s.len() {
                        seq![]
                    } else {
                        match spec_value(s, q3) {
                            None => value_message(s, q3),
                            Some((_, e)) => {
                                let r = skip_ws(s, e);
                                let r2 = if 0 <= r < s.len() && s[r] == ',' {
                                    r + 1
                                } else {
                                    r
                                };
                                if r2 <= p || r2 > s.len() {
                                    seq![]
                                } else {
                                    named_message(s, r2, term)
                                }
                            },
                        }
                    },
                },
            }
        }
    }
}

/// The message of the first item of a tuple, from `p` on, that does not read.
pub open spec fn items_message(s: Seq<char>, p: int) -> Seq<char>
    decreases s.len() - p, 4int,
{
    if p < 0 || p > s.len() {
        seq![]
    } else {
        match spec_value(s, p) {
            None => value_message(s, p),
            Some((_, e)) => {
                let r = skip_ws(s, e);
                if 0 <= r < s.len() && s[r] == ',' {
                    let r2 = skip_ws(s, r + 1);
                    if 0 <= r2 < s.len() && s[r2] == ')' {
                        seq![]
                    } else if r2 <= p || r2 > s.len() {
                        seq![]
                    } else {
                        items_message(s, r2)
                    }
                } else {
                    seq![]
                }
            },
        }
    }
}

/// The message when `c` is not the next character after whitespace and comments.
pub open spec fn expect_message(s: Seq<char>, p: int, c: char) -> Seq<char> {
    "expected '"@ + seq![c] + "' near '"@ + near(s, skip_ws(s, p)) + "'"@
}

/// At most the first 32 characters of a text, for error messages.
pub fn preview(value: &[char]) -> (r: Vec<char>)
    ensures
        r@ == value@.take(if value@.len() < 32 {
            value@.len() as int
        } else {
            32
        }),
{
    let n = if value.len() < 32 {
        value.len()
    } else {
        32
    };
    let r = slice_chars(value, 0, n);
    assert(r@ =~= value@.take(n as int));
    r
}

/// A cursor over the text of a `#score(...)` call.
pub struct TypstParser {
    pub source: Vec<char>,
    pub position: usize,
}

impl TypstParser {
    pub fn new(source: Vec<char>) -> (r: TypstParser)
        ensures
            r.source@ == source@,
            r.position == 0,
    {
        TypstParser { source, position: 0 }
    }

    fn error_near(&self, before: &str) -> (e: ConvertError)
        requires
            self.position <= self.source@.len(),
        ensures
            e matches ConvertError::InvalidScorify(m) && m@ == before@ + near(self.source@, self.position as int) + "'"@,
    {
        let rest = slice_chars(self.source.as_slice(), self.position, self.source.len());
        let mut m = str_to_chars(before);
        push_chars(&mut m, preview(rest.as_slice()).as_slice());
        push_str(&mut m, "'");
        invalid_scorify(m.as_slice())
    }

    /// Moves past whitespace and `//` comments.
    pub fn skip_ws_comments(&mut self)
        requires
            old(self).position <= old(self).source@.len(),
        ensures
            final(self).source@ == old(self).source@,
            final(self).position == skip_ws(old(self).source@, old(self).position as int),
            old(self).position <= final(self).position <= final(self).source@.len(),
    {
        let ghost s = self.source@;
        let ghost p0 = self.position as int;
        proof {
            reveal_strlit("//");
        }
        loop
            invariant
                self.source@ == s,
                s == old(self).source@,
                p0 == old(self).position,
                p0 <= self.position <= s.len(),
                skip_ws(s, p0) == skip_ws(s, self.position as int),
            decreases s.len() - self.position,
        {
            proof {
                reveal_strlit("//");
            }
            let p = self.position;
            if has_str_at(self.source.as_slice(), p, "//") {
                let mut k = p;
                while k < self.source.len() && !char_eq(self.source[k], '\n')
                    invariant
                        p <= k <= self.source@.len(),
                        self.source@ == s,
                        next_index_of(s, p as int, '\n') == next_index_of(s, k as int, '\n'),
                    decreases self.source@.len() - k,
                {
                    k += 1;
                }
                if k < self.source.len() {
                    self.position = k + 1;
                } else {
                    self.position = self.source.len();
                    return;
                }
            } else if p < self.source.len() && char_is_whitespace(self.source[p]) {
                self.position = p + 1;
            } else {
                return;
            }
        }
    }

    /// Consumes `ch` after whitespace and comments.
    pub fn expect(&mut self, ch: char) -> (r: Result<(), ConvertError>)
        requires
            old(self).position <= old(self).source@.len(),
        ensures
            final(self).source@ == old(self).source@,
            final(self).position <= final(self).source@.len(),
            r is Ok ==> final(self).position > old(self).position,
            final(self).position >= old(self).position,
            match r {
                Ok(_) => spec_expect(old(self).source@, old(self).position as int, ch) == Some(final(self).position as int),
                Err(e) => spec_expect(old(self).source@, old(self).position as int, ch) is None && (e matches ConvertError::InvalidScorify(m)
                    && m@ == expect_message(old(self).source@, old(self).position as int, ch)),
            },
    {
        self.skip_ws_comments();
        let p = self.position;
        if p < self.source.len() && char_eq(self.source[p], ch) {
            self.position = p + 1;
            Ok(())
        } else {
            let mut m = str_to_chars("expected '");
            m.push(ch);
            push_str(&mut m, "' near '");
            let rest = slice_chars(self.source.as_slice(), p, self.source.len());
            push_chars(&mut m, preview(rest.as_slice()).as_slice());
            push_str(&mut m, "'");
            assert(m@ =~= expect_message(self.source@, old(self).position as int, ch));
            Err(invalid_scorify(m.as_slice()))
        }
    }

    fn ident_end(&self, from: usize) -> (r: usize)
        requires
            from <= self.source@.len(),
        ensures
            r == from + ident_run(self.source@, from as int),
            r <= self.source@.len(),
    {
        let mut i = from;
        while i < self.source.len() && (char_is_ascii_alnum(self.source[i]) || char_eq(self.source[i], '-')
            || char_eq(self.source[i], '_'))
            invariant
                from <= i <= self.source@.len(),
                ident_run(self.source@, from as int) == (i - from) + ident_run(self.source@, i as int),
            decreases self.source@.len() - i,
        {
            i += 1;
        }
        i
    }

    /// Whether an identifier and then `:` come next.
    pub fn looks_like_named_arg(&self) -> (r: bool)
        requires
            self.position <= self.source@.len(),
        ensures
            r == spec_looks_like_named_arg(self.source@, self.position as int),
    {
        let e = self.ident_end(self.position);
        if e == self.position {
            return false;
        }
        let mut k = e;
        while k < self.source.len() && char_is_whitespace(self.source[k])
            invariant
                e <= k <= self.source@.len(),
                ws_run(self.source@, e as int) == (k - e) + ws_run(self.source@, k as int),
            decreases self.source@.len() - k,
        {
            k += 1;
        }
        k < self.source.len() && char_eq(self.source[k], ':')
    }

    /// Reads an identifier.
    pub fn parse_identifier(&mut self) -> (r: Result<Vec<char>, ConvertError>)
        requires
            old(self).position <= old(self).source@.len(),
        ensures
            final(self).source@ == old(self).source@,
            final(self).position <= final(self).source@.len(),
            r is Ok ==> final(self).position > old(self).position,
            final(self).position >= old(self).position,
            match r {
                Ok(id) => spec_identifier(old(self).source@, old(self).position as int) == Some(
                    (id@, final(self).position as int),
                ),
                Err(e) => spec_identifier(old(self).source@, old(self).position as int) is None && (e matches ConvertError::InvalidScorify(m)
                    && m@ == "expected identifier near '"@ + near(
                    old(self).source@,
                    skip_ws(old(self).source@, old(self).position as int),
                ) + "'"@),
            },
    {
        self.skip_ws_comments();
        let q = self.position;
        let e = self.ident_end(q);
        if e == q {
            return Err(self.error_near("expected identifier near '"));
        }
        self.position = e;
        Ok(slice_chars(self.source.as_slice(), q, e))
    }

    /// Reads a string literal.
    pub fn parse_string(&mut self) -> (r: Result<Vec<char>, ConvertError>)
        requires
            old(self).position <= old(self).source@.len(),
        ensures
            final(self).source@ == old(self).source@,
            final(self).position <= final(self).source@.len(),
            r is Ok ==> final(self).position > old(self).position,
            final(self).position >= old(self).position,
            match r {
                Ok(v) => spec_string(old(self).source@, old(self).position as int) == Some((v@, final(self).position as int)),
                Err(e) => spec_string(old(self).source@, old(self).position as int) is None && (e matches ConvertError::InvalidScorify(m)
                    && m@ == if spec_expect(old(self).source@, old(self).position as int, '"') is None {
                    expect_message(old(self).source@, old(self).position as int, '"')
                } else {
                    "unterminated string"@
                }),
            },
    {
        self.expect('"')?;
        let ghost s = self.source@;
        let ghost q = self.position as int;
        let mut out: Vec<char> = Vec::new();
        let mut escape = false;
        while self.position < self.source.len()
            invariant
                self.source@ == s,
                s == old(self).source@,
                spec_expect(s, old(self).position as int, '"') == Some(q),
                old(self).position < q <= self.position <= s.len(),
                string_from(s, q, seq![], false) == string_from(s, self.position as int, out@, escape),
            decreases s.len() - self.position,
        {
            let ch = self.source[self.position];
            self.position = self.position + 1;
            if escape {
                let u = if char_eq(ch, 'n') {
                    '\n'
                } else {
                    ch
                };
                out.push(u);
                escape = false;
            } else if char_eq(ch, '\\') {
                escape = true;
            } else if char_eq(ch, '"') {
                return Ok(out);
            } else {
                out.push(ch);
            }
        }
        Err(invalid_scorify_str("unterminated string"))
    }

    /// Reads a value.
    #[verifier::rlimit(40)]
    pub fn parse_value(&mut self) -> (r: Result<TypstValue, ConvertError>)
        requires
            old(self).position <= old(self).source@.len(),
        ensures
            final(self).source@ == old(self).source@,
            final(self).position <= final(self).source@.len(),
            r is Ok ==> final(self).position > old(self).position,
            final(self).position >= old(self).position,
            match r {
                Ok(v) => spec_value(old(self).source@, old(self).position as int) == Some(
                    (value_view(v), final(self).position as int),
                ),
                Err(e) => spec_value(old(self).source@, old(self).position as int) is None && (e matches ConvertError::InvalidScorify(m)
                    && m@ == value_message(old(self).source@, old(self).position as int)),
            },
        decreases old(self).source@.len() - old(self).position, 3int,
    {
        proof {
            reveal_strlit("true");
            reveal_strlit("false");
        }
        self.skip_ws_comments();
        let q = self.position;
        let n = self.source.len();
        if q < n && char_eq(self.source[q], '"') {
            let v = self.parse_string()?;
            return Ok(TypstValue::String(v));
        }
        if q < n && char_eq(self.source[q], '(') {
            return self.parse_tuple_like();
        }
        if has_str_at(self.source.as_slice(), q, "true") {
            self.position = q + 4;
            return Ok(TypstValue::Bool(true));
        }
        if has_str_at(self.source.as_slice(), q, "false") {
            self.position = q + 5;
            return Ok(TypstValue::Bool(false));
        }
        let mut e = q;
        while e < n && char_is_digit(self.source[e])
            invariant
                q <= e <= n == self.source@.len(),
                digit_run(self.source@, q as int) == (e - q) + digit_run(self.source@, e as int),
            decreases n - e,
        {
            e += 1;
        }
        if e > q {
            match parse_i64_range(self.source.as_slice(), q, e) {
                Some(v) => {
                    self.position = e;
                    return Ok(TypstValue::Number(v));
                },
                None => {
                    let mut m = str_to_chars("invalid number '");
                    push_chars(&mut m, slice_chars(self.source.as_slice(), q, e).as_slice());
                    push_str(&mut m, "': number too large to fit in target type");
                    return Err(invalid_scorify(m.as_slice()));
                },
            }
        }
        Err(self.error_near("unsupported Typst value near '"))
    }

    /// Reads `(...)`: an empty tuple, named fields, or a tuple of values.
    pub fn parse_tuple_like(&mut self) -> (r: Result<TypstValue, ConvertError>)
        requires
            old(self).position <= old(self).source@.len(),
        ensures
            final(self).source@ == old(self).source@,
            final(self).position <= final(self).source@.len(),
            r is Ok ==> final(self).position > old(self).position,
            final(self).position >= old(self).position,
            match r {
                Ok(v) => spec_tuple(old(self).source@, old(self).position as int) == Some(
                    (value_view(v), final(self).position as int),
                ),
                Err(e) => spec_tuple(old(self).source@, old(self).position as int) is None && (e matches ConvertError::InvalidScorify(m)
                    && m@ == tuple_message(old(self).source@, old(self).position as int)),
            },
        decreases old(self).source@.len() - old(self).position, 2int,
    {
        let ghost s = self.source@;
        let ghost p = self.position as int;
        self.expect('(')?;
        let ghost q = self.position as int;
        self.skip_ws_comments();
        let r = self.position;
        if r < self.source.len() && char_eq(self.source[r], ')') {
            self.position = r + 1;
            let empty: Vec<TypstValue> = Vec::new();
            proof {
                lemma_tuple_view(empty);
                assert(values_view(empty@) =~= Seq::<ValueView>::empty());
            }
            return Ok(TypstValue::Tuple(empty));
        }
        if self.looks_like_named_arg() {
            let fields = self.parse_named_args(')')?;
            self.expect(')')?;
            proof {
                lemma_object_view(fields);
            }
            return Ok(TypstValue::Object(fields));
        }
        let mut values: Vec<TypstValue> = Vec::new();
        assert(values_view(values@) =~= Seq::<ValueView>::empty());
        loop
            invariant_except_break
                self.source@ == s,
                s == old(self).source@,
                p == old(self).position,
                p < r <= self.position <= s.len(),
                spec_expect(s, p, '(') == Some(q),
                skip_ws(s, q) == r,
                !(r < s.len() && s[r as int] == ')'),
                !spec_looks_like_named_arg(s, r as int),
                spec_items(s, r as int, seq![]) == spec_items(s, self.position as int, values_view(values@)),
                items_message(s, r as int) == items_message(s, self.position as int),
            ensures
                self.source@ == s,
                p < self.position <= s.len(),
                spec_items(s, r as int, seq![]) == Some((values_view(values@), self.position as int)),
            decreases s.len() - self.position,
        {
            let v = self.parse_value()?;
            self.skip_ws_comments();
            let ghost prev = values@;
            values.push(v);
            assert(values_view(values@) =~= values_view(prev).push(value_view(v)));
            proof {
                lemma_skip_ws_props(s, self.position as int);
            }
            let q = self.position;
            if q < self.source.len() && char_eq(self.source[q], ',') {
                self.position = q + 1;
                self.skip_ws_comments();
                let q2 = self.position;
                if q2 < self.source.len() && char_eq(self.source[q2], ')') {
                    break;
                }
                continue;
            }
            break;
        }
        self.expect(')')?;
        proof {
            lemma_tuple_view(values);
        }
        Ok(TypstValue::Tuple(values))
    }

    /// Reads `key: value` pairs up to (not including) `terminator`; a later
    /// pair replaces an earlier one with the same key.
    pub fn parse_named_args(&mut self, terminator: char) -> (r: Result<Vec<TypstField>, ConvertError>)
        requires
            old(self).position <= old(self).source@.len(),
        ensures
            final(self).source@ == old(self).source@,
            final(self).position <= final(self).source@.len(),
            final(self).position >= old(self).position,
            match r {
                Ok(fields) => spec_named(old(self).source@, old(self).position as int, terminator, seq![]) == Some(
                    (fields_view(fields@), final(self).position as int),
                ),
                Err(e) => spec_named(old(self).source@, old(self).position as int, terminator, seq![]) is None
                    && (e matches ConvertError::InvalidScorify(m) && m@ == named_message(
                    old(self).source@,
                    old(self).position as int,
                    terminator,
                )),
            },
        decreases old(self).source@.len() - old(self).position, 1int,
    {
        let ghost s = self.source@;
        let ghost p = self.position as int;
        let mut out: Vec<TypstField> = Vec::new();
        assert(fields_view(out@) =~= Seq::<(Seq<char>, ValueView)>::empty());
        loop
            invariant_except_break
                self.source@ == s,
                s == old(self).source@,
                p == old(self).position,
                p <= self.position <= s.len(),
                spec_named(s, p, terminator, seq![]) == spec_named(s, self.position as int, terminator, fields_view(out@)),
                named_message(s, p, terminator) == named_message(s, self.position as int, terminator),
            ensures
                self.source@ == s,
                p <= self.position <= s.len(),
                spec_named(s, p, terminator, seq![]) == Some((fields_view(out@), self.position as int)),
            decreases s.len() - self.position,
        {
            self.skip_ws_comments();
            let q = self.position;
            if q < self.source.len() && char_eq(self.source[q], terminator) {
                break;
            }
            let key = self.parse_identifier()?;
            let ghost q2 = self.position as int;
            self.skip_ws_comments();
            proof {
                lemma_skip_ws_props(s, q2);
            }
            self.expect(':')?;
            let value = self.parse_value()?;
            let ghost prev = out@;
            let ghost kv = (key@, value_view(value));
            out.push(TypstField { key, value });
            assert(fields_view(out@) =~= fields_view(prev).push(kv));
            self.skip_ws_comments();
            let r = self.position;
            if r < self.source.len() && char_eq(self.source[r], ',') {
                self.position = r + 1;
            }
        }
        Ok(out)
    }
}

} // verus!
