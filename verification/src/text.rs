//! Character-sequence helpers shared by both conversion directions.
//!
//! All text inside the library is held as `Vec<char>`, whose view is the
//! `Seq<char>` that the contracts speak of.
use vstd::prelude::*;

verus! {

// ---------------------------------------------------------------------------
// Character classes
// ---------------------------------------------------------------------------

/// Unicode `White_Space`, the class that `char::is_whitespace` and `str::trim` use.
pub open spec fn is_ws(c: char) -> bool {
    let u = c as u32;
    ||| 9 <= u <= 13
    ||| u == 32
    ||| u == 0x85
    ||| u == 0xA0
    ||| u == 0x1680
    ||| 0x2000 <= u <= 0x200A
    ||| u == 0x2028
    ||| u == 0x2029
    ||| u == 0x202F
    ||| u == 0x205F
    ||| u == 0x3000
}

pub open spec fn is_digit(c: char) -> bool {
    48 <= (c as u32) <= 57
}

pub open spec fn is_ascii_alpha(c: char) -> bool {
    (97 <= (c as u32) <= 122) || (65 <= (c as u32) <= 90)
}

pub open spec fn is_ascii_alnum(c: char) -> bool {
    is_ascii_alpha(c) || is_digit(c)
}

pub open spec fn to_lower(c: char) -> char {
    if 65 <= (c as u32) <= 90 {
        ((c as u32) + 32) as char
    } else {
        c
    }
}

pub open spec fn to_upper(c: char) -> char {
    if 97 <= (c as u32) <= 122 {
        ((c as u32) - 32) as char
    } else {
        c
    }
}

pub fn char_is_whitespace(c: char) -> (r: bool)
    ensures
        r == is_ws(c),
{
    let u = c as u32;
    (9 <= u && u <= 13) || u == 32 || u == 0x85 || u == 0xA0 || u == 0x1680 || (0x2000 <= u && u
        <= 0x200A) || u == 0x2028 || u == 0x2029 || u == 0x202F || u == 0x205F || u == 0x3000
}

pub fn char_is_digit(c: char) -> (r: bool)
    ensures
        r == is_digit(c),
{
    let u = c as u32;
    48 <= u && u <= 57
}

pub fn char_is_ascii_alpha(c: char) -> (r: bool)
    ensures
        r == is_ascii_alpha(c),
{
    let u = c as u32;
    (97 <= u && u <= 122) || (65 <= u && u <= 90)
}

pub fn char_is_ascii_alnum(c: char) -> (r: bool)
    ensures
        r == is_ascii_alnum(c),
{
    char_is_ascii_alpha(c) || char_is_digit(c)
}

pub fn char_to_lower(c: char) -> (r: char)
    ensures
        r == to_lower(c),
{
    let u = c as u32;
    if 65 <= u && u <= 90 {
        let l = u + 32;
        assert(0 <= l <= 0xD7FF);
        char_from_ascii(l)
    } else {
        c
    }
}

pub fn char_to_upper(c: char) -> (r: char)
    ensures
        r == to_upper(c),
{
    let u = c as u32;
    if 97 <= u && u <= 122 {
        char_from_ascii(u - 32)
    } else {
        c
    }
}

fn char_from_ascii(u: u32) -> (r: char)
    requires
        u < 128,
    ensures
        r == u as char,
{
    let b: u8 = u as u8;
    b as char
}

pub fn char_eq(a: char, b: char) -> (r: bool)
    ensures
        r == (a == b),
{
    (a as u32) == (b as u32)
}

// ---------------------------------------------------------------------------
// Conversions between `str`, `String` and `Vec<char>`
// ---------------------------------------------------------------------------

/// The characters of a string slice, in order.
pub fn str_to_chars(s: &str) -> (r: Vec<char>)
    ensures
        r@ == s@,
{
    let mut r: Vec<char> = Vec::new();
    for c in it: s.chars()
        invariant
            r@ == it.seq().take(it.index() as int),
    {
        r.push(c);
    }
    r
}

/// `String::push`.
#[verifier::external_body]
fn string_push(s: &mut String, c: char)
    ensures
        final(s)@ == old(s)@.push(c),
{
    s.push(c);
}

/// A `String` holding exactly the given characters.
pub fn chars_to_string(v: &[char]) -> (r: String)
    ensures
        r@ == v@,
{
    let mut r = String::new();
    let mut i: usize = 0;
    while i < v.len()
        invariant
            i <= v.len(),
            r@ == v@.take(i as int),
        decreases v.len() - i,
    {
        string_push(&mut r, v[i]);
        i += 1;
        assert(r@ == v@.take(i as int));
    }
    assert(v@.take(v.len() as int) == v@);
    r
}

/// Appends a string slice (most often a literal) to a character buffer.
pub fn push_str(out: &mut Vec<char>, s: &str)
    ensures
        final(out)@ == old(out)@ + s@,
{
    let ghost start = out@;
    for c in it: s.chars()
        invariant
            out@ == start + it.seq().take(it.index() as int),
    {
        out.push(c);
        assert(start + it.seq().take(it.index() + 1) == (start + it.seq().take(it.index() as int)).push(c));
    }
}

/// Appends characters to a character buffer.
pub fn push_chars(out: &mut Vec<char>, s: &[char])
    ensures
        final(out)@ == old(out)@ + s@,
{
    let ghost start = out@;
    let mut i: usize = 0;
    while i < s.len()
        invariant
            i <= s.len(),
            out@ == start + s@.take(i as int),
        decreases s.len() - i,
    {
        out.push(s[i]);
        i += 1;
        assert(start + s@.take(i as int) == (start + s@.take(i - 1)).push(s@[i - 1]));
    }
    assert(s@.take(s.len() as int) == s@);
}

/// Appends `count` copies of `c`.
pub fn push_repeat(out: &mut Vec<char>, c: char, count: usize)
    ensures
        final(out)@ == old(out)@ + Seq::new(count as nat, |_i: int| c),
{
    let ghost start = out@;
    let mut i: usize = 0;
    while i < count
        invariant
            i <= count,
            out@ == start + Seq::new(i as nat, |_i: int| c),
        decreases count - i,
    {
        out.push(c);
        i += 1;
        assert(start + Seq::new(i as nat, |_i: int| c) == (start + Seq::new((i - 1) as nat, |_i: int| c)).push(c));
    }
}

pub fn copy_chars(s: &[char]) -> (r: Vec<char>)
    ensures
        r@ == s@,
{
    let mut r: Vec<char> = Vec::new();
    push_chars(&mut r, s);
    r
}

pub fn slice_chars(s: &[char], from: usize, to: usize) -> (r: Vec<char>)
    requires
        from <= to <= s.len(),
    ensures
        r@ == s@.subrange(from as int, to as int),
{
    let mut r: Vec<char> = Vec::new();
    let mut i = from;
    while i < to
        invariant
            from <= i <= to <= s.len(),
            r@ == s@.subrange(from as int, i as int),
        decreases to - i,
    {
        r.push(s[i]);
        i += 1;
        assert(r@ == s@.subrange(from as int, i as int));
    }
    r
}

/// Characters from `from` to the end.
pub fn tail_chars(s: &[char], from: usize) -> (r: Vec<char>)
    requires
        from <= s.len(),
    ensures
        r@ == s@.subrange(from as int, s@.len() as int),
{
    slice_chars(s, from, s.len())
}

// ---------------------------------------------------------------------------
// Comparisons
// ---------------------------------------------------------------------------

/// Whether two character sequences are equal.
pub fn chars_equal(a: &[char], b: &[char]) -> (r: bool)
    ensures
        r == (a@ == b@),
{
    if a.len() != b.len() {
        return false;
    }
    let mut i: usize = 0;
    while i < a.len()
        invariant
            a.len() == b.len(),
            i <= a.len(),
            forall|j: int| 0 <= j < i ==> a@[j] == b@[j],
        decreases a.len() - i,
    {
        if !char_eq(a[i], b[i]) {
            return false;
        }
        i += 1;
    }
    assert(a@ =~= b@);
    true
}

/// Whether a character sequence spells the given string slice.
pub fn chars_eq_str(a: &[char], s: &str) -> (r: bool)
    ensures
        r == (a@ == s@),
{
    let b = str_to_chars(s);
    chars_equal(a, b.as_slice())
}

/// Whether `s` has `prefix` at position `at`.
pub open spec fn has_at(s: Seq<char>, at: int, prefix: Seq<char>) -> bool {
    0 <= at && at + prefix.len() <= s.len() && s.subrange(at, at + prefix.len()) == prefix
}

pub open spec fn starts_with(s: Seq<char>, prefix: Seq<char>) -> bool {
    has_at(s, 0, prefix)
}

pub open spec fn ends_with(s: Seq<char>, suffix: Seq<char>) -> bool {
    suffix.len() <= s.len() && s.subrange(s.len() - suffix.len(), s.len() as int) == suffix
}

/// Whether `s[at..]` starts with `prefix`.
pub fn chars_have_at(s: &[char], at: usize, prefix: &[char]) -> (r: bool)
    ensures
        r == has_at(s@, at as int, prefix@),
{
    if at > s.len() || prefix.len() > s.len() - at {
        return false;
    }
    let mut i: usize = 0;
    while i < prefix.len()
        invariant
            at + prefix.len() <= s.len(),
            i <= prefix.len(),
            forall|j: int| 0 <= j < i ==> s@[at + j] == prefix@[j],
        decreases prefix.len() - i,
    {
        if !char_eq(s[at + i], prefix[i]) {
            assert(s@.subrange(at as int, at + prefix.len())[i as int] != prefix@[i as int]);
            return false;
        }
        i += 1;
    }
    assert(s@.subrange(at as int, at + prefix.len()) =~= prefix@);
    true
}

/// Whether `s[at..]` starts with the string slice `prefix`.
pub fn has_str_at(s: &[char], at: usize, prefix: &str) -> (r: bool)
    ensures
        r == has_at(s@, at as int, prefix@),
{
    let p = str_to_chars(prefix);
    chars_have_at(s, at, p.as_slice())
}

pub fn starts_with_str(s: &[char], prefix: &str) -> (r: bool)
    ensures
        r == starts_with(s@, prefix@),
{
    has_str_at(s, 0, prefix)
}

pub fn ends_with_str(s: &[char], suffix: &str) -> (r: bool)
    ensures
        r == ends_with(s@, suffix@),
{
    let p = str_to_chars(suffix);
    if p.len() > s.len() {
        return false;
    }
    let r = chars_have_at(s, s.len() - p.len(), p.as_slice());
    r
}

/// Index of the first occurrence of `c`.
pub open spec fn first_index_of(s: Seq<char>, c: char) -> Option<int> {
    if exists|i: int| 0 <= i < s.len() && s[i] == c {
        let i = choose|i: int| 0 <= i < s.len() && s[i] == c && forall|j: int| 0 <= j < i ==> s[j] != c;
        Some(i)
    } else {
        None
    }
}

/// Smallest index `i` such that `s[i] == c` (the exec counterpart of `first_index_of`).
pub fn find_char(s: &[char], c: char) -> (r: Option<usize>)
    ensures
        match r {
            Some(i) => i < s.len() && s@[i as int] == c && forall|j: int| 0 <= j < i ==> s@[j] != c,
            None => forall|j: int| 0 <= j < s.len() ==> s@[j] != c,
        },
        r matches Some(i) ==> first_index_of(s@, c) == Some(i as int),
        r is None <==> first_index_of(s@, c) is None,
{
    let mut i: usize = 0;
    while i < s.len()
        invariant
            i <= s.len(),
            forall|j: int| 0 <= j < i ==> s@[j] != c,
        decreases s.len() - i,
    {
        if char_eq(s[i], c) {
            proof {
                let k = choose|k: int| 0 <= k < s@.len() && s@[k] == c && forall|j: int| 0 <= j < k ==> s@[j] != c;
                assert(k == i as int) by {
                    if k < i {
                    } else if k > i {
                        assert(s@[i as int] != c);
                    }
                }
            }
            return Some(i);
        }
        i += 1;
    }
    None
}

/// Index of the first occurrence of `needle` (non-empty) in `s`.
pub open spec fn find_seq(s: Seq<char>, needle: Seq<char>) -> Option<int> {
    if exists|i: int| has_at(s, i, needle) {
        Some(choose|i: int| has_at(s, i, needle) && forall|j: int| 0 <= j < i ==> !has_at(s, j, needle))
    } else {
        None
    }
}

pub fn find_str(s: &[char], needle: &str) -> (r: Option<usize>)
    ensures
        r matches Some(i) ==> find_seq(s@, needle@) == Some(i as int) && has_at(s@, i as int, needle@),
        r is None <==> find_seq(s@, needle@) is None,
{
    let n = str_to_chars(needle);
    let mut i: usize = 0;
    loop
        invariant
            n@ == needle@,
            i <= s.len(),
            forall|j: int| 0 <= j < i ==> !has_at(s@, j, needle@),
        ensures
            i == s.len(),
            forall|j: int| 0 <= j <= i ==> !has_at(s@, j, needle@),
        decreases s.len() - i,
    {
        if chars_have_at(s, i, n.as_slice()) {
            proof {
                let k = choose|k: int| has_at(s@, k, needle@) && forall|j: int| 0 <= j < k ==> !has_at(s@, j, needle@);
                assert(k == i as int) by {
                    if k > i {
                        assert(!has_at(s@, i as int, needle@));
                    }
                }
            }
            return Some(i);
        }
        if i == s.len() {
            break;
        }
        i += 1;
    }
    proof {
        assert forall|j: int| !has_at(s@, j, needle@) by {
            if 0 <= j <= i {
            } else if j > i {
                assert(j + needle@.len() > s@.len());
            }
        }
    }
    None
}

// ---------------------------------------------------------------------------
// Trimming
// ---------------------------------------------------------------------------

pub open spec fn trim_start(s: Seq<char>) -> Seq<char>
    decreases s.len(),
{
    if s.len() > 0 && is_ws(s[0]) {
        trim_start(s.drop_first())
    } else {
        s
    }
}

pub open spec fn trim_end(s: Seq<char>) -> Seq<char>
    decreases s.len(),
{
    if s.len() > 0 && is_ws(s.last()) {
        trim_end(s.drop_last())
    } else {
        s
    }
}

/// `str::trim`.
pub open spec fn trim(s: Seq<char>) -> Seq<char> {
    trim_end(trim_start(s))
}

/// The number of leading whitespace characters of `s[from..]` ends at the returned index.
pub fn skip_ws_from(s: &[char], from: usize) -> (r: usize)
    requires
        from <= s.len(),
    ensures
        from <= r <= s.len(),
        trim_start(s@.subrange(from as int, s@.len() as int)) == s@.subrange(r as int, s@.len() as int),
        forall|j: int| from <= j < r ==> is_ws(s@[j]),
        r < s.len() ==> !is_ws(s@[r as int]),
{
    let mut i = from;
    while i < s.len() && char_is_whitespace(s[i])
        invariant
            from <= i <= s.len(),
            trim_start(s@.subrange(from as int, s@.len() as int)) == trim_start(s@.subrange(i as int, s@.len() as int)),
            forall|j: int| from <= j < i ==> is_ws(s@[j]),
        decreases s.len() - i,
    {
        assert(s@.subrange(i as int, s@.len() as int).drop_first() == s@.subrange(i + 1, s@.len() as int));
        i += 1;
    }
    i
}

pub proof fn lemma_trim_end_subrange(s: Seq<char>, lo: int, hi: int)
    requires
        0 <= lo <= hi <= s.len(),
        forall|j: int| hi <= j < s.len() ==> is_ws(s[j]),
    ensures
        trim_end(s.subrange(lo, s.len() as int)) == trim_end(s.subrange(lo, hi)),
    decreases s.len() - hi,
{
    if hi < s.len() {
        let t = s.subrange(lo, s.len() as int);
        assert(t.drop_last() == s.drop_last().subrange(lo, s.len() - 1));
        lemma_trim_end_subrange(s.drop_last(), lo, hi);
        assert(s.drop_last().subrange(lo, hi) == s.subrange(lo, hi));
    }
}

/// `str::trim` on a character sequence.
pub fn trim_chars(s: &[char]) -> (r: Vec<char>)
    ensures
        r@ == trim(s@),
{
    let start = skip_ws_from(s, 0);
    assert(s@.subrange(0, s@.len() as int) == s@);
    let mut end = s.len();
    while end > start && char_is_whitespace(s[end - 1])
        invariant
            start <= end <= s.len(),
            forall|j: int| end <= j < s.len() ==> is_ws(s@[j]),
        decreases end,
    {
        end -= 1;
    }
    proof {
        lemma_trim_end_subrange(s@, start as int, end as int);
        let t = s@.subrange(start as int, end as int);
        if t.len() > 0 {
            assert(!is_ws(t.last()));
        }
    }
    slice_chars(s, start, end)
}

pub proof fn lemma_trim_start_empty(s: Seq<char>)
    ensures
        (trim_start(s).len() == 0) == (forall|j: int| 0 <= j < s.len() ==> is_ws(s[j])),
    decreases s.len(),
{
    if s.len() > 0 && is_ws(s[0]) {
        lemma_trim_start_empty(s.drop_first());
        if forall|j: int| 0 <= j < s.drop_first().len() ==> is_ws(s.drop_first()[j]) {
            assert forall|j: int| 0 <= j < s.len() implies is_ws(s[j]) by {
                if j > 0 {
                    assert(s[j] == s.drop_first()[j - 1]);
                }
            }
        }
    }
}

pub proof fn lemma_trim_end_nonempty(s: Seq<char>)
    ensures
        trim_end(s).len() == 0 ==> s.len() == 0 || is_ws(s[0]),
        trim_end(s).len() <= s.len(),
    decreases s.len(),
{
    if s.len() > 0 && is_ws(s.last()) {
        lemma_trim_end_nonempty(s.drop_last());
        if s.len() > 1 {
            assert(s.drop_last()[0] == s[0]);
        }
    }
}

/// `str::trim` yields the empty string exactly when every character is whitespace.
pub proof fn lemma_trim_empty(s: Seq<char>)
    ensures
        (trim(s).len() == 0) == (forall|j: int| 0 <= j < s.len() ==> is_ws(s[j])),
{
    lemma_trim_start_empty(s);
    lemma_trim_end_nonempty(trim_start(s));
    if trim_start(s).len() > 0 {
        lemma_trim_start_first(s);
    }
}

pub proof fn lemma_trim_start_first(s: Seq<char>)
    ensures
        trim_start(s).len() > 0 ==> !is_ws(trim_start(s)[0]),
    decreases s.len(),
{
    if s.len() > 0 && is_ws(s[0]) {
        lemma_trim_start_first(s.drop_first());
    }
}

/// Whether the text is empty once surrounding whitespace is removed.
pub fn is_blank(s: &[char]) -> (r: bool)
    ensures
        r == (trim(s@).len() == 0),
{
    proof {
        lemma_trim_empty(s@);
    }
    let mut i: usize = 0;
    while i < s.len()
        invariant
            i <= s.len(),
            forall|j: int| 0 <= j < i ==> is_ws(s@[j]),
        decreases s.len() - i,
    {
        if !char_is_whitespace(s[i]) {
            proof {
                lemma_trim_empty(s@);
                assert(!is_ws(s@[i as int]));
            }
            return false;
        }
        i += 1;
    }
    true
}

// ---------------------------------------------------------------------------
// Decimal numbers
// ---------------------------------------------------------------------------

pub open spec fn digit_char(d: nat) -> char {
    (('0' as u32) + d) as char
}

/// Decimal digits of a natural number, without leading zeros.
pub open spec fn decimal(n: nat) -> Seq<char>
    decreases n,
{
    if n < 10 {
        seq![digit_char(n)]
    } else {
        decimal(n / 10).push(digit_char(n % 10))
    }
}

/// What `Display` prints for an integer.
pub open spec fn int_text(i: int) -> Seq<char> {
    if i < 0 {
        seq!['-'] + decimal((-i) as nat)
    } else {
        decimal(i as nat)
    }
}

pub fn push_decimal(out: &mut Vec<char>, n: u64)
    ensures
        final(out)@ == old(out)@ + decimal(n as nat),
    decreases n,
{
    if n < 10 {
        let c = char_from_ascii((48 + n) as u32);
        out.push(c);
        assert(old(out)@.push(c) == old(out)@ + seq![c]);
    } else {
        push_decimal(out, n / 10);
        let c = char_from_ascii((48 + n % 10) as u32);
        out.push(c);
        assert(old(out)@ + decimal((n / 10) as nat) + seq![c] == old(out)@ + decimal((n / 10) as nat).push(c));
    }
}

/// Appends the `Display` form of a signed integer.
pub fn push_int(out: &mut Vec<char>, i: i64)
    ensures
        final(out)@ == old(out)@ + int_text(i as int),
{
    if i < 0 {
        out.push('-');
        let m: u64 = if i == i64::MIN {
            9223372036854775808u64
        } else {
            (-i) as u64
        };
        push_decimal(out, m);
        assert(old(out)@.push('-') + decimal(m as nat) == old(out)@ + (seq!['-'] + decimal(m as nat)));
    } else {
        push_decimal(out, i as u64);
    }
}

pub fn push_usize(out: &mut Vec<char>, n: usize)
    ensures
        final(out)@ == old(out)@ + decimal(n as nat),
{
    push_decimal(out, n as u64);
}

/// Value of a non-empty run of decimal digits.
pub open spec fn digits_value(s: Seq<char>) -> nat
    decreases s.len(),
{
    if s.len() == 0 {
        0
    } else {
        digits_value(s.drop_last()) * 10 + ((s.last() as u32) - ('0' as u32)) as nat
    }
}

pub open spec fn all_digits(s: Seq<char>) -> bool {
    forall|j: int| 0 <= j < s.len() ==> is_digit(s[j])
}

/// `FromStr` for a signed integer type, before the range check.
pub open spec fn parse_signed(s: Seq<char>) -> Option<int> {
    if s.len() == 0 {
        None
    } else if s[0] == '+' || s[0] == '-' {
        let body = s.drop_first();
        if body.len() == 0 || !all_digits(body) {
            None
        } else if s[0] == '-' {
            Some(-(digits_value(body) as int))
        } else {
            Some(digits_value(body) as int)
        }
    } else if all_digits(s) {
        Some(digits_value(s) as int)
    } else {
        None
    }
}

/// `FromStr` for an unsigned integer type, before the range check.
pub open spec fn parse_unsigned(s: Seq<char>) -> Option<int> {
    if s.len() == 0 {
        None
    } else if s[0] == '+' {
        let body = s.drop_first();
        if body.len() == 0 || !all_digits(body) {
            None
        } else {
            Some(digits_value(body) as int)
        }
    } else if all_digits(s) {
        Some(digits_value(s) as int)
    } else {
        None
    }
}

/// `s.parse::<i32>()` as an option.
pub open spec fn parse_i32(s: Seq<char>) -> Option<int> {
    match parse_signed(s) {
        Some(v) => if i32::MIN <= v <= i32::MAX {
            Some(v)
        } else {
            None
        },
        None => None,
    }
}

/// `s.parse::<i64>()` as an option.
pub open spec fn parse_i64(s: Seq<char>) -> Option<int> {
    match parse_signed(s) {
        Some(v) => if i64::MIN <= v <= i64::MAX {
            Some(v)
        } else {
            None
        },
        None => None,
    }
}

/// `s.parse::<u32>()` as an option.
pub open spec fn parse_u32(s: Seq<char>) -> Option<int> {
    match parse_unsigned(s) {
        Some(v) => if v <= u32::MAX {
            Some(v)
        } else {
            None
        },
        None => None,
    }
}

/// `s.parse::<usize>()` as an option.
pub open spec fn parse_usize(s: Seq<char>) -> Option<int> {
    match parse_unsigned(s) {
        Some(v) => if v <= usize::MAX {
            Some(v)
        } else {
            None
        },
        None => None,
    }
}

pub proof fn lemma_digits_value_prefix_le(s: Seq<char>, k: int)
    requires
        0 <= k <= s.len(),
        all_digits(s),
    ensures
        digits_value(s.take(k)) <= digits_value(s),
    decreases s.len() - k,
{
    if k < s.len() {
        lemma_digits_value_prefix_le(s.drop_last(), k);
        assert(s.drop_last().take(k) == s.take(k));
        assert(s.take(s.len() as int) == s);
    } else {
        assert(s.take(k) == s);
    }
}

/// Value of the digit run `s[from..to]`, or `None` once it exceeds `bound`.
fn digits_value_bounded(s: &[char], from: usize, to: usize, bound: u64) -> (r: Option<u64>)
    requires
        from < to <= s.len(),
        bound >= 9,
    ensures
        match r {
            Some(v) => all_digits(s@.subrange(from as int, to as int)) && v == digits_value(
                s@.subrange(from as int, to as int),
            ) && v <= bound,
            None => !all_digits(s@.subrange(from as int, to as int)) || digits_value(
                s@.subrange(from as int, to as int),
            ) > bound,
        },
{
    let ghost body = s@.subrange(from as int, to as int);
    let mut v: u64 = 0;
    let mut i = from;
    while i < to
        invariant
            from <= i <= to <= s.len(),
            body == s@.subrange(from as int, to as int),
            all_digits(body.take(i - from)),
            v == digits_value(body.take(i - from)),
            v <= bound,
            bound >= 9,
        decreases to - i,
    {
        let c = s[i];
        assert(body.take(i + 1 - from).drop_last() == body.take(i - from));
        assert(body.take(i + 1 - from).last() == c);
        if !char_is_digit(c) {
            return None;
        }
        let d = (c as u32 - 48) as u64;
        if v > (bound - d) / 10 {
            proof {
                assert(all_digits(body.take(i + 1 - from)));
                assert(digits_value(body.take(i + 1 - from)) == v * 10 + d);
                assert(v * 10 + d > bound) by (nonlinear_arith)
                    requires
                        v > (bound - d) / 10,
                        d <= bound || true,
                ;
                if all_digits(body) {
                    lemma_digits_value_prefix_le(body, i + 1 - from);
                }
            }
            return None;
        }
        proof {
            assert(v * 10 + d <= bound) by (nonlinear_arith)
                requires
                    v <= (bound - d) / 10,
                    d <= 9,
                    d <= bound,
            ;
        }
        v = v * 10 + d;
        i += 1;
    }
    assert(body.take(to - from) == body);
    Some(v)
}

/// `s[from..to].parse::<i64>()`, given that the range lies inside `s`.
pub fn parse_i64_range(s: &[char], from: usize, to: usize) -> (r: Option<i64>)
    requires
        from <= to <= s.len(),
    ensures
        r matches Some(v) ==> parse_i64(s@.subrange(from as int, to as int)) == Some(v as int),
        r is None ==> parse_i64(s@.subrange(from as int, to as int)) is None,
{
    let ghost t = s@.subrange(from as int, to as int);
    if from == to {
        return None;
    }
    let first = s[from];
    if char_eq(first, '+') || char_eq(first, '-') {
        assert(t.drop_first() == s@.subrange(from + 1, to as int));
        if from + 1 == to {
            return None;
        }
        let neg = char_eq(first, '-');
        let bound: u64 = if neg {
            9223372036854775808u64
        } else {
            9223372036854775807u64
        };
        match digits_value_bounded(s, from + 1, to, bound) {
            Some(v) => {
                if neg {
                    if v == 9223372036854775808u64 {
                        Some(i64::MIN)
                    } else {
                        Some(-(v as i64))
                    }
                } else {
                    Some(v as i64)
                }
            },
            None => None,
        }
    } else {
        match digits_value_bounded(s, from, to, 9223372036854775807u64) {
            Some(v) => Some(v as i64),
            None => None,
        }
    }
}

pub fn parse_i64_chars(s: &[char]) -> (r: Option<i64>)
    ensures
        r matches Some(v) ==> parse_i64(s@) == Some(v as int),
        r is None ==> parse_i64(s@) is None,
{
    assert(s@.subrange(0, s@.len() as int) == s@);
    parse_i64_range(s, 0, s.len())
}

/// `s.parse::<i32>()`.
pub fn parse_i32_chars(s: &[char]) -> (r: Option<i32>)
    ensures
        r matches Some(v) ==> parse_i32(s@) == Some(v as int),
        r is None ==> parse_i32(s@) is None,
{
    match parse_i64_chars(s) {
        Some(v) => if -2147483648 <= v && v <= 2147483647 {
            Some(v as i32)
        } else {
            None
        },
        None => {
            proof {
                if parse_signed(s@) is Some {
                    let v = parse_signed(s@).unwrap();
                    assert(!(i64::MIN <= v <= i64::MAX));
                }
            }
            None
        },
    }
}

/// `s.parse::<u64>()` bounded by `bound` (the unsigned parse with a range check).
pub fn parse_unsigned_chars(s: &[char], bound: u64) -> (r: Option<u64>)
    requires
        bound >= 9,
    ensures
        r matches Some(v) ==> parse_unsigned(s@) == Some(v as int) && v <= bound,
        r is None ==> parse_unsigned(s@) is None || parse_unsigned(s@).unwrap() > bound,
{
    if s.len() == 0 {
        return None;
    }
    if char_eq(s[0], '+') {
        assert(s@.drop_first() == s@.subrange(1, s@.len() as int));
        if s.len() == 1 {
            return None;
        }
        digits_value_bounded(s, 1, s.len(), bound)
    } else {
        assert(s@ == s@.subrange(0, s@.len() as int));
        digits_value_bounded(s, 0, s.len(), bound)
    }
}

/// `s.parse::<u32>()`.
pub fn parse_u32_chars(s: &[char]) -> (r: Option<u32>)
    ensures
        r matches Some(v) ==> parse_u32(s@) == Some(v as int),
        r is None ==> parse_u32(s@) is None,
{
    match parse_unsigned_chars(s, 4294967295u64) {
        Some(v) => Some(v as u32),
        None => None,
    }
}

/// `s.parse::<usize>()`.
pub fn parse_usize_chars(s: &[char]) -> (r: Option<usize>)
    ensures
        r matches Some(v) ==> parse_usize(s@) == Some(v as int),
        r is None ==> parse_usize(s@) is None,
{
    let bound: u64 = if usize::MAX as u64 == u64::MAX {
        u64::MAX
    } else {
        usize::MAX as u64
    };
    match parse_unsigned_chars(s, bound) {
        Some(v) => Some(v as usize),
        None => None,
    }
}

} // verus!

verus! {

/// The character sequences of a list of character buffers.
pub open spec fn views(v: Seq<Vec<char>>) -> Seq<Seq<char>> {
    v.map_values(|t: Vec<char>| t@)
}

} // verus!
