//! Durations: Scorify duration text, MusicXML ticks and MusicXML note types.
use vstd::prelude::*;

use crate::error::{invalid_scorify_about, ConvertError};
use crate::text::{chars_eq_str, parse_i32, parse_i32_chars, str_to_chars};

verus! {

/// Ticks per quarter note in the MusicXML that the library writes.
pub const MUSICXML_DIVISIONS: i64 = 768;

pub open spec fn two_pow(n: nat) -> nat
    decreases n,
{
    if n == 0 {
        1
    } else {
        2 * two_pow((n - 1) as nat)
    }
}

/// Ticks of an undotted duration, given its Scorify text.
pub open spec fn duration_base(text: Seq<char>) -> Option<int> {
    if text == "maxima"@ {
        Some(24576)
    } else if text == "longa"@ {
        Some(12288)
    } else if text == "breve"@ {
        Some(6144)
    } else {
        match parse_i32(text) {
            Some(d) => if d > 0 && 3072int % d == 0 {
                Some(3072int / d)
            } else {
                None
            },
            None => None,
        }
    }
}

/// Ticks of a duration with `dots` dots: `base * (2^(dots+1) - 1) / 2^dots`,
/// defined while the 32-bit arithmetic of the format does not overflow.
pub open spec fn spec_duration_ticks(text: Seq<char>, dots: nat) -> Option<int> {
    match duration_base(text) {
        Some(b) => if dots >= 30 || b * (two_pow(dots + 1) - 1) > i32::MAX {
            None
        } else {
            Some(b * (two_pow(dots + 1) - 1) / (two_pow(dots) as int))
        },
        None => None,
    }
}

fn pow2(n: usize) -> (r: i64)
    requires
        n <= 31,
    ensures
        r == two_pow(n as nat),
        r >= 1,
{
    let mut r: i64 = 1;
    let mut i: usize = 0;
    while i < n
        invariant
            i <= n <= 31,
            r == two_pow(i as nat),
            1 <= r <= 0x8000_0000i64,
        decreases n - i,
    {
        proof {
            assert(two_pow((i + 1) as nat) == 2 * two_pow(i as nat));
            lemma_two_pow_bound(i as nat);
        }
        r = r * 2;
        i += 1;
    }
    r
}

pub proof fn lemma_two_pow_values()
    ensures
        two_pow(30) == 0x4000_0000,
        two_pow(4) == 16,
{
    reveal_with_fuel(two_pow, 31);
}

pub proof fn lemma_two_pow_bound(n: nat)
    requires
        n < 31,
    ensures
        two_pow(n) <= 0x4000_0000,
        two_pow(n) >= 1,
{
    lemma_two_pow_mono(n, 30);
    lemma_two_pow_values();
}

pub proof fn lemma_two_pow_mono(a: nat, b: nat)
    requires
        a <= b,
    ensures
        two_pow(a) <= two_pow(b),
        two_pow(a) >= 1,
    decreases b,
{
    if b > a {
        lemma_two_pow_mono(a, (b - 1) as nat);
    } else if a > 0 {
        lemma_two_pow_mono((a - 1) as nat, (a - 1) as nat);
    }
}

fn duration_base_of(text: &[char]) -> (r: Option<i64>)
    ensures
        r matches Some(b) ==> duration_base(text@) == Some(b as int) && 1 <= b <= 24576,
        r is None ==> duration_base(text@) is None,
{
    if chars_eq_str(text, "maxima") {
        Some(24576)
    } else if chars_eq_str(text, "longa") {
        Some(12288)
    } else if chars_eq_str(text, "breve") {
        Some(6144)
    } else {
        match parse_i32_chars(text) {
            Some(d) => if d > 0 && 3072 % d == 0 {
                assert(1 <= 3072int / (d as int) <= 3072) by (nonlinear_arith)
                    requires
                        d > 0,
                        3072int % (d as int) == 0,
                ;
                Some((3072 / d) as i64)
            } else {
                None
            },
            None => None,
        }
    }
}

/// Ticks (at 768 per quarter) of a Scorify duration with dots.
pub fn duration_to_ticks(duration_text: &[char], dots: usize) -> (r: Result<i64, ConvertError>)
    ensures
        match r {
            Ok(t) => spec_duration_ticks(duration_text@, dots as nat) == Some(t as int),
            Err(e) => spec_duration_ticks(duration_text@, dots as nat) is None && (e matches ConvertError::InvalidScorify(m)
                && m@ == "unsupported duration '"@ + duration_text@ + "'"@),
        },
{
    let base = match duration_base_of(duration_text) {
        Some(b) => b,
        None => {
            return Err(invalid_scorify_about("unsupported duration '", duration_text, "'"));
        },
    };
    if dots >= 30 {
        return Err(invalid_scorify_about("unsupported duration '", duration_text, "'"));
    }
    let numerator = pow2(dots + 1) - 1;
    let denominator = pow2(dots);
    proof {
        lemma_two_pow_bound((dots + 1) as nat);
    }
    assert(base * numerator <= 24576 * 0x4000_0000) by (nonlinear_arith)
        requires
            1 <= base <= 24576,
            0 <= numerator <= 0x4000_0000,
    ;
    if base * numerator > 2147483647 {
        return Err(invalid_scorify_about("unsupported duration '", duration_text, "'"));
    }
    Ok(base * numerator / denominator)
}

/// Undotted ticks of the `k`-th MusicXML note type, longest first.
pub open spec fn type_base(k: int) -> int {
    if k == 0 {
        24576
    } else if k == 1 {
        12288
    } else if k == 2 {
        6144
    } else if k == 3 {
        3072
    } else if k == 4 {
        1536
    } else if k == 5 {
        768
    } else if k == 6 {
        384
    } else if k == 7 {
        192
    } else if k == 8 {
        96
    } else if k == 9 {
        48
    } else {
        24
    }
}

/// Name of the `k`-th MusicXML note type, longest first.
pub open spec fn note_type_name(k: int) -> Seq<char> {
    if k == 0 {
        "maxima"@
    } else if k == 1 {
        "long"@
    } else if k == 2 {
        "breve"@
    } else if k == 3 {
        "whole"@
    } else if k == 4 {
        "half"@
    } else if k == 5 {
        "quarter"@
    } else if k == 6 {
        "eighth"@
    } else if k == 7 {
        "16th"@
    } else if k == 8 {
        "32nd"@
    } else if k == 9 {
        "64th"@
    } else {
        "128th"@
    }
}

fn type_entry(k: usize) -> (r: (i64, &'static str))
    requires
        k < 11,
    ensures
        r.0 == type_base(k as int),
        r.1@ == note_type_name(k as int),
{
    if k == 0 {
        (24576, "maxima")
    } else if k == 1 {
        (12288, "long")
    } else if k == 2 {
        (6144, "breve")
    } else if k == 3 {
        (3072, "whole")
    } else if k == 4 {
        (1536, "half")
    } else if k == 5 {
        (768, "quarter")
    } else if k == 6 {
        (384, "eighth")
    } else if k == 7 {
        (192, "16th")
    } else if k == 8 {
        (96, "32nd")
    } else if k == 9 {
        (48, "64th")
    } else {
        (24, "128th")
    }
}

/// MusicXML note type named by a Scorify duration text (`quarter` for an unknown one).
pub open spec fn spec_duration_text_to_type(value: Seq<char>) -> Seq<char> {
    if value == "maxima"@ {
        "maxima"@
    } else if value == "longa"@ {
        "long"@
    } else if value == "breve"@ {
        "breve"@
    } else if value == "1"@ {
        "whole"@
    } else if value == "2"@ {
        "half"@
    } else if value == "4"@ {
        "quarter"@
    } else if value == "8"@ {
        "eighth"@
    } else if value == "16"@ {
        "16th"@
    } else if value == "32"@ {
        "32nd"@
    } else if value == "64"@ {
        "64th"@
    } else if value == "128"@ {
        "128th"@
    } else {
        "quarter"@
    }
}

/// The MusicXML note type for a Scorify duration text.
pub fn duration_text_to_type(value: &[char]) -> (r: Vec<char>)
    ensures
        r@ == spec_duration_text_to_type(value@),
{
    if chars_eq_str(value, "maxima") {
        str_to_chars("maxima")
    } else if chars_eq_str(value, "longa") {
        str_to_chars("long")
    } else if chars_eq_str(value, "breve") {
        str_to_chars("breve")
    } else if chars_eq_str(value, "1") {
        str_to_chars("whole")
    } else if chars_eq_str(value, "2") {
        str_to_chars("half")
    } else if chars_eq_str(value, "4") {
        str_to_chars("quarter")
    } else if chars_eq_str(value, "8") {
        str_to_chars("eighth")
    } else if chars_eq_str(value, "16") {
        str_to_chars("16th")
    } else if chars_eq_str(value, "32") {
        str_to_chars("32nd")
    } else if chars_eq_str(value, "64") {
        str_to_chars("64th")
    } else if chars_eq_str(value, "128") {
        str_to_chars("128th")
    } else {
        str_to_chars("quarter")
    }
}

/// Ticks of the `k`-th note type with `d` dots.
pub open spec fn dotted(k: int, d: nat) -> int {
    type_base(k) * (two_pow(d + 1) - 1) / (two_pow(d) as int)
}

/// First note type (longest first) and dot count, up to three dots, whose length is `duration`.
pub open spec fn type_search(duration: int, i: int) -> Option<(Seq<char>, nat)>
    decreases 44 - i,
{
    if i < 0 || i >= 44 {
        None
    } else if dotted(i / 4, (i % 4) as nat) == duration {
        Some((note_type_name(i / 4), (i % 4) as nat))
    } else {
        type_search(duration, i + 1)
    }
}

/// MusicXML note type and dots for a note: from its duration text where it
/// has one, else from its length in ticks.
pub open spec fn spec_duration_and_type(duration: int, text: Option<Seq<char>>, dots: nat) -> Option<(Seq<char>, nat)> {
    match text {
        Some(t) => Some((spec_duration_text_to_type(t), dots)),
        None => type_search(duration, 0),
    }
}

/// The MusicXML `<type>` and number of `<dot/>` for a note or rest.
pub fn duration_and_type(duration: i64, duration_text: Option<&[char]>, dots: usize) -> (r: Result<(Vec<char>, usize), ConvertError>)
    ensures
        match r {
            Ok((t, d)) => spec_duration_and_type(
                duration as int,
                match duration_text {
                    Some(x) => Some(x@),
                    None => None,
                },
                dots as nat,
            ) == Some((t@, d as nat)),
            Err(e) => spec_duration_and_type(
                duration as int,
                match duration_text {
                    Some(x) => Some(x@),
                    None => None,
                },
                dots as nat,
            ) is None && (e matches ConvertError::InvalidScorify(m) && m@ == "could not map duration value "@
                + crate::text::int_text(duration as int) + " to a MusicXML note type"@),
        },
{
    if let Some(text) = duration_text {
        return Ok((duration_text_to_type(text), dots));
    }
    let mut i: usize = 0;
    while i < 44
        invariant
            i <= 44,
            duration_text is None,
            type_search(duration as int, 0) == type_search(duration as int, i as int),
        decreases 44 - i,
    {
        let k = i / 4;
        let d = i % 4;
        let (base, name) = type_entry(k);
        let numerator = pow2(d + 1) - 1;
        let denominator = pow2(d);
        proof {
            lemma_two_pow_bound((d + 1) as nat);
            lemma_two_pow_values();
            lemma_two_pow_mono((d + 1) as nat, 4);
        }
        assert(0 <= base * numerator <= 24576 * 16) by (nonlinear_arith)
            requires
                1 <= base <= 24576,
                0 <= numerator <= 16,
        ;
        if base * numerator / denominator == duration {
            assert(dotted(i as int / 4, (i as int % 4) as nat) == duration);
            assert(type_search(duration as int, i as int) == Some((note_type_name(i as int / 4), (i as int % 4) as nat)));
            return Ok((str_to_chars(name), d));
        }
        i += 1;
    }
    let mut m: Vec<char> = str_to_chars("could not map duration value ");
    crate::text::push_int(&mut m, duration);
    crate::text::push_str(&mut m, " to a MusicXML note type");
    Err(crate::error::invalid_scorify(m.as_slice()))
}

} // verus!
