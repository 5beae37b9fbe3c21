//! Superscript rendering and theme-color parsing.

use vstd::prelude::*;

use crate::text::{
    all_digits, chars_string, digits_val, parse_u8, split_chars, split_spec, str_chars, trim_chars,
    trim_spec,
};

verus! {

/// An ASCII digit mapped to its Unicode superscript; anything else is
/// unchanged.
pub open spec fn sup_digit_char(c: char) -> char {
    if c == '0' {
        '⁰'
    } else if c == '1' {
        '¹'
    } else if c == '2' {
        '²'
    } else if c == '3' {
        '³'
    } else if c == '4' {
        '⁴'
    } else if c == '5' {
        '⁵'
    } else if c == '6' {
        '⁶'
    } else if c == '7' {
        '⁷'
    } else if c == '8' {
        '⁸'
    } else if c == '9' {
        '⁹'
    } else {
        c
    }
}

/// Digit-by-digit superscript image of a character sequence.
pub open spec fn superscript_spec(s: Seq<char>) -> Seq<char> {
    s.map_values(|c: char| sup_digit_char(c))
}

fn sup_digit(c: char) -> (r: char)
    ensures
        r == sup_digit_char(c),
{
    if c == '0' {
        '⁰'
    } else if c == '1' {
        '¹'
    } else if c == '2' {
        '²'
    } else if c == '3' {
        '³'
    } else if c == '4' {
        '⁴'
    } else if c == '5' {
        '⁵'
    } else if c == '6' {
        '⁶'
    } else if c == '7' {
        '⁷'
    } else if c == '8' {
        '⁸'
    } else if c == '9' {
        '⁹'
    } else {
        c
    }
}

/// Maps each ASCII digit of `v` to its superscript form.
#[verifier::loop_isolation(false)]
pub fn superscript_chars(v: &Vec<char>) -> (r: Vec<char>)
    ensures
        r@ == superscript_spec(v@),
{
    let mut out: Vec<char> = Vec::new();
    let mut i: usize = 0;
    while i < v.len()
        invariant
            i <= v@.len(),
            out@ == superscript_spec(v@.take(i as int)),
        decreases v@.len() - i,
    {
        out.push(sup_digit(v[i]));
        assert(superscript_spec(v@.take(i + 1)) =~= superscript_spec(v@.take(i as int)).push(
            sup_digit_char(v@[i as int]),
        ));
        i += 1;
    }
    assert(v@.take(v@.len() as int) =~= v@);
    out
}

/// Maps each ASCII digit of `s` to its superscript form.
pub fn to_superscript(s: &str) -> (r: String)
    ensures
        r@ == superscript_spec(s@),
{
    let v = str_chars(s);
    let out = superscript_chars(&v);
    chars_string(&out)
}

/// One comma-separated component denotes a color channel when, after
/// trimming, it is a non-empty run of digits valued at most 255.
pub open spec fn valid_channel(part: Seq<char>) -> bool {
    let t = trim_spec(part);
    t.len() > 0 && all_digits(t) && digits_val(t) <= 255
}

pub open spec fn channel_val(part: Seq<char>) -> nat {
    digits_val(trim_spec(part))
}

/// Parses `"r,g,b"` into a true-color triple: exactly three
/// comma-separated decimal components, each at most 255.
pub fn parse_true_color(input: &str) -> (r: Option<(u8, u8, u8)>)
    ensures
        r is Some <==> {
            let parts = split_spec(input@, ',');
            &&& parts.len() == 3
            &&& valid_channel(parts[0])
            &&& valid_channel(parts[1])
            &&& valid_channel(parts[2])
        },
        r matches Some(t) ==> {
            let parts = split_spec(input@, ',');
            &&& t.0 as nat == channel_val(parts[0])
            &&& t.1 as nat == channel_val(parts[1])
            &&& t.2 as nat == channel_val(parts[2])
        },
{
    let v = str_chars(input);
    let parts = split_chars(&v, ',');
    proof {
        crate::text::lemma_split_len(v@, ',');
    }
    if parts.len() != 3 {
        return None;
    }
    proof {
        crate::text::lemma_chars_dv(&parts@[0]);
        crate::text::lemma_chars_dv(&parts@[1]);
        crate::text::lemma_chars_dv(&parts@[2]);
        assert(parts.deep_view()[0] == parts@[0]@);
        assert(parts.deep_view()[1] == parts@[1]@);
        assert(parts.deep_view()[2] == parts@[2]@);
    }
    let t0 = trim_chars(&parts[0]);
    let t1 = trim_chars(&parts[1]);
    let t2 = trim_chars(&parts[2]);
    let c0 = parse_u8(&t0);
    let c1 = parse_u8(&t1);
    let c2 = parse_u8(&t2);
    match (c0, c1, c2) {
        (Some(a), Some(b), Some(c)) => Some((a, b, c)),
        _ => None,
    }
}

} // verus!
