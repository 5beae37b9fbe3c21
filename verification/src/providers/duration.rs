//! The duration provider: the previous command's wall-clock time,
//! computed from a recorded start timestamp and the end timestamp, and
//! rendered at a unit fitting its magnitude.

use vstd::prelude::*;

use crate::chunk::{opt_chunk_view, Chunk, ChunkView};
use crate::cmd::opt_str_view;
use crate::options::Options;
use crate::text::{all_digits, chars_string, dec_digit_char, decimal_rep, digits_val, extend_chars,
    parse_u64, str_chars, u64_dec};

verus! {

/// A remainder fraction rounded to the nearest whole unit, half away
/// from zero, without overflowing.
pub open spec fn rounded_div(n: nat, unit: nat) -> nat {
    n / unit + (if n % unit >= (unit + 1) / 2 {
        1nat
    } else {
        0nat
    })
}

/// Two decimal digits, zero-padded.
pub open spec fn two_digits(d: nat) -> Seq<char> {
    if d < 10 {
        seq!['0', dec_digit_char(d)]
    } else {
        decimal_rep(d)
    }
}

/// The rendered duration: nanoseconds up to a microsecond, then
/// rounded microseconds, then rounded milliseconds, then seconds with
/// two decimals.
pub open spec fn format_duration_spec(nanos: u64) -> Seq<char> {
    if nanos < 1000 {
        decimal_rep(nanos as nat) + "ns"@
    } else if nanos < 1000000 {
        decimal_rep(rounded_div(nanos as nat, 1000)) + "\u{3bc}s"@
    } else if nanos < 1000000000 {
        decimal_rep(rounded_div(nanos as nat, 1000000)) + "ms"@
    } else {
        let cs = rounded_div(nanos as nat, 10000000);
        decimal_rep(cs / 100) + "."@ + two_digits(cs % 100) + "s"@
    }
}

/// A readable start timestamp is a non-empty run of digits denoting
/// nanoseconds since the epoch.
pub open spec fn start_nanos(text: Seq<char>) -> Option<nat> {
    if text.len() > 0 && all_digits(text) && digits_val(text) <= u64::MAX {
        Some(digits_val(text))
    } else {
        None
    }
}

/// The duration segment: shown only when enabled, the recorded start
/// parses, and the end timestamp lies strictly after it.
pub open spec fn duration_spec(
    enabled: bool,
    start_text: Option<Seq<char>>,
    end_nanos: u64,
) -> Option<ChunkView> {
    if !enabled {
        None
    } else {
        match start_text {
            None => None,
            Some(t) => match start_nanos(t) {
                None => None,
                Some(s) => if end_nanos > s {
                    Some(
                        ChunkView {
                            icon: Some("󰄉"@),
                            info: Some(format_duration_spec((end_nanos - s) as u64)),
                        },
                    )
                } else {
                    None
                },
            },
        }
    }
}

/// Renders a nanosecond duration.
pub fn format_duration(nanos: u64) -> (r: String)
    ensures
        r@ == format_duration_spec(nanos),
{
    let mut outv: Vec<char> = Vec::new();
    if nanos < 1000 {
        let d = u64_dec(nanos);
        extend_chars(&mut outv, &d);
        outv.push('n');
        outv.push('s');
        proof {
            reveal_strlit("ns");
            assert(outv@ =~= decimal_rep(nanos as nat) + "ns"@);
        }
    } else if nanos < 1000000 {
        let us = nanos / 1000 + (if nanos % 1000 >= 500 {
            1
        } else {
            0
        });
        let d = u64_dec(us);
        extend_chars(&mut outv, &d);
        outv.push('\u{3bc}');
        outv.push('s');
        proof {
            reveal_strlit("\u{3bc}s");
            assert(outv@ =~= decimal_rep(rounded_div(nanos as nat, 1000)) + "\u{3bc}s"@);
        }
    } else if nanos < 1000000000 {
        let ms = nanos / 1000000 + (if nanos % 1000000 >= 500000 {
            1
        } else {
            0
        });
        let d = u64_dec(ms);
        extend_chars(&mut outv, &d);
        outv.push('m');
        outv.push('s');
        proof {
            reveal_strlit("ms");
            assert(outv@ =~= decimal_rep(rounded_div(nanos as nat, 1000000)) + "ms"@);
        }
    } else {
        let cs = nanos / 10000000 + (if nanos % 10000000 >= 5000000 {
            1
        } else {
            0
        });
        let whole = u64_dec(cs / 100);
        extend_chars(&mut outv, &whole);
        outv.push('.');
        let frac = cs % 100;
        if frac < 10 {
            outv.push('0');
            outv.push(crate::text::dec_digit_exec(frac));
        } else {
            let fd = u64_dec(frac);
            extend_chars(&mut outv, &fd);
        }
        outv.push('s');
        proof {
            reveal_strlit(".");
            reveal_strlit("s");
            let csn = rounded_div(nanos as nat, 10000000);
            assert(cs as nat == csn);
            assert(outv@ =~= decimal_rep(csn / 100) + "."@ + two_digits(csn % 100) + "s"@);
        }
    }
    chars_string(&outv)
}

/// Renders the duration segment from the recorded start timestamp and
/// the observed end timestamp.
pub fn show(opts: &Options, start_text: &Option<String>, end_nanos: u64) -> (r: Option<Chunk>)
    ensures
        opt_chunk_view(r) == duration_spec(opts.duration, opt_str_view(*start_text), end_nanos),
{
    if !opts.duration {
        return None;
    }
    let t = match start_text {
        None => {
            return None;
        },
        Some(t) => t,
    };
    let tv = str_chars(t.as_str());
    let s = match parse_u64(&tv) {
        None => {
            return None;
        },
        Some(s) => s,
    };
    if end_nanos > s {
        let info = format_duration(end_nanos - s);
        Some(Chunk::new("󰄉", info.as_str()))
    } else {
        None
    }
}

} // verus!
