//! The exit-code provider: the failing status of the previous
//! command, as a superscript behind a cross.

use vstd::prelude::*;

use crate::chunk::{opt_chunk_view, Chunk, ChunkView};
use crate::options::Options;
use crate::style::{superscript_chars, superscript_spec};
use crate::text::{chars_string, decimal_rep, u64_dec};

verus! {

/// A non-zero exit code renders as its superscript decimal digits; a
/// zero or unknown code renders nothing.
pub open spec fn exit_code_spec(code: Option<u8>) -> Option<ChunkView> {
    match code {
        None => None,
        Some(c) => if c == 0 {
            None
        } else {
            Some(
                ChunkView {
                    icon: Some("\u{2718}"@),
                    info: Some(superscript_spec(decimal_rep(c as nat))),
                },
            )
        },
    }
}

pub fn show(opts: &Options) -> (r: Option<Chunk>)
    ensures
        opt_chunk_view(r) == exit_code_spec(opts.exit_code),
{
    let c = match opts.exit_code {
        None => {
            return None;
        },
        Some(c) => c,
    };
    if c == 0 {
        return None;
    }
    let digits = u64_dec(c as u64);
    let sup = superscript_chars(&digits);
    let info = chars_string(&sup);
    Some(Chunk::new("\u{2718}", info.as_str()))
}

} // verus!
