//! The network-namespace provider: the name reported by
//! `ip netns identify`.

use vstd::prelude::*;

use crate::chunk::{opt_chunk_view, Chunk, ChunkView};
use crate::cmd::opt_str_view;
use crate::options::Options;

verus! {

/// A non-empty namespace name renders behind the namespace icon
/// (Nerd-Font form when enabled); an empty or failed lookup renders
/// nothing.
pub open spec fn netns_spec(
    enabled: bool,
    nerd_font: bool,
    out: Option<Seq<char>>,
) -> Option<ChunkView> {
    if !enabled {
        None
    } else {
        match out {
            None => None,
            Some(s) => if s.len() == 0 {
                None
            } else {
                Some(
                    ChunkView {
                        icon: Some(
                            if nerd_font {
                                ""@
                            } else {
                                "{}"@
                            },
                        ),
                        info: Some(s),
                    },
                )
            },
        }
    }
}

pub fn show(opts: &Options, out: &Option<String>) -> (r: Option<Chunk>)
    ensures
        opt_chunk_view(r) == netns_spec(opts.netns, opts.nerd_font, opt_str_view(*out)),
{
    if !opts.netns {
        return None;
    }
    let s = match out {
        None => {
            return None;
        },
        Some(s) => s,
    };
    if s.as_str().unicode_len() == 0 {
        return None;
    }
    let icon = opts.select_str("{}", "");
    Some(Chunk::new(icon, s.as_str()))
}

} // verus!
