//! The SSH provider: the connection's server endpoint out of the
//! `SSH_CONNECTION` environment value.

use vstd::prelude::*;

use crate::chunk::{opt_chunk_view, Chunk, ChunkView};
use crate::cmd::opt_str_view;
use crate::text::{chars_string, extend_chars, str_chars, tokens_of, tokens_spec};

verus! {

/// `SSH_CONNECTION` holds four whitespace-separated fields; the
/// segment shows the third and fourth (server address and port) joined
/// by a colon.
pub open spec fn ssh_spec(conn: Option<Seq<char>>) -> Option<ChunkView> {
    match conn {
        None => None,
        Some(s) => {
            let tk = tokens_spec(s);
            if tk.len() >= 4 {
                Some(
                    ChunkView {
                        icon: Some("\u{21c4}"@),
                        info: Some(tk[2] + seq![':'] + tk[3]),
                    },
                )
            } else {
                None
            }
        },
    }
}

pub fn show(conn: &Option<String>) -> (r: Option<Chunk>)
    ensures
        opt_chunk_view(r) == ssh_spec(opt_str_view(*conn)),
{
    let s = match conn {
        None => {
            return None;
        },
        Some(s) => s,
    };
    let v = str_chars(s.as_str());
    let tk = tokens_of(&v);
    if tk.len() < 4 {
        return None;
    }
    proof {
        crate::text::lemma_chars_dv(&tk@[2]);
        crate::text::lemma_chars_dv(&tk@[3]);
    }
    let mut outv = crate::text::subrange_vec(&tk[2], 0, tk[2].len());
    proof {
        assert(tk@[2]@.subrange(0, tk@[2]@.len() as int) =~= tk@[2]@);
    }
    outv.push(':');
    extend_chars(&mut outv, &tk[3]);
    proof {
        assert(outv@ =~= tk.deep_view()[2] + seq![':'] + tk.deep_view()[3]);
    }
    let info = chars_string(&outv);
    Some(Chunk::new("\u{21c4}", info.as_str()))
}

} // verus!
