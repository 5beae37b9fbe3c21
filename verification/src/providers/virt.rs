//! The virtualization provider's decision: whether and what to show
//! for a detected hypervisor or container runtime. The icon table
//! itself is a static lookup owned by the surrounding binary.

use vstd::prelude::*;

use crate::chunk::{opt_chunk_view, Chunk, ChunkView};
use crate::cmd::opt_str_view;
use crate::text::{chars_eq, str_chars};

verus! {

/// The table entry for one virtualization technology.
pub struct VirtualizationInfo {
    pub icon: &'static str,
    pub color: &'static str,
    pub cterm_color: &'static str,
    pub name: &'static str,
}

/// Bare metal (`none`) and unknown technologies render nothing; a
/// known one renders its icon, or its raw name when the table has no
/// glyph for it.
pub open spec fn virt_spec(
    out: Option<Seq<char>>,
    table_icon: Option<Seq<char>>,
) -> Option<ChunkView> {
    match out {
        None => None,
        Some(v) => if v == "none"@ {
            None
        } else {
            match table_icon {
                None => None,
                Some(ic) => if ic.len() == 0 {
                    Some(ChunkView { icon: None, info: Some(v) })
                } else {
                    Some(ChunkView { icon: None, info: Some(ic) })
                },
            }
        },
    }
}

/// Renders the virtualization segment from the detector output and the
/// icon the table gave for it.
pub fn show(out: &Option<String>, table_icon: Option<&'static str>) -> (r: Option<Chunk>)
    ensures
        opt_chunk_view(r) == virt_spec(
            opt_str_view(*out),
            match table_icon {
                Some(ic) => Some(ic@),
                None => None,
            },
        ),
{
    let v = match out {
        None => {
            return None;
        },
        Some(v) => v,
    };
    let vv = str_chars(v.as_str());
    let none_lit = str_chars("none");
    proof {
        reveal_strlit("none");
    }
    if chars_eq(&vv, &none_lit) {
        return None;
    }
    match table_icon {
        None => None,
        Some(ic) => {
            let icv = str_chars(ic);
            if icv.len() == 0 {
                Some(Chunk::info(v.as_str()))
            } else {
                Some(Chunk::info(ic))
            }
        },
    }
}

} // verus!
