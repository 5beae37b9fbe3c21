//! The operating-system provider's parsing: the distribution
//! identifier out of an os-release file. The icon table itself is a
//! static lookup owned by the surrounding binary.

use vstd::prelude::*;

use crate::cmd::opt_str_view;
use crate::text::{chars_string, is_prefix, lines_spec, str_chars, trim_by};

verus! {

/// The table entry for one distribution.
pub struct OsInfo {
    pub icon: &'static str,
    pub color: &'static str,
    pub cterm_color: &'static str,
    pub name: &'static str,
}

/// Strips every leading repetition of `ID=`.
pub open spec fn strip_id_prefix(s: Seq<char>) -> Seq<char>
    decreases s.len(),
{
    if is_prefix("ID="@, s) && s.len() >= 3 {
        strip_id_prefix(s.skip(3))
    } else {
        s
    }
}

/// The first `ID=` line at or after `j`.
pub open spec fn id_line_find(lines: Seq<Seq<char>>, j: int) -> Option<Seq<char>>
    decreases lines.len() - j,
{
    if j < 0 || j >= lines.len() {
        None
    } else if is_prefix("ID="@, lines[j]) {
        Some(lines[j])
    } else {
        id_line_find(lines, j + 1)
    }
}

/// The distribution identifier of an os-release text: the first `ID=`
/// line, its key prefix stripped, quotes trimmed.
pub open spec fn os_release_id_spec(text: Seq<char>) -> Option<Seq<char>> {
    match id_line_find(lines_spec(text), 0) {
        None => None,
        Some(l) => Some(trim_by(strip_id_prefix(l), |c: char| c == '"')),
    }
}

/// Extracts the distribution identifier from os-release contents.
#[verifier::loop_isolation(false)]
pub fn os_release_id(text: &str) -> (r: Option<String>)
    ensures
        opt_str_view(r) == os_release_id_spec(text@),
{
    let v = str_chars(text);
    let lines = crate::text::lines_of(&v);
    let ghost ldv = lines.deep_view();
    let prefix = str_chars("ID=");
    proof {
        reveal_strlit("ID=");
    }
    let mut j: usize = 0;
    while j < lines.len()
        invariant
            j <= lines@.len(),
            ldv == lines.deep_view(),
            prefix@ == "ID="@,
            id_line_find(ldv, 0) == id_line_find(ldv, j as int),
        decreases lines@.len() - j,
    {
        proof {
            crate::text::lemma_chars_dv(&lines@[j as int]);
        }
        if crate::text::starts_with(&lines[j], &prefix) {
            let mut rest = crate::text::subrange_vec(&lines[j], 0, lines[j].len());
            proof {
                assert(lines@[j as int]@.subrange(0, lines@[j as int]@.len() as int) =~= ldv[
                    j as int
                ]);
            }
            while rest.len() >= 3 && crate::text::starts_with(&rest, &prefix)
                invariant
                    prefix@ == "ID="@,
                    strip_id_prefix(ldv[j as int]) == strip_id_prefix(rest@),
                decreases rest@.len(),
            {
                let stripped = crate::text::subrange_vec(&rest, 3, rest.len());
                proof {
                    assert(rest@.subrange(3, rest@.len() as int) =~= rest@.skip(3));
                }
                rest = stripped;
            }
            proof {
                assert(strip_id_prefix(rest@) == rest@);
            }
            let t = crate::text::trim_quotes(&rest);
            return Some(chars_string(&t));
        }
        j += 1;
    }
    None
}

} // verus!
