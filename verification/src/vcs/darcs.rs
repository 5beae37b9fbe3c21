//! The Darcs backend: the latest patch and the short `whatsnew`
//! listing; branches, worktrees, stashes and divergence are capability
//! gaps.

use vstd::prelude::*;

use crate::chunk::{opt_chunk_view, Chunk, ChunkView};
use crate::cmd::opt_str_view;
use crate::text::{chars_eq, chars_string, lines_spec, str_chars, tokens_of, tokens_spec};

verus! {

#[derive(Clone, Copy, Debug, PartialEq, Eq, Structural)]
pub struct Darcs;

/// What the Darcs backend observed.
pub struct DarcsObs {
    /// Output of `darcs log --last 1 --summary`.
    pub log_out: Option<String>,
    /// Output of `darcs whatsnew -s`.
    pub whatsnew_out: Option<String>,
}

/// The commit segment: the second token of the newest log head line.
pub open spec fn darcs_commit_spec(log_out: Option<Seq<char>>) -> Option<ChunkView> {
    match log_out {
        None => None,
        Some(s) => {
            let lines = lines_spec(s);
            if lines.len() == 0 {
                None
            } else {
                let tk = tokens_spec(lines[0]);
                if tk.len() < 2 {
                    None
                } else {
                    Some(ChunkView { icon: Some("⭑"@), info: Some(tk[1]) })
                }
            }
        },
    }
}

/// The glyph for one `whatsnew` summary line, keyed by its first
/// token.
pub open spec fn darcs_icon_spec(line: Seq<char>) -> Seq<char> {
    let tk = tokens_spec(line);
    if tk.len() == 0 {
        ""@
    } else if tk[0] == "R"@ {
        "−"@
    } else if tk[0] == "A"@ {
        "✚"@
    } else if tk[0] == "M"@ {
        "●"@
    } else if tk[0] == "F"@ {
        "→"@
    } else if tk[0] == "T"@ {
        "→"@
    } else {
        ""@
    }
}

pub fn darcs_status_icon(line: &str) -> (r: crate::vcs::StatusIcon)
    ensures
        r@ == darcs_icon_spec(line@),
{
    let v = str_chars(line);
    let tk = tokens_of(&v);
    if tk.len() == 0 {
        return crate::vcs::StatusIcon::new("");
    }
    proof {
        crate::text::lemma_chars_dv(&tk@[0]);
    }
    let t = &tk[0];
    if chars_eq(t, &str_chars("R")) {
        crate::vcs::StatusIcon::new("−")
    } else if chars_eq(t, &str_chars("A")) {
        crate::vcs::StatusIcon::new("✚")
    } else if chars_eq(t, &str_chars("M")) {
        crate::vcs::StatusIcon::new("●")
    } else if chars_eq(t, &str_chars("F")) {
        crate::vcs::StatusIcon::new("→")
    } else if chars_eq(t, &str_chars("T")) {
        crate::vcs::StatusIcon::new("→")
    } else {
        crate::vcs::StatusIcon::new("")
    }
}

/// The status segment: each non-empty summary mapped line by line
/// through the status table and merged.
pub open spec fn darcs_status_spec(whatsnew_out: Option<Seq<char>>) -> Option<ChunkView> {
    match whatsnew_out {
        None => None,
        Some(s) => if s.len() == 0 {
            None
        } else {
            Some(
                ChunkView {
                    icon: None,
                    info: Some(
                        crate::vcs::merge_spec(
                            lines_spec(s).map_values(|l: Seq<char>| darcs_icon_spec(l)),
                        ),
                    ),
                },
            )
        },
    }
}

impl Darcs {
    /// Darcs has no branch notion here: a capability gap.
    pub fn branch(&self, _obs: &DarcsObs) -> (r: Option<Chunk>)
        ensures
            r is None,
    {
        None
    }

    pub fn commit(&self, obs: &DarcsObs) -> (r: Option<Chunk>)
        ensures
            opt_chunk_view(r) == darcs_commit_spec(opt_str_view(obs.log_out)),
    {
        let s = match &obs.log_out {
            None => {
                return None;
            },
            Some(s) => s,
        };
        let v = str_chars(s.as_str());
        let lines = crate::text::lines_of(&v);
        if lines.len() == 0 {
            return None;
        }
        proof {
            crate::text::lemma_chars_dv(&lines@[0]);
        }
        let tk = tokens_of(&lines[0]);
        if tk.len() < 2 {
            return None;
        }
        proof {
            crate::text::lemma_chars_dv(&tk@[1]);
        }
        let info = chars_string(&tk[1]);
        Some(Chunk::new("⭑", info.as_str()))
    }

    #[verifier::loop_isolation(false)]
    pub fn status(&self, obs: &DarcsObs) -> (r: Option<Chunk>)
        ensures
            opt_chunk_view(r) == darcs_status_spec(opt_str_view(obs.whatsnew_out)),
    {
        let s = match &obs.whatsnew_out {
            None => {
                return None;
            },
            Some(s) => s,
        };
        let v = str_chars(s.as_str());
        if v.len() == 0 {
            return None;
        }
        let lines = crate::text::lines_of(&v);
        let ghost ldv = lines.deep_view();
        let mut icons: Vec<crate::vcs::StatusIcon> = Vec::new();
        let mut i: usize = 0;
        while i < lines.len()
            invariant
                i <= lines@.len(),
                ldv == lines.deep_view(),
                icons.deep_view() == ldv.take(i as int).map_values(
                    |l: Seq<char>| darcs_icon_spec(l),
                ),
            decreases lines@.len() - i,
        {
            proof {
                crate::text::lemma_chars_dv(&lines@[i as int]);
                assert(ldv[i as int] == lines@[i as int]@);
            }
            let ls = chars_string(&lines[i]);
            let icon = darcs_status_icon(ls.as_str());
            let ghost old_icons = icons;
            icons.push(icon);
            proof {
                crate::vcs::lemma_icons_dv_push(&old_icons, &icons, icon);
                assert(icons.deep_view() =~~= ldv.take(i + 1).map_values(
                    |l: Seq<char>| darcs_icon_spec(l),
                ));
            }
            i += 1;
        }
        proof {
            assert(ldv.take(ldv.len() as int) =~= ldv);
        }
        let merged = crate::vcs::merge_icons(icons);
        Some(Chunk::info(merged.as_str()))
    }

    /// Darcs has no linked-worktree notion here: a capability gap.
    pub fn worktree(&self, _obs: &DarcsObs) -> (r: Option<Chunk>)
        ensures
            r is None,
    {
        None
    }

    /// Darcs lists no shelved change sets: a capability gap.
    pub fn stash(&self, _obs: &DarcsObs) -> (r: Option<Chunk>)
        ensures
            r is None,
    {
        None
    }

    /// Darcs reports no upstream divergence here: a capability gap.
    pub fn divergence(&self, _obs: &DarcsObs) -> (r: Option<Chunk>)
        ensures
            r is None,
    {
        None
    }
}

} // verus!
