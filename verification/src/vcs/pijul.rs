//! The Pijul backend: the current channel, the latest change, and the
//! short diff listing; worktrees, stashes and divergence are
//! capability gaps.

use vstd::prelude::*;

use crate::chunk::{opt_chunk_view, Chunk, ChunkView};
use crate::cmd::opt_str_view;
use crate::text::{chars_eq, chars_string, lines_spec, str_chars, tokens_of, tokens_spec,
    trim_chars, trim_spec};

verus! {

#[derive(Clone, Copy, Debug, PartialEq, Eq, Structural)]
pub struct Pijul;

/// What the Pijul backend observed.
pub struct PijulObs {
    /// Output of `pijul channel`.
    pub channel_out: Option<String>,
    /// Output of `pijul log --limit 1`.
    pub log_out: Option<String>,
    /// Output of `pijul diff --short`.
    pub diff_out: Option<String>,
}

/// A channel listing line naming the current channel.
pub open spec fn pijul_current_line(l: Seq<char>) -> bool {
    l.len() > 0 && l[0] == '*'
}

/// The first current-channel line at or after `j`.
pub open spec fn pijul_channel_find(lines: Seq<Seq<char>>, j: int) -> Option<Seq<char>>
    decreases lines.len() - j,
{
    if j < 0 || j >= lines.len() {
        None
    } else if pijul_current_line(lines[j]) {
        Some(lines[j])
    } else {
        pijul_channel_find(lines, j + 1)
    }
}

/// The branch segment: the channel marked with `*`, trimmed.
pub open spec fn pijul_branch_spec(channel_out: Option<Seq<char>>) -> Option<ChunkView> {
    match channel_out {
        None => None,
        Some(s) => match pijul_channel_find(lines_spec(s), 0) {
            None => None,
            Some(l) => Some(
                ChunkView { icon: Some("pijul ⎇"@), info: Some(trim_spec(l.drop_first())) },
            ),
        },
    }
}

/// The commit segment: the change identifier, the second token of the
/// newest log entry's head line.
pub open spec fn pijul_commit_spec(log_out: Option<Seq<char>>) -> Option<ChunkView> {
    match log_out {
        None => None,
        Some(s) => {
            let lines = lines_spec(s);
            if lines.len() == 0 {
                None
            } else {
                let tk = tokens_spec(lines[0]);
                if tk.len() < 2 {
                    None
                } else {
                    Some(ChunkView { icon: Some("⭑"@), info: Some(tk[1]) })
                }
            }
        },
    }
}

/// The glyph for one short-diff line, keyed by its first token.
pub open spec fn pijul_icon_spec(line: Seq<char>) -> Seq<char> {
    let tk = tokens_spec(line);
    if tk.len() == 0 {
        ""@
    } else if tk[0] == "MV"@ {
        "→"@
    } else if tk[0] == "D"@ {
        "−"@
    } else if tk[0] == "UD"@ {
        "⊖"@
    } else if tk[0] == "A"@ {
        "✚"@
    } else if tk[0] == "SC"@ {
        "⚠"@
    } else if tk[0] == "UC"@ {
        "!"@
    } else if tk[0] == "M"@ {
        "●"@
    } else if tk[0] == "R"@ {
        "◉"@
    } else if tk[0] == "RZ"@ {
        "↺"@
    } else {
        ""@
    }
}

pub fn pijul_status_icon(line: &str) -> (r: crate::vcs::StatusIcon)
    ensures
        r@ == pijul_icon_spec(line@),
{
    let v = str_chars(line);
    let tk = tokens_of(&v);
    if tk.len() == 0 {
        return crate::vcs::StatusIcon::new("");
    }
    proof {
        crate::text::lemma_chars_dv(&tk@[0]);
    }
    let t = &tk[0];
    if chars_eq(t, &str_chars("MV")) {
        crate::vcs::StatusIcon::new("→")
    } else if chars_eq(t, &str_chars("D")) {
        crate::vcs::StatusIcon::new("−")
    } else if chars_eq(t, &str_chars("UD")) {
        crate::vcs::StatusIcon::new("⊖")
    } else if chars_eq(t, &str_chars("A")) {
        crate::vcs::StatusIcon::new("✚")
    } else if chars_eq(t, &str_chars("SC")) {
        crate::vcs::StatusIcon::new("⚠")
    } else if chars_eq(t, &str_chars("UC")) {
        crate::vcs::StatusIcon::new("!")
    } else if chars_eq(t, &str_chars("M")) {
        crate::vcs::StatusIcon::new("●")
    } else if chars_eq(t, &str_chars("R")) {
        crate::vcs::StatusIcon::new("◉")
    } else if chars_eq(t, &str_chars("RZ")) {
        crate::vcs::StatusIcon::new("↺")
    } else {
        crate::vcs::StatusIcon::new("")
    }
}

/// The status segment: each non-empty short diff mapped line by line
/// through the status table and merged.
pub open spec fn pijul_status_spec(diff_out: Option<Seq<char>>) -> Option<ChunkView> {
    match diff_out {
        None => None,
        Some(s) => if s.len() == 0 {
            None
        } else {
            Some(
                ChunkView {
                    icon: None,
                    info: Some(
                        crate::vcs::merge_spec(
                            lines_spec(s).map_values(|l: Seq<char>| pijul_icon_spec(l)),
                        ),
                    ),
                },
            )
        },
    }
}

impl Pijul {
    #[verifier::loop_isolation(false)]
    pub fn branch(&self, obs: &PijulObs) -> (r: Option<Chunk>)
        ensures
            opt_chunk_view(r) == pijul_branch_spec(opt_str_view(obs.channel_out)),
    {
        let s = match &obs.channel_out {
            None => {
                return None;
            },
            Some(s) => s,
        };
        let v = str_chars(s.as_str());
        let lines = crate::text::lines_of(&v);
        let ghost ldv = lines.deep_view();
        let mut j: usize = 0;
        while j < lines.len()
            invariant
                j <= lines@.len(),
                ldv == lines.deep_view(),
                pijul_channel_find(ldv, 0) == pijul_channel_find(ldv, j as int),
            decreases lines@.len() - j,
        {
            proof {
                crate::text::lemma_chars_dv(&lines@[j as int]);
            }
            let line = &lines[j];
            if line.len() > 0 && line[0] == '*' {
                let restv = crate::text::subrange_vec(line, 1, line.len());
                proof {
                    assert(line@.subrange(1, line@.len() as int) =~= ldv[j as int].drop_first());
                }
                let t = trim_chars(&restv);
                let info = chars_string(&t);
                return Some(Chunk::new("pijul ⎇", info.as_str()));
            }
            j += 1;
        }
        None
    }

    pub fn commit(&self, obs: &PijulObs) -> (r: Option<Chunk>)
        ensures
            opt_chunk_view(r) == pijul_commit_spec(opt_str_view(obs.log_out)),
    {
        let s = match &obs.log_out {
            None => {
                return None;
            },
            Some(s) => s,
        };
        let v = str_chars(s.as_str());
        let lines = crate::text::lines_of(&v);
        if lines.len() == 0 {
            return None;
        }
        proof {
            crate::text::lemma_chars_dv(&lines@[0]);
        }
        let tk = tokens_of(&lines[0]);
        if tk.len() < 2 {
            return None;
        }
        proof {
            crate::text::lemma_chars_dv(&tk@[1]);
        }
        let info = chars_string(&tk[1]);
        Some(Chunk::new("⭑", info.as_str()))
    }

    #[verifier::loop_isolation(false)]
    pub fn status(&self, obs: &PijulObs) -> (r: Option<Chunk>)
        ensures
            opt_chunk_view(r) == pijul_status_spec(opt_str_view(obs.diff_out)),
    {
        let s = match &obs.diff_out {
            None => {
                return None;
            },
            Some(s) => s,
        };
        let v = str_chars(s.as_str());
        if v.len() == 0 {
            return None;
        }
        let lines = crate::text::lines_of(&v);
        let ghost ldv = lines.deep_view();
        let mut icons: Vec<crate::vcs::StatusIcon> = Vec::new();
        let mut i: usize = 0;
        while i < lines.len()
            invariant
                i <= lines@.len(),
                ldv == lines.deep_view(),
                icons.deep_view() == ldv.take(i as int).map_values(
                    |l: Seq<char>| pijul_icon_spec(l),
                ),
            decreases lines@.len() - i,
        {
            proof {
                crate::text::lemma_chars_dv(&lines@[i as int]);
                assert(ldv[i as int] == lines@[i as int]@);
            }
            let ls = chars_string(&lines[i]);
            let icon = pijul_status_icon(ls.as_str());
            let ghost old_icons = icons;
            icons.push(icon);
            proof {
                crate::vcs::lemma_icons_dv_push(&old_icons, &icons, icon);
                assert(icons.deep_view() =~~= ldv.take(i + 1).map_values(
                    |l: Seq<char>| pijul_icon_spec(l),
                ));
            }
            i += 1;
        }
        proof {
            assert(ldv.take(ldv.len() as int) =~= ldv);
        }
        let merged = crate::vcs::merge_icons(icons);
        Some(Chunk::info(merged.as_str()))
    }

    /// Pijul has no linked-worktree notion here: a capability gap.
    pub fn worktree(&self, _obs: &PijulObs) -> (r: Option<Chunk>)
        ensures
            r is None,
    {
        None
    }

    /// Pijul lists no shelved change sets: a capability gap.
    pub fn stash(&self, _obs: &PijulObs) -> (r: Option<Chunk>)
        ensures
            r is None,
    {
        None
    }

    /// Pijul reports no upstream divergence here: a capability gap.
    pub fn divergence(&self, _obs: &PijulObs) -> (r: Option<Chunk>)
        ensures
            r is None,
    {
        None
    }
}

} // verus!
