//! The Jujutsu backend. It has no durable branch concept in the
//! classic sense: the bookmark comes from the log head line, and the
//! commit identifiers from the working-copy status line.

use vstd::prelude::*;

use crate::chunk::{opt_chunk_view, Chunk, ChunkView};
use crate::cmd::opt_str_view;
use crate::text::{
    chars_eq, chars_string, is_prefix, lines_spec, str_chars, subrange_vec, tokens_of, tokens_spec,
};

verus! {

#[derive(Clone, Copy, Debug, PartialEq, Eq, Structural)]
pub struct Jj;

/// What the Jujutsu backend observed.
pub struct JjObs {
    /// Output of `jj log --color never --no-pager`.
    pub log_out: Option<String>,
    /// Output of `jj status --color never --no-pager`.
    pub status_out: Option<String>,
}

/// The bookmark on the log head line: its second-to-last token with
/// the trailing marker character dropped.
pub open spec fn jj_branch_spec(log_out: Option<Seq<char>>) -> Option<ChunkView> {
    match log_out {
        None => None,
        Some(s) => {
            let lines = lines_spec(s);
            if lines.len() == 0 {
                None
            } else {
                let tk = tokens_spec(lines[0]);
                if tk.len() < 2 {
                    None
                } else {
                    let t = tk[tk.len() - 2];
                    let name = if t.len() == 0 {
                        t
                    } else {
                        t.drop_last()
                    };
                    Some(ChunkView { icon: Some("jj ⎇"@), info: Some(name) })
                }
            }
        },
    }
}

/// A working-copy line of the status output.
pub open spec fn jj_wc_line(l: Seq<char>) -> bool {
    is_prefix("Working copy"@, l) && crate::text::contains_seq(l, "(@)"@)
}

/// The first working-copy line at or after `j`.
pub open spec fn jj_wc_find(lines: Seq<Seq<char>>, j: int) -> Option<Seq<char>>
    decreases lines.len() - j,
{
    if j < 0 || j >= lines.len() {
        None
    } else if jj_wc_line(lines[j]) {
        Some(lines[j])
    } else {
        jj_wc_find(lines, j + 1)
    }
}

/// The change and commit identifiers from the working-copy status
/// line: its fifth and sixth tokens, joined by a space.
pub open spec fn jj_commit_spec(status_out: Option<Seq<char>>) -> Option<ChunkView> {
    match status_out {
        None => None,
        Some(s) => match jj_wc_find(lines_spec(s), 0) {
            None => None,
            Some(wc) => {
                let tk = tokens_spec(wc);
                if tk.len() >= 6 {
                    Some(
                        ChunkView { icon: Some("⭑"@), info: Some(tk[4] + seq![' '] + tk[5]) },
                    )
                } else {
                    None
                }
            },
        },
    }
}

/// The glyph for one changed-path line, keyed by its first token.
pub open spec fn jj_icon_spec(line: Seq<char>) -> Seq<char> {
    let tk = tokens_spec(line);
    if tk.len() == 0 {
        ""@
    } else if tk[0] == "A"@ {
        "✚"@
    } else if tk[0] == "R"@ {
        "→"@
    } else if tk[0] == "M"@ {
        "●"@
    } else if tk[0] == "C"@ {
        "⊂"@
    } else if tk[0] == "D"@ {
        "−"@
    } else {
        ""@
    }
}

pub fn jj_status_icon(line: &str) -> (r: crate::vcs::StatusIcon)
    ensures
        r@ == jj_icon_spec(line@),
{
    let v = str_chars(line);
    let tk = tokens_of(&v);
    if tk.len() == 0 {
        return crate::vcs::StatusIcon::new("");
    }
    proof {
        crate::text::lemma_chars_dv(&tk@[0]);
    }
    let t = &tk[0];
    let a = str_chars("A");
    let rr = str_chars("R");
    let m = str_chars("M");
    let c = str_chars("C");
    let d = str_chars("D");
    if chars_eq(t, &a) {
        crate::vcs::StatusIcon::new("✚")
    } else if chars_eq(t, &rr) {
        crate::vcs::StatusIcon::new("→")
    } else if chars_eq(t, &m) {
        crate::vcs::StatusIcon::new("●")
    } else if chars_eq(t, &c) {
        crate::vcs::StatusIcon::new("⊂")
    } else if chars_eq(t, &d) {
        crate::vcs::StatusIcon::new("−")
    } else {
        crate::vcs::StatusIcon::new("")
    }
}

/// A changed-path line: its second character is a space.
pub open spec fn jj_path_line(l: Seq<char>) -> bool {
    l.len() >= 2 && l[1] == ' '
}

/// The status segment: changed-path lines mapped through the status
/// table and merged; nothing when the merge is empty.
pub open spec fn jj_status_spec(status_out: Option<Seq<char>>) -> Option<ChunkView> {
    match status_out {
        None => None,
        Some(s) => {
            let merged = crate::vcs::merge_spec(
                lines_spec(s).filter(|l: Seq<char>| jj_path_line(l)).map_values(
                    |l: Seq<char>| jj_icon_spec(l),
                ),
            );
            if merged.len() == 0 {
                None
            } else {
                Some(ChunkView { icon: None, info: Some(merged) })
            }
        },
    }
}

/// The worktree segment: the sixth token of the log head line, shown
/// only when that line has exactly eight tokens.
pub open spec fn jj_worktree_spec(log_out: Option<Seq<char>>) -> Option<ChunkView> {
    match log_out {
        None => None,
        Some(s) => {
            let lines = lines_spec(s);
            if lines.len() == 0 {
                None
            } else {
                let tk = tokens_spec(lines[0]);
                if tk.len() == 8 {
                    Some(ChunkView { icon: Some("¶"@), info: Some(tk[5]) })
                } else {
                    None
                }
            }
        },
    }
}

impl Jj {
    pub fn branch(&self, obs: &JjObs) -> (r: Option<Chunk>)
        ensures
            opt_chunk_view(r) == jj_branch_spec(opt_str_view(obs.log_out)),
    {
        let s = match &obs.log_out {
            None => {
                return None;
            },
            Some(s) => s,
        };
        let v = str_chars(s.as_str());
        let lines = crate::text::lines_of(&v);
        if lines.len() == 0 {
            return None;
        }
        proof {
            crate::text::lemma_chars_dv(&lines@[0]);
        }
        let tk = tokens_of(&lines[0]);
        if tk.len() < 2 {
            return None;
        }
        proof {
            crate::text::lemma_chars_dv(&tk@[tk@.len() - 2]);
        }
        let t = &tk[tk.len() - 2];
        let name = if t.len() == 0 {
            subrange_vec(t, 0, 0)
        } else {
            subrange_vec(t, 0, t.len() - 1)
        };
        proof {
            if t@.len() == 0 {
                assert(t@.subrange(0, 0) =~= t@);
            } else {
                assert(t@.subrange(0, t@.len() - 1) =~= t@.drop_last());
            }
        }
        let info = chars_string(&name);
        Some(Chunk::new("jj ⎇", info.as_str()))
    }

    #[verifier::loop_isolation(false)]
    pub fn commit(&self, obs: &JjObs) -> (r: Option<Chunk>)
        ensures
            opt_chunk_view(r) == jj_commit_spec(opt_str_view(obs.status_out)),
    {
        let s = match &obs.status_out {
            None => {
                return None;
            },
            Some(s) => s,
        };
        let v = str_chars(s.as_str());
        let lines = crate::text::lines_of(&v);
        let ghost ldv = lines.deep_view();
        let prefix = str_chars("Working copy");
        let marker = str_chars("(@)");
        let mut j: usize = 0;
        while j < lines.len()
            invariant
                j <= lines@.len(),
                ldv == lines.deep_view(),
                jj_wc_find(ldv, 0) == jj_wc_find(ldv, j as int),
            decreases lines@.len() - j,
        {
            proof {
                crate::text::lemma_chars_dv(&lines@[j as int]);
            }
            if crate::text::starts_with(&lines[j], &prefix) && crate::text::chars_contains(
                &lines[j],
                &marker,
            ) {
                let tk = tokens_of(&lines[j]);
                if tk.len() >= 6 {
                    proof {
                        crate::text::lemma_chars_dv(&tk@[4]);
                        crate::text::lemma_chars_dv(&tk@[5]);
                    }
                    let mut outv = subrange_vec(&tk[4], 0, tk[4].len());
                    proof {
                        assert(tk@[4]@.subrange(0, tk@[4]@.len() as int) =~= tk@[4]@);
                    }
                    outv.push(' ');
                    crate::text::extend_chars(&mut outv, &tk[5]);
                    proof {
                        assert(outv@ =~= tk.deep_view()[4] + seq![' '] + tk.deep_view()[5]);
                    }
                    let info = chars_string(&outv);
                    return Some(Chunk::new("⭑", info.as_str()));
                } else {
                    return None;
                }
            }
            j += 1;
        }
        None
    }

    #[verifier::loop_isolation(false)]
    pub fn status(&self, obs: &JjObs) -> (r: Option<Chunk>)
        ensures
            opt_chunk_view(r) == jj_status_spec(opt_str_view(obs.status_out)),
    {
        let s = match &obs.status_out {
            None => {
                return None;
            },
            Some(s) => s,
        };
        let v = str_chars(s.as_str());
        let lines = crate::text::lines_of(&v);
        let ghost ldv = lines.deep_view();
        let ghost pred = |l: Seq<char>| jj_path_line(l);
        let mut icons: Vec<crate::vcs::StatusIcon> = Vec::new();
        let mut i: usize = 0;
        proof {
            reveal(Seq::filter);
            assert(ldv.take(0) =~= Seq::<Seq<char>>::empty());
            assert(icons.deep_view() =~~= ldv.take(0).filter(pred).map_values(
                |l: Seq<char>| jj_icon_spec(l),
            ));
        }
        while i < lines.len()
            invariant
                i <= lines@.len(),
                ldv == lines.deep_view(),
                icons.deep_view() == ldv.take(i as int).filter(pred).map_values(
                    |l: Seq<char>| jj_icon_spec(l),
                ),
            decreases lines@.len() - i,
        {
            proof {
                reveal(Seq::filter);
                crate::text::lemma_chars_dv(&lines@[i as int]);
                assert(ldv.take(i + 1).drop_last() =~= ldv.take(i as int));
                assert(ldv.take(i + 1).last() == ldv[i as int]);
            }
            let line = &lines[i];
            if line.len() >= 2 && line[1] == ' ' {
                let ls = chars_string(line);
                let icon = jj_status_icon(ls.as_str());
                let ghost old_icons = icons;
                icons.push(icon);
                proof {
                    crate::vcs::lemma_icons_dv_push(&old_icons, &icons, icon);
                    assert(icons.deep_view() =~~= ldv.take(i + 1).filter(pred).map_values(
                        |l: Seq<char>| jj_icon_spec(l),
                    ));
                }
            } else {
                proof {
                    assert(icons.deep_view() =~~= ldv.take(i + 1).filter(pred).map_values(
                        |l: Seq<char>| jj_icon_spec(l),
                    ));
                }
            }
            i += 1;
        }
        proof {
            assert(ldv.take(ldv.len() as int) =~= ldv);
        }
        let merged = crate::vcs::merge_icons(icons);
        let mv = str_chars(merged.as_str());
        if mv.len() == 0 {
            return None;
        }
        Some(Chunk::info(merged.as_str()))
    }

    pub fn worktree(&self, obs: &JjObs) -> (r: Option<Chunk>)
        ensures
            opt_chunk_view(r) == jj_worktree_spec(opt_str_view(obs.log_out)),
    {
        let s = match &obs.log_out {
            None => {
                return None;
            },
            Some(s) => s,
        };
        let v = str_chars(s.as_str());
        let lines = crate::text::lines_of(&v);
        if lines.len() == 0 {
            return None;
        }
        proof {
            crate::text::lemma_chars_dv(&lines@[0]);
        }
        let tk = tokens_of(&lines[0]);
        if tk.len() == 8 {
            proof {
                crate::text::lemma_chars_dv(&tk@[5]);
            }
            let info = chars_string(&tk[5]);
            Some(Chunk::new("¶", info.as_str()))
        } else {
            None
        }
    }

    /// Jujutsu lists no shelved change sets: a capability gap.
    pub fn stash(&self, _obs: &JjObs) -> (r: Option<Chunk>)
        ensures
            r is None,
    {
        None
    }

    /// Jujutsu reports no upstream divergence here: a capability gap.
    pub fn divergence(&self, _obs: &JjObs) -> (r: Option<Chunk>)
        ensures
            r is None,
    {
        None
    }
}

} // verus!
