//! The Git backend: the fully-capable reference backend. Each
//! operation renders the output of one or more git commands, routed
//! through the shared command cache by the surrounding binary.

use vstd::prelude::*;

use crate::chunk::{opt_chunk_view, Chunk, ChunkView};
use crate::cmd::opt_str_view;
use crate::git::{
    branch_icon_spec, branch_show_spec, describe_slow_spec, divergence_spec, git_ahead_behind_icon,
    git_branch_icon, git_branch_show, git_describe_slow, git_name_rev, git_stash_counter,
    git_worktree, name_rev_spec, stash_counter_spec, worktree_spec,
};
use crate::git::git_bidirectional_inclusion;
use crate::text::{lines_spec, str_chars};

verus! {

#[derive(Clone, Copy, Debug, PartialEq, Eq, Structural)]
pub struct Git;

/// What the git backend observed: the captured output of each command
/// an operation may need (`None` when the command failed), and the
/// current directory for the worktree lookup.
pub struct GitObs {
    /// `git branch --show`
    pub branch_show: Option<String>,
    /// `git rev-parse --abbrev-ref HEAD`
    pub head_ref: Option<String>,
    /// `git rev-parse --abbrev-ref origin/HEAD`
    pub origin_ref: Option<String>,
    /// `git name-rev --name-only HEAD`
    pub name_rev: Option<String>,
    /// `git describe --abbrev=7 --always --tag --long`
    pub describe_long: Option<String>,
    /// `git status --porcelain`
    pub status_out: Option<String>,
    /// `git worktree list`
    pub worktree_list: Option<String>,
    /// `git stash list`
    pub stash_list: Option<String>,
    /// `git rev-list --count HEAD@{upstream}..HEAD`
    pub ahead: Option<String>,
    /// `git rev-list --count HEAD..HEAD@{upstream}`
    pub behind: Option<String>,
    /// The current working directory.
    pub cwd: String,
}

/// The branch segment: the upstream-relationship icon with the branch
/// name, either alone when only one resolves, nothing when neither.
pub open spec fn git_branch_op_spec(
    head_ref: Option<Seq<char>>,
    origin_ref: Option<Seq<char>>,
    branch_show: Option<Seq<char>>,
) -> Option<ChunkView> {
    let icon = branch_icon_spec(head_ref, origin_ref);
    let info = branch_show_spec(branch_show);
    match (icon, info) {
        (None, None) => None,
        (Some(ic), None) => Some(ChunkView { icon: Some(ic), info: None }),
        (None, Some(inf)) => Some(ChunkView { icon: None, info: Some(inf) }),
        (Some(ic), Some(inf)) => Some(ChunkView { icon: Some(ic), info: Some(inf) }),
    }
}

/// The commit segment: the describe output when present; otherwise the
/// rewritten `name-rev` descriptor, suppressed when it duplicates the
/// branch name by bidirectional containment.
pub open spec fn git_commit_op_spec(
    branch_show: Option<Seq<char>>,
    name_rev: Option<Seq<char>>,
    describe_long: Option<Seq<char>>,
) -> Option<ChunkView> {
    let b = branch_show_spec(branch_show);
    let nr = name_rev_spec(false, name_rev);
    let d = describe_slow_spec(describe_long);
    match (b, d, nr) {
        (_, None, None) => None,
        (None, None, Some(n)) => Some(ChunkView { icon: None, info: Some(n) }),
        (Some(bn), None, Some(n)) => if bidirectional_inclusion_spec_holds(bn, n) {
            None
        } else {
            Some(ChunkView { icon: None, info: Some(n) })
        },
        (_, Some(c), _) => Some(ChunkView { icon: None, info: Some(c) }),
    }
}

pub open spec fn bidirectional_inclusion_spec_holds(a: Seq<char>, b: Seq<char>) -> bool {
    crate::git::bidirectional_inclusion(a, b)
}

/// The glyph for one `git status --porcelain` line in this backend's
/// table, keyed by the first two characters.
pub open spec fn git_porcelain_icon_spec(line: Seq<char>) -> Seq<char> {
    if line.len() < 2 {
        ""@
    } else {
        let c0 = line[0];
        let c1 = line[1];
        if c0 == 'D' && c1 == 'D' {
            "✖"@
        } else if c0 == 'A' && c1 == 'A' {
            "⧉"@
        } else if c0 == 'U' && c1 == 'U' {
            "⚠"@
        } else if c0 == 'A' && c1 == 'U' {
            "⊕"@
        } else if c0 == 'U' && c1 == 'A' {
            "⊞"@
        } else if c0 == 'D' && c1 == 'U' {
            "⊖"@
        } else if c0 == 'U' && c1 == 'D' {
            "⊟"@
        } else if c0 == 'M' && c1 == ' ' {
            "●"@
        } else if c0 == 'M' && c1 == 'M' {
            "◉"@
        } else if c0 == 'M' && c1 == 'D' {
            "◐"@
        } else if c0 == 'M' && c1 == 'T' {
            "◑"@
        } else if c0 == 'A' && c1 == ' ' {
            "✚"@
        } else if c0 == 'A' && c1 == 'M' {
            "✛"@
        } else if c0 == 'A' && c1 == 'D' {
            "⊕"@
        } else if c0 == 'A' && c1 == 'T' {
            "⊛"@
        } else if c0 == 'D' && c1 == ' ' {
            "−"@
        } else if c0 == 'D' && c1 == 'M' {
            "∓"@
        } else if c0 == 'R' && c1 == ' ' {
            "→"@
        } else if c0 == 'R' && c1 == 'M' {
            "⇢"@
        } else if c0 == 'R' && c1 == 'D' {
            "⇥"@
        } else if c0 == 'R' && c1 == 'T' {
            "⤳"@
        } else if c0 == 'C' && c1 == ' ' {
            "⊂"@
        } else if c0 == 'C' && c1 == 'M' {
            "⊃"@
        } else if c0 == 'C' && c1 == 'D' {
            "⊄"@
        } else if c0 == 'C' && c1 == 'T' {
            "⊅"@
        } else if c0 == 'T' && c1 == ' ' {
            "◈"@
        } else if c0 == 'T' && c1 == 'M' {
            "◊"@
        } else if c0 == 'T' && c1 == 'D' {
            "⬧"@
        } else if c0 == 'T' && c1 == 'T' {
            "⬢"@
        } else if c0 == ' ' && c1 == 'M' {
            "○"@
        } else if c0 == ' ' && c1 == 'D' {
            "ｘ"@
        } else if c0 == ' ' && c1 == 'T' {
            "◇"@
        } else if c0 == ' ' && c1 == 'R' {
            "↻"@
        } else if c0 == ' ' && c1 == 'C' {
            "⊆"@
        } else if c0 == ' ' && c1 == 'A' {
            "⊹"@
        } else if c0 == '?' && c1 == '?' {
            "⁇"@
        } else {
            ""@
        }
    }
}

pub fn git_porcelain_icon(line: &str) -> (r: crate::vcs::StatusIcon)
    ensures
        r@ == git_porcelain_icon_spec(line@),
{
    let v = str_chars(line);
    if v.len() < 2 {
        crate::vcs::StatusIcon::new("")
    } else {
        let c0 = v[0];
        let c1 = v[1];
        if c0 == 'D' && c1 == 'D' {
            crate::vcs::StatusIcon::new("✖")
        } else if c0 == 'A' && c1 == 'A' {
            crate::vcs::StatusIcon::new("⧉")
        } else if c0 == 'U' && c1 == 'U' {
            crate::vcs::StatusIcon::new("⚠")
        } else if c0 == 'A' && c1 == 'U' {
            crate::vcs::StatusIcon::new("⊕")
        } else if c0 == 'U' && c1 == 'A' {
            crate::vcs::StatusIcon::new("⊞")
        } else if c0 == 'D' && c1 == 'U' {
            crate::vcs::StatusIcon::new("⊖")
        } else if c0 == 'U' && c1 == 'D' {
            crate::vcs::StatusIcon::new("⊟")
        } else if c0 == 'M' && c1 == ' ' {
            crate::vcs::StatusIcon::new("●")
        } else if c0 == 'M' && c1 == 'M' {
            crate::vcs::StatusIcon::new("◉")
        } else if c0 == 'M' && c1 == 'D' {
            crate::vcs::StatusIcon::new("◐")
        } else if c0 == 'M' && c1 == 'T' {
            crate::vcs::StatusIcon::new("◑")
        } else if c0 == 'A' && c1 == ' ' {
            crate::vcs::StatusIcon::new("✚")
        } else if c0 == 'A' && c1 == 'M' {
            crate::vcs::StatusIcon::new("✛")
        } else if c0 == 'A' && c1 == 'D' {
            crate::vcs::StatusIcon::new("⊕")
        } else if c0 == 'A' && c1 == 'T' {
            crate::vcs::StatusIcon::new("⊛")
        } else if c0 == 'D' && c1 == ' ' {
            crate::vcs::StatusIcon::new("−")
        } else if c0 == 'D' && c1 == 'M' {
            crate::vcs::StatusIcon::new("∓")
        } else if c0 == 'R' && c1 == ' ' {
            crate::vcs::StatusIcon::new("→")
        } else if c0 == 'R' && c1 == 'M' {
            crate::vcs::StatusIcon::new("⇢")
        } else if c0 == 'R' && c1 == 'D' {
            crate::vcs::StatusIcon::new("⇥")
        } else if c0 == 'R' && c1 == 'T' {
            crate::vcs::StatusIcon::new("⤳")
        } else if c0 == 'C' && c1 == ' ' {
            crate::vcs::StatusIcon::new("⊂")
        } else if c0 == 'C' && c1 == 'M' {
            crate::vcs::StatusIcon::new("⊃")
        } else if c0 == 'C' && c1 == 'D' {
            crate::vcs::StatusIcon::new("⊄")
        } else if c0 == 'C' && c1 == 'T' {
            crate::vcs::StatusIcon::new("⊅")
        } else if c0 == 'T' && c1 == ' ' {
            crate::vcs::StatusIcon::new("◈")
        } else if c0 == 'T' && c1 == 'M' {
            crate::vcs::StatusIcon::new("◊")
        } else if c0 == 'T' && c1 == 'D' {
            crate::vcs::StatusIcon::new("⬧")
        } else if c0 == 'T' && c1 == 'T' {
            crate::vcs::StatusIcon::new("⬢")
        } else if c0 == ' ' && c1 == 'M' {
            crate::vcs::StatusIcon::new("○")
        } else if c0 == ' ' && c1 == 'D' {
            crate::vcs::StatusIcon::new("ｘ")
        } else if c0 == ' ' && c1 == 'T' {
            crate::vcs::StatusIcon::new("◇")
        } else if c0 == ' ' && c1 == 'R' {
            crate::vcs::StatusIcon::new("↻")
        } else if c0 == ' ' && c1 == 'C' {
            crate::vcs::StatusIcon::new("⊆")
        } else if c0 == ' ' && c1 == 'A' {
            crate::vcs::StatusIcon::new("⊹")
        } else if c0 == '?' && c1 == '?' {
            crate::vcs::StatusIcon::new("⁇")
        } else {
            crate::vcs::StatusIcon::new("")
        }
    }
}

/// The status segment: each non-empty listing mapped line by line
/// through the porcelain table and merged; an empty or failed listing
/// yields nothing.
pub open spec fn git_status_op_spec(status_out: Option<Seq<char>>) -> Option<ChunkView> {
    match status_out {
        None => None,
        Some(s) => if s.len() == 0 {
            None
        } else {
            Some(
                ChunkView {
                    icon: None,
                    info: Some(
                        crate::vcs::merge_spec(
                            lines_spec(s).map_values(|l: Seq<char>| git_porcelain_icon_spec(l)),
                        ),
                    ),
                },
            )
        },
    }
}

/// The worktree segment as a chunk.
pub open spec fn git_worktree_op_spec(cwd: Seq<char>, worktree_list: Option<Seq<char>>) -> Option<
    ChunkView,
> {
    match worktree_spec(cwd, worktree_list) {
        None => None,
        Some(name) => Some(ChunkView { icon: Some("⌂"@), info: Some(name) }),
    }
}

/// The stash segment as a chunk.
pub open spec fn git_stash_op_spec(stash_list: Option<Seq<char>>) -> Option<ChunkView> {
    match stash_counter_spec(stash_list) {
        None => None,
        Some(text) => Some(ChunkView { icon: None, info: Some(text) }),
    }
}

/// The divergence segment as a chunk.
pub open spec fn git_divergence_op_spec(
    ahead: Option<Seq<char>>,
    behind: Option<Seq<char>>,
) -> Option<ChunkView> {
    match divergence_spec(ahead, behind) {
        None => None,
        Some(text) => Some(ChunkView { icon: None, info: Some(text) }),
    }
}

impl Git {
    pub fn branch(&self, obs: &GitObs) -> (r: Option<Chunk>)
        ensures
            opt_chunk_view(r) == git_branch_op_spec(
                opt_str_view(obs.head_ref),
                opt_str_view(obs.origin_ref),
                opt_str_view(obs.branch_show),
            ),
    {
        let icon = git_branch_icon(&obs.head_ref, &obs.origin_ref);
        let info = git_branch_show(&obs.branch_show);
        match (icon, info) {
            (None, None) => None,
            (Some(ic), None) => Some(Chunk::icon(ic)),
            (None, Some(inf)) => Some(Chunk::info(inf.as_str())),
            (Some(ic), Some(inf)) => Some(Chunk::new(ic, inf.as_str())),
        }
    }

    pub fn commit(&self, obs: &GitObs) -> (r: Option<Chunk>)
        ensures
            opt_chunk_view(r) == git_commit_op_spec(
                opt_str_view(obs.branch_show),
                opt_str_view(obs.name_rev),
                opt_str_view(obs.describe_long),
            ),
    {
        let b = git_branch_show(&obs.branch_show);
        let nr = git_name_rev(false, &obs.name_rev);
        let d = git_describe_slow(&obs.describe_long);
        match (b, d, nr) {
            (_, None, None) => None,
            (None, None, Some(n)) => Some(Chunk::info(n.as_str())),
            (Some(bn), None, Some(n)) => {
                if git_bidirectional_inclusion(bn.as_str(), n.as_str()) {
                    None
                } else {
                    Some(Chunk::info(n.as_str()))
                }
            },
            (_, Some(c), _) => Some(Chunk::info(c.as_str())),
        }
    }

    #[verifier::loop_isolation(false)]
    pub fn status(&self, obs: &GitObs) -> (r: Option<Chunk>)
        ensures
            opt_chunk_view(r) == git_status_op_spec(opt_str_view(obs.status_out)),
    {
        let s = match &obs.status_out {
            None => {
                return None;
            },
            Some(s) => s,
        };
        let v = str_chars(s.as_str());
        if v.len() == 0 {
            return None;
        }
        let lines = crate::text::lines_of(&v);
        let ghost ldv = lines.deep_view();
        let mut icons: Vec<crate::vcs::StatusIcon> = Vec::new();
        let mut i: usize = 0;
        while i < lines.len()
            invariant
                i <= lines@.len(),
                ldv == lines.deep_view(),
                icons.deep_view() == ldv.take(i as int).map_values(
                    |l: Seq<char>| git_porcelain_icon_spec(l),
                ),
            decreases lines@.len() - i,
        {
            proof {
                crate::text::lemma_chars_dv(&lines@[i as int]);
                assert(ldv[i as int] == lines@[i as int]@);
            }
            let ls = chars_string_local(&lines[i]);
            let icon = git_porcelain_icon(ls.as_str());
            let ghost old_icons = icons;
            icons.push(icon);
            proof {
                crate::vcs::lemma_icons_dv_push(&old_icons, &icons, icon);
                assert(icons.deep_view() =~~= ldv.take(i + 1).map_values(
                    |l: Seq<char>| git_porcelain_icon_spec(l),
                ));
            }
            i += 1;
        }
        proof {
            assert(ldv.take(ldv.len() as int) =~= ldv);
        }
        let merged = crate::vcs::merge_icons(icons);
        Some(Chunk::info(merged.as_str()))
    }

    pub fn worktree(&self, obs: &GitObs) -> (r: Option<Chunk>)
        ensures
            opt_chunk_view(r) == git_worktree_op_spec(obs.cwd@, opt_str_view(obs.worktree_list)),
    {
        match git_worktree(obs.cwd.as_str(), &obs.worktree_list) {
            None => None,
            Some(name) => Some(Chunk::new("⌂", name.as_str())),
        }
    }

    pub fn stash(&self, obs: &GitObs) -> (r: Option<Chunk>)
        ensures
            opt_chunk_view(r) == git_stash_op_spec(opt_str_view(obs.stash_list)),
    {
        match git_stash_counter(&obs.stash_list) {
            None => None,
            Some(text) => Some(Chunk::info(text.as_str())),
        }
    }

    pub fn divergence(&self, obs: &GitObs) -> (r: Option<Chunk>)
        ensures
            opt_chunk_view(r) == git_divergence_op_spec(
                opt_str_view(obs.ahead),
                opt_str_view(obs.behind),
            ),
    {
        match git_ahead_behind_icon(&obs.ahead, &obs.behind) {
            None => None,
            Some(text) => Some(Chunk::info(text.as_str())),
        }
    }
}

/// A local alias so the borrow of an indexed element stays readable at
/// call sites.
fn chars_string_local(v: &Vec<char>) -> (r: String)
    ensures
        r@ == v@,
{
    crate::text::chars_string(v)
}

} // verus!
