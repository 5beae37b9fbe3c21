//! The Mercurial backend. Its hot-path data comes from files under
//! `.hg/` rather than from the `hg` binary, except for the status
//! listing; shelved changes and divergence are capability gaps.

use vstd::prelude::*;

use crate::chunk::{opt_chunk_view, Chunk, ChunkView};
use crate::cmd::opt_str_view;
use crate::text::{chars_string, lines_spec, rfind_char, rfind_in, str_chars, subrange_vec,
    trim_chars, trim_spec};

verus! {

#[derive(Clone, Copy, Debug, PartialEq, Eq, Structural)]
pub struct Hg;

/// What the Mercurial backend observed: file contents from `.hg/`
/// (`None` when a read failed) and the `hg status` output.
pub struct HgObs {
    /// Contents of `.hg/branch`.
    pub branch_file: Option<String>,
    /// The first 20 bytes of `.hg/dirstate`: the working parent hash.
    pub dirstate: Option<Vec<u8>>,
    /// Contents of `.hg/bookmarks.current`.
    pub bookmark_file: Option<String>,
    /// Contents of `.hg/sharedpath`.
    pub sharedpath_file: Option<String>,
    /// Output of `hg status`.
    pub status_out: Option<String>,
}

pub open spec fn hex_digit_char(d: nat) -> char {
    if d == 0 {
        '0'
    } else if d == 1 {
        '1'
    } else if d == 2 {
        '2'
    } else if d == 3 {
        '3'
    } else if d == 4 {
        '4'
    } else if d == 5 {
        '5'
    } else if d == 6 {
        '6'
    } else if d == 7 {
        '7'
    } else if d == 8 {
        '8'
    } else if d == 9 {
        '9'
    } else if d == 10 {
        'a'
    } else if d == 11 {
        'b'
    } else if d == 12 {
        'c'
    } else if d == 13 {
        'd'
    } else if d == 14 {
        'e'
    } else {
        'f'
    }
}

/// Two lowercase hex digits per byte, in order.
pub open spec fn bytes_hex(bs: Seq<u8>) -> Seq<char>
    decreases bs.len(),
{
    if bs.len() == 0 {
        Seq::empty()
    } else {
        bytes_hex(bs.drop_last()).push(hex_digit_char((bs.last() / 16) as nat)).push(
            hex_digit_char((bs.last() % 16) as nat),
        )
    }
}

fn hex_digit(d: u8) -> (c: char)
    requires
        d < 16,
    ensures
        c == hex_digit_char(d as nat),
{
    if d == 0 {
        '0'
    } else if d == 1 {
        '1'
    } else if d == 2 {
        '2'
    } else if d == 3 {
        '3'
    } else if d == 4 {
        '4'
    } else if d == 5 {
        '5'
    } else if d == 6 {
        '6'
    } else if d == 7 {
        '7'
    } else if d == 8 {
        '8'
    } else if d == 9 {
        '9'
    } else if d == 10 {
        'a'
    } else if d == 11 {
        'b'
    } else if d == 12 {
        'c'
    } else if d == 13 {
        'd'
    } else if d == 14 {
        'e'
    } else {
        'f'
    }
}

/// The short working-parent identifier built from the dirstate hash:
/// the hex form of the first 8 of its 20 bytes, with a `+` appended.
pub open spec fn hg_commit_hash_spec(dirstate: Option<Seq<u8>>) -> Option<Seq<char>> {
    match dirstate {
        None => None,
        Some(bs) => if bs.len() < 20 {
            None
        } else {
            Some(bytes_hex(bs.take(8)).push('+'))
        },
    }
}

pub open spec fn opt_bytes_view(o: Option<Vec<u8>>) -> Option<Seq<u8>> {
    match o {
        Some(v) => Some(v@),
        None => None,
    }
}

/// Renders the working-parent hash from the leading dirstate bytes.
#[verifier::loop_isolation(false)]
pub fn get_hg_commit_hash(dirstate: &Option<Vec<u8>>) -> (r: Option<String>)
    ensures
        opt_str_view(r) == hg_commit_hash_spec(opt_bytes_view(*dirstate)),
{
    let bs = match dirstate {
        None => {
            return None;
        },
        Some(bs) => bs,
    };
    if bs.len() < 20 {
        return None;
    }
    let mut out: Vec<char> = Vec::new();
    let mut i: usize = 0;
    proof {
        assert(bs@.take(8).take(0) =~= Seq::<u8>::empty());
    }
    while i < 8
        invariant
            i <= 8,
            bs@.len() >= 20,
            out@ == bytes_hex(bs@.take(8).take(i as int)),
        decreases 8 - i,
    {
        let b = bs[i];
        out.push(hex_digit(b / 16));
        out.push(hex_digit(b % 16));
        proof {
            let t = bs@.take(8).take(i + 1);
            assert(t.drop_last() =~= bs@.take(8).take(i as int));
            assert(t.last() == bs@[i as int]);
        }
        i += 1;
    }
    proof {
        assert(bs@.take(8).take(8) =~= bs@.take(8));
    }
    out.push('+');
    Some(chars_string(&out))
}

/// The branch segment: the trimmed contents of `.hg/branch` behind the
/// `hg ⎇` icon; `None` when the file could not be read.
pub open spec fn hg_branch_spec(branch_file: Option<Seq<char>>) -> Option<ChunkView> {
    match branch_file {
        None => None,
        Some(s) => Some(ChunkView { icon: Some("hg ⎇"@), info: Some(trim_spec(s)) }),
    }
}

/// The commit segment: the working-parent hash, with the current
/// bookmark in parentheses when one is set.
pub open spec fn hg_commit_spec(
    dirstate: Option<Seq<u8>>,
    bookmark_file: Option<Seq<char>>,
) -> Option<ChunkView> {
    match hg_commit_hash_spec(dirstate) {
        None => None,
        Some(h) => {
            let info = match bookmark_file {
                Some(bm) => if trim_spec(bm).len() > 0 {
                    trim_spec(h) + " ("@ + trim_spec(bm) + ")"@
                } else {
                    h
                },
                None => h,
            };
            Some(ChunkView { icon: None, info: Some(info) })
        },
    }
}

/// The glyph for one `hg status` line, keyed by its first character.
pub open spec fn hg_icon_spec(line: Seq<char>) -> Seq<char> {
    if line.len() == 0 {
        ""@
    } else {
        let c0 = line[0];
        if c0 == 'A' {
            "✚"@
        } else if c0 == 'M' {
            "●"@
        } else if c0 == 'R' {
            "✖"@
        } else if c0 == '!' {
            "!"@
        } else if c0 == '?' {
            "?"@
        } else {
            ""@
        }
    }
}

pub fn hg_status_icon(line: &str) -> (r: crate::vcs::StatusIcon)
    ensures
        r@ == hg_icon_spec(line@),
{
    let v = str_chars(line);
    if v.len() == 0 {
        crate::vcs::StatusIcon::new("")
    } else {
        let c0 = v[0];
        if c0 == 'A' {
            crate::vcs::StatusIcon::new("✚")
        } else if c0 == 'M' {
            crate::vcs::StatusIcon::new("●")
        } else if c0 == 'R' {
            crate::vcs::StatusIcon::new("✖")
        } else if c0 == '!' {
            crate::vcs::StatusIcon::new("!")
        } else if c0 == '?' {
            crate::vcs::StatusIcon::new("?")
        } else {
            crate::vcs::StatusIcon::new("")
        }
    }
}

/// The status segment: every listing line mapped through the status
/// table and merged.
pub open spec fn hg_status_spec(status_out: Option<Seq<char>>) -> Option<ChunkView> {
    match status_out {
        None => None,
        Some(s) => Some(
            ChunkView {
                icon: None,
                info: Some(
                    crate::vcs::merge_spec(lines_spec(s).map_values(|l: Seq<char>| hg_icon_spec(l))),
                ),
            },
        ),
    }
}

/// The worktree segment: the shared repository path from
/// `.hg/sharedpath`, cut at its last slash.
pub open spec fn hg_worktree_spec(sharedpath_file: Option<Seq<char>>) -> Option<ChunkView> {
    match sharedpath_file {
        None => None,
        Some(s) => match rfind_char(s, '/') {
            None => None,
            Some(i) => Some(ChunkView { icon: Some("⌂"@), info: Some(s.take(i)) }),
        },
    }
}

impl Hg {
    pub fn branch(&self, obs: &HgObs) -> (r: Option<Chunk>)
        ensures
            opt_chunk_view(r) == hg_branch_spec(opt_str_view(obs.branch_file)),
    {
        match &obs.branch_file {
            None => None,
            Some(s) => {
                let v = str_chars(s.as_str());
                let t = trim_chars(&v);
                let info = chars_string(&t);
                Some(Chunk::new("hg ⎇", info.as_str()))
            },
        }
    }

    pub fn commit(&self, obs: &HgObs) -> (r: Option<Chunk>)
        ensures
            opt_chunk_view(r) == hg_commit_spec(
                opt_bytes_view(obs.dirstate),
                opt_str_view(obs.bookmark_file),
            ),
    {
        let h = match get_hg_commit_hash(&obs.dirstate) {
            None => {
                return None;
            },
            Some(h) => h,
        };
        let hv = str_chars(h.as_str());
        match &obs.bookmark_file {
            Some(bm) => {
                let bmv = str_chars(bm.as_str());
                let bmt = trim_chars(&bmv);
                if bmt.len() > 0 {
                    let ht = trim_chars(&hv);
                    let mut outv = ht;
                    outv.push(' ');
                    outv.push('(');
                    crate::text::extend_chars(&mut outv, &bmt);
                    outv.push(')');
                    proof {
                        reveal_strlit(" (");
                        reveal_strlit(")");
                        assert(outv@ =~= trim_spec(hv@) + " ("@ + trim_spec(bmv@) + ")"@);
                    }
                    let info = chars_string(&outv);
                    Some(Chunk::info(info.as_str()))
                } else {
                    Some(Chunk::info(h.as_str()))
                }
            },
            None => Some(Chunk::info(h.as_str())),
        }
    }

    #[verifier::loop_isolation(false)]
    pub fn status(&self, obs: &HgObs) -> (r: Option<Chunk>)
        ensures
            opt_chunk_view(r) == hg_status_spec(opt_str_view(obs.status_out)),
    {
        let s = match &obs.status_out {
            None => {
                return None;
            },
            Some(s) => s,
        };
        let v = str_chars(s.as_str());
        let lines = crate::text::lines_of(&v);
        let ghost ldv = lines.deep_view();
        let mut icons: Vec<crate::vcs::StatusIcon> = Vec::new();
        let mut i: usize = 0;
        while i < lines.len()
            invariant
                i <= lines@.len(),
                ldv == lines.deep_view(),
                icons.deep_view() == ldv.take(i as int).map_values(
                    |l: Seq<char>| hg_icon_spec(l),
                ),
            decreases lines@.len() - i,
        {
            proof {
                crate::text::lemma_chars_dv(&lines@[i as int]);
                assert(ldv[i as int] == lines@[i as int]@);
            }
            let ls = chars_string(&lines[i]);
            let icon = hg_status_icon(ls.as_str());
            let ghost old_icons = icons;
            icons.push(icon);
            proof {
                crate::vcs::lemma_icons_dv_push(&old_icons, &icons, icon);
                assert(icons.deep_view() =~~= ldv.take(i + 1).map_values(
                    |l: Seq<char>| hg_icon_spec(l),
                ));
            }
            i += 1;
        }
        proof {
            assert(ldv.take(ldv.len() as int) =~= ldv);
        }
        let merged = crate::vcs::merge_icons(icons);
        Some(Chunk::info(merged.as_str()))
    }

    pub fn worktree(&self, obs: &HgObs) -> (r: Option<Chunk>)
        ensures
            opt_chunk_view(r) == hg_worktree_spec(opt_str_view(obs.sharedpath_file)),
    {
        let s = match &obs.sharedpath_file {
            None => {
                return None;
            },
            Some(s) => s,
        };
        let v = str_chars(s.as_str());
        match rfind_in(&v, '/') {
            None => None,
            Some(i) => {
                let prefix = subrange_vec(&v, 0, i);
                proof {
                    assert(v@.subrange(0, i as int) =~= v@.take(i as int));
                }
                let info = chars_string(&prefix);
                Some(Chunk::new("⌂", info.as_str()))
            },
        }
    }

    /// Mercurial has no shelved-change listing here: a capability gap,
    /// never an error.
    pub fn stash(&self, _obs: &HgObs) -> (r: Option<Chunk>)
        ensures
            r is None,
    {
        None
    }

    /// Mercurial reports no upstream divergence here: a capability gap.
    pub fn divergence(&self, _obs: &HgObs) -> (r: Option<Chunk>)
        ensures
            r is None,
    {
        None
    }
}

} // verus!
