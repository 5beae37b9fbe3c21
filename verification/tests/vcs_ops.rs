//! The six operations across the five backends, fed with captured
//! command output.

use auraline::chunk::Chunk;
use auraline::vcs::darcs::{Darcs, DarcsObs};
use auraline::vcs::git::{Git, GitObs};
use auraline::vcs::hg::{get_hg_commit_hash, Hg, HgObs};
use auraline::vcs::jj::{Jj, JjObs};
use auraline::vcs::pijul::{Pijul, PijulObs};
use auraline::vcs::{vcs_divergence, vcs_stash, vcs_worktree, VcsObs};

fn s(x: &str) -> Option<String> {
    Some(x.to_string())
}

fn git_obs() -> GitObs {
    GitObs {
        branch_show: None,
        head_ref: None,
        origin_ref: None,
        name_rev: None,
        describe_long: None,
        status_out: None,
        worktree_list: None,
        stash_list: None,
        ahead: None,
        behind: None,
        cwd: "/repo".to_string(),
    }
}

fn hg_obs() -> HgObs {
    HgObs {
        branch_file: None,
        dirstate: None,
        bookmark_file: None,
        sharedpath_file: None,
        status_out: None,
    }
}

fn rendered(c: Option<Chunk>) -> String {
    c.expect("expected a segment").render()
}

// A git repository on branch `main` tracking `origin/main`, with two
// unpushed commits and one untracked file.
#[test]
fn git_ahead_two_renders_up_arrow() {
    let mut obs = git_obs();
    obs.ahead = s("2");
    obs.behind = s("0");
    assert_eq!(rendered(Git.divergence(&obs)), "↑2");
}

#[test]
fn git_one_untracked_file_merges_to_a_bare_glyph() {
    let mut obs = git_obs();
    obs.status_out = s("?? file.txt");
    assert_eq!(rendered(Git.status(&obs)), "⁇");
}

#[test]
fn git_branch_in_sync_with_upstream_default() {
    let mut obs = git_obs();
    obs.head_ref = s("main");
    obs.origin_ref = s("origin/main");
    obs.branch_show = s("main\n");
    assert_eq!(rendered(Git.branch(&obs)), "⟝ main");
}

#[test]
fn git_branch_detached_head_warns() {
    let mut obs = git_obs();
    obs.head_ref = s("HEAD");
    obs.origin_ref = s("origin/main");
    assert_eq!(rendered(Git.branch(&obs)), "⚠");
}

#[test]
fn git_branch_diverged_from_upstream() {
    let mut obs = git_obs();
    obs.head_ref = s("topic");
    obs.origin_ref = s("origin/main");
    obs.branch_show = s("topic");
    assert_eq!(rendered(Git.branch(&obs)), "⎇ topic");
}

#[test]
fn git_divergence_both_directions() {
    let mut obs = git_obs();
    obs.ahead = s("3");
    obs.behind = s("4");
    assert_eq!(rendered(Git.divergence(&obs)), "↑3↓4");
    obs.ahead = s("0");
    assert_eq!(rendered(Git.divergence(&obs)), "↓4");
    obs.behind = s("0");
    assert!(Git.divergence(&obs).is_none());
    obs.ahead = None;
    obs.behind = s("4");
    assert!(Git.divergence(&obs).is_none());
}

#[test]
fn git_status_counts_repeated_states() {
    let mut obs = git_obs();
    obs.status_out = s(" M a.rs\n M b.rs\n?? new.rs");
    // "○" for worktree-modified sorts before "⁇" for untracked.
    assert_eq!(rendered(Git.status(&obs)), "⁇○²");
    obs.status_out = s("");
    assert!(Git.status(&obs).is_none());
}

#[test]
fn git_commit_prefers_describe_output() {
    let mut obs = git_obs();
    obs.describe_long = s("v1.2-3-gabc1234");
    obs.name_rev = s("main");
    assert_eq!(rendered(Git.commit(&obs)), "v1.2▴3|gabc1234");
}

#[test]
fn git_commit_describe_at_tag_shows_tag_and_hash() {
    let mut obs = git_obs();
    obs.describe_long = s("v1.2-0-gabc1234");
    assert_eq!(rendered(Git.commit(&obs)), "v1.2|gabc1234");
    obs.describe_long = s("abc1234");
    assert_eq!(rendered(Git.commit(&obs)), "abc1234");
}

#[test]
fn git_commit_suppresses_duplicate_of_branch() {
    let mut obs = git_obs();
    obs.name_rev = s("main");
    obs.branch_show = s("main");
    assert!(Git.commit(&obs).is_none());
    obs.branch_show = s("topic");
    assert_eq!(rendered(Git.commit(&obs)), "main");
    obs.branch_show = None;
    assert_eq!(rendered(Git.commit(&obs)), "main");
}

#[test]
fn git_name_rev_rewrites_path_segments() {
    let mut obs = git_obs();
    obs.name_rev = s("remotes/origin/main");
    assert_eq!(rendered(Git.commit(&obs)), "ᐲ•main");
    obs.name_rev = s("tags/v1.0~2");
    assert_eq!(rendered(Git.commit(&obs)), "v1.0↓2");
}

#[test]
fn git_stash_renders_entry_count() {
    let mut obs = git_obs();
    obs.stash_list = s("stash@{0}: a\nstash@{1}: b\nstash@{2}: c");
    assert_eq!(rendered(Git.stash(&obs)), "≡³");
    obs.stash_list = s("stash@{0}: only");
    assert_eq!(rendered(Git.stash(&obs)), "≡");
    obs.stash_list = s("");
    assert!(Git.stash(&obs).is_none());
}

#[test]
fn git_status_handles_crlf_line_endings() {
    let mut obs = git_obs();
    obs.status_out = s(" M a.rs\r\n M b.rs");
    assert_eq!(rendered(Git.status(&obs)), "○²");
}

#[test]
fn git_name_rev_longest_prefix_wins() {
    let mut obs = git_obs();
    obs.name_rev = s("remotes/feature");
    assert_eq!(rendered(Git.commit(&obs)), "⟢•feature");
}

#[test]
fn git_describe_ignores_trailing_extra_parts() {
    let mut obs = git_obs();
    obs.describe_long = s("v1-2-gabc-extra");
    assert_eq!(rendered(Git.commit(&obs)), "v1▴2|gabc");
}

#[test]
fn git_divergence_treats_empty_counts_as_zero() {
    let mut obs = git_obs();
    obs.ahead = s("");
    obs.behind = s("4");
    assert_eq!(rendered(Git.divergence(&obs)), "↓4");
    obs.behind = s("");
    assert!(Git.divergence(&obs).is_none());
}

#[test]
fn git_worktree_finds_the_containing_secondary_tree() {
    let mut obs = git_obs();
    obs.cwd = "/work/feature/sub".to_string();
    obs.worktree_list = s("/work/main  abc [main]\n/work/feature  def [feat] locked");
    assert_eq!(rendered(Git.worktree(&obs)), "⌂ [feat] locked");
    obs.cwd = "/elsewhere".to_string();
    assert!(Git.worktree(&obs).is_none());
}

// A Mercurial repository, whatever its state, lists no shelved
// change sets: a capability gap, not an error.
#[test]
fn hg_stash_is_always_absent() {
    assert!(Hg.stash(&hg_obs()).is_none());
    let mut obs = hg_obs();
    obs.branch_file = s("default");
    obs.status_out = s("M file");
    obs.dirstate = Some(vec![7u8; 20]);
    assert!(Hg.stash(&obs).is_none());
    assert!(Hg.divergence(&obs).is_none());
    assert!(vcs_stash(&VcsObs::Hg(obs)).is_none());
}

#[test]
fn hg_branch_reads_the_branch_file() {
    let mut obs = hg_obs();
    obs.branch_file = s("default\n");
    assert_eq!(rendered(Hg.branch(&obs)), "hg ⎇ default");
}

#[test]
fn hg_commit_hash_is_hex_of_the_dirstate_prefix() {
    let bytes: Vec<u8> = (0u8..20).collect();
    assert_eq!(get_hg_commit_hash(&Some(bytes)), Some("0001020304050607+".to_string()));
    assert_eq!(get_hg_commit_hash(&Some(vec![1, 2, 3])), None);
    assert_eq!(get_hg_commit_hash(&None), None);
}

#[test]
fn hg_commit_appends_the_current_bookmark() {
    let mut obs = hg_obs();
    obs.dirstate = Some(vec![0xab; 20]);
    obs.bookmark_file = s("work\n");
    assert_eq!(rendered(Hg.commit(&obs)), "abababababababab+ (work)");
    obs.bookmark_file = s("  \n");
    assert_eq!(rendered(Hg.commit(&obs)), "abababababababab+");
}

#[test]
fn hg_status_merges_by_first_character() {
    let mut obs = hg_obs();
    obs.status_out = s("M a\nM b\n? c");
    assert_eq!(rendered(Hg.status(&obs)), "?●²");
}

#[test]
fn hg_worktree_shows_the_shared_path_parent() {
    let mut obs = hg_obs();
    obs.sharedpath_file = s("/home/u/repo/.hg");
    assert_eq!(rendered(Hg.worktree(&obs)), "⌂ /home/u/repo");
    obs.sharedpath_file = s("nopath");
    assert!(Hg.worktree(&obs).is_none());
}

#[test]
fn jj_branch_takes_the_marked_bookmark_from_the_log_head() {
    let obs = JjObs { log_out: s("@  xyz user@host 2024 trunk* abc123\n~  older"), status_out: None };
    assert_eq!(rendered(Jj.branch(&obs)), "jj ⎇ trunk");
}

#[test]
fn jj_commit_reads_the_working_copy_line() {
    let obs = JjObs {
        log_out: None,
        status_out: s("The working copy has no changes.\nWorking copy  (@) : kkmpptxz 59f70cd2 msg"),
    };
    assert_eq!(rendered(Jj.commit(&obs)), "⭑ kkmpptxz 59f70cd2");
}

#[test]
fn jj_status_merges_changed_paths() {
    let obs = JjObs { log_out: None, status_out: s("Working copy changes:\nA new.rs\nM old.rs\nM two.rs") };
    assert_eq!(rendered(Jj.status(&obs)), "●²✚");
    let clean = JjObs { log_out: None, status_out: s("The working copy has no changes.") };
    assert!(Jj.status(&clean).is_none());
}

#[test]
fn jj_gaps_are_absent() {
    let obs = JjObs { log_out: s("x"), status_out: s("y") };
    assert!(Jj.stash(&obs).is_none());
    assert!(Jj.divergence(&obs).is_none());
}

#[test]
fn pijul_branch_takes_the_starred_channel() {
    let obs = PijulObs { channel_out: s("  other\n* main"), log_out: None, diff_out: None };
    assert_eq!(rendered(Pijul.branch(&obs)), "pijul ⎇ main");
}

#[test]
fn pijul_commit_takes_the_change_identifier() {
    let obs = PijulObs { channel_out: None, log_out: s("Change ABCDEF estimated\nAuthor: x"), diff_out: None };
    assert_eq!(rendered(Pijul.commit(&obs)), "⭑ ABCDEF");
}

#[test]
fn pijul_status_merges_short_diff_lines() {
    let obs = PijulObs { channel_out: None, log_out: None, diff_out: s("M a\nA b\nMV c") };
    assert_eq!(rendered(Pijul.status(&obs)), "→●✚");
    let gaps = PijulObs { channel_out: None, log_out: None, diff_out: s("x") };
    assert!(Pijul.worktree(&gaps).is_none());
    assert!(Pijul.stash(&gaps).is_none());
    assert!(Pijul.divergence(&gaps).is_none());
}

#[test]
fn darcs_commit_takes_the_patch_token() {
    let obs = DarcsObs { log_out: s("patch abcdef0123\nAuthor: someone"), whatsnew_out: None };
    assert_eq!(rendered(Darcs.commit(&obs)), "⭑ abcdef0123");
}

#[test]
fn darcs_status_merges_summary_lines() {
    let obs = DarcsObs { log_out: None, whatsnew_out: s("M ./a.rs\nA ./b.rs\nM ./c.rs") };
    assert_eq!(rendered(Darcs.status(&obs)), "●²✚");
    let gaps = DarcsObs { log_out: None, whatsnew_out: s("x") };
    assert!(Darcs.branch(&gaps).is_none());
    assert!(Darcs.worktree(&gaps).is_none());
    assert!(Darcs.stash(&gaps).is_none());
    assert!(Darcs.divergence(&gaps).is_none());
}

#[test]
fn dispatch_respects_capability_gaps() {
    let pijul = VcsObs::Pijul(PijulObs { channel_out: None, log_out: None, diff_out: None });
    assert!(vcs_worktree(&pijul).is_none());
    let darcs = VcsObs::Darcs(DarcsObs { log_out: None, whatsnew_out: None });
    assert!(vcs_divergence(&darcs).is_none());
}
