//! Backend detection: the priority walk, its memoization, and the
//! command plan that follows from it.

use auraline::vcs::{
    detect_in_dir, infer_vcs, vcs_commands, DetectMemo, MarkerSet, MemoPoll, Vcs, VcsOp,
};

fn markers(jj: bool, git: bool, hg: bool, pijul: bool, darcs: bool) -> MarkerSet {
    MarkerSet { jj, git, hg, pijul, darcs }
}

fn none() -> MarkerSet {
    markers(false, false, false, false, false)
}

#[test]
fn marker_priority_order() {
    assert_eq!(
        detect_in_dir(&markers(true, true, true, true, true)),
        Some(Vcs::Jj(auraline::vcs::jj::Jj))
    );
    assert_eq!(
        detect_in_dir(&markers(false, true, true, true, true)),
        Some(Vcs::Git(auraline::vcs::git::Git))
    );
    assert_eq!(
        detect_in_dir(&markers(false, false, true, true, true)),
        Some(Vcs::Hg(auraline::vcs::hg::Hg))
    );
    assert_eq!(
        detect_in_dir(&markers(false, false, false, true, true)),
        Some(Vcs::Pijul(auraline::vcs::pijul::Pijul))
    );
    assert_eq!(
        detect_in_dir(&markers(false, false, false, false, true)),
        Some(Vcs::Darcs(auraline::vcs::darcs::Darcs))
    );
    assert_eq!(detect_in_dir(&none()), None);
}

#[test]
fn walk_stops_at_first_marker_level() {
    let walk = vec![none(), none(), markers(false, true, false, false, false), none()];
    assert_eq!(infer_vcs(&walk), Some((Vcs::Git(auraline::vcs::git::Git), 2)));
}

#[test]
fn walk_without_markers_finds_nothing() {
    let walk = vec![none(), none(), none()];
    assert_eq!(infer_vcs(&walk), None);
    assert_eq!(infer_vcs(&Vec::new()), None);
}

#[test]
fn no_detection_means_no_vcs_binary_at_all() {
    for op in [
        VcsOp::Branch,
        VcsOp::Commit,
        VcsOp::Status,
        VcsOp::Worktree,
        VcsOp::Stash,
        VcsOp::Divergence,
    ] {
        assert_eq!(vcs_commands(&None, &op).len(), 0);
    }
}

#[test]
fn git_status_runs_exactly_one_command() {
    let plan = vcs_commands(&Some(Vcs::Git(auraline::vcs::git::Git)), &VcsOp::Status);
    assert_eq!(plan.len(), 1);
    assert_eq!(plan[0].program, "git");
    assert_eq!(plan[0].args, vec!["status".to_string(), "--porcelain".to_string()]);
}

#[test]
fn hg_hot_path_avoids_the_binary() {
    let det = Some(Vcs::Hg(auraline::vcs::hg::Hg));
    assert_eq!(vcs_commands(&det, &VcsOp::Branch).len(), 0);
    assert_eq!(vcs_commands(&det, &VcsOp::Commit).len(), 0);
    let status = vcs_commands(&det, &VcsOp::Status);
    assert_eq!(status.len(), 1);
    assert_eq!(status[0].program, "hg");
}

#[test]
fn detection_memo_computes_exactly_once() {
    let mut memo = DetectMemo::new();
    match memo.poll() {
        MemoPoll::Compute => {}
        _ => panic!("the first poll runs the walk"),
    }
    match memo.poll() {
        MemoPoll::Wait => {}
        _ => panic!("a poll during the walk waits"),
    }
    memo.fulfill(Some((Vcs::Git(auraline::vcs::git::Git), "/repo".to_string())));
    for _ in 0..6 {
        match memo.poll() {
            MemoPoll::Ready(v) => {
                assert_eq!(v, Some((Vcs::Git(auraline::vcs::git::Git), "/repo".to_string())));
            }
            _ => panic!("every dependent provider shares the one result"),
        }
    }
}

#[test]
fn detection_memo_shares_absence_too() {
    let mut memo = DetectMemo::new();
    match memo.poll() {
        MemoPoll::Compute => {}
        _ => panic!(),
    }
    memo.fulfill(None);
    match memo.poll() {
        MemoPoll::Ready(v) => assert_eq!(v, None),
        _ => panic!(),
    }
}
