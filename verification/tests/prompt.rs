//! The scheduler core: order-preserving assembly and output
//! composition.

use auraline::chunk::Chunk;
use auraline::prompt::{
    assemble, compose_line, compose_report_row, provider_name, provider_order, ProviderId,
    ReportRow,
};

fn chunk(info: &str) -> Option<Chunk> {
    Some(Chunk::info(info))
}

#[test]
fn completion_order_never_changes_the_line() {
    let declaration: Vec<(usize, Option<Chunk>)> =
        vec![(0, chunk("a")), (1, None), (2, chunk("c")), (3, chunk("d"))];
    let reversed: Vec<(usize, Option<Chunk>)> =
        vec![(3, chunk("d")), (2, chunk("c")), (1, None), (0, chunk("a"))];
    let shuffled: Vec<(usize, Option<Chunk>)> =
        vec![(2, chunk("c")), (0, chunk("a")), (3, chunk("d")), (1, None)];
    let l1 = compose_line(&assemble(4, declaration));
    let l2 = compose_line(&assemble(4, reversed));
    let l3 = compose_line(&assemble(4, shuffled));
    assert_eq!(l1, "a c d");
    assert_eq!(l2, "a c d");
    assert_eq!(l3, "a c d");
}

#[test]
fn assemble_places_results_by_position() {
    let completions: Vec<(usize, Option<Chunk>)> = vec![(1, chunk("x")), (0, chunk("y"))];
    let slots = assemble(2, completions);
    assert_eq!(slots.len(), 2);
    assert_eq!(slots[0].as_ref().unwrap().render(), "y");
    assert_eq!(slots[1].as_ref().unwrap().render(), "x");
}

#[test]
fn unfinished_positions_stay_empty() {
    let completions: Vec<(usize, Option<Chunk>)> = vec![(2, chunk("late"))];
    let slots = assemble(4, completions);
    assert!(slots[0].is_none());
    assert!(slots[1].is_none());
    assert_eq!(slots[2].as_ref().unwrap().render(), "late");
    assert!(slots[3].is_none());
}

#[test]
fn composition_omits_absent_segments_entirely() {
    let slots = vec![None, chunk("a"), None, None, chunk("b"), None];
    assert_eq!(compose_line(&slots), "a b");
    let empty: Vec<Option<Chunk>> = vec![None, None];
    assert_eq!(compose_line(&empty), "");
    let none: Vec<Option<Chunk>> = Vec::new();
    assert_eq!(compose_line(&none), "");
}

#[test]
fn composition_joins_icon_and_info_segments() {
    let slots = vec![Some(Chunk::new("⎇", "main")), chunk("⁇"), Some(Chunk::icon("★"))];
    assert_eq!(compose_line(&slots), "⎇ main ⁇ ★");
}

#[test]
fn report_rows_carry_name_duration_and_segment() {
    let row = ReportRow {
        name: "vcs::branch".to_string(),
        duration: "1ms".to_string(),
        chunk: chunk("main"),
    };
    assert_eq!(compose_report_row(&row), format!("{:<40} -> {:>15} : ({})", "vcs::branch", "1ms", "main"));
    let missing = ReportRow {
        name: "vcs::stash".to_string(),
        duration: "12µs".to_string(),
        chunk: None,
    };
    assert_eq!(
        compose_report_row(&missing),
        format!("{:<40} -> {:>15} : (_)", "vcs::stash", "12µs")
    );
}

#[test]
fn provider_order_is_fixed_and_named() {
    let order = provider_order();
    assert_eq!(order.len(), 23);
    assert_eq!(order[0], ProviderId::User);
    assert_eq!(order[22], ProviderId::ExitCode);
    assert_eq!(provider_name(&ProviderId::VcsBranch), "vcs::branch");
    assert_eq!(provider_name(&ProviderId::Duration), "duration::show");
}
