//! The status-icon merge algorithm and its rendering helpers.

use auraline::style::{parse_true_color, to_superscript};
use auraline::vcs::{merge_icons, render_icon, StatusIcon};

fn icons(glyphs: &[&'static str]) -> Vec<StatusIcon> {
    glyphs.iter().map(|g| StatusIcon::new(g)).collect()
}

#[test]
fn merge_of_nothing_is_empty() {
    assert_eq!(merge_icons(Vec::new()), "");
}

#[test]
fn merge_collapses_repeats_to_superscript() {
    assert_eq!(merge_icons(icons(&["a", "a", "a"])), "a³");
}

#[test]
fn merge_is_invariant_under_permutation() {
    let a = merge_icons(icons(&["b", "a", "b", "c", "a"]));
    let b = merge_icons(icons(&["a", "a", "b", "b", "c"]));
    let c = merge_icons(icons(&["c", "b", "a", "b", "a"]));
    assert_eq!(a, "a²b²c");
    assert_eq!(b, "a²b²c");
    assert_eq!(c, "a²b²c");
}

#[test]
fn merge_drops_empty_glyphs() {
    assert_eq!(merge_icons(icons(&["", "x", "", "x"])), "x²");
    assert_eq!(merge_icons(icons(&["", ""])), "");
}

#[test]
fn merge_sorts_by_glyph_value() {
    assert_eq!(merge_icons(icons(&["b", "a"])), "ab");
    assert_eq!(merge_icons(icons(&["●", "✚", "●"])), "●²✚");
}

#[test]
fn single_member_groups_render_bare() {
    assert_eq!(render_icon("★", 1), "★");
}

#[test]
fn larger_groups_render_with_superscript_count() {
    assert_eq!(render_icon("★", 3), "★³");
    assert_eq!(render_icon("x", 12), "x¹²");
}

#[test]
fn superscript_maps_every_digit() {
    assert_eq!(to_superscript("0123456789"), "⁰¹²³⁴⁵⁶⁷⁸⁹");
    assert_eq!(to_superscript("a1b"), "a¹b");
    assert_eq!(to_superscript(""), "");
}

#[test]
fn true_color_triples_parse() {
    assert_eq!(parse_true_color("255,0,10"), Some((255, 0, 10)));
    assert_eq!(parse_true_color(" 1 , 2 , 3 "), Some((1, 2, 3)));
}

#[test]
fn true_color_rejects_bad_input() {
    assert_eq!(parse_true_color("256,0,0"), None);
    assert_eq!(parse_true_color("1,2"), None);
    assert_eq!(parse_true_color("1,2,3,4"), None);
    assert_eq!(parse_true_color("red"), None);
    assert_eq!(parse_true_color(""), None);
}
