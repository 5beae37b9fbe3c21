//! The per-field providers and the resolved options.

use auraline::chunk::Chunk;
use auraline::options::Options;
use auraline::providers::basic;
use auraline::providers::duration;
use auraline::providers::exit_code;
use auraline::providers::manifest::{self, Confidence, LanguageInfo};
use auraline::providers::netif;
use auraline::providers::netns;
use auraline::providers::os::os_release_id;
use auraline::providers::ssh;
use auraline::providers::virt;

fn s(x: &str) -> Option<String> {
    Some(x.to_string())
}

fn all_on() -> Options {
    let mut o = Options::default();
    o.user = true;
    o.realname = true;
    o.hostname = true;
    o.device_name = true;
    o.distro = true;
    o.pwd = true;
    o.full_pwd = true;
    o.vcs = true;
    o.ssh = true;
    o.os = true;
    o.virt = true;
    o.netif = true;
    o.netns = true;
    o.memory = true;
    o.huge_pages = true;
    o.manifest = true;
    o.duration = true;
    o.nerd_font = true;
    o
}

fn rendered(c: Option<Chunk>) -> String {
    c.expect("expected a segment").render()
}

#[test]
fn chunk_render_forms() {
    assert_eq!(Chunk::new("⎇", "main").render(), "⎇ main");
    assert_eq!(Chunk::icon("⎇").render(), "⎇");
    assert_eq!(Chunk::info("main").render(), "main");
}

#[test]
fn options_combine_ors_flags_and_prefers_the_left() {
    let mut a = Options::default();
    a.user = true;
    a.theme = s("red");
    a.exit_code = Some(3);
    let mut b = Options::default();
    b.vcs = true;
    b.theme = s("blue");
    b.profile = s("lean");
    let c = a.combine(&b);
    assert!(c.user && c.vcs);
    assert!(!c.memory);
    assert_eq!(c.theme, s("red"));
    assert_eq!(c.profile, s("lean"));
    assert_eq!(c.exit_code, Some(3));
}

#[test]
fn select_str_follows_the_font_setting() {
    let mut o = Options::default();
    assert_eq!(o.select_str("plain", "nerd"), "plain");
    o.nerd_font = true;
    assert_eq!(o.select_str("plain", "nerd"), "nerd");
}

#[test]
fn exit_code_zero_or_unknown_is_silent() {
    let mut o = Options::default();
    assert!(exit_code::show(&o).is_none());
    o.exit_code = Some(0);
    assert!(exit_code::show(&o).is_none());
}

#[test]
fn exit_code_renders_superscript_digits() {
    let mut o = Options::default();
    o.exit_code = Some(3);
    assert_eq!(rendered(exit_code::show(&o)), "✘ ³");
    o.exit_code = Some(130);
    assert_eq!(rendered(exit_code::show(&o)), "✘ ¹³⁰");
}

#[test]
fn ssh_shows_the_server_endpoint() {
    assert_eq!(rendered(ssh::show(&s("10.0.0.1 50022 10.0.0.2 22"))), "⇄ 10.0.0.2:22");
    assert!(ssh::show(&s("10.0.0.1 50022")).is_none());
    assert!(ssh::show(&None).is_none());
}

#[test]
fn netns_needs_its_flag_and_a_name() {
    let on = all_on();
    let off = Options::default();
    assert!(netns::show(&off, &s("myns")).is_none());
    assert!(netns::show(&on, &s("")).is_none());
    assert!(netns::show(&on, &None).is_none());
    let c = netns::show(&on, &s("myns")).unwrap().render();
    assert!(c.ends_with("myns"));
}

#[test]
fn pwd_shortens_the_home_prefix() {
    let on = all_on();
    assert_eq!(rendered(basic::pwd(&on, "/home/u/dev", &s("/home/u"))), "~/dev");
    assert_eq!(rendered(basic::pwd(&on, "/home/u", &s("/home/u"))), "~");
    assert_eq!(rendered(basic::pwd(&on, "/etc", &s("/home/u"))), "/etc");
    assert_eq!(rendered(basic::pwd(&on, "/home/uther", &s("/home/u"))), "/home/uther");
    assert_eq!(rendered(basic::pwd(&on, "/x", &None)), "/x");
    assert!(basic::pwd(&Options::default(), "/x", &None).is_none());
}

#[test]
fn identity_providers_wrap_observed_values() {
    let on = all_on();
    let off = Options::default();
    assert_eq!(rendered(basic::hostname(&on, &s("box"))), "@box");
    assert!(basic::hostname(&off, &s("box")).is_none());
    assert_eq!(rendered(basic::user(&on, &s("u"))), "u");
    assert_eq!(rendered(basic::realname(&on, &s("U N"))), "U N");
    assert_eq!(rendered(basic::distro(&on, &s("Arch Linux"))), "Arch Linux");
    assert_eq!(rendered(basic::device_name(&on, &s("laptop"))), "🖥 laptop");
    assert_eq!(rendered(basic::full_pwd(&on, "/home/u/dev")), "/home/u/dev");
    assert!(basic::user(&on, &None).is_none());
}

#[test]
fn os_release_id_parses_common_forms() {
    assert_eq!(os_release_id("NAME=X\nID=ubuntu\nVERSION=1"), s("ubuntu"));
    assert_eq!(os_release_id("ID=\"arch\""), s("arch"));
    assert_eq!(os_release_id("NAME=X"), None);
    assert_eq!(os_release_id(""), None);
}

#[test]
fn virt_is_silent_on_bare_metal() {
    assert!(virt::show(&s("none"), Some("icon")).is_none());
    assert!(virt::show(&None, Some("icon")).is_none());
    assert!(virt::show(&s("mystery"), None).is_none());
}

#[test]
fn virt_prefers_the_table_icon_over_the_raw_name() {
    assert_eq!(rendered(virt::show(&s("kvm"), Some("󱗃"))), "󱗃");
    assert_eq!(rendered(virt::show(&s("qemu"), Some(""))), "qemu");
}

#[test]
fn netif_lists_up_interfaces_sorted_and_unique() {
    let on = all_on();
    let ifs = vec![
        ("wlan0".to_string(), true),
        ("eth0".to_string(), true),
        ("lo".to_string(), false),
        ("eth0".to_string(), true),
    ];
    let line = netif::show(&on, &Some(ifs)).unwrap().render();
    assert!(line.ends_with("eth0,wlan0"));
    assert!(netif::show(&Options::default(), &Some(Vec::new())).is_none());
    assert!(netif::show(&on, &None).is_none());
}

#[test]
fn manifest_keeps_only_the_strongest_indicators() {
    let on = all_on();
    let langs = vec![
        LanguageInfo {
            icon: "R",
            color: "#dea584",
            cterm_color: "173",
            name: "Rust",
            confidence: Confidence::High,
        },
        LanguageInfo {
            icon: "M",
            color: "#6792c9",
            cterm_color: "67",
            name: "C/C++",
            confidence: Confidence::Low,
        },
        LanguageInfo {
            icon: "R",
            color: "#dea584",
            cterm_color: "173",
            name: "Rust",
            confidence: Confidence::High,
        },
    ];
    assert_eq!(rendered(manifest::show(&on, langs)), "R");
    assert!(manifest::show(&on, Vec::new()).is_none());
    let one = vec![LanguageInfo {
        icon: "M",
        color: "#6792c9",
        cterm_color: "67",
        name: "C/C++",
        confidence: Confidence::Low,
    }];
    assert!(manifest::show(&Options::default(), one).is_none());
}

#[test]
fn duration_renders_at_a_fitting_unit() {
    assert_eq!(duration::format_duration(999), "999ns");
    assert_eq!(duration::format_duration(1_000), "1μs");
    assert_eq!(duration::format_duration(1_499), "1μs");
    assert_eq!(duration::format_duration(1_500), "2μs");
    assert_eq!(duration::format_duration(1_500_000), "2ms");
    assert_eq!(duration::format_duration(999_000_000), "999ms");
    assert_eq!(duration::format_duration(1_234_000_000), "1.23s");
    assert_eq!(duration::format_duration(2_000_000_000), "2.00s");
    assert_eq!(duration::format_duration(61_057_000_000), "61.06s");
}

#[test]
fn duration_needs_a_start_strictly_before_the_end() {
    let on = all_on();
    assert!(duration::show(&on, &None, 100).is_none());
    assert!(duration::show(&on, &s("oops"), 100).is_none());
    assert!(duration::show(&on, &s("200"), 100).is_none());
    assert!(duration::show(&on, &s("100"), 100).is_none());
    let c = duration::show(&on, &s("100"), 600).unwrap().render();
    assert!(c.ends_with("500ns"));
    assert!(duration::show(&Options::default(), &s("100"), 600).is_none());
}
