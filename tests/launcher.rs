use codex_monitor::launcher::{command_binary, effective_binary, is_blank, search_path};
use codex_monitor::text::decimal_text;

#[test]
fn workspace_override_unless_blank() {
    assert_eq!(effective_binary(Some("/w/oc".into()), Some("/d/oc".into())), Some("/w/oc".to_string()));
    assert_eq!(effective_binary(Some("   ".into()), Some("/d/oc".into())), Some("/d/oc".to_string()));
    assert_eq!(effective_binary(None, None), None);
    assert!(is_blank(" \t\n"));
    assert!(!is_blank(" x "));
}

#[test]
fn default_command_when_none_given() {
    assert_eq!(command_binary(None), ("opencode".to_string(), true));
    assert_eq!(command_binary(Some("".into())), ("opencode".to_string(), true));
    assert_eq!(command_binary(Some("/opt/oc".into())), ("/opt/oc".to_string(), false));
}

#[test]
fn search_path_appends_missing_extras() {
    let p = search_path("/usr/bin::/custom", Some("/home/u".to_string()));
    assert_eq!(
        p,
        "/usr/bin:/custom:/opt/homebrew/bin:/usr/local/bin:/bin:/usr/sbin:/sbin:/home/u/.local/bin:/home/u/.cargo/bin:/home/u/.bun/bin"
    );
    let p = search_path("", None);
    assert_eq!(p, "/opt/homebrew/bin:/usr/local/bin:/usr/bin:/bin:/usr/sbin:/sbin");
}

#[test]
fn decimal_writing() {
    assert_eq!(decimal_text(0), "0");
    assert_eq!(decimal_text(1234), "1234");
    assert_eq!(decimal_text(u64::MAX), "18446744073709551615");
}

#[test]
fn white_space_matches_std() {
    for code in 0u32..=0x10FFFF {
        if let Some(c) = char::from_u32(code) {
            assert_eq!(codex_monitor::text::is_space_char(c), c.is_whitespace(), "U+{:04X}", code);
        }
    }
    assert!(is_blank("\u{3000}\u{85}\u{a0} "));
    assert!(!is_blank("\u{200b}"));
}
