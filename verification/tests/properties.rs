//! Scenario tests for the renderer's stated properties: the display limit,
//! the fixed status order, purity, and color suppression.

use jj_starship::color::{BLUE, BRIGHT_BLACK, BRIGHT_MAGENTA, GREEN, RED, RESET};
use jj_starship::config::{Config, DisplayConfig};
use jj_starship::jj::JjInfo;
use jj_starship::output::format_jj;

fn plain_config() -> Config {
    Config {
        truncate_name: 0,
        id_length: 8,
        ancestor_bookmark_depth: 10,
        bookmark_display_limit: 0,
        strip_prefixes: vec![],
        jj_symbol: String::new(),
        git_symbol: String::new(),
        jj_display: DisplayConfig::all_visible(),
        git_display: DisplayConfig::all_visible(),
    }
}

fn clean_info(bookmarks: Vec<(String, usize)>) -> JjInfo {
    JjInfo {
        change_id: "yzxv1234".into(),
        change_id_prefix_len: 4,
        bookmarks,
        empty_desc: false,
        conflict: false,
        divergent: false,
        has_remote: false,
        is_synced: true,
    }
}

#[test]
fn limit_folds_all_but_the_closest_bookmarks() {
    // five bookmarks at distances 0..4, display limit 2: the first two are
    // shown (with the distance suffix on the second), then a …+3 marker
    let mut config = plain_config();
    config.bookmark_display_limit = 2;
    let info = clean_info(vec![
        ("b0".into(), 0),
        ("b1".into(), 1),
        ("b2".into(), 2),
        ("b3".into(), 3),
        ("b4".into(), 4),
    ]);
    assert_eq!(
        format_jj(&info, &config),
        format!(
            "on {BLUE}{RESET}{BRIGHT_MAGENTA}yzxv{RESET}{BRIGHT_BLACK}1234{RESET} {GREEN}(b0, b1~1, …+3){RESET}"
        )
    );
}

#[test]
fn limit_large_enough_shows_no_marker() {
    let mut config = plain_config();
    config.bookmark_display_limit = 2;
    let info = clean_info(vec![("b0".into(), 0), ("b1".into(), 1)]);
    assert_eq!(
        format_jj(&info, &config),
        format!(
            "on {BLUE}{RESET}{BRIGHT_MAGENTA}yzxv{RESET}{BRIGHT_BLACK}1234{RESET} {GREEN}(b0, b1~1){RESET}"
        )
    );
}

#[test]
fn status_characters_keep_their_priority_order() {
    let mut info = clean_info(vec![]);
    info.conflict = true;
    info.divergent = true;
    info.empty_desc = true;
    info.has_remote = true;
    info.is_synced = false;
    let out = format_jj(&info, &plain_config());
    assert!(out.ends_with(&format!("{RED}[!⇔?⇡]{RESET}")));

    let mut info = clean_info(vec![]);
    info.divergent = true;
    let out = format_jj(&info, &plain_config());
    assert!(out.ends_with(&format!("{RED}[⇔]{RESET}")));

    let mut info = clean_info(vec![]);
    info.has_remote = true;
    info.is_synced = false;
    let out = format_jj(&info, &plain_config());
    assert!(out.ends_with(&format!("{RED}[⇡]{RESET}")));

    // a synced bookmark never shows the needs-push marker
    let mut info = clean_info(vec![]);
    info.has_remote = true;
    info.is_synced = true;
    let out = format_jj(&info, &plain_config());
    assert!(!out.contains('⇡'));
}

#[test]
fn rendering_twice_gives_the_same_string() {
    let config = plain_config();
    let info = clean_info(vec![("main".into(), 0), ("feature".into(), 3)]);
    assert_eq!(format_jj(&info, &config), format_jj(&info, &config));
}

#[test]
fn disabled_color_emits_no_escape_codes() {
    let mut config = plain_config();
    config.jj_display.show_color = false;
    config.jj_symbol = "\u{f15c6} ".to_string();
    let mut info = clean_info(vec![("main".into(), 0)]);
    info.conflict = true;
    let out = format_jj(&info, &config);
    assert!(!out.contains('\u{1b}'));
    assert_eq!(out, "on \u{f15c6} yzxv1234 (main) [!]");
}

#[test]
fn empty_snapshot_and_hidden_segments_render_empty() {
    let mut config = plain_config();
    config.jj_display = DisplayConfig {
        show_prefix: false,
        show_name: false,
        show_id: false,
        show_status: false,
        show_color: true,
        show_prefix_color: true,
    };
    let info = clean_info(vec![("main".into(), 0)]);
    assert_eq!(format_jj(&info, &config), "");
}

#[test]
fn prefix_color_split_with_full_length_prefix() {
    // when the unique prefix covers the whole identity, only the accent part
    // is emitted
    let mut info = clean_info(vec![]);
    info.change_id_prefix_len = 8;
    assert_eq!(
        format_jj(&info, &plain_config()),
        format!("on {BLUE}{RESET}{BRIGHT_MAGENTA}yzxv1234{RESET}")
    );
}
