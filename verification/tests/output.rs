//! Rendering tests: exact prompt strings for jj and git snapshots.

use jj_starship::color::{BLUE, BRIGHT_BLACK, BRIGHT_MAGENTA, GREEN, PURPLE, RED, RESET};
use jj_starship::config::{Config, DisplayConfig, DEFAULT_GIT_SYMBOL, DEFAULT_JJ_SYMBOL};
use jj_starship::git::GitInfo;
use jj_starship::jj::JjInfo;
use jj_starship::output::{format_git, format_jj};

fn default_config() -> Config {
    Config::default()
}

fn no_symbol_config() -> Config {
    Config {
        truncate_name: 0,
        id_length: 8,
        ancestor_bookmark_depth: 10,
        bookmark_display_limit: 0,
        strip_prefixes: vec![],
        jj_symbol: String::new(),
        git_symbol: String::new(),
        jj_display: DisplayConfig::all_visible(),
        git_display: DisplayConfig::all_visible(),
    }
}

#[test]
fn test_jj_format_clean() {
    let info = JjInfo {
        change_id: "yzxv1234".into(),
        change_id_prefix_len: 4,
        bookmarks: vec![("main".into(), 0)],
        empty_desc: false,
        conflict: false,
        divergent: false,
        has_remote: true,
        is_synced: true,
    };
    assert_eq!(
        format_jj(&info, &no_symbol_config()),
        format!(
            "on {BLUE}{RESET}{BRIGHT_MAGENTA}yzxv{RESET}{BRIGHT_BLACK}1234{RESET} {GREEN}(main){RESET}"
        )
    );
}

#[test]
fn test_jj_format_dirty() {
    // When no bookmarks, only change_id is shown
    let info = JjInfo {
        change_id: "yzxv1234".into(),
        change_id_prefix_len: 4,
        bookmarks: vec![],
        empty_desc: true,
        conflict: true,
        divergent: false,
        has_remote: false,
        is_synced: true,
    };
    assert_eq!(
        format_jj(&info, &no_symbol_config()),
        format!(
            "on {BLUE}{RESET}{BRIGHT_MAGENTA}yzxv{RESET}{BRIGHT_BLACK}1234{RESET} {RED}[!?]{RESET}"
        )
    );
}

#[test]
fn test_jj_format_with_symbol() {
    let info = JjInfo {
        change_id: "yzxv1234".into(),
        change_id_prefix_len: 4,
        bookmarks: vec![("main".into(), 0)],
        empty_desc: false,
        conflict: false,
        divergent: false,
        has_remote: true,
        is_synced: true,
    };
    assert_eq!(
        format_jj(&info, &default_config()),
        format!(
            "on {BLUE}{DEFAULT_JJ_SYMBOL}{RESET}{BRIGHT_MAGENTA}yzxv{RESET}{BRIGHT_BLACK}1234{RESET} {GREEN}(main){RESET}"
        )
    );
}

#[test]
fn test_jj_format_truncated() {
    let config = Config {
        truncate_name: 5,
        id_length: 8,
        ancestor_bookmark_depth: 10,
        bookmark_display_limit: 0,
        strip_prefixes: vec![],
        jj_symbol: String::new(),
        git_symbol: String::new(),
        jj_display: DisplayConfig::all_visible(),
        git_display: DisplayConfig::all_visible(),
    };
    let info = JjInfo {
        change_id: "yzxv1234".into(),
        change_id_prefix_len: 4,
        bookmarks: vec![("very-long-bookmark-name".into(), 0)],
        empty_desc: false,
        conflict: false,
        divergent: false,
        has_remote: false,
        is_synced: true,
    };
    assert_eq!(
        format_jj(&info, &config),
        format!(
            "on {BLUE}{RESET}{BRIGHT_MAGENTA}yzxv{RESET}{BRIGHT_BLACK}1234{RESET} {GREEN}(very…){RESET}"
        )
    );
}

#[test]
fn test_jj_format_ancestor_bookmark() {
    let info = JjInfo {
        change_id: "yzxv1234".into(),
        change_id_prefix_len: 4,
        bookmarks: vec![("main".into(), 3)],
        empty_desc: false,
        conflict: false,
        divergent: false,
        has_remote: true,
        is_synced: true,
    };
    assert_eq!(
        format_jj(&info, &no_symbol_config()),
        format!(
            "on {BLUE}{RESET}{BRIGHT_MAGENTA}yzxv{RESET}{BRIGHT_BLACK}1234{RESET} {GREEN}(main~3){RESET}"
        )
    );
}

#[test]
fn test_jj_format_no_bookmarks() {
    let info = JjInfo {
        change_id: "yzxv1234".into(),
        change_id_prefix_len: 4,
        bookmarks: vec![],
        empty_desc: false,
        conflict: false,
        divergent: false,
        has_remote: false,
        is_synced: true,
    };
    assert_eq!(
        format_jj(&info, &no_symbol_config()),
        format!("on {BLUE}{RESET}{BRIGHT_MAGENTA}yzxv{RESET}{BRIGHT_BLACK}1234{RESET}")
    );
}

#[test]
fn test_jj_format_multiple_bookmarks() {
    let info = JjInfo {
        change_id: "yzxv1234".into(),
        change_id_prefix_len: 4,
        bookmarks: vec![("feature".into(), 1), ("main".into(), 2)],
        empty_desc: false,
        conflict: false,
        divergent: false,
        has_remote: false,
        is_synced: true,
    };
    assert_eq!(
        format_jj(&info, &no_symbol_config()),
        format!(
            "on {BLUE}{RESET}{BRIGHT_MAGENTA}yzxv{RESET}{BRIGHT_BLACK}1234{RESET} {GREEN}(feature~1, main~2){RESET}"
        )
    );
}

#[test]
fn test_jj_format_no_color() {
    let info = JjInfo {
        change_id: "yzxv1234".into(),
        change_id_prefix_len: 4,
        bookmarks: vec![("main".into(), 0)],
        empty_desc: false,
        conflict: false,
        divergent: false,
        has_remote: true,
        is_synced: true,
    };
    let config = Config {
        truncate_name: 0,
        id_length: 8,
        ancestor_bookmark_depth: 10,
        bookmark_display_limit: 0,
        strip_prefixes: vec![],
        jj_symbol: "\u{f15c6} ".to_string(),
        git_symbol: "\u{e702} ".to_string(),
        jj_display: DisplayConfig {
            show_prefix: true,
            show_name: true,
            show_id: true,
            show_status: true,
            show_color: false,
            show_prefix_color: true,
        },
        git_display: DisplayConfig::all_visible(),
    };
    assert_eq!(format_jj(&info, &config), "on \u{f15c6} yzxv1234 (main)");
}

#[test]
fn test_jj_format_no_id_hides_change_id() {
    let info = JjInfo {
        change_id: "yzxv1234".into(),
        change_id_prefix_len: 4,
        bookmarks: vec![("main".into(), 0)],
        empty_desc: false,
        conflict: false,
        divergent: false,
        has_remote: false,
        is_synced: true,
    };
    let config = Config {
        truncate_name: 0,
        id_length: 8,
        ancestor_bookmark_depth: 10,
        bookmark_display_limit: 0,
        strip_prefixes: vec![],
        jj_symbol: String::new(),
        git_symbol: String::new(),
        jj_display: DisplayConfig {
            show_prefix: true,
            show_name: true,
            show_id: false, // hide the change id
            show_status: false,
            show_color: true,
            show_prefix_color: true,
        },
        git_display: DisplayConfig::all_visible(),
    };
    // hiding the id shows only the bookmarks
    assert_eq!(
        format_jj(&info, &config),
        format!("on {BLUE}{RESET} {GREEN}(main){RESET}")
    );
}

#[test]
fn test_jj_format_no_name_hides_bookmarks() {
    let info = JjInfo {
        change_id: "yzxv1234".into(),
        change_id_prefix_len: 4,
        bookmarks: vec![("main".into(), 0)],
        empty_desc: false,
        conflict: false,
        divergent: false,
        has_remote: false,
        is_synced: true,
    };
    let config = Config {
        truncate_name: 0,
        id_length: 8,
        ancestor_bookmark_depth: 10,
        bookmark_display_limit: 0,
        strip_prefixes: vec![],
        jj_symbol: String::new(),
        git_symbol: String::new(),
        jj_display: DisplayConfig {
            show_prefix: true,
            show_name: false, // hide the bookmarks
            show_id: true,
            show_status: false,
            show_color: true,
            show_prefix_color: true,
        },
        git_display: DisplayConfig::all_visible(),
    };
    // hiding the name shows only the change id with prefix coloring
    assert_eq!(
        format_jj(&info, &config),
        format!("on {BLUE}{RESET}{BRIGHT_MAGENTA}yzxv{RESET}{BRIGHT_BLACK}1234{RESET}")
    );
}

#[test]
fn test_jj_format_direct_bookmark_distance_zero() {
    // A direct bookmark (distance 0) shows without a ~N suffix even with
    // ancestor search enabled
    let info = JjInfo {
        change_id: "yzxv1234".into(),
        change_id_prefix_len: 4,
        bookmarks: vec![("main".into(), 0)], // distance 0 = directly on the working copy
        empty_desc: false,
        conflict: false,
        divergent: false,
        has_remote: false,
        is_synced: true,
    };
    assert_eq!(
        format_jj(&info, &no_symbol_config()),
        format!(
            "on {BLUE}{RESET}{BRIGHT_MAGENTA}yzxv{RESET}{BRIGHT_BLACK}1234{RESET} {GREEN}(main){RESET}"
        )
    );
}

#[test]
fn test_git_format_clean() {
    let info = GitInfo {
        branch: Some("main".into()),
        head_short: "a3b4c5d".into(),
        staged: 0,
        modified: 0,
        untracked: 0,
        deleted: 0,
        conflicted: 0,
        ahead: 0,
        behind: 0,
    };
    assert_eq!(
        format_git(&info, &no_symbol_config()),
        format!("on {BLUE}{RESET}{PURPLE}main{RESET} {GREEN}(a3b4c5d){RESET}")
    );
}

#[test]
fn test_git_format_dirty() {
    let info = GitInfo {
        branch: Some("feature".into()),
        head_short: "1234567".into(),
        staged: 2,
        modified: 3,
        untracked: 1,
        deleted: 0,
        conflicted: 0,
        ahead: 2,
        behind: 1,
    };
    assert_eq!(
        format_git(&info, &no_symbol_config()),
        format!(
            "on {BLUE}{RESET}{PURPLE}feature{RESET} {GREEN}(1234567){RESET} {RED}[+!?⇡2⇣1]{RESET}"
        )
    );
}

#[test]
fn test_git_format_with_symbol() {
    let info = GitInfo {
        branch: Some("main".into()),
        head_short: "a3b4c5d".into(),
        staged: 0,
        modified: 0,
        untracked: 0,
        deleted: 0,
        conflicted: 0,
        ahead: 0,
        behind: 0,
    };
    assert_eq!(
        format_git(&info, &default_config()),
        format!("on {BLUE}{DEFAULT_GIT_SYMBOL}{RESET}{PURPLE}main{RESET} {GREEN}(a3b4c5d){RESET}")
    );
}
