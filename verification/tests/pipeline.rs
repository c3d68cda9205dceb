//! Tests of the snapshot pipeline: reverse hex, assembly, sync status, the
//! immutable head index, and the ancestor search driven over small graphs.

use jj_starship::config::{Config, DisplayConfig};
use jj_starship::heads::{build_immutable_heads, RemoteBookmark};
use jj_starship::jj::{
    assemble, change_id_display, combine_bookmarks, encode_reverse_hex, sync_status, CommitFacts,
    RemoteCounterpart,
};
use jj_starship::search::AncestorSearch;
use jj_starship::strutil::dec_string;

fn plain_config() -> Config {
    Config {
        truncate_name: 0,
        id_length: 8,
        ancestor_bookmark_depth: 10,
        bookmark_display_limit: 0,
        strip_prefixes: vec![],
        jj_symbol: String::new(),
        git_symbol: String::new(),
        jj_display: DisplayConfig::all_visible(),
        git_display: DisplayConfig::all_visible(),
    }
}

#[test]
fn decimal_rendering_is_exact() {
    assert_eq!(dec_string(0), "0");
    assert_eq!(dec_string(7), "7");
    assert_eq!(dec_string(10), "10");
    assert_eq!(dec_string(905), "905");
    assert_eq!(dec_string(123456), "123456");
}

#[test]
fn reverse_hex_uses_z_to_k_alphabet() {
    assert_eq!(encode_reverse_hex(&vec![]), "");
    assert_eq!(
        encode_reverse_hex(&vec![0x01, 0x23, 0x45, 0x67, 0x89, 0xab, 0xcd, 0xef]),
        "zyxwvutsrqponmlk"
    );
    assert_eq!(encode_reverse_hex(&vec![0x00]), "zz");
    assert_eq!(encode_reverse_hex(&vec![0xff]), "kk");
}

#[test]
fn change_id_is_cut_to_display_length() {
    let bytes = vec![0x01, 0x23, 0x45, 0x67, 0x89];
    assert_eq!(change_id_display(&bytes, 8), "zyxwvuts");
    assert_eq!(change_id_display(&bytes, 100), "zyxwvutsrq");
    assert_eq!(change_id_display(&bytes, 0), "");
}

#[test]
fn truncate_keeps_short_names_and_cuts_long_ones() {
    let mut config = plain_config();
    config.truncate_name = 10;
    assert_eq!(config.truncate("short"), "short");
    assert_eq!(config.truncate("exactly-10"), "exactly-10");
    assert_eq!(config.truncate("very-long-feature-name"), "very-long…");
    config.truncate_name = 0;
    assert_eq!(config.truncate("very-long-feature-name"), "very-long-feature-name");
    config.truncate_name = 1;
    assert_eq!(config.truncate("ab"), "…");
}

#[test]
fn strip_prefix_first_match_wins_in_configured_order() {
    let mut config = plain_config();
    config.strip_prefixes = vec!["dev/".to_string(), "d".to_string()];
    assert_eq!(config.strip("dev/x"), "x");
    assert_eq!(config.strip("doc"), "oc");
    assert_eq!(config.strip("main"), "main");
    config.strip_prefixes = vec!["d".to_string(), "dev/".to_string()];
    assert_eq!(config.strip("dev/x"), "ev/x");
}

#[test]
fn stripping_happens_before_truncation() {
    let mut config = plain_config();
    config.strip_prefixes = vec!["dmmulroy/".to_string()];
    config.truncate_name = 10;
    assert_eq!(
        config.display_name("dmmulroy/very-long-feature-name"),
        "very-long…"
    );
    // a name without the prefix is only truncated
    assert_eq!(config.display_name("other-long-feature-name"), "other-lon…");
}

#[test]
fn sync_status_ignores_passthrough_remote() {
    // only the pass-through remote: no real remote, vacuously synced
    let remotes = vec![RemoteCounterpart { remote: "git".into(), target_matches: true }];
    assert_eq!(sync_status(&remotes), (false, true));
    // one real matching remote
    let remotes = vec![RemoteCounterpart { remote: "origin".into(), target_matches: true }];
    assert_eq!(sync_status(&remotes), (true, true));
    // one real remote that points elsewhere: needs a push
    let remotes = vec![RemoteCounterpart { remote: "origin".into(), target_matches: false }];
    assert_eq!(sync_status(&remotes), (true, false));
    // a stale pass-through match does not count as synced
    let remotes = vec![
        RemoteCounterpart { remote: "git".into(), target_matches: true },
        RemoteCounterpart { remote: "origin".into(), target_matches: false },
    ];
    assert_eq!(sync_status(&remotes), (true, false));
}

#[test]
fn assemble_builds_the_snapshot() {
    let facts = CommitFacts {
        change_id_bytes: vec![0x01, 0x23, 0x45, 0x67, 0x89],
        unique_prefix_len: Some(4),
        description: " \t\n".into(),
        has_conflict: true,
        commits_for_change: 2,
    };
    let bookmarks = combine_bookmarks(vec!["main".into()], vec![("feature".into(), 2)]);
    let remotes = vec![RemoteCounterpart { remote: "origin".into(), target_matches: false }];
    let info = assemble(facts, bookmarks, &remotes, 8);
    assert_eq!(info.change_id, "zyxwvuts");
    assert_eq!(info.change_id_prefix_len, 4);
    assert_eq!(
        info.bookmarks,
        vec![("main".to_string(), 0), ("feature".to_string(), 2)]
    );
    assert!(info.empty_desc);
    assert!(info.conflict);
    assert!(info.divergent);
    assert!(info.has_remote);
    assert!(!info.is_synced);
}

#[test]
fn assemble_with_no_bookmarks_is_vacuously_synced() {
    let facts = CommitFacts {
        change_id_bytes: vec![0x00],
        unique_prefix_len: None,
        description: "fix the parser".into(),
        has_conflict: false,
        commits_for_change: 1,
    };
    let remotes = vec![RemoteCounterpart { remote: "origin".into(), target_matches: false }];
    let info = assemble(facts, Vec::new(), &remotes, 8);
    assert_eq!(info.change_id, "zz");
    // the unique prefix length falls back to the display length cap
    assert_eq!(info.change_id_prefix_len, 2);
    assert!(!info.empty_desc);
    assert!(!info.divergent);
    assert!(!info.has_remote);
    assert!(info.is_synced);
}

#[test]
fn immutable_heads_take_trunk_untracked_and_tags() {
    let remotes = vec![
        // trunk on a well-known remote: contributes
        RemoteBookmark {
            name: "main".into(),
            remote: "origin".into(),
            has_local: true,
            target: Some(vec![1]),
        },
        // tracked feature bookmark on a real remote: does not contribute
        RemoteBookmark {
            name: "feature".into(),
            remote: "origin".into(),
            has_local: true,
            target: Some(vec![2]),
        },
        // untracked bookmark: contributes
        RemoteBookmark {
            name: "drive-by".into(),
            remote: "fork".into(),
            has_local: false,
            target: Some(vec![3]),
        },
        // pass-through remote: never contributes
        RemoteBookmark {
            name: "main".into(),
            remote: "git".into(),
            has_local: false,
            target: Some(vec![4]),
        },
        // conflicted/absent target: nothing to contribute
        RemoteBookmark {
            name: "master".into(),
            remote: "upstream".into(),
            has_local: true,
            target: None,
        },
    ];
    let tags = vec![Some(vec![5]), None];
    let heads = build_immutable_heads(&remotes, &tags);
    assert_eq!(heads, vec![vec![1], vec![3], vec![5]]);
}

fn drive(search: &mut AncestorSearch, graph: &[(Vec<u8>, Vec<&str>, Vec<Vec<u8>>)]) -> usize {
    let mut reads = 0usize;
    while let Some(id) = search.next_request() {
        let (_, bookmarks, parents) = graph
            .iter()
            .find(|(gid, _, _)| *gid == id)
            .expect("request for a commit outside the graph");
        let names: Vec<String> = bookmarks.iter().map(|s| s.to_string()).collect();
        search.record(&names, parents);
        reads += 1;
        assert!(reads <= graph.len(), "a commit was read twice");
    }
    reads
}

#[test]
fn search_collects_bookmarks_by_distance() {
    // working copy -> parent (feature) -> grandparent (main, immutable)
    // -> great-grandparent (old)
    let graph: Vec<(Vec<u8>, Vec<&str>, Vec<Vec<u8>>)> = vec![
        (vec![1], vec!["feature"], vec![vec![2]]),
        (vec![2], vec!["main"], vec![vec![3]]),
        (vec![3], vec!["old"], vec![]),
    ];
    let mut search = AncestorSearch::new(&vec![vec![1]], 10, vec![vec![2]]);
    drive(&mut search, &graph);
    // the barrier at the grandparent keeps the oldest bookmark out
    assert_eq!(
        search.finish(),
        vec![("feature".to_string(), 1), ("main".to_string(), 2)]
    );
}

#[test]
fn search_depth_limit_prunes_the_walk() {
    let graph: Vec<(Vec<u8>, Vec<&str>, Vec<Vec<u8>>)> = vec![
        (vec![1], vec![], vec![vec![2]]),
        (vec![2], vec!["near"], vec![vec![3]]),
        (vec![3], vec!["far"], vec![]),
    ];
    let mut search = AncestorSearch::new(&vec![vec![1]], 2, Vec::new());
    drive(&mut search, &graph);
    assert_eq!(search.finish(), vec![("near".to_string(), 2)]);
}

#[test]
fn search_depth_zero_requests_nothing() {
    let mut search = AncestorSearch::new(&vec![vec![1], vec![2]], 0, Vec::new());
    assert_eq!(search.next_request(), None);
    assert_eq!(search.finish(), vec![]);
}

#[test]
fn search_visits_diamond_merges_once() {
    // 1 and 2 are both parents of the working copy and share the parent 3
    let graph: Vec<(Vec<u8>, Vec<&str>, Vec<Vec<u8>>)> = vec![
        (vec![1], vec!["left"], vec![vec![3]]),
        (vec![2], vec!["right"], vec![vec![3]]),
        (vec![3], vec!["base"], vec![]),
    ];
    let mut search = AncestorSearch::new(&vec![vec![1], vec![2]], 10, Vec::new());
    // drive() asserts that no commit is read twice
    drive(&mut search, &graph);
    assert_eq!(
        search.finish(),
        vec![
            ("left".to_string(), 1),
            ("right".to_string(), 1),
            ("base".to_string(), 2)
        ]
    );
}

#[test]
fn search_keeps_the_shortest_distance_per_name() {
    // the same bookmark name is reachable at distance 1 and again at 2;
    // only the first (shortest) discovery is kept
    let graph: Vec<(Vec<u8>, Vec<&str>, Vec<Vec<u8>>)> = vec![
        (vec![1], vec!["main"], vec![vec![2]]),
        (vec![2], vec!["main", "extra"], vec![]),
    ];
    let mut search = AncestorSearch::new(&vec![vec![1]], 10, Vec::new());
    drive(&mut search, &graph);
    assert_eq!(
        search.finish(),
        vec![("main".to_string(), 1), ("extra".to_string(), 2)]
    );
}

#[test]
fn search_result_is_sorted_with_stable_ties() {
    // two parents: bookmarks found at equal depth keep discovery order
    let graph: Vec<(Vec<u8>, Vec<&str>, Vec<Vec<u8>>)> = vec![
        (vec![1], vec!["alpha"], vec![]),
        (vec![2], vec!["beta"], vec![]),
    ];
    let mut search = AncestorSearch::new(&vec![vec![1], vec![2]], 5, Vec::new());
    drive(&mut search, &graph);
    assert_eq!(
        search.finish(),
        vec![("alpha".to_string(), 1), ("beta".to_string(), 1)]
    );
}
