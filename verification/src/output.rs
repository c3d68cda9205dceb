//! Output formatting for prompt strings.
//!
//! Every renderer here is a pure function from a status snapshot and a
//! configuration to one string; the spec functions beside them state that
//! string exactly.

use vstd::prelude::*;

use crate::color::{BLUE, BRIGHT_BLACK, BRIGHT_MAGENTA, GREEN, PURPLE, RED, RESET};
use crate::config::{spec_display_name, Config};
use crate::git::GitInfo;
use crate::jj::JjInfo;
use crate::strutil::{dec_string, spec_dec};

verus! {

/// Colors a piece of text when `show_color` is set: the color code in front,
/// the universal reset behind. Without color the text passes unchanged.
pub open spec fn spec_segment(text: Seq<char>, color: Seq<char>, show_color: bool) -> Seq<char> {
    if show_color {
        color + text + RESET@
    } else {
        text
    }
}

/// Wrap `text` in `color` and a reset code when `show_color` is set.
pub fn format_segment(text: &str, color: &str, show_color: bool) -> (out: String)
    ensures
        out@ == spec_segment(text@, color@, show_color),
{
    if show_color {
        let mut out = String::new();
        out.append(color);
        out.append(text);
        out.append(RESET);
        assert(out@ =~= spec_segment(text@, color@, show_color));
        out
    } else {
        String::from_str(text)
    }
}

/// The identity split at its unique-prefix length (capped at the identity's
/// length): the prefix in an accent color, the rest dimmed, each reset on its
/// own; when the rest is empty, only the colored prefix. With
/// `show_prefix_color` off the identity passes unchanged.
pub open spec fn spec_format_change_id(
    id: Seq<char>,
    prefix_len: nat,
    show_prefix_color: bool,
) -> Seq<char> {
    if !show_prefix_color {
        id
    } else {
        let p: int = if prefix_len <= id.len() {
            prefix_len as int
        } else {
            id.len() as int
        };
        let prefix = id.take(p);
        let rest = id.skip(p);
        if rest.len() == 0 {
            BRIGHT_MAGENTA@ + prefix + RESET@
        } else {
            BRIGHT_MAGENTA@ + prefix + RESET@ + BRIGHT_BLACK@ + rest + RESET@
        }
    }
}

/// Render the change identifier with its shortest unique prefix highlighted,
/// jj-log style: the prefix bright magenta, the rest gray.
pub fn format_change_id(change_id: &str, prefix_len: usize, show_prefix_color: bool) -> (out:
    String)
    ensures
        out@ == spec_format_change_id(change_id@, prefix_len as nat, show_prefix_color),
{
    if !show_prefix_color {
        return String::from_str(change_id);
    }
    let len: usize = change_id.unicode_len();
    let p: usize = if prefix_len <= len {
        prefix_len
    } else {
        len
    };
    let prefix = change_id.substring_char(0, p);
    let rest = change_id.substring_char(p, len);
    let mut out = String::new();
    out.append(BRIGHT_MAGENTA);
    out.append(prefix);
    out.append(RESET);
    if !rest.is_empty() {
        out.append(BRIGHT_BLACK);
        out.append(rest);
        out.append(RESET);
    }
    assert(out@ =~= spec_format_change_id(change_id@, prefix_len as nat, true));
    out
}

/// One bookmark as listed: the display name (stripped, truncated), and for an
/// ancestor bookmark a `~` with its distance.
pub open spec fn spec_entry(name: Seq<char>, dist: usize, config: Config) -> Seq<char> {
    let disp = spec_display_name(name, config.strip_prefixes@, config.truncate_name as nat);
    if dist > 0 {
        disp + "~"@ + spec_dec(dist as nat)
    } else {
        disp
    }
}

/// How many bookmarks are listed outright: all of them, unless a nonzero
/// limit is exceeded.
pub open spec fn spec_shown_count(total: nat, limit: nat) -> nat {
    if limit > 0 && total > limit {
        limit
    } else {
        total
    }
}

/// The listed bookmark entries before the fold marker.
pub open spec fn spec_base_entries(bookmarks: Seq<(String, usize)>, config: Config) -> Seq<
    Seq<char>,
> {
    Seq::new(
        spec_shown_count(bookmarks.len(), config.bookmark_display_limit as nat),
        |i: int| spec_entry(bookmarks[i].0@, bookmarks[i].1, config),
    )
}

/// All listed bookmark entries: the first `limit` of them (all, when the
/// limit is zero or not exceeded), and when bookmarks were folded away, one
/// final `…+N` entry with the number hidden.
pub open spec fn spec_entries(bookmarks: Seq<(String, usize)>, config: Config) -> Seq<Seq<char>> {
    let total: nat = bookmarks.len();
    let limit: nat = config.bookmark_display_limit as nat;
    let base = spec_base_entries(bookmarks, config);
    if limit > 0 && total > limit {
        base.push("\u{2026}+"@ + spec_dec((total - limit) as nat))
    } else {
        base
    }
}

/// The parts joined with the separator between each two.
pub open spec fn spec_join(parts: Seq<Seq<char>>, sep: Seq<char>) -> Seq<char>
    decreases parts.len(),
{
    if parts.len() == 0 {
        Seq::empty()
    } else if parts.len() == 1 {
        parts[0]
    } else {
        spec_join(parts.drop_last(), sep) + sep + parts.last()
    }
}

/// The jj status characters, in fixed priority order: conflict, divergence,
/// empty description, needs-push. Each condition contributes at most one
/// character, wherever it came from.
pub open spec fn spec_status_jj(
    conflict: bool,
    divergent: bool,
    empty_desc: bool,
    needs_push: bool,
) -> Seq<char> {
    (if conflict {
        "!"@
    } else {
        Seq::<char>::empty()
    }) + (if divergent {
        "\u{21d4}"@
    } else {
        Seq::<char>::empty()
    }) + (if empty_desc {
        "?"@
    } else {
        Seq::<char>::empty()
    }) + (if needs_push {
        "\u{21e1}"@
    } else {
        Seq::<char>::empty()
    })
}

/// A single separating space before a new segment, once anything was written.
pub open spec fn spec_sep(s: Seq<char>) -> Seq<char> {
    if s.len() > 0 {
        s + " "@
    } else {
        s
    }
}

/// The whole jj prompt fragment: `on {symbol}{change_id} ({bookmarks})
/// [{status}]`, each part under its display toggle, separated by single
/// spaces, colored only when `show_color` is set.
pub open spec fn spec_format_jj(info: JjInfo, config: Config) -> Seq<char> {
    let d = config.jj_display;
    let s0 = if d.show_prefix {
        "on "@ + spec_segment(config.jj_symbol@, BLUE@, d.show_color)
    } else {
        Seq::<char>::empty()
    };
    let s1 = if d.show_id {
        if d.show_color && d.show_prefix_color {
            s0 + spec_format_change_id(info.change_id@, info.change_id_prefix_len as nat, true)
        } else {
            s0 + spec_segment(info.change_id@, PURPLE@, d.show_color)
        }
    } else {
        s0
    };
    let s2 = if d.show_name && info.bookmarks@.len() > 0 {
        spec_sep(s1) + spec_segment(
            "("@ + spec_join(spec_entries(info.bookmarks@, config), ", "@) + ")"@,
            GREEN@,
            d.show_color,
        )
    } else {
        s1
    };
    let st = spec_status_jj(
        info.conflict,
        info.divergent,
        info.empty_desc,
        info.has_remote && !info.is_synced,
    );
    if d.show_status && st.len() > 0 {
        spec_sep(s2) + spec_segment("["@ + st + "]"@, RED@, d.show_color)
    } else {
        s2
    }
}

fn bookmark_list(info: &JjInfo, config: &Config) -> (out: String)
    ensures
        out@ == spec_join(spec_entries(info.bookmarks@, *config), ", "@),
{
    let total: usize = info.bookmarks.len();
    let limit: usize = config.bookmark_display_limit;
    let shown: usize = if limit > 0 && total > limit {
        limit
    } else {
        total
    };
    let ghost base = spec_base_entries(info.bookmarks@, *config);
    let mut list = String::new();
    let mut i: usize = 0;
    assert(list@ =~= spec_join(base.take(0), ", "@));
    while i < shown
        invariant
            i <= shown,
            total == info.bookmarks@.len(),
            limit == config.bookmark_display_limit,
            shown == spec_shown_count(total as nat, limit as nat),
            base == spec_base_entries(info.bookmarks@, *config),
            list@ == spec_join(base.take(i as int), ", "@),
        decreases shown - i,
    {
        if i > 0 {
            list.append(", ");
        }
        let bm = &info.bookmarks[i];
        let disp = config.display_name(bm.0.as_str());
        list.append(disp.as_str());
        if bm.1 > 0 {
            list.append("~");
            let ds = dec_string(bm.1);
            list.append(ds.as_str());
        }
        proof {
            assert(base.take(i + 1).drop_last() =~= base.take(i as int));
            assert(base.take(i + 1).last() == base[i as int]);
            assert(base[i as int] == spec_entry(
                info.bookmarks@[i as int].0@,
                info.bookmarks@[i as int].1,
                *config,
            ));
            assert(list@ =~= spec_join(base.take(i + 1), ", "@));
        }
        i += 1;
    }
    assert(base.take(shown as int) =~= base);
    if limit > 0 && total > limit {
        list.append(", ");
        list.append("\u{2026}+");
        let ds = dec_string(total - limit);
        list.append(ds.as_str());
        proof {
            let entries = spec_entries(info.bookmarks@, *config);
            assert(entries.drop_last() =~= base);
            assert(entries.last() == "\u{2026}+"@ + spec_dec((total - limit) as nat));
            assert(list@ =~= spec_join(entries, ", "@));
        }
    }
    list
}

/// Format jj info as a prompt string.
/// Pattern: `on {symbol}{change_id} ({bookmarks}) [{status}]`.
pub fn format_jj(info: &JjInfo, config: &Config) -> (out: String)
    ensures
        out@ == spec_format_jj(*info, *config),
{
    let d = config.jj_display;
    let mut out = String::new();

    if d.show_prefix {
        out.append("on ");
        let seg = format_segment(config.jj_symbol.as_str(), BLUE, d.show_color);
        out.append(seg.as_str());
    }

    if d.show_id {
        if d.show_color && d.show_prefix_color {
            let seg = format_change_id(info.change_id.as_str(), info.change_id_prefix_len, true);
            out.append(seg.as_str());
        } else {
            let seg = format_segment(info.change_id.as_str(), PURPLE, d.show_color);
            out.append(seg.as_str());
        }
    }

    if d.show_name && info.bookmarks.len() > 0 {
        if !out.as_str().is_empty() {
            out.append(" ");
        }
        let list = bookmark_list(info, config);
        let mut btext = String::from_str("(");
        btext.append(list.as_str());
        btext.append(")");
        let seg = format_segment(btext.as_str(), GREEN, d.show_color);
        out.append(seg.as_str());
    }

    if d.show_status {
        let mut st = String::new();
        if info.conflict {
            st.append("!");
        }
        if info.divergent {
            st.append("\u{21d4}");
        }
        if info.empty_desc {
            st.append("?");
        }
        if info.has_remote && !info.is_synced {
            st.append("\u{21e1}");
        }
        assert(st@ =~= spec_status_jj(
            info.conflict,
            info.divergent,
            info.empty_desc,
            info.has_remote && !info.is_synced,
        ));
        if !st.as_str().is_empty() {
            if !out.as_str().is_empty() {
                out.append(" ");
            }
            let mut stext = String::from_str("[");
            stext.append(st.as_str());
            stext.append("]");
            let seg = format_segment(stext.as_str(), RED, d.show_color);
            out.append(seg.as_str());
        }
    }
    assert(out@ =~= spec_format_jj(*info, *config));
    out
}

/// The git status characters, in fixed priority order: conflicted, staged,
/// modified, untracked, deleted, then ahead and behind with their counts.
pub open spec fn spec_status_git(info: GitInfo) -> Seq<char> {
    (if info.conflicted > 0 {
        "="@
    } else {
        Seq::<char>::empty()
    }) + (if info.staged > 0 {
        "+"@
    } else {
        Seq::<char>::empty()
    }) + (if info.modified > 0 {
        "!"@
    } else {
        Seq::<char>::empty()
    }) + (if info.untracked > 0 {
        "?"@
    } else {
        Seq::<char>::empty()
    }) + (if info.deleted > 0 {
        "\u{2718}"@
    } else {
        Seq::<char>::empty()
    }) + (if info.ahead > 0 {
        "\u{21e1}"@ + spec_dec(info.ahead as nat)
    } else {
        Seq::<char>::empty()
    }) + (if info.behind > 0 {
        "\u{21e3}"@ + spec_dec(info.behind as nat)
    } else {
        Seq::<char>::empty()
    })
}

/// The whole git prompt fragment: `on {symbol}{name} ({id}) [{status}]`.
pub open spec fn spec_format_git(info: GitInfo, config: Config) -> Seq<char> {
    let d = config.git_display;
    let s0 = if d.show_prefix {
        "on "@ + spec_segment(config.git_symbol@, BLUE@, d.show_color)
    } else {
        Seq::<char>::empty()
    };
    let s1 = if d.show_name {
        let name = match info.branch {
            Some(b) => crate::config::spec_truncate(b@, config.truncate_name as nat),
            None => "HEAD"@,
        };
        s0 + spec_segment(name, PURPLE@, d.show_color)
    } else {
        s0
    };
    let s2 = if d.show_id {
        spec_sep(s1) + spec_segment("("@ + info.head_short@ + ")"@, GREEN@, d.show_color)
    } else {
        s1
    };
    let st = spec_status_git(info);
    if d.show_status && st.len() > 0 {
        spec_sep(s2) + spec_segment("["@ + st + "]"@, RED@, d.show_color)
    } else {
        s2
    }
}

#[verifier::rlimit(60)]
fn git_status_chars(info: &GitInfo) -> (st: String)
    ensures
        st@ == spec_status_git(*info),
{
    let mut st = String::new();
    let ghost g1 = if info.conflicted > 0 {
        "="@
    } else {
        Seq::<char>::empty()
    };
    if info.conflicted > 0 {
        st.append("=");
    }
    assert(st@ =~= g1);
    let ghost g2 = g1 + (if info.staged > 0 {
        "+"@
    } else {
        Seq::<char>::empty()
    });
    if info.staged > 0 {
        st.append("+");
    }
    assert(st@ =~= g2);
    let ghost g3 = g2 + (if info.modified > 0 {
        "!"@
    } else {
        Seq::<char>::empty()
    });
    if info.modified > 0 {
        st.append("!");
    }
    assert(st@ =~= g3);
    let ghost g4 = g3 + (if info.untracked > 0 {
        "?"@
    } else {
        Seq::<char>::empty()
    });
    if info.untracked > 0 {
        st.append("?");
    }
    assert(st@ =~= g4);
    let ghost g5 = g4 + (if info.deleted > 0 {
        "\u{2718}"@
    } else {
        Seq::<char>::empty()
    });
    if info.deleted > 0 {
        st.append("\u{2718}");
    }
    assert(st@ =~= g5);
    let ghost g6 = g5 + (if info.ahead > 0 {
        "\u{21e1}"@ + spec_dec(info.ahead as nat)
    } else {
        Seq::<char>::empty()
    });
    if info.ahead > 0 {
        st.append("\u{21e1}");
        let ds = dec_string(info.ahead);
        st.append(ds.as_str());
    }
    assert(st@ =~= g6);
    let ghost g7 = g6 + (if info.behind > 0 {
        "\u{21e3}"@ + spec_dec(info.behind as nat)
    } else {
        Seq::<char>::empty()
    });
    if info.behind > 0 {
        st.append("\u{21e3}");
        let ds = dec_string(info.behind);
        st.append(ds.as_str());
    }
    assert(st@ =~= g7);
    assert(g7 == spec_status_git(*info));
    st
}

/// Format git info as a prompt string.
/// Pattern: `on {symbol}{name} ({id}) [{status}]`.
pub fn format_git(info: &GitInfo, config: &Config) -> (out: String)
    ensures
        out@ == spec_format_git(*info, *config),
{
    let d = config.git_display;
    let mut out = String::new();

    let ghost s0 = if d.show_prefix {
        "on "@ + spec_segment(config.git_symbol@, BLUE@, d.show_color)
    } else {
        Seq::<char>::empty()
    };
    if d.show_prefix {
        out.append("on ");
        let seg = format_segment(config.git_symbol.as_str(), BLUE, d.show_color);
        out.append(seg.as_str());
    }
    assert(out@ =~= s0);

    let ghost s1 = if d.show_name {
        s0 + spec_segment(
            match &info.branch {
                Some(b) => crate::config::spec_truncate(b@, config.truncate_name as nat),
                None => "HEAD"@,
            },
            PURPLE@,
            d.show_color,
        )
    } else {
        s0
    };
    if d.show_name {
        let name: String = match &info.branch {
            Some(b) => config.truncate(b.as_str()),
            None => String::from_str("HEAD"),
        };
        let seg = format_segment(name.as_str(), PURPLE, d.show_color);
        out.append(seg.as_str());
    }
    assert(out@ =~= s1);

    let ghost s2 = if d.show_id {
        spec_sep(s1) + spec_segment("("@ + info.head_short@ + ")"@, GREEN@, d.show_color)
    } else {
        s1
    };
    if d.show_id {
        if !out.as_str().is_empty() {
            out.append(" ");
        }
        let mut itext = String::from_str("(");
        itext.append(info.head_short.as_str());
        itext.append(")");
        let seg = format_segment(itext.as_str(), GREEN, d.show_color);
        out.append(seg.as_str());
    }
    assert(out@ =~= s2);

    if d.show_status {
        let st = git_status_chars(info);
        if !st.as_str().is_empty() {
            if !out.as_str().is_empty() {
                out.append(" ");
            }
            let mut stext = String::from_str("[");
            stext.append(st.as_str());
            stext.append("]");
            let seg = format_segment(stext.as_str(), RED, d.show_color);
            out.append(seg.as_str());
        }
    }
    assert(out@ =~= spec_format_git(*info, *config));
    out
}

} // verus!
