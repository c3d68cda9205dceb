//! General laws of the library, stated over the same spec functions that the
//! executable functions' contracts use, and proved once and for all inputs.

use vstd::prelude::*;

use crate::config::{spec_display_name, spec_strip, spec_truncate, Config};
use crate::jj::JjInfo;
use crate::output::{
    spec_base_entries, spec_entries, spec_entry, spec_format_jj, spec_shown_count, spec_status_jj,
};
use crate::search::AncestorSearch;
use crate::strutil::spec_dec;

verus! {

/// A bookmark at distance zero (attached directly to the working copy) is
/// rendered without a distance suffix: its entry is exactly its display name.
/// A bookmark at a positive distance always gets `~` and the distance
/// appended.
pub proof fn lemma_entry_distance_suffix(name: Seq<char>, dist: usize, config: Config)
    ensures
        dist == 0 ==> spec_entry(name, dist, config) == spec_display_name(
            name,
            config.strip_prefixes@,
            config.truncate_name as nat,
        ),
        dist > 0 ==> spec_entry(name, dist, config) == spec_display_name(
            name,
            config.strip_prefixes@,
            config.truncate_name as nat,
        ) + "~"@ + spec_dec(dist as nat),
{
}

/// Rendering is pure: the rendered string is a function of the snapshot and
/// the configuration alone, so two renderings of the same pair are the same
/// string. (`format_jj` pins its result to `spec_format_jj`; this law lifts
/// that to any two of its results.)
pub proof fn lemma_render_deterministic(
    info: JjInfo,
    config: Config,
    r1: Seq<char>,
    r2: Seq<char>,
)
    requires
        r1 == spec_format_jj(info, config),
        r2 == spec_format_jj(info, config),
    ensures
        r1 == r2,
{
}

/// Prefix stripping and width truncation compose in that order: the displayed
/// name is the truncation of the stripped name, never the other way round.
pub proof fn lemma_strip_before_truncate(name: Seq<char>, prefixes: Seq<String>, width: nat)
    ensures
        spec_display_name(name, prefixes, width) == spec_truncate(spec_strip(name, prefixes), width),
{
}

/// The bookmark-count limit: with a nonzero limit `L` and `T > L` bookmarks,
/// exactly `L` entries are shown — the first `L`, which are the closest,
/// since the list is distance-sorted — plus one final `…+(T-L)` marker. With
/// `T <= L`, or with the limit zero, all `T` are shown and no marker appears.
pub proof fn lemma_bookmark_limit(bookmarks: Seq<(String, usize)>, config: Config)
    ensures
        (config.bookmark_display_limit > 0 && bookmarks.len() > config.bookmark_display_limit)
            ==> ({
            let entries = spec_entries(bookmarks, config);
            &&& entries.len() == config.bookmark_display_limit + 1
            &&& forall|i: int|
                0 <= i < config.bookmark_display_limit ==> #[trigger] entries[i] == spec_entry(
                    bookmarks[i].0@,
                    bookmarks[i].1,
                    config,
                )
            &&& entries.last() == "\u{2026}+"@ + spec_dec(
                (bookmarks.len() - config.bookmark_display_limit) as nat,
            )
        }),
        (config.bookmark_display_limit == 0 || bookmarks.len() <= config.bookmark_display_limit)
            ==> ({
            let entries = spec_entries(bookmarks, config);
            &&& entries.len() == bookmarks.len()
            &&& forall|i: int|
                0 <= i < bookmarks.len() ==> #[trigger] entries[i] == spec_entry(
                    bookmarks[i].0@,
                    bookmarks[i].1,
                    config,
                )
        }),
{
    assert(spec_shown_count(bookmarks.len(), config.bookmark_display_limit as nat)
        == spec_base_entries(bookmarks, config).len());
}

/// The status characters stand in one fixed priority order — conflict,
/// divergence, empty description, needs-push — whatever order the flags were
/// established in: each flag contributes exactly one character, and its
/// position depends only on which higher-priority flags hold.
pub proof fn lemma_status_order(c: bool, d: bool, e: bool, p: bool)
    ensures
        ({
            let st = spec_status_jj(c, d, e, p);
            let nc: int = if c {
                1
            } else {
                0
            };
            let nd: int = if d {
                1
            } else {
                0
            };
            let ne: int = if e {
                1
            } else {
                0
            };
            let np: int = if p {
                1
            } else {
                0
            };
            &&& st.len() == nc + nd + ne + np
            &&& c ==> st[0] == '!'
            &&& d ==> st[nc] == '\u{21d4}'
            &&& e ==> st[nc + nd] == '?'
            &&& p ==> st[nc + nd + ne] == '\u{21e1}'
        }),
{
    reveal_strlit("!");
    reveal_strlit("\u{21d4}");
    reveal_strlit("?");
    reveal_strlit("\u{21e1}");
}

/// With the depth bound zero the ancestor search is disabled: any well-formed
/// search state with `max_depth == 0` holds no collected bookmark (every
/// collected bookmark lies at depth between one and the bound), and
/// `next_request` — whose contract says it returns `None` whenever
/// `max_depth == 0` — never hands a commit out to be read, so no parent or
/// bookmark read is ever performed for it.
pub proof fn lemma_depth_zero_finds_nothing(s: AncestorSearch)
    requires
        s.wf(),
        s.max_depth == 0,
    ensures
        s.found@.len() == 0,
        s.found_bookmarks() == Seq::<(Seq<char>, nat)>::empty(),
{
    if s.found@.len() > 0 {
        assert(1 <= s.found@[0].1 && s.found@[0].1 <= s.max_depth);
    }
    assert(s.found_bookmarks() =~= Seq::<(Seq<char>, nat)>::empty());
}

} // verus!
