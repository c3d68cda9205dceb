//! Status snapshot for a jj-style working copy, and the pure computations
//! that assemble one from plain repository facts.

use vstd::prelude::*;

use crate::strutil::spec_is_blank;

verus! {

/// Facts about a jj-style working copy.
///
/// The bool fields are independent, orthogonal status flags: each can be true
/// or false on its own, and any combination is meaningful.
#[derive(Debug)]
pub struct JjInfo {
    /// Change identifier, cut to the configured display length.
    pub change_id: String,
    /// Shortest unique prefix length of `change_id`, capped at its length.
    pub change_id_prefix_len: usize,
    /// Bookmarks as `(name, distance)`: distance 0 is attached to the working
    /// copy itself, distance N was found N parent hops away. Sorted by
    /// non-decreasing distance.
    pub bookmarks: Vec<(String, usize)>,
    /// The working-copy commit has no description.
    pub empty_desc: bool,
    /// The working-copy commit has conflicts in its tree.
    pub conflict: bool,
    /// More than one commit currently carries the same change identifier.
    pub divergent: bool,
    /// The closest bookmark has a counterpart on a real remote.
    pub has_remote: bool,
    /// The closest bookmark points where one of its remote counterparts
    /// points; vacuously true when it has no real remote, or no bookmark was
    /// found at all.
    pub is_synced: bool,
}

/// Plain facts read off the working-copy commit, before assembly.
#[derive(Debug)]
pub struct CommitFacts {
    /// The change identifier's bytes.
    pub change_id_bytes: Vec<u8>,
    /// Shortest unique prefix length of the change identifier among all
    /// changes, in digits; absent when the repository could not say.
    pub unique_prefix_len: Option<usize>,
    /// The commit's description text.
    pub description: String,
    /// The commit's tree has conflicts.
    pub has_conflict: bool,
    /// How many commits currently carry this change identifier.
    pub commits_for_change: usize,
}

/// One remote counterpart of a bookmark name: the remote it lives on, and
/// whether its target is exactly the local bookmark's target.
#[derive(Debug)]
pub struct RemoteCounterpart {
    pub remote: String,
    pub target_matches: bool,
}

/// The digit characters of the reverse hex alphabet: value 0 is `'z'`,
/// value 15 is `'k'`.
pub open spec fn rev_hex_digit(d: u8) -> char {
    if d == 0 {
        'z'
    } else if d == 1 {
        'y'
    } else if d == 2 {
        'x'
    } else if d == 3 {
        'w'
    } else if d == 4 {
        'v'
    } else if d == 5 {
        'u'
    } else if d == 6 {
        't'
    } else if d == 7 {
        's'
    } else if d == 8 {
        'r'
    } else if d == 9 {
        'q'
    } else if d == 10 {
        'p'
    } else if d == 11 {
        'o'
    } else if d == 12 {
        'n'
    } else if d == 13 {
        'm'
    } else if d == 14 {
        'l'
    } else {
        'k'
    }
}

/// Reverse hex encoding of a byte string: for each byte the high nibble's
/// digit, then the low nibble's, in the `z`..`k` alphabet.
pub open spec fn spec_reverse_hex(bytes: Seq<u8>) -> Seq<char>
    decreases bytes.len(),
{
    if bytes.len() == 0 {
        Seq::<char>::empty()
    } else {
        spec_reverse_hex(bytes.drop_last()) + seq![
            rev_hex_digit(bytes.last() >> 4),
            rev_hex_digit(bytes.last() & 0xf),
        ]
    }
}

fn rev_hex_digit_str(d: u8) -> (s: &'static str)
    requires
        d < 16,
    ensures
        s@ =~= seq![rev_hex_digit(d)],
{
    proof {
        reveal_strlit("z");
        reveal_strlit("y");
        reveal_strlit("x");
        reveal_strlit("w");
        reveal_strlit("v");
        reveal_strlit("u");
        reveal_strlit("t");
        reveal_strlit("s");
        reveal_strlit("r");
        reveal_strlit("q");
        reveal_strlit("p");
        reveal_strlit("o");
        reveal_strlit("n");
        reveal_strlit("m");
        reveal_strlit("l");
        reveal_strlit("k");
    }
    if d == 0 {
        "z"
    } else if d == 1 {
        "y"
    } else if d == 2 {
        "x"
    } else if d == 3 {
        "w"
    } else if d == 4 {
        "v"
    } else if d == 5 {
        "u"
    } else if d == 6 {
        "t"
    } else if d == 7 {
        "s"
    } else if d == 8 {
        "r"
    } else if d == 9 {
        "q"
    } else if d == 10 {
        "p"
    } else if d == 11 {
        "o"
    } else if d == 12 {
        "n"
    } else if d == 13 {
        "m"
    } else if d == 14 {
        "l"
    } else {
        "k"
    }
}

/// Encode a byte string in jj's reverse hex alphabet (`z` for 0 through `k`
/// for 15), two digits per byte.
pub fn encode_reverse_hex(bytes: &Vec<u8>) -> (out: String)
    ensures
        out@ == spec_reverse_hex(bytes@),
{
    let n: usize = bytes.len();
    let mut out = String::new();
    let mut i: usize = 0;
    assert(bytes@.take(0) =~= Seq::<u8>::empty());
    while i < n
        invariant
            i <= n,
            n == bytes@.len(),
            out@ == spec_reverse_hex(bytes@.take(i as int)),
        decreases n - i,
    {
        let b: u8 = bytes[i];
        let hi: u8 = b >> 4;
        let lo: u8 = b & 0xf;
        proof {
            assert(b >> 4 < 16 && b & 0xf < 16) by (bit_vector);
        }
        out.append(rev_hex_digit_str(hi));
        out.append(rev_hex_digit_str(lo));
        proof {
            assert(bytes@.take(i + 1).drop_last() =~= bytes@.take(i as int));
            assert(bytes@.take(i + 1).last() == bytes@[i as int]);
            assert(out@ =~= spec_reverse_hex(bytes@.take(i + 1)));
        }
        i += 1;
    }
    assert(bytes@.take(n as int) =~= bytes@);
    out
}

/// The displayed change identifier: the reverse hex form of the identifier's
/// bytes, cut to `id_length` digits (all of them, when there are fewer).
pub open spec fn spec_change_id_display(bytes: Seq<u8>, id_length: nat) -> Seq<char> {
    let full = spec_reverse_hex(bytes);
    if id_length <= full.len() {
        full.take(id_length as int)
    } else {
        full
    }
}

/// Render the change identifier for display: reverse hex, cut to
/// `id_length` digits.
pub fn change_id_display(change_id_bytes: &Vec<u8>, id_length: usize) -> (out: String)
    ensures
        out@ == spec_change_id_display(change_id_bytes@, id_length as nat),
{
    let full = encode_reverse_hex(change_id_bytes);
    let full_len: usize = full.as_str().unicode_len();
    if id_length <= full_len {
        let cut = full.as_str().substring_char(0, id_length);
        String::from_str(cut)
    } else {
        full
    }
}

/// Some counterpart lives on a real remote (the pass-through remote named
/// `git` is not one).
pub open spec fn spec_has_remote(remotes: Seq<RemoteCounterpart>) -> bool {
    exists|i: int| 0 <= i < remotes.len() && (#[trigger] remotes[i]).remote@ != "git"@
}

/// Some real remote counterpart points exactly where the local bookmark
/// points.
pub open spec fn spec_remote_match(remotes: Seq<RemoteCounterpart>) -> bool {
    exists|i: int|
        0 <= i < remotes.len() && (#[trigger] remotes[i]).remote@ != "git"@
            && remotes[i].target_matches
}

/// Synced: some real remote counterpart matches, or there is no real remote
/// at all (nothing to be out of sync with).
pub open spec fn spec_is_synced(remotes: Seq<RemoteCounterpart>) -> bool {
    spec_remote_match(remotes) || !spec_has_remote(remotes)
}

/// Scan the remote counterparts of one bookmark name and decide whether it
/// has a real remote and whether it is synced with one.
pub fn sync_status(remotes: &Vec<RemoteCounterpart>) -> (r: (bool, bool))
    ensures
        r.0 == spec_has_remote(remotes@),
        r.1 == spec_is_synced(remotes@),
{
    let n: usize = remotes.len();
    let mut has_remote: bool = false;
    let mut matched: bool = false;
    let mut i: usize = 0;
    while i < n
        invariant
            i <= n,
            n == remotes@.len(),
            has_remote == exists|k: int|
                0 <= k < i && (#[trigger] remotes@[k]).remote@ != "git"@,
            matched == exists|k: int|
                0 <= k < i && (#[trigger] remotes@[k]).remote@ != "git"@
                    && remotes@[k].target_matches,
        decreases n - i,
    {
        let rc = &remotes[i];
        if !crate::strutil::str_eq(rc.remote.as_str(), "git") {
            has_remote = true;
            if rc.target_matches {
                matched = true;
            }
        }
        i += 1;
    }
    (has_remote, matched || !has_remote)
}

/// Put the directly attached bookmarks (distance 0) in front of the ancestor
/// bookmarks, which keep their order. With the ancestor list sorted by
/// distance, the combined list is sorted by distance too.
pub fn combine_bookmarks(direct: Vec<String>, ancestors: Vec<(String, usize)>) -> (out: Vec<
    (String, usize),
>)
    ensures
        out@.len() == direct@.len() + ancestors@.len(),
        forall|i: int| 0 <= i < direct@.len() ==> #[trigger] out@[i] == (direct@[i], 0usize),
        forall|i: int|
            0 <= i < ancestors@.len() ==> #[trigger] out@[direct@.len() + i] == ancestors@[i],
        (forall|i: int, j: int|
            0 <= i < j < ancestors@.len() ==> (#[trigger] ancestors@[i]).1 <= (
            #[trigger] ancestors@[j]).1) ==> forall|i: int, j: int|
            0 <= i < j < out@.len() ==> (#[trigger] out@[i]).1 <= (#[trigger] out@[j]).1,
{
    let mut out: Vec<(String, usize)> = Vec::new();
    let dn: usize = direct.len();
    let mut i: usize = 0;
    while i < dn
        invariant
            i <= dn,
            dn == direct@.len(),
            out@.len() == i,
            forall|k: int| 0 <= k < i ==> #[trigger] out@[k] == (direct@[k], 0usize),
        decreases dn - i,
    {
        out.push((direct[i].clone(), 0));
        i += 1;
    }
    let an: usize = ancestors.len();
    let mut j: usize = 0;
    while j < an
        invariant
            j <= an,
            an == ancestors@.len(),
            dn == direct@.len(),
            out@.len() == dn + j,
            forall|k: int| 0 <= k < dn ==> #[trigger] out@[k] == (direct@[k], 0usize),
            forall|k: int| 0 <= k < j ==> #[trigger] out@[dn + k] == ancestors@[k],
        decreases an - j,
    {
        out.push((ancestors[j].0.clone(), ancestors[j].1));
        assert(out@[dn + j] == ancestors@[j as int]);
        j += 1;
    }
    proof {
        if forall|i: int, j: int|
            0 <= i < j < ancestors@.len() ==> (#[trigger] ancestors@[i]).1 <= (
            #[trigger] ancestors@[j]).1 {
            assert forall|i: int, j: int|
                0 <= i < j < out@.len() implies (#[trigger] out@[i]).1 <= (
            #[trigger] out@[j]).1 by {
                if i < dn {
                    assert(out@[i] == (direct@[i], 0usize));
                }
                if j >= dn {
                    let b = j - dn;
                    assert(out@[dn + b] == ancestors@[b]);
                    if i >= dn {
                        let a = i - dn;
                        assert(out@[dn + a] == ancestors@[a]);
                        assert(ancestors@[a].1 <= ancestors@[b].1);
                    }
                }
            }
        }
    }
    out
}

/// Assemble the snapshot from the commit's facts, the combined bookmark list,
/// and the remote counterparts of the first (closest) bookmark. With an empty
/// bookmark list `remotes` is ignored: nothing is tracked, so nothing needs a
/// push.
pub fn assemble(
    facts: CommitFacts,
    bookmarks: Vec<(String, usize)>,
    remotes: &Vec<RemoteCounterpart>,
    id_length: usize,
) -> (info: JjInfo)
    ensures
        info.change_id@ == spec_change_id_display(facts.change_id_bytes@, id_length as nat),
        info.change_id_prefix_len == ({
            let unique: usize = facts.unique_prefix_len.unwrap_or(id_length);
            if unique <= info.change_id@.len() {
                unique as int
            } else {
                info.change_id@.len() as int
            }
        }),
        info.bookmarks == bookmarks,
        info.empty_desc == spec_is_blank(facts.description@),
        info.conflict == facts.has_conflict,
        info.divergent == (facts.commits_for_change > 1),
        bookmarks@.len() == 0 ==> !info.has_remote && info.is_synced,
        bookmarks@.len() > 0 ==> info.has_remote == spec_has_remote(remotes@)
            && info.is_synced == spec_is_synced(remotes@),
{
    let change_id = change_id_display(&facts.change_id_bytes, id_length);
    let display_len: usize = change_id.as_str().unicode_len();
    let unique: usize = facts.unique_prefix_len.unwrap_or(id_length);
    let change_id_prefix_len = if unique <= display_len {
        unique
    } else {
        display_len
    };
    let empty_desc = crate::strutil::str_is_blank(facts.description.as_str());
    let (has_remote, is_synced) = if bookmarks.len() == 0 {
        (false, true)
    } else {
        sync_status(remotes)
    };
    JjInfo {
        change_id,
        change_id_prefix_len,
        bookmarks,
        empty_desc,
        conflict: facts.has_conflict,
        divergent: facts.commits_for_change > 1,
        has_remote,
        is_synced,
    }
}

} // verus!
