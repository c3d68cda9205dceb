//! The immutable head index: the set of commits the ancestor search must not
//! traverse past, built from the repository's remote bookmarks and tags.

use vstd::prelude::*;

verus! {

/// One remote bookmark as the repository reports it.
#[derive(Debug)]
pub struct RemoteBookmark {
    /// The bookmark's name.
    pub name: String,
    /// The remote it lives on.
    pub remote: String,
    /// A local bookmark of the same name exists.
    pub has_local: bool,
    /// The commit it points to; absent when the reference is gone or
    /// conflicted.
    pub target: Option<Vec<u8>>,
}

/// A trunk bookmark: one of the well-known names on one of the well-known
/// remotes. The match is fixed and case-sensitive, not configurable.
pub open spec fn spec_is_trunk(name: Seq<char>, remote: Seq<char>) -> bool {
    (remote == "origin"@ || remote == "upstream"@) && (name == "main"@ || name == "master"@
        || name == "trunk"@)
}

/// Whether a remote bookmark contributes its target to the immutable head
/// set: it lives on a real remote (not the pass-through remote named `git`),
/// and is either trunk or untracked (no local counterpart).
pub open spec fn spec_contributes(b: RemoteBookmark) -> bool {
    b.remote@ != "git"@ && (spec_is_trunk(b.name@, b.remote@) || !b.has_local)
}

/// A commit id belongs to the immutable head set: some contributing remote
/// bookmark points at it, or some tag points at it.
pub open spec fn spec_immutable_head(
    remotes: Seq<RemoteBookmark>,
    tags: Seq<Option<Vec<u8>>>,
    id: Seq<u8>,
) -> bool {
    (exists|i: int|
        0 <= i < remotes.len() && spec_contributes(#[trigger] remotes[i]) && remotes[i].target
            is Some && remotes[i].target->0@ == id) || (exists|i: int|
        0 <= i < tags.len() && #[trigger] tags[i] is Some && tags[i]->0@ == id)
}

/// Some element of `ids` holds exactly the bytes `id`.
pub open spec fn spec_ids_contain(ids: Seq<Vec<u8>>, id: Seq<u8>) -> bool {
    exists|j: int| 0 <= j < ids.len() && (#[trigger] ids[j])@ == id
}

/// Whatever `ids` already holds is still there after one more id is pushed.
proof fn lemma_contain_push(ids: Seq<Vec<u8>>, x: Vec<u8>, id: Seq<u8>)
    requires
        spec_ids_contain(ids, id),
    ensures
        spec_ids_contain(ids.push(x), id),
{
    let j = choose|j: int| 0 <= j < ids.len() && (#[trigger] ids[j])@ == id;
    assert((ids.push(x)[j])@ == id);
}

fn is_trunk_bookmark(b: &RemoteBookmark) -> (r: bool)
    ensures
        r == spec_is_trunk(b.name@, b.remote@),
{
    let remote_ok = crate::strutil::str_eq(b.remote.as_str(), "origin") || crate::strutil::str_eq(
        b.remote.as_str(),
        "upstream",
    );
    let name_ok = crate::strutil::str_eq(b.name.as_str(), "main") || crate::strutil::str_eq(
        b.name.as_str(),
        "master",
    ) || crate::strutil::str_eq(b.name.as_str(), "trunk");
    remote_ok && name_ok
}

/// Build the immutable head set: the resolved targets of every trunk or
/// untracked remote bookmark on a real remote, and of every tag. The result
/// holds exactly the ids that belong to the set, possibly with repeats.
pub fn build_immutable_heads(remotes: &Vec<RemoteBookmark>, tags: &Vec<Option<Vec<u8>>>) -> (heads:
    Vec<Vec<u8>>)
    ensures
        forall|j: int|
            0 <= j < heads@.len() ==> spec_immutable_head(
                remotes@,
                tags@,
                (#[trigger] heads@[j])@,
            ),
        forall|id: Seq<u8>|
            spec_immutable_head(remotes@, tags@, id) ==> spec_ids_contain(heads@, id),
{
    let mut heads: Vec<Vec<u8>> = Vec::new();
    let rn: usize = remotes.len();
    let mut i: usize = 0;
    while i < rn
        invariant
            i <= rn,
            rn == remotes@.len(),
            forall|j: int|
                0 <= j < heads@.len() ==> spec_immutable_head(
                    remotes@,
                    tags@,
                    (#[trigger] heads@[j])@,
                ),
            forall|k: int|
                0 <= k < i && spec_contributes(#[trigger] remotes@[k]) && remotes@[k].target
                    is Some ==> spec_ids_contain(heads@, remotes@[k].target->0@),
        decreases rn - i,
    {
        let b = &remotes[i];
        let passthrough = crate::strutil::str_eq(b.remote.as_str(), "git");
        let trunk = is_trunk_bookmark(b);
        if !passthrough && (trunk || !b.has_local) {
            match &b.target {
                Some(id) => {
                    let ghost before = heads@;
                    heads.push(id.clone());
                    proof {
                        assert(heads@ =~= before.push(heads@.last()));
                        assert(heads@[before.len() as int]@ == remotes@[i as int].target->0@);
                        assert forall|k: int|
                            0 <= k < i + 1 && spec_contributes(#[trigger] remotes@[k])
                                && remotes@[k].target is Some implies spec_ids_contain(
                            heads@,
                            remotes@[k].target->0@,
                        ) by {
                            if k < i {
                                lemma_contain_push(
                                    before,
                                    heads@.last(),
                                    remotes@[k].target->0@,
                                );
                            }
                        }
                    }
                },
                None => {},
            }
        }
        i += 1;
    }
    let tn: usize = tags.len();
    let mut t: usize = 0;
    while t < tn
        invariant
            t <= tn,
            tn == tags@.len(),
            rn == remotes@.len(),
            forall|j: int|
                0 <= j < heads@.len() ==> spec_immutable_head(
                    remotes@,
                    tags@,
                    (#[trigger] heads@[j])@,
                ),
            forall|k: int|
                0 <= k < rn && spec_contributes(#[trigger] remotes@[k]) && remotes@[k].target
                    is Some ==> spec_ids_contain(heads@, remotes@[k].target->0@),
            forall|k: int|
                0 <= k < t && #[trigger] tags@[k] is Some ==> spec_ids_contain(
                    heads@,
                    tags@[k]->0@,
                ),
        decreases tn - t,
    {
        match &tags[t] {
            Some(id) => {
                let ghost before = heads@;
                heads.push(id.clone());
                proof {
                    assert(heads@ =~= before.push(heads@.last()));
                    assert(heads@[before.len() as int]@ == tags@[t as int]->0@);
                    assert forall|k: int|
                        0 <= k < rn && spec_contributes(#[trigger] remotes@[k])
                            && remotes@[k].target is Some implies spec_ids_contain(
                        heads@,
                        remotes@[k].target->0@,
                    ) by {
                        lemma_contain_push(before, heads@.last(), remotes@[k].target->0@);
                    }
                    assert forall|k: int|
                        0 <= k < t + 1 && #[trigger] tags@[k] is Some implies spec_ids_contain(
                        heads@,
                        tags@[k]->0@,
                    ) by {
                        if k < t {
                            lemma_contain_push(before, heads@.last(), tags@[k]->0@);
                        }
                    }
                }
            },
            None => {},
        }
        t += 1;
    }
    proof {
        assert forall|id: Seq<u8>|
            spec_immutable_head(remotes@, tags@, id) implies spec_ids_contain(heads@, id) by {
            if exists|k: int|
                0 <= k < remotes@.len() && spec_contributes(#[trigger] remotes@[k])
                    && remotes@[k].target is Some && remotes@[k].target->0@ == id {
                let k = choose|k: int|
                    0 <= k < remotes@.len() && spec_contributes(#[trigger] remotes@[k])
                        && remotes@[k].target is Some && remotes@[k].target->0@ == id;
                assert(spec_ids_contain(heads@, remotes@[k].target->0@));
            } else {
                let k = choose|k: int| 0 <= k < tags@.len() && #[trigger] tags@[k] is Some
                    && tags@[k]->0@ == id;
                assert(spec_ids_contain(heads@, tags@[k]->0@));
            }
        }
    }
    heads
}

} // verus!
