//! The bounded ancestor bookmark search: a breadth-first walk over the commit
//! graph, driven step by step.
//!
//! The search itself never touches the repository. The caller asks it with
//! [`AncestorSearch::next_request`] which commit to read next, performs the
//! read, and hands the commit's bookmarks and parents back through
//! [`AncestorSearch::record`]; [`AncestorSearch::finish`] then yields the
//! bookmarks sorted by distance. Commits are identified by their id bytes.

use vstd::prelude::*;

use crate::strutil::{bytes_eq, clone_bytes, str_eq};

verus! {

/// One queued commit: its identifier and its distance from the working copy.
#[derive(Debug)]
pub struct QueueEntry {
    pub id: Vec<u8>,
    pub depth: usize,
}

/// A queue of commits, abstracted to (id bytes, distance) pairs.
pub open spec fn abs_queue(q: Seq<QueueEntry>) -> Seq<(Seq<u8>, nat)> {
    q.map_values(|e: QueueEntry| (e.id@, e.depth as nat))
}

/// Commit ids, abstracted to their bytes.
pub open spec fn abs_ids(ids: Seq<Vec<u8>>) -> Seq<Seq<u8>> {
    ids.map_values(|v: Vec<u8>| v@)
}

/// Collected bookmarks, abstracted to (name characters, distance) pairs.
pub open spec fn abs_found(found: Seq<(String, usize)>) -> Seq<(Seq<char>, nat)> {
    found.map_values(|b: (String, usize)| (b.0@, b.1 as nat))
}

/// Bookmark names, abstracted to their characters.
pub open spec fn abs_names(names: Seq<String>) -> Seq<Seq<char>> {
    names.map_values(|s: String| s@)
}

/// Some element of `ids` is exactly `id`.
pub open spec fn seq_contains_id(ids: Seq<Seq<u8>>, id: Seq<u8>) -> bool {
    exists|j: int| 0 <= j < ids.len() && ids[j] == id
}

/// Some collected bookmark already carries this name.
pub open spec fn has_name(found: Seq<(Seq<char>, nat)>, name: Seq<char>) -> bool {
    exists|i: int| 0 <= i < found.len() && (#[trigger] found[i]).0 == name
}

/// What popping the queue until a usable entry does: entries deeper than
/// `max_depth` or already visited are discarded; the first other entry is
/// taken out, marked visited, and returned.
pub open spec fn spec_drain(
    queue: Seq<(Seq<u8>, nat)>,
    visited: Seq<Seq<u8>>,
    max_depth: nat,
) -> (Seq<(Seq<u8>, nat)>, Seq<Seq<u8>>, Option<(Seq<u8>, nat)>)
    decreases queue.len(),
{
    if queue.len() == 0 {
        (queue, visited, None::<(Seq<u8>, nat)>)
    } else {
        let e = queue[0];
        if e.1 > max_depth || seq_contains_id(visited, e.0) {
            spec_drain(queue.drop_first(), visited, max_depth)
        } else {
            (queue.drop_first(), visited.push(e.0), Some(e))
        }
    }
}

/// What recording a batch of bookmark names at one depth does to the
/// collection: each name in order, first discovery wins — a name that is
/// already collected (at its shorter or equal distance) is not entered again.
pub open spec fn spec_add_found(
    found: Seq<(Seq<char>, nat)>,
    names: Seq<Seq<char>>,
    depth: nat,
) -> Seq<(Seq<char>, nat)>
    decreases names.len(),
{
    if names.len() == 0 {
        found
    } else {
        let prev = spec_add_found(found, names.drop_last(), depth);
        if has_name(prev, names.last()) {
            prev
        } else {
            prev.push((names.last(), depth))
        }
    }
}

/// The parents of one commit, queued at the next depth.
pub open spec fn spec_enqueued(parents: Seq<Seq<u8>>, depth: nat) -> Seq<(Seq<u8>, nat)> {
    parents.map_values(|p: Seq<u8>| (p, depth))
}

/// Distances never decrease along the list.
pub open spec fn depths_sorted(s: Seq<(Seq<char>, nat)>) -> bool {
    forall|i: int, j: int| 0 <= i < j < s.len() ==> (#[trigger] s[i]).1 <= (#[trigger] s[j]).1
}

/// Insert `e` behind every entry whose depth is at most `e`'s, so that equal
/// depths keep their order.
pub open spec fn spec_stable_insert(s: Seq<(Seq<char>, nat)>, e: (Seq<char>, nat)) -> Seq<
    (Seq<char>, nat),
>
    decreases s.len(),
{
    if s.len() == 0 {
        seq![e]
    } else if s.last().1 <= e.1 {
        s.push(e)
    } else {
        spec_stable_insert(s.drop_last(), e).push(s.last())
    }
}

/// Insertion sort by depth; stable, so entries of equal depth keep their
/// relative order.
pub open spec fn spec_stable_sort(s: Seq<(Seq<char>, nat)>) -> Seq<(Seq<char>, nat)>
    decreases s.len(),
{
    if s.len() == 0 {
        s
    } else {
        spec_stable_insert(spec_stable_sort(s.drop_last()), s.last())
    }
}

/// The entries lying at one distance, in their order.
pub open spec fn entries_at_depth(s: Seq<(Seq<char>, nat)>, d: nat) -> Seq<(Seq<char>, nat)> {
    s.filter(|e: (Seq<char>, nat)| e.1 == d)
}

proof fn lemma_stable_insert_filter(s: Seq<(Seq<char>, nat)>, e: (Seq<char>, nat), d: nat)
    ensures
        entries_at_depth(spec_stable_insert(s, e), d) == (if e.1 == d {
            entries_at_depth(s, d).push(e)
        } else {
            entries_at_depth(s, d)
        }),
    decreases s.len(),
{
    reveal(Seq::filter);
    if s.len() == 0 {
        assert(seq![e].drop_last() =~= Seq::<(Seq<char>, nat)>::empty());
        assert(seq![e].last() == e);
        assert(entries_at_depth(seq![e], d) == if e.1 == d {
            entries_at_depth(Seq::<(Seq<char>, nat)>::empty(), d).push(e)
        } else {
            entries_at_depth(Seq::<(Seq<char>, nat)>::empty(), d)
        });
        assert(entries_at_depth(Seq::<(Seq<char>, nat)>::empty(), d)
            == Seq::<(Seq<char>, nat)>::empty());
    } else if s.last().1 <= e.1 {
        assert(s.push(e).drop_last() =~= s);
        assert(s.push(e).last() == e);
        assert(entries_at_depth(s.push(e), d) == if e.1 == d {
            entries_at_depth(s, d).push(e)
        } else {
            entries_at_depth(s, d)
        });
    } else {
        lemma_stable_insert_filter(s.drop_last(), e, d);
        let inner = spec_stable_insert(s.drop_last(), e);
        assert(inner.push(s.last()).drop_last() =~= inner);
        assert(inner.push(s.last()).last() == s.last());
        assert(entries_at_depth(inner.push(s.last()), d) == if s.last().1 == d {
            entries_at_depth(inner, d).push(s.last())
        } else {
            entries_at_depth(inner, d)
        });
        assert(entries_at_depth(s, d) == if s.last().1 == d {
            entries_at_depth(s.drop_last(), d).push(s.last())
        } else {
            entries_at_depth(s.drop_last(), d)
        });
    }
}

/// The sort is stable: for each distance, the entries at that distance come
/// out exactly as they went in, in their original order.
pub proof fn lemma_stable_sort_stable(s: Seq<(Seq<char>, nat)>, d: nat)
    ensures
        entries_at_depth(spec_stable_sort(s), d) == entries_at_depth(s, d),
    decreases s.len(),
{
    reveal(Seq::filter);
    if s.len() > 0 {
        lemma_stable_sort_stable(s.drop_last(), d);
        lemma_stable_insert_filter(spec_stable_sort(s.drop_last()), s.last(), d);
        assert(entries_at_depth(s, d) == if s.last().1 == d {
            entries_at_depth(s.drop_last(), d).push(s.last())
        } else {
            entries_at_depth(s.drop_last(), d)
        });
    }
}

/// Where the stable insert puts the new entry: right in front of the first
/// suffix of strictly deeper entries.
proof fn lemma_stable_insert_at(s: Seq<(Seq<char>, nat)>, e: (Seq<char>, nat), j: int)
    requires
        0 <= j <= s.len(),
        forall|k: int| j <= k < s.len() ==> (#[trigger] s[k]).1 > e.1,
        j == 0 || s[j - 1].1 <= e.1,
    ensures
        spec_stable_insert(s, e) == s.take(j) + seq![e] + s.skip(j),
    decreases s.len(),
{
    if s.len() == 0 {
        assert(spec_stable_insert(s, e) =~= s.take(j) + seq![e] + s.skip(j));
    } else if j == s.len() {
        assert(s.last().1 <= e.1);
        assert(s.push(e) =~= s.take(j) + seq![e] + s.skip(j));
    } else {
        assert(s[s.len() - 1].1 > e.1);
        let d = s.drop_last();
        assert forall|k: int| j <= k < d.len() implies (#[trigger] d[k]).1 > e.1 by {
            assert(d[k] == s[k]);
        }
        lemma_stable_insert_at(d, e, j);
        assert(spec_stable_insert(d, e).push(s.last()) =~= s.take(j) + seq![e] + s.skip(j));
    }
}

fn contains_id(ids: &Vec<Vec<u8>>, id: &Vec<u8>) -> (r: bool)
    ensures
        r == seq_contains_id(abs_ids(ids@), id@),
{
    let n: usize = ids.len();
    let mut i: usize = 0;
    while i < n
        invariant
            i <= n,
            n == ids@.len(),
            forall|j: int| 0 <= j < i ==> (#[trigger] ids@[j])@ != id@,
        decreases n - i,
    {
        if bytes_eq(&ids[i], id) {
            assert(abs_ids(ids@)[i as int] == id@);
            return true;
        }
        i += 1;
    }
    assert(forall|j: int| 0 <= j < n ==> #[trigger] abs_ids(ids@)[j] != id@);
    false
}

fn found_contains_name(found: &Vec<(String, usize)>, name: &String) -> (r: bool)
    ensures
        r == has_name(abs_found(found@), name@),
{
    let n: usize = found.len();
    let mut i: usize = 0;
    while i < n
        invariant
            i <= n,
            n == found@.len(),
            forall|j: int| 0 <= j < i ==> (#[trigger] found@[j]).0@ != name@,
        decreases n - i,
    {
        if str_eq(found[i].0.as_str(), name.as_str()) {
            assert(abs_found(found@)[i as int].0 == name@);
            return true;
        }
        i += 1;
    }
    assert(forall|j: int| 0 <= j < n ==> (#[trigger] abs_found(found@)[j]).0 != name@);
    false
}

/// The state of one bounded breadth-first search.
pub struct AncestorSearch {
    /// The depth bound; entries deeper than this are never expanded or read.
    pub max_depth: usize,
    /// The immutable head set: a barrier the walk does not cross.
    pub immutable: Vec<Vec<u8>>,
    /// The work queue; entries before `head` are spent.
    pub queue: Vec<QueueEntry>,
    /// How many queue entries were already popped.
    pub head: usize,
    /// Every commit id that was handed out for reading.
    pub visited: Vec<Vec<u8>>,
    /// The bookmarks collected so far, in discovery order.
    pub found: Vec<(String, usize)>,
    /// The entry handed out by `next_request` and not yet recorded.
    pub pending: Option<QueueEntry>,
}

impl AncestorSearch {
    /// The entries still waiting in the queue.
    pub open spec fn pending_entries(self) -> Seq<(Seq<u8>, nat)> {
        abs_queue(self.queue@.skip(self.head as int))
    }

    /// The visited set, as id bytes.
    pub open spec fn visited_ids(self) -> Seq<Seq<u8>> {
        abs_ids(self.visited@)
    }

    /// The immutable head set, as id bytes.
    pub open spec fn immutable_ids(self) -> Seq<Seq<u8>> {
        abs_ids(self.immutable@)
    }

    /// The collected bookmarks, as (name, distance) pairs.
    pub open spec fn found_bookmarks(self) -> Seq<(Seq<char>, nat)> {
        abs_found(self.found@)
    }

    /// The entry handed out and awaiting its record.
    pub open spec fn pending_abs(self) -> Option<(Seq<u8>, nat)> {
        match self.pending {
            Some(e) => Some((e.id@, e.depth as nat)),
            None => None,
        }
    }

    /// The state's invariant: queued entries lie at depth one or more, the
    /// pending entry and every collected bookmark lie between depth one and
    /// the bound.
    pub open spec fn wf(self) -> bool {
        &&& self.head <= self.queue@.len()
        &&& forall|i: int| 0 <= i < self.queue@.len() ==> 1 <= (#[trigger] self.queue@[i]).depth
        &&& match self.pending {
            Some(e) => 1 <= e.depth && e.depth <= self.max_depth,
            None => true,
        }
        &&& forall|i: int|
            0 <= i < self.found@.len() ==> 1 <= (#[trigger] self.found@[i]).1 <= self.max_depth
    }

    /// Start a search from the working copy's parents. With `max_depth` zero
    /// the search is disabled: it will request nothing and find nothing.
    pub fn new(parents: &Vec<Vec<u8>>, max_depth: usize, immutable: Vec<Vec<u8>>) -> (s:
        AncestorSearch)
        ensures
            s.wf(),
            s.max_depth == max_depth,
            s.immutable_ids() == abs_ids(immutable@),
            s.found_bookmarks() == Seq::<(Seq<char>, nat)>::empty(),
            s.visited_ids() == Seq::<Seq<u8>>::empty(),
            s.pending is None,
            s.pending_entries() == spec_enqueued(abs_ids(parents@), 1),
    {
        let mut queue: Vec<QueueEntry> = Vec::new();
        let n: usize = parents.len();
        let mut i: usize = 0;
        while i < n
            invariant
                i <= n,
                n == parents@.len(),
                queue@.len() == i,
                forall|k: int|
                    0 <= k < i ==> (#[trigger] queue@[k]).id@ == parents@[k]@ && queue@[k].depth
                        == 1,
            decreases n - i,
        {
            queue.push(QueueEntry { id: clone_bytes(&parents[i]), depth: 1 });
            i += 1;
        }
        let s = AncestorSearch {
            max_depth,
            immutable,
            queue,
            head: 0,
            visited: Vec::new(),
            found: Vec::new(),
            pending: None,
        };
        proof {
            assert(s.queue@.skip(0) =~= s.queue@);
            assert(s.pending_entries() =~= spec_enqueued(abs_ids(parents@), 1));
            assert(s.found_bookmarks() =~= Seq::<(Seq<char>, nat)>::empty());
            assert(s.visited_ids() =~= Seq::<Seq<u8>>::empty());
        }
        s
    }

    /// Pop the queue until a commit within the depth bound and not yet
    /// visited comes up; mark it visited, remember it as pending, and return
    /// its id so that the caller reads its bookmarks and parents. `None`
    /// means the search is finished. With a depth bound of zero no commit is
    /// ever handed out.
    pub fn next_request(&mut self) -> (r: Option<Vec<u8>>)
        requires
            old(self).wf(),
            old(self).pending is None,
        ensures
            final(self).wf(),
            final(self).max_depth == old(self).max_depth,
            final(self).immutable == old(self).immutable,
            final(self).found == old(self).found,
            ({
                let (q, v, e) = spec_drain(
                    old(self).pending_entries(),
                    old(self).visited_ids(),
                    old(self).max_depth as nat,
                );
                final(self).pending_entries() == q && final(self).visited_ids() == v
                    && final(self).pending_abs() == e
            }),
            match final(self).pending_abs() {
                Some(en) => r is Some && r->0@ == en.0,
                None => r is None,
            },
            old(self).max_depth == 0 ==> r is None,
    {
        loop
            invariant
                self.wf(),
                self.pending is None,
                self.max_depth == old(self).max_depth,
                self.immutable == old(self).immutable,
                self.found == old(self).found,
                spec_drain(
                    self.pending_entries(),
                    self.visited_ids(),
                    self.max_depth as nat,
                ) == spec_drain(
                    old(self).pending_entries(),
                    old(self).visited_ids(),
                    old(self).max_depth as nat,
                ),
            ensures
                self.wf(),
                self.pending is None,
                self.max_depth == old(self).max_depth,
                self.immutable == old(self).immutable,
                self.found == old(self).found,
                self.head == self.queue@.len(),
                spec_drain(
                    self.pending_entries(),
                    self.visited_ids(),
                    self.max_depth as nat,
                ) == spec_drain(
                    old(self).pending_entries(),
                    old(self).visited_ids(),
                    old(self).max_depth as nat,
                ),
            decreases self.queue@.len() - self.head,
        {
            if self.head >= self.queue.len() {
                break ;
            }
            let ghost pre = self.pending_entries();
            let ghost pre_visited = self.visited_ids();
            let e_depth: usize = self.queue[self.head].depth;
            assert(pre[0] == (self.queue@[self.head as int].id@, e_depth as nat));
            if e_depth > self.max_depth {
                self.head += 1;
                proof {
                    assert(self.pending_entries() =~= pre.drop_first());
                }
            } else {
                let seen = contains_id(&self.visited, &self.queue[self.head].id);
                if seen {
                    self.head += 1;
                    proof {
                        assert(self.pending_entries() =~= pre.drop_first());
                    }
                } else {
                    let id = clone_bytes(&self.queue[self.head].id);
                    let id2 = clone_bytes(&id);
                    let id3 = clone_bytes(&id);
                    self.visited.push(id2);
                    self.pending = Some(QueueEntry { id: id3, depth: e_depth });
                    self.head += 1;
                    proof {
                        assert(self.pending_entries() =~= pre.drop_first());
                        assert(self.visited_ids() =~= pre_visited.push(pre[0].0));
                        assert(self.pending_abs() == Some(pre[0]));
                    }
                    return Some(id);
                }
            }
        }
        proof {
            assert(self.pending_entries() =~= Seq::<(Seq<u8>, nat)>::empty());
        }
        None
    }

    /// Record what the caller read for the pending commit: its locally
    /// attached bookmark names, entered at the pending depth unless the name
    /// was already found closer, and its parents, queued one level deeper —
    /// unless the commit is an immutable head (a barrier) or the next level
    /// would pass the depth bound.
    pub fn record(&mut self, bookmarks: &Vec<String>, parents: &Vec<Vec<u8>>)
        requires
            old(self).wf(),
            old(self).pending is Some,
        ensures
            final(self).wf(),
            final(self).pending is None,
            final(self).max_depth == old(self).max_depth,
            final(self).immutable == old(self).immutable,
            final(self).visited == old(self).visited,
            ({
                let (pid, pdepth) = old(self).pending_abs()->0;
                &&& final(self).found_bookmarks() == spec_add_found(
                    old(self).found_bookmarks(),
                    abs_names(bookmarks@),
                    pdepth,
                )
                &&& final(self).pending_entries() == old(self).pending_entries() + (
                if !seq_contains_id(old(self).immutable_ids(), pid) && pdepth < old(
                    self,
                ).max_depth as nat {
                    spec_enqueued(abs_ids(parents@), pdepth + 1)
                } else {
                    Seq::<(Seq<u8>, nat)>::empty()
                })
            }),
    {
        let p = self.pending.take().unwrap();
        let depth: usize = p.depth;
        let ghost names = abs_names(bookmarks@);
        let ghost found0 = self.found_bookmarks();
        let n: usize = bookmarks.len();
        let mut i: usize = 0;
        proof {
            assert(names.take(0) =~= Seq::<Seq<char>>::empty());
        }
        while i < n
            invariant
                i <= n,
                n == bookmarks@.len(),
                names == abs_names(bookmarks@),
                1 <= depth <= self.max_depth,
                self.found_bookmarks() == spec_add_found(found0, names.take(i as int), depth as nat),
                forall|k: int|
                    0 <= k < self.found@.len() ==> 1 <= (#[trigger] self.found@[k]).1
                        <= self.max_depth,
                self.queue == old(self).queue,
                self.head == old(self).head,
                self.visited == old(self).visited,
                self.immutable == old(self).immutable,
                self.max_depth == old(self).max_depth,
                self.pending is None,
            decreases n - i,
        {
            let ghost before = self.found_bookmarks();
            let name = &bookmarks[i];
            if !found_contains_name(&self.found, name) {
                self.found.push((name.clone(), depth));
                proof {
                    assert(self.found_bookmarks() =~= before.push((name@, depth as nat)));
                }
            }
            proof {
                assert(names.take(i + 1).drop_last() =~= names.take(i as int));
                assert(names.take(i + 1).last() == names[i as int]);
                assert(names[i as int] == bookmarks@[i as int]@);
                assert(self.found_bookmarks() == spec_add_found(found0, names.take(i + 1), depth as nat));
            }
            i += 1;
        }
        proof {
            assert(names.take(n as int) =~= names);
        }
        let barrier = contains_id(&self.immutable, &p.id);
        if !barrier && depth < self.max_depth {
            let ghost pend0 = self.pending_entries();
            let ghost pars = abs_ids(parents@);
            let pn: usize = parents.len();
            let mut j: usize = 0;
            proof {
                assert(pend0 + spec_enqueued(pars.take(0), (depth + 1) as nat) =~= pend0);
            }
            while j < pn
                invariant
                    j <= pn,
                    pn == parents@.len(),
                    pars == abs_ids(parents@),
                    1 <= depth < self.max_depth,
                    self.pending_entries() == pend0 + spec_enqueued(
                        pars.take(j as int),
                        (depth + 1) as nat,
                    ),
                    forall|k: int|
                        0 <= k < self.queue@.len() ==> 1 <= (#[trigger] self.queue@[k]).depth,
                    self.head <= self.queue@.len(),
                    self.visited == old(self).visited,
                    self.immutable == old(self).immutable,
                    self.max_depth == old(self).max_depth,
                    self.pending is None,
                    self.found_bookmarks() == spec_add_found(found0, names, depth as nat),
                    forall|k: int|
                        0 <= k < self.found@.len() ==> 1 <= (#[trigger] self.found@[k]).1
                            <= self.max_depth,
                decreases pn - j,
            {
                let ghost qpre = self.pending_entries();
                self.queue.push(QueueEntry { id: clone_bytes(&parents[j]), depth: depth + 1 });
                proof {
                    assert(self.pending_entries() =~= qpre.push((parents@[j as int]@, (depth + 1) as nat)));
                    assert(spec_enqueued(pars.take(j + 1), (depth + 1) as nat) =~= spec_enqueued(
                        pars.take(j as int),
                        (depth + 1) as nat,
                    ).push((pars[j as int], (depth + 1) as nat)));
                    assert(self.pending_entries() =~= pend0 + spec_enqueued(
                        pars.take(j + 1),
                        (depth + 1) as nat,
                    ));
                }
                j += 1;
            }
            proof {
                assert(pars.take(pn as int) =~= pars);
            }
        } else {
            proof {
                assert(self.pending_entries() + Seq::<(Seq<u8>, nat)>::empty()
                    =~= self.pending_entries());
            }
        }
    }

    /// Hand out the collected bookmarks, sorted by ascending distance.
    /// The sort is stable: bookmarks found at the same distance keep their
    /// discovery order.
    pub fn finish(self) -> (r: Vec<(String, usize)>)
        ensures
            abs_found(r@) == spec_stable_sort(abs_found(self.found@)),
            depths_sorted(abs_found(r@)),
            forall|d: nat|
                #[trigger] entries_at_depth(abs_found(r@), d) == entries_at_depth(
                    abs_found(self.found@),
                    d,
                ),
    {
        let found = self.found;
        let n: usize = found.len();
        let mut out: Vec<(String, usize)> = Vec::new();
        let mut i: usize = 0;
        proof {
            assert(abs_found(found@.take(0)) =~= Seq::<(Seq<char>, nat)>::empty());
            assert(abs_found(out@) =~= spec_stable_sort(abs_found(found@.take(0))));
        }
        while i < n
            invariant
                i <= n,
                n == found@.len(),
                abs_found(out@) == spec_stable_sort(abs_found(found@.take(i as int))),
                depths_sorted(abs_found(out@)),
            decreases n - i,
        {
            let e_name = found[i].0.clone();
            let e_d: usize = found[i].1;
            let mut j: usize = out.len();
            while j > 0 && out[j - 1].1 > e_d
                invariant
                    j <= out@.len(),
                    forall|k: int| j <= k < out@.len() ==> (#[trigger] out@[k]).1 > e_d,
                decreases j,
            {
                j -= 1;
            }
            let ghost s = abs_found(out@);
            let ghost e = (e_name@, e_d as nat);
            proof {
                assert(e_name@ == found@[i as int].0@);
                assert forall|k: int| j <= k < s.len() implies (#[trigger] s[k]).1 > e.1 by {
                    assert(out@[k].1 > e_d);
                }
                assert(j == 0 || s[j as int - 1].1 <= e.1);
                lemma_stable_insert_at(s, e, j as int);
            }
            out.insert(j, (e_name, e_d));
            proof {
                assert(abs_found(out@) =~= s.take(j as int) + seq![e] + s.skip(j as int));
                assert(abs_found(found@.take(i + 1)).drop_last() =~= abs_found(
                    found@.take(i as int),
                ));
                assert(abs_found(found@.take(i + 1)).last() == e);
                assert(abs_found(out@) == spec_stable_sort(abs_found(found@.take(i + 1))));
                assert forall|a: int, b: int|
                    0 <= a < b < abs_found(out@).len() implies (#[trigger] abs_found(out@)[a]).1
                    <= (#[trigger] abs_found(out@)[b]).1 by {
                    let cur = abs_found(out@);
                    assert(cur == s.take(j as int) + seq![e] + s.skip(j as int));
                    if a < j && b < j {
                        assert(cur[a] == s[a] && cur[b] == s[b]);
                    } else if a < j && b == j {
                        assert(cur[a] == s[a] && cur[b] == e);
                        assert(s[j - 1].1 <= e.1);
                        assert(a <= j - 1);
                    } else if a < j && b > j {
                        assert(cur[a] == s[a] && cur[b] == s[b - 1]);
                        if b - 1 >= j {
                            assert(s[b - 1].1 > e.1);
                            assert(s[j - 1].1 <= e.1);
                        }
                    } else if a == j {
                        assert(cur[a] == e && cur[b] == s[b - 1]);
                        assert(s[b - 1].1 > e.1);
                    } else {
                        assert(cur[a] == s[a - 1] && cur[b] == s[b - 1]);
                    }
                }
            }
            i += 1;
        }
        proof {
            assert(found@.take(n as int) =~= found@);
            assert forall|d: nat|
                #[trigger] entries_at_depth(abs_found(out@), d) == entries_at_depth(
                    abs_found(found@),
                    d,
                ) by {
                lemma_stable_sort_stable(abs_found(found@), d);
            }
        }
        out
    }
}

} // verus!
