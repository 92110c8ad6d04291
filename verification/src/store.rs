//! The registry snapshot: an immutable mapping from actor paths to actor
//! references, with point lookup, structural insert, and a sweep that drops
//! dead references.

use vstd::prelude::*;

use crate::assoc::{lemma_map_of_contains, lemma_map_of_index, lemma_unique_drop_last, map_of, unique_keys};
use crate::path::{path_eq, ActorPath, ActorPathView};

verus! {

/// A shareable handle to an actor. `alive` is the liveness the component
/// layer reports for it; a dead reference is what the reaper removes.
#[derive(Clone, Copy, PartialEq, Eq, Structural, Debug)]
pub struct ActorRef {
    pub id: u64,
    pub alive: bool,
}

impl ActorRef {
    /// Whether the underlying actor has terminated.
    pub fn is_dead(&self) -> (r: bool)
        ensures
            r == !self.alive,
    {
        !self.alive
    }
}

/// The mathematical form of one stored entry.
pub open spec fn entry_view(e: (ActorPath, ActorRef)) -> (ActorPathView, ActorRef) {
    (e.0@, e.1)
}

/// The mathematical form of an entry list.
pub open spec fn entry_views(s: Seq<(ActorPath, ActorRef)>) -> Seq<(ActorPathView, ActorRef)> {
    s.map_values(|e: (ActorPath, ActorRef)| entry_view(e))
}

/// Indexing the mathematical entry list reads the entry's own view.
pub broadcast proof fn lemma_entry_views_index(s: Seq<(ActorPath, ActorRef)>, i: int)
    requires
        0 <= i < s.len(),
    ensures
        #[trigger] entry_views(s)[i] == entry_view(s[i]),
{
}

/// The mathematical entry list has one element per stored entry.
pub broadcast proof fn lemma_entry_views_len(s: Seq<(ActorPath, ActorRef)>)
    ensures
        #[trigger] entry_views(s).len() == s.len(),
{
}

/// The entries whose reference is still alive, in order.
pub open spec fn live_entries(s: Seq<(ActorPathView, ActorRef)>) -> Seq<(ActorPathView, ActorRef)>
    decreases s.len(),
{
    if s.len() == 0 {
        Seq::empty()
    } else if s.last().1.alive {
        live_entries(s.drop_last()).push(s.last())
    } else {
        live_entries(s.drop_last())
    }
}

/// The submapping of entries whose reference is still alive.
pub open spec fn live_submap(m: Map<ActorPathView, ActorRef>) -> Map<ActorPathView, ActorRef> {
    Map::new(|k: ActorPathView| m.contains_key(k) && m[k].alive, |k: ActorPathView| m[k])
}

/// Dropping dead entries denotes exactly the live submapping, and keeps keys
/// unique.
pub proof fn lemma_live_entries_map(s: Seq<(ActorPathView, ActorRef)>)
    requires
        unique_keys(s),
    ensures
        unique_keys(live_entries(s)),
        map_of(live_entries(s)) == live_submap(map_of(s)),
        live_entries(s).len() <= s.len(),
    decreases s.len(),
{
    if s.len() == 0 {
        assert(map_of(live_entries(s)) =~= live_submap(map_of(s)));
    } else {
        let s0 = s.drop_last();
        let e = s.last();
        lemma_unique_drop_last(s);
        lemma_live_entries_map(s0);
        lemma_map_of_contains(s0, e.0);
        assert forall|i: int| 0 <= i < s0.len() implies (#[trigger] s0[i]).0 != e.0 by {
            assert(s[i] == s0[i]);
            assert(s[i].0 != s.last().0);
        }
        assert(!map_of(s0).contains_key(e.0));
        if e.1.alive {
            assert(live_entries(s).drop_last() =~= live_entries(s0));
            assert(unique_keys(live_entries(s))) by {
                let ls = live_entries(s);
                let l0 = live_entries(s0);
                lemma_live_entries_keys(s0);
                assert forall|x: int, y: int|
                    0 <= x < y < ls.len() implies (#[trigger] ls[x]).0 != (#[trigger] ls[y]).0 by {
                    if y < ls.len() - 1 {
                        assert(ls[x] == l0[x] && ls[y] == l0[y]);
                    } else {
                        assert(ls[y] == e);
                        assert(ls[x] == l0[x]);
                        lemma_map_of_contains(l0, l0[x].0);
                        assert(map_of(l0).contains_key(l0[x].0));
                    }
                }
            }
            assert(map_of(live_entries(s)) =~= live_submap(map_of(s)));
        } else {
            assert(map_of(live_entries(s)) =~= live_submap(map_of(s)));
        }
    }
}

/// Every key among the live entries is a key of the original list.
proof fn lemma_live_entries_keys(s: Seq<(ActorPathView, ActorRef)>)
    ensures
        forall|i: int|
            0 <= i < live_entries(s).len() ==> exists|j: int|
                0 <= j < s.len() && s[j] == (#[trigger] live_entries(s)[i]),
    decreases s.len(),
{
    if s.len() > 0 {
        lemma_live_entries_keys(s.drop_last());
        let ls = live_entries(s);
        let l0 = live_entries(s.drop_last());
        assert forall|i: int| 0 <= i < ls.len() implies exists|j: int|
            0 <= j < s.len() && s[j] == (#[trigger] ls[i]) by {
            if s.last().1.alive && i == ls.len() - 1 {
                assert(s[s.len() - 1] == ls[i]);
            } else {
                assert(ls[i] == l0[i]);
                let j = choose|j: int| 0 <= j < s.drop_last().len() && s.drop_last()[j] == l0[i];
                assert(s[j] == l0[i]);
            }
        }
    }
}

/// An immutable snapshot of the registry. Published snapshots are never
/// mutated; writers build a new one and publish it whole.
pub struct ActorStore {
    entries: Vec<(ActorPath, ActorRef)>,
}

impl View for ActorStore {
    type V = Map<ActorPathView, ActorRef>;

    closed spec fn view(&self) -> Map<ActorPathView, ActorRef> {
        map_of(entry_views(self.entries@))
    }
}

impl ActorStore {
    /// The ordered entry list this snapshot holds.
    pub closed spec fn entry_seq(&self) -> Seq<(ActorPathView, ActorRef)> {
        entry_views(self.entries@)
    }

    /// No path occurs twice.
    pub open spec fn wf(&self) -> bool {
        unique_keys(self.entry_seq())
    }

    /// The snapshot's map is the one its entry list denotes.
    pub proof fn lemma_view_is_entry_map(&self)
        ensures
            self@ == map_of(self.entry_seq()),
    {
    }

    pub fn new() -> (r: ActorStore)
        ensures
            r.wf(),
            r@ == Map::<ActorPathView, ActorRef>::empty(),
            r.entry_seq() == Seq::<(ActorPathView, ActorRef)>::empty(),
    {
        let r = ActorStore { entries: Vec::new() };
        proof {
            assert(entry_views(r.entries@) =~= Seq::<(ActorPathView, ActorRef)>::empty());
        }
        r
    }

    /// How many entries the snapshot holds.
    pub fn len(&self) -> (n: usize)
        ensures
            n == self.entry_seq().len(),
    {
        self.entries.len()
    }

    /// Whether a path is registered in this snapshot.
    pub fn contains(&self, path: &ActorPath) -> (r: bool)
        requires
            self.wf(),
        ensures
            r == self@.contains_key(path@),
    {
        let n = self.entries.len();
        let ghost s = entry_views(self.entries@);
        for i in 0..n
            invariant
                n == self.entries@.len(),
                s == entry_views(self.entries@),
                forall|j: int| 0 <= j < i ==> (#[trigger] s[j]).0 != path@,
        {
            if path_eq(&self.entries[i].0, path) {
                proof {
                    broadcast use lemma_entry_views_index;

                    assert(s[i as int].0 == path@);
                    lemma_map_of_contains(s, path@);
                }
                return true;
            }
        }
        proof {
            lemma_map_of_contains(s, path@);
        }
        false
    }

    /// Point lookup: the reference registered at a path, if any.
    pub fn get_by_actor_path(&self, path: &ActorPath) -> (r: Option<ActorRef>)
        requires
            self.wf(),
        ensures
            r == if self@.contains_key(path@) {
                Some(self@[path@])
            } else {
                Option::<ActorRef>::None
            },
    {
        let n = self.entries.len();
        let ghost s = entry_views(self.entries@);
        for i in 0..n
            invariant
                n == self.entries@.len(),
                s == entry_views(self.entries@),
                self.wf(),
                forall|j: int| 0 <= j < i ==> (#[trigger] s[j]).0 != path@,
        {
            if path_eq(&self.entries[i].0, path) {
                proof {
                    broadcast use lemma_entry_views_index;

                    assert(s[i as int].0 == path@);
                    lemma_map_of_index(s, i as int);
                }
                return Some(self.entries[i].1);
            }
        }
        proof {
            lemma_map_of_contains(s, path@);
        }
        None
    }

    /// Structural insert of a fresh path: extends the mapping by one binding.
    pub fn insert(&mut self, actor: ActorRef, path: ActorPath)
        requires
            old(self).wf(),
            !old(self)@.contains_key(path@),
        ensures
            final(self).wf(),
            final(self)@ == old(self)@.insert(path@, actor),
            final(self).entry_seq() == old(self).entry_seq().push((path@, actor)),
    {
        proof {
            lemma_map_of_contains(entry_views(self.entries@), path@);
        }
        let ghost s0 = entry_views(self.entries@);
        self.entries.push((path, actor));
        proof {
            let s1 = entry_views(self.entries@);
            assert(s1 =~= s0.push((path@, actor)));
            assert(s1.drop_last() =~= s0);
            assert forall|x: int, y: int|
                0 <= x < y < s1.len() implies (#[trigger] s1[x]).0 != (#[trigger] s1[y]).0 by {
                if y < s1.len() - 1 {
                    assert(s1[x] == s0[x] && s1[y] == s0[y]);
                } else {
                    assert(s1[y].0 == path@);
                    assert(s1[x] == s0[x]);
                }
            }
        }
    }

    /// A structurally fresh copy with the same entries.
    pub fn duplicate(&self) -> (r: ActorStore)
        ensures
            r.entry_seq() == self.entry_seq(),
            r@ == self@,
            r.wf() == self.wf(),
    {
        let n = self.entries.len();
        let mut out: Vec<(ActorPath, ActorRef)> = Vec::new();
        let ghost s = entry_views(self.entries@);
        for i in 0..n
            invariant
                n == self.entries@.len(),
                s == entry_views(self.entries@),
                entry_views(out@) == s.take(i as int),
        {
            let e = &self.entries[i];
            let ghost pre = out@;
            out.push((clone_path(&e.0), e.1));
            proof {
                broadcast use lemma_entry_views_index, lemma_entry_views_len;

                assert(s.len() == n);
                assert(entry_views(pre) == s.take(i as int));
                assert(entry_views(pre).len() == pre.len());
                assert(pre.len() == i as int);
                assert(out@.len() == pre.len() + 1);
                assert(out@ =~= pre.push(out@.last()));
                assert(out@.last().0@ == self.entries@[i as int].0@);
                assert(entry_view(out@.last()) == s[i as int]);
                assert forall|j: int|
                    0 <= j < out@.len() implies entry_views(out@)[j] == s.take(i + 1)[j] by {
                    if j < pre.len() {
                        assert(out@[j] == pre[j]);
                        assert(entry_views(pre)[j] == s.take(i as int)[j]);
                    } else {
                        assert(out@[j] == out@.last());
                    }
                }
                assert(entry_views(out@) =~= s.take(i + 1));
            }
        }
        proof {
            assert(entry_views(out@) =~= s);
        }
        ActorStore { entries: out }
    }

    /// The snapshot with this path freshly bound, or this snapshot unchanged
    /// if the path is already present. This is the re-check a publisher runs
    /// inside its update step to close the check-then-insert race.
    pub fn cloned_insert_if_absent(&self, actor: &ActorRef, path: &ActorPath) -> (r: ActorStore)
        requires
            self.wf(),
        ensures
            r.wf(),
            r@ == if self@.contains_key(path@) {
                self@
            } else {
                self@.insert(path@, *actor)
            },
    {
        let mut out = self.duplicate();
        if !out.contains(path) {
            out.insert(*actor, clone_path(path));
        }
        out
    }

    /// The snapshot without its dead entries, and how many were dropped.
    pub fn swept(&self) -> (r: (ActorStore, usize))
        requires
            self.wf(),
        ensures
            r.0.wf(),
            r.0.entry_seq() == live_entries(self.entry_seq()),
            r.0@ == live_submap(self@),
            r.1 == self.entry_seq().len() - live_entries(self.entry_seq()).len(),
    {
        let n = self.entries.len();
        let mut kept: Vec<(ActorPath, ActorRef)> = Vec::new();
        let mut removed: usize = 0;
        let ghost s = entry_views(self.entries@);
        for i in 0..n
            invariant
                n == self.entries@.len(),
                s == entry_views(self.entries@),
                entry_views(kept@) == live_entries(s.take(i as int)),
                removed == i - entry_views(kept@).len(),
        {
            proof {
                broadcast use lemma_entry_views_index, lemma_entry_views_len;

                assert(s.len() == n);
                assert(s.take(i + 1).drop_last() =~= s.take(i as int));
                assert(s.take(i + 1).last() == s[i as int]);
            }
            let e = &self.entries[i];
            if e.1.is_dead() {
                removed = removed + 1;
            } else {
                kept.push((clone_path(&e.0), e.1));
                proof {
                    broadcast use lemma_entry_views_index, lemma_entry_views_len;

                    assert(entry_views(kept@) =~= live_entries(s.take(i + 1)));
                }
            }
        }
        proof {
            assert(s.take(n as int) =~= s);
            lemma_live_entries_map(s);
        }
        (ActorStore { entries: kept }, removed)
    }
}

/// A structurally fresh path with the same view.
pub fn clone_path(p: &ActorPath) -> (r: ActorPath)
    ensures
        r@ == p@,
{
    match p {
        ActorPath::Unique(u) => ActorPath::Unique(crate::path::UniquePath { sys: u.sys, id: u.id }),
        ActorPath::Named(n) => {
            let m = n.segments.len();
            let mut segs: Vec<String> = Vec::new();
            for i in 0..m
                invariant
                    m == n.segments@.len(),
                    segs@.len() == i,
                    forall|j: int| 0 <= j < i ==> (#[trigger] segs@[j])@ == n.segments@[j]@,
            {
                segs.push(n.segments[i].clone());
            }
            let r = ActorPath::Named(crate::path::NamedPath { sys: n.sys, segments: segs });
            proof {
                assert(crate::path::segments_view(segs@) =~~= crate::path::segments_view(
                    n.segments@,
                ));
            }
            r
        }
    }
}

} // verus!
