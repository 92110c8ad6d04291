//! The reaper: a periodic sweep of dead references out of the registry, with
//! a self-tuning interval that backs off geometrically while the registry is
//! stable and tightens again after bursts of termination.

use vstd::prelude::*;

use crate::assoc::lemma_map_of_index;
use crate::registry::{cell_store, RegistryCell};
use crate::store::{lemma_live_entries_map, live_entries, live_submap};

verus! {

/// Default shortest interval between runs, in milliseconds.
pub const DEFAULT_FLOOR_MS: u64 = 100;

/// Default longest interval between runs, in milliseconds.
pub const DEFAULT_CEILING_MS: u64 = 10000;

/// Default geometric growth factor.
pub const DEFAULT_FACTOR: u64 = 2;

/// One lengthening step on a bare interval.
pub open spec fn incr_step(curr: u64, factor: u64, ceiling: u64) -> u64 {
    if curr * factor > ceiling {
        ceiling
    } else {
        (curr * factor) as u64
    }
}

/// One shortening step on a bare interval.
pub open spec fn decr_step(curr: u64, factor: u64, floor: u64) -> u64 {
    if curr / factor < floor {
        floor
    } else {
        curr / factor
    }
}

/// A bounded geometric backoff: the current interval moves between a floor
/// and a ceiling by a constant factor.
pub struct BackoffStrategy {
    curr: u64,
    floor: u64,
    ceiling: u64,
    factor: u64,
}

impl BackoffStrategy {
    pub open spec fn wf(&self) -> bool {
        &&& 1 <= self.floor()
        &&& self.floor() <= self.curr()
        &&& self.curr() <= self.ceiling()
        &&& 1 <= self.factor()
    }

    pub closed spec fn curr(&self) -> u64 {
        self.curr
    }

    pub closed spec fn floor(&self) -> u64 {
        self.floor
    }

    pub closed spec fn ceiling(&self) -> u64 {
        self.ceiling
    }

    pub closed spec fn factor(&self) -> u64 {
        self.factor
    }

    /// A strategy with the suggested default bounds and factor.
    pub fn default_strategy() -> (r: BackoffStrategy)
        ensures
            r.wf(),
            r.curr() == DEFAULT_FLOOR_MS,
            r.floor() == DEFAULT_FLOOR_MS,
            r.ceiling() == DEFAULT_CEILING_MS,
            r.factor() == DEFAULT_FACTOR,
    {
        BackoffStrategy {
            curr: DEFAULT_FLOOR_MS,
            floor: DEFAULT_FLOOR_MS,
            ceiling: DEFAULT_CEILING_MS,
            factor: DEFAULT_FACTOR,
        }
    }

    /// The current interval in milliseconds.
    pub fn current(&self) -> (r: u64)
        ensures
            r == self.curr(),
    {
        self.curr
    }

    /// Lengthens the interval by the factor, bounded by the ceiling.
    pub fn incr(&mut self)
        requires
            old(self).wf(),
        ensures
            final(self).wf(),
            final(self).curr() == incr_step(old(self).curr(), old(self).factor(), old(self).ceiling()),
            final(self).curr() >= old(self).curr(),
            final(self).floor() == old(self).floor(),
            final(self).ceiling() == old(self).ceiling(),
            final(self).factor() == old(self).factor(),
    {
        if self.curr > self.ceiling / self.factor {
            proof {
                vstd::arithmetic::div_mod::lemma_fundamental_div_mod(
                    self.ceiling as int,
                    self.factor as int,
                );
                assert(self.curr * self.factor > self.ceiling) by (nonlinear_arith)
                    requires
                        self.curr > self.ceiling / self.factor,
                        self.factor >= 1,
                        self.ceiling == self.factor * (self.ceiling / self.factor) + self.ceiling
                            % self.factor,
                        0 <= self.ceiling % self.factor < self.factor,
                ;
            }
            self.curr = self.ceiling;
        } else {
            proof {
                assert(self.curr * self.factor <= self.ceiling) by (nonlinear_arith)
                    requires
                        self.curr <= self.ceiling / self.factor,
                        self.factor >= 1,
                        self.ceiling / self.factor
                            == (self.ceiling as int) / (self.factor as int),
                        0 <= self.ceiling,
                ;
                assert(self.curr * self.factor >= self.curr) by (nonlinear_arith)
                    requires
                        self.factor >= 1,
                        self.curr >= 0,
                ;
            }
            self.curr = self.curr * self.factor;
        }
    }

    /// Shortens the interval by the factor, bounded by the floor.
    pub fn decr(&mut self)
        requires
            old(self).wf(),
        ensures
            final(self).wf(),
            final(self).curr() == decr_step(old(self).curr(), old(self).factor(), old(self).floor()),
            final(self).curr() <= old(self).curr(),
            final(self).floor() == old(self).floor(),
            final(self).ceiling() == old(self).ceiling(),
            final(self).factor() == old(self).factor(),
    {
        let lowered = self.curr / self.factor;
        proof {
            vstd::arithmetic::div_mod::lemma_div_is_ordered_by_denominator(
                self.curr as int,
                1,
                self.factor as int,
            );
        }
        if lowered < self.floor {
            self.curr = self.floor;
        } else {
            self.curr = lowered;
        }
    }
}

/// The interval after `n` consecutive lengthening steps.
pub open spec fn iter_incr(curr: u64, factor: u64, ceiling: u64, n: nat) -> u64
    decreases n,
{
    if n == 0 {
        curr
    } else {
        incr_step(iter_incr(curr, factor, ceiling, (n - 1) as nat), factor, ceiling)
    }
}

/// The interval after `n` consecutive shortening steps.
pub open spec fn iter_decr(curr: u64, factor: u64, floor: u64, n: nat) -> u64
    decreases n,
{
    if n == 0 {
        curr
    } else {
        decr_step(iter_decr(curr, factor, floor, (n - 1) as nat), factor, floor)
    }
}

/// Across consecutive zero-reap runs the next interval never decreases, and
/// never exceeds the ceiling once it is below it.
pub proof fn lemma_interval_nondecreasing_on_idle(curr: u64, factor: u64, ceiling: u64, n: nat)
    requires
        1 <= factor,
        curr <= ceiling,
    ensures
        iter_incr(curr, factor, ceiling, n) <= iter_incr(curr, factor, ceiling, n + 1),
        iter_incr(curr, factor, ceiling, n) <= ceiling,
    decreases n,
{
    if n == 0 {
        assert(curr * factor >= curr) by (nonlinear_arith)
            requires
                factor >= 1,
                curr >= 0,
        ;
    } else {
        lemma_interval_nondecreasing_on_idle(curr, factor, ceiling, (n - 1) as nat);
        let c = iter_incr(curr, factor, ceiling, n);
        assert(c * factor >= c) by (nonlinear_arith)
            requires
                factor >= 1,
                c >= 0,
        ;
    }
}

/// Across consecutive non-zero-reap runs the next interval never increases,
/// and never goes below the floor once it is above it.
pub proof fn lemma_interval_nonincreasing_on_work(curr: u64, factor: u64, floor: u64, n: nat)
    requires
        1 <= factor,
        floor <= curr,
    ensures
        iter_decr(curr, factor, floor, n + 1) <= iter_decr(curr, factor, floor, n),
        iter_decr(curr, factor, floor, n) >= floor,
    decreases n,
{
    if n == 0 {
        vstd::arithmetic::div_mod::lemma_div_is_ordered_by_denominator(curr as int, 1, factor as int);
    } else {
        lemma_interval_nonincreasing_on_work(curr, factor, floor, (n - 1) as nat);
        let c = iter_decr(curr, factor, floor, n);
        vstd::arithmetic::div_mod::lemma_div_is_ordered_by_denominator(c as int, 1, factor as int);
    }
}

/// The periodic sweeper of dead references, owned by the dispatcher.
pub struct ActorRefReaper {
    scheduled: bool,
    strategy: BackoffStrategy,
}

impl ActorRefReaper {
    pub open spec fn wf(&self) -> bool {
        self.strategy().wf()
    }

    pub closed spec fn is_scheduled_spec(&self) -> bool {
        self.scheduled
    }

    pub closed spec fn strategy(&self) -> BackoffStrategy {
        self.strategy
    }

    /// A reaper that is not yet scheduled, with the default backoff.
    pub fn new_default() -> (r: ActorRefReaper)
        ensures
            r.wf(),
            !r.is_scheduled_spec(),
            r.strategy().curr() == DEFAULT_FLOOR_MS,
    {
        ActorRefReaper { scheduled: false, strategy: BackoffStrategy::default_strategy() }
    }

    pub fn is_scheduled(&self) -> (r: bool)
        ensures
            r == self.is_scheduled_spec(),
    {
        self.scheduled
    }

    /// Marks the reaper as scheduled; the first registration does this once.
    pub fn schedule(&mut self)
        ensures
            final(self).is_scheduled_spec(),
            final(self).strategy() == old(self).strategy(),
    {
        self.scheduled = true;
    }

    /// The interval until the next run, in milliseconds.
    pub fn current_interval(&self) -> (r: u64)
        ensures
            r == self.strategy().curr(),
    {
        self.strategy.current()
    }

    /// Lengthens the interval after a run that reaped nothing.
    pub fn strategy_incr(&mut self)
        requires
            old(self).wf(),
        ensures
            final(self).wf(),
            final(self).is_scheduled_spec() == old(self).is_scheduled_spec(),
            final(self).strategy().curr() == incr_step(
                old(self).strategy().curr(),
                old(self).strategy().factor(),
                old(self).strategy().ceiling(),
            ),
            final(self).strategy().curr() >= old(self).strategy().curr(),
            final(self).strategy().floor() == old(self).strategy().floor(),
            final(self).strategy().ceiling() == old(self).strategy().ceiling(),
            final(self).strategy().factor() == old(self).strategy().factor(),
    {
        self.strategy.incr();
    }

    /// Shortens the interval after a run that reaped something.
    pub fn strategy_decr(&mut self)
        requires
            old(self).wf(),
        ensures
            final(self).wf(),
            final(self).is_scheduled_spec() == old(self).is_scheduled_spec(),
            final(self).strategy().curr() == decr_step(
                old(self).strategy().curr(),
                old(self).strategy().factor(),
                old(self).strategy().floor(),
            ),
            final(self).strategy().curr() <= old(self).strategy().curr(),
            final(self).strategy().floor() == old(self).strategy().floor(),
            final(self).strategy().ceiling() == old(self).strategy().ceiling(),
            final(self).strategy().factor() == old(self).strategy().factor(),
    {
        self.strategy.decr();
    }

    /// One sweep: publishes the current snapshot without its dead entries and
    /// returns how many entries were dropped.
    pub fn run(&self, cell: &mut RegistryCell) -> (n: usize)
        ensures
            cell_store(final(cell)) == live_submap(cell_store(old(cell))),
            n == 0 <==> cell_store(old(cell)) == live_submap(cell_store(old(cell))),
    {
        let snap = cell.lease();
        let (_, n) = snap.swept();
        cell.publish_swept();
        proof {
            let s = snap.entry_seq();
            snap.lemma_view_is_entry_map();
            lemma_live_entries_map(s);
            if n == 0 {
                lemma_live_entries_full(s);
            } else {
                lemma_some_entry_dead(s);
                let i = choose|i: int| 0 <= i < s.len() && !(#[trigger] s[i]).1.alive;
                lemma_map_of_index(s, i);
                assert(!live_submap(snap@).contains_key(s[i].0));
            }
        }
        n
    }
}

/// A live-entry list as long as its source is its source.
proof fn lemma_live_entries_full(s: Seq<(crate::path::ActorPathView, crate::store::ActorRef)>)
    requires
        live_entries(s).len() == s.len(),
    ensures
        live_entries(s) == s,
    decreases s.len(),
{
    if s.len() > 0 {
        if s.last().1.alive {
            lemma_live_entries_len(s.drop_last());
            lemma_live_entries_full(s.drop_last());
            assert(live_entries(s) =~= s);
        } else {
            lemma_live_entries_len(s.drop_last());
        }
    } else {
        assert(live_entries(s) =~= s);
    }
}

/// A shorter live-entry list means some entry is dead.
proof fn lemma_some_entry_dead(s: Seq<(crate::path::ActorPathView, crate::store::ActorRef)>)
    requires
        live_entries(s).len() < s.len(),
    ensures
        exists|i: int| 0 <= i < s.len() && !(#[trigger] s[i]).1.alive,
    decreases s.len(),
{
    if s.last().1.alive {
        lemma_live_entries_len(s.drop_last());
        lemma_some_entry_dead(s.drop_last());
        let i = choose|i: int|
            0 <= i < s.drop_last().len() && !(#[trigger] s.drop_last()[i]).1.alive;
        assert(s[i] == s.drop_last()[i]);
        assert(!s[i].1.alive);
    } else {
        assert(!s[s.len() - 1].1.alive);
    }
}

/// The live-entry list never grows.
proof fn lemma_live_entries_len(s: Seq<(crate::path::ActorPathView, crate::store::ActorRef)>)
    ensures
        live_entries(s).len() <= s.len(),
    decreases s.len(),
{
    if s.len() > 0 {
        lemma_live_entries_len(s.drop_last());
    }
}

} // verus!
