//! Sliding windows: keyed logs of the times at which something happened.
//!
//! Times and spans are nanoseconds on a monotonic clock.

use vstd::prelude::*;
use crate::table::{Table, TableKey};

verus! {

/// Nanoseconds from `then` to `now`; zero where `then` is not in the past.
pub open spec fn elapsed(now: u64, then: u64) -> u64 {
    if now > then {
        (now - then) as u64
    } else {
        0
    }
}

/// What is left of a log once the leading entries of age `window` or more are
/// gone.
pub open spec fn live(log: Seq<u64>, now: u64, window: u64) -> Seq<u64>
    decreases log.len(),
{
    if log.len() > 0 && elapsed(now, log[0]) >= window {
        live(log.drop_first(), now, window)
    } else {
        log
    }
}

/// Pruning only shortens a log.
pub proof fn lemma_live_len(log: Seq<u64>, now: u64, window: u64)
    ensures
        live(log, now, window).len() <= log.len(),
    decreases log.len(),
{
    if log.len() > 0 && elapsed(now, log[0]) >= window {
        lemma_live_len(log.drop_first(), now, window);
    }
}

/// Nanoseconds from `then` to `now`; zero where `then` is not in the past.
pub fn saturating_since(now: u64, then: u64) -> (span: u64)
    ensures
        span == elapsed(now, then),
{
    if now > then {
        now - then
    } else {
        0
    }
}

fn prune_log(log: &mut Vec<u64>, now: u64, window: u64)
    ensures
        final(log)@ == live(old(log)@, now, window),
{
    let mut n: usize = 0;
    assert(log@.skip(0) =~= log@);
    while n < log.len() && saturating_since(now, log[n]) >= window
        invariant
            n <= log@.len(),
            log@ == old(log)@,
            live(log@.skip(n as int), now, window) == live(log@, now, window),
        decreases log@.len() - n,
    {
        assert(log@.skip(n as int).drop_first() =~= log@.skip(n as int + 1));
        n += 1;
    }
    let rest: Vec<u64> = log.split_off(n);
    assert(rest@ =~= old(log)@.skip(n as int));
    *log = rest;
}

/// Dropping the expired head of a log at `now` changes nothing of what is left
/// of it at `later`.
pub proof fn lemma_live_twice(log: Seq<u64>, now: u64, later: u64, window: u64)
    requires
        now <= later,
    ensures
        live(live(log, now, window), later, window) == live(log, later, window),
    decreases log.len(),
{
    if log.len() > 0 && elapsed(now, log[0]) >= window {
        lemma_live_twice(log.drop_first(), now, later, window);
    }
}

/// Of a log in order of time that holds no time after `now`, exactly the
/// entries younger than the window are left, in their order.
pub proof fn law_live_entries_are_the_young(log: Seq<u64>, now: u64, window: u64)
    requires
        forall|i: int, j: int| 0 <= i <= j < log.len() ==> log[i] <= log[j],
        forall|i: int| 0 <= i < log.len() ==> #[trigger] log[i] <= now,
    ensures
        live(log, now, window) == log.filter(|t: u64| now - t < window),
    decreases log.len(),
{
    let young = |t: u64| now - t < window;
    if log.len() > 0 && elapsed(now, log[0]) >= window {
        let rest = log.drop_first();
        law_live_entries_are_the_young(rest, now, window);
        assert(log =~= seq![log[0]] + rest);
        Seq::filter_distributes_over_add(seq![log[0]], rest, young);
        reveal_with_fuel(Seq::filter, 2);
        assert(seq![log[0]].filter(young) =~= Seq::<u64>::empty()) by {
            assert(seq![log[0]].drop_last() =~= Seq::<u64>::empty());
        }
        assert(log.filter(young) =~= rest.filter(young));
    } else {
        assert forall|i: int| 0 <= i < log.len() implies young(#[trigger] log[i]) by {
            assert(log[0] <= log[i]);
        }
        lemma_filter_all(log, young);
    }
}

proof fn lemma_filter_all(log: Seq<u64>, keep: spec_fn(u64) -> bool)
    requires
        forall|i: int| 0 <= i < log.len() ==> keep(#[trigger] log[i]),
    ensures
        log.filter(keep) == log,
    decreases log.len(),
{
    reveal(Seq::filter);
    if log.len() > 0 {
        assert forall|i: int| 0 <= i < log.drop_last().len() implies keep(
            #[trigger] log.drop_last()[i],
        ) by {
            assert(log.drop_last()[i] == log[i]);
        }
        lemma_filter_all(log.drop_last(), keep);
        assert(log =~= log.drop_last().push(log.last()));
    }
}

/// Logs by key. A key that was never written has an empty log.
pub struct WindowLog<K: TableKey> {
    logs: Table<K, Vec<u64>>,
}

impl<K: TableKey> WindowLog<K> {
    /// No key is held for an empty log.
    pub closed spec fn wf(&self) -> bool {
        &&& self.logs.wf()
        &&& forall|k: K::Name| #[trigger]
            self.logs@.dom().contains(k) ==> self.logs@[k]@.len() > 0
    }

    /// The keys that take up room.
    pub closed spec fn keys(&self) -> Set<K::Name> {
        self.logs@.dom()
    }

    /// The keys held are those with a log.
    pub proof fn lemma_keys(&self)
        requires
            self.wf(),
        ensures
            forall|k: K::Name| #[trigger] self.keys().contains(k) <==> self.log(k).len() > 0,
            self.keys().finite(),
    {
        self.logs.lemma_seq();
    }

    /// The log of a key.
    pub closed spec fn log(&self, k: K::Name) -> Seq<u64> {
        if self.logs@.dom().contains(k) {
            self.logs@[k]@
        } else {
            Seq::empty()
        }
    }

    pub fn new() -> (r: Self)
        ensures
            r.wf(),
            r.keys() == Set::<K::Name>::empty(),
            forall|k: K::Name| #[trigger] r.log(k) == Seq::<u64>::empty(),
    {
        WindowLog { logs: Table::new() }
    }

    /// The number of entries in the log of a key.
    pub fn count(&self, k: &K) -> (n: usize)
        requires
            self.wf(),
        ensures
            n == self.log(k.name()).len(),
    {
        match self.logs.get(k) {
            Some(log) => log.len(),
            None => 0,
        }
    }

    /// Appends `now` to the log of a key.
    pub fn record(&mut self, k: K, now: u64)
        requires
            old(self).wf(),
        ensures
            final(self).wf(),
            final(self).keys() == old(self).keys().insert(k.name()),
            final(self).log(k.name()) == old(self).log(k.name()).push(now),
            forall|n: K::Name| n != k.name() ==> #[trigger] final(self).log(n) == old(self).log(n),
    {
        match self.logs.get_mut(&k) {
            Some(log) => {
                log.push(now);
            },
            None => {
                let mut log: Vec<u64> = Vec::new();
                log.push(now);
                let _ = self.logs.insert(k, log);
            },
        }
    }

    /// Drops the expired head of every log, and the logs that this empties;
    /// `w` says what window `window_of` gives a key.
    pub(crate) fn prune<F: Fn(&K) -> u64>(
        &mut self,
        now: u64,
        window_of: F,
        Ghost(w): Ghost<spec_fn(K::Name) -> u64>,
    )
        requires
            old(self).wf(),
            forall|k: &K| #[trigger] window_of.requires((k,)),
            forall|k: &K, r: u64| #[trigger] window_of.ensures((k,), r) ==> r == w(k.name()),
        ensures
            final(self).wf(),
            forall|k: K::Name|
                #[trigger] final(self).log(k) == live(old(self).log(k), now, w(k)),
            forall|k: K::Name| #[trigger]
                final(self).keys().contains(k) <==> old(self).keys().contains(k) && live(
                    old(self).log(k),
                    now,
                    w(k),
                ).len() > 0,
    {
        let mut i: usize = 0;
        let n: usize = self.logs.len();
        let ghost before = self.logs.seq();
        while i < n
            invariant
                i <= n,
                self.logs.wf(),
                n == before.len(),
                before.len() == self.logs.seq().len(),
                forall|k: &K| #[trigger] window_of.requires((k,)),
                forall|k: &K, r: u64| #[trigger] window_of.ensures((k,), r) ==> r == w(k.name()),
                forall|j: int|
                    0 <= j < n ==> (#[trigger] self.logs.seq()[j]).0 == before[j].0,
                forall|j: int|
                    0 <= j < i ==> (#[trigger] self.logs.seq()[j]).1@ == live(
                        before[j].1@,
                        now,
                        w(before[j].0.name()),
                    ),
                forall|j: int| i <= j < n ==> (#[trigger] self.logs.seq()[j]).1 == before[j].1,
            decreases n - i,
        {
            let window: u64 = window_of(&self.logs.row(i).0);
            prune_log(self.logs.value_mut(i), now, window);
            i += 1;
        }
        let ghost pruned = self.logs;
        proof {
            old(self).logs.lemma_seq();
            pruned.lemma_seq();
            assert forall|k: K::Name| #[trigger]
                pruned@.dom().contains(k) == old(self).logs@.dom().contains(k) by {
                if pruned@.dom().contains(k) {
                    let j = choose|j: int|
                        0 <= j < pruned.seq().len() && (#[trigger] pruned.seq()[j]).0.name() == k;
                    assert(before[j].0.name() == k);
                }
                if old(self).logs@.dom().contains(k) {
                    let j = choose|j: int|
                        0 <= j < before.len() && (#[trigger] before[j]).0.name() == k;
                    assert(pruned.seq()[j].0.name() == k);
                }
            }
            assert forall|k: K::Name| pruned@.dom().contains(k) implies (#[trigger] pruned@[k])@
                == live(old(self).logs@[k]@, now, w(k)) by {
                let j = choose|j: int|
                    0 <= j < pruned.seq().len() && (#[trigger] pruned.seq()[j]).0.name() == k;
                assert(before[j].0.name() == k);
            }
        }
        let keep = |_k: &K, log: &Vec<u64>| -> (r: bool)
            ensures
                r == (log@.len() != 0),
        {
            !log.is_empty()
        };
        self.logs.retain(keep, Ghost(|_k: K::Name, log: Vec<u64>| log@.len() != 0));
        assert forall|k: K::Name|
            #[trigger] self.log(k) == live(old(self).log(k), now, w(k)) by {
            if pruned@.dom().contains(k) {
                assert(self.log(k) =~= pruned@[k]@);
            }
        }
        assert forall|k: K::Name| #[trigger]
            self.keys().contains(k) <==> old(self).keys().contains(k) && live(
                old(self).log(k),
                now,
                w(k),
            ).len() > 0 by {
            assert(pruned@.dom().contains(k) == old(self).logs@.dom().contains(k));
        }
    }
}

/// `next` is `m` without its `n` earliest entries. Which of several equally
/// early ones go is open.
pub open spec fn without_earliest<N>(m: Map<N, u64>, next: Map<N, u64>, n: nat) -> bool {
    &&& next.dom().subset_of(m.dom())
    &&& next.dom().finite()
    &&& next.dom().len() + n == m.dom().len()
    &&& forall|k: N| #[trigger] next.dom().contains(k) ==> next[k] == m[k]
    &&& forall|gone: N, stays: N|
        #![trigger m.dom().contains(gone), next.dom().contains(stays)]
        m.dom().contains(gone) && !next.dom().contains(gone) && next.dom().contains(stays)
            ==> m[gone] <= m[stays]
}

/// Drops the `n` earliest entries of a table of times.
pub fn evict_earliest<K: TableKey>(table: &mut Table<K, u64>, n: usize)
    requires
        old(table).wf(),
        n <= old(table)@.dom().len(),
    ensures
        final(table).wf(),
        without_earliest(old(table)@, final(table)@, n as nat),
{
    let mut evicted: usize = 0;
    let ghost before = table@;
    proof {
        table.lemma_seq();
    }
    while evicted < n
        invariant
            table.wf(),
            evicted <= n,
            n <= before.dom().len(),
            before == old(table)@,
            without_earliest(before, table@, evicted as nat),
        decreases n - evicted,
    {
        let count: usize = table.len();
        let ghost current = table@;
        proof {
            table.lemma_seq();
        }
        let mut earliest: usize = 0;
        let mut i: usize = 1;
        while i < count
            invariant
                table.wf(),
                table@ == current,
                count == table.seq().len(),
                count > 0,
                1 <= i <= count,
                earliest < i,
                forall|j: int|
                    0 <= j < i ==> table.seq()[earliest as int].1 <= (#[trigger] table.seq()[j]).1,
            decreases count - i,
        {
            if table.row(i).1 < table.row(earliest).1 {
                earliest = i;
            }
            i += 1;
        }
        let ghost gone = table.seq()[earliest as int];
        proof {
            assert forall|stays: K::Name| current.dom().contains(stays) implies gone.1
                <= #[trigger] current[stays] by {
                let j = choose|j: int|
                    0 <= j < table.seq().len() && (#[trigger] table.seq()[j]).0.name() == stays;
                assert(gone.1 <= table.seq()[j].1);
            }
        }
        let _ = table.remove_row(earliest);
        proof {
            vstd::set::axiom_set_remove_len(current.dom(), gone.0.name());
            assert(table@.dom() =~= current.dom().remove(gone.0.name()));
            assert forall|a: K::Name, b: K::Name|
                before.dom().contains(a) && !table@.dom().contains(a) && table@.dom().contains(
                    b,
                ) implies before[a] <= before[b] by {
                if current.dom().contains(a) {
                    assert(a == gone.0.name());
                    assert(gone.1 <= current[b]);
                } else {
                    assert(current.dom().contains(b));
                }
            }
        }
        evicted += 1;
    }
}

/// The time since a moment in the past is the difference, and since any other
/// moment nothing.
pub proof fn law_elapsed(now: u64, then: u64)
    ensures
        now >= then ==> elapsed(now, then) == now - then,
        now <= then ==> elapsed(now, then) == 0,
{
}

/// What is left of a log is its end, from the first entry that is younger than
/// the window.
pub proof fn law_live_is_the_end_of_the_log(log: Seq<u64>, now: u64, window: u64)
    ensures
        live(log, now, window).len() <= log.len(),
        live(log, now, window) == log.skip(log.len() - live(log, now, window).len()),
        forall|i: int|
            0 <= i < log.len() - live(log, now, window).len() ==> window == 0 || now - (
            #[trigger] log[i]) >= window,
        live(log, now, window).len() > 0 ==> window > 0 && now - live(log, now, window)[0] < window,
    decreases log.len(),
{
    if log.len() > 0 && elapsed(now, log[0]) >= window {
        let rest = log.drop_first();
        law_live_is_the_end_of_the_log(rest, now, window);
        let n = rest.len() - live(rest, now, window).len();
        assert(log.skip(n + 1) =~= rest.skip(n));
        assert forall|i: int| 0 <= i < n + 1 implies window == 0 || now - (#[trigger] log[i])
            >= window by {
            if i > 0 {
                assert(rest[i - 1] == log[i]);
            }
        }
    } else {
        assert(log.skip(0) =~= log);
    }
}

/// Dropping the earliest entries keeps the others as they were, and none that
/// is older than a dropped one.
pub proof fn law_earliest_go_first<N>(
    m: Map<N, u64>,
    next: Map<N, u64>,
    n: nat,
    gone: N,
    stays: N,
)
    requires
        without_earliest(m, next, n),
        next.dom().contains(stays),
    ensures
        m.dom().contains(stays),
        next[stays] == m[stays],
        m.dom().contains(gone) && !next.dom().contains(gone) ==> m[gone] <= m[stays],
        next.dom().len() == m.dom().len() - n,
{
}

} // verus!
