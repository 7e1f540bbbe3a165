//! When to raise the alarm: once for each passage of a peer from alive to
//! offline, however long the peer then stays away.

use crate::stats::{offline_at, StatView};
use crate::table::{offline_flags, positions, StatsTable};
use vstd::prelude::*;

verus! {

/// For each record seen at the last tick, whether its peer was offline then.
pub struct AlertState {
    pub offline: Vec<bool>,
}

/// Whether the peer at `i` was offline at the last tick; a peer that was not
/// in the table then was not.
pub open spec fn was_offline(seen: Seq<bool>, i: int) -> bool {
    0 <= i < seen.len() && seen[i]
}

/// Whether a peer crosses into offline: it is gone now and was not before.
pub open spec fn crosses(was: bool, gone: bool) -> bool {
    gone && !was
}

/// For each record, whether its peer crosses into offline at `now`.
pub open spec fn crossing_flags(seen: Seq<bool>, rows: Seq<StatView>, now: u64) -> Seq<bool> {
    Seq::new(
        rows.len(),
        |i: int| crosses(was_offline(seen, i), offline_at(rows[i].timestamp, now)),
    )
}

/// The number of alarms that one peer causes over a run of ticks, where
/// `gone[k]` says whether the peer is offline at tick `k` and `was` whether
/// it was offline before the first of them.
pub open spec fn alarms(was: bool, gone: Seq<bool>) -> nat
    decreases gone.len(),
{
    if gone.len() == 0 {
        0
    } else {
        (if crosses(was, gone[0]) {
            1nat
        } else {
            0nat
        }) + alarms(gone[0], gone.drop_first())
    }
}

/// `n` ticks with the same finding.
pub open spec fn steady(gone: bool, n: nat) -> Seq<bool> {
    Seq::new(n, |i: int| gone)
}

impl AlertState {
    /// The state before the first tick: no peer has been seen offline.
    pub fn new() -> (state: AlertState)
        ensures
            state.offline@ == Seq::<bool>::empty(),
    {
        AlertState { offline: Vec::new() }
    }

    /// One tick: returns the positions of the peers that cross into offline
    /// at `now`, in rising order, and remembers for every peer whether it is
    /// offline now.
    pub fn tick(&mut self, table: &StatsTable, now: u64) -> (alerts: Vec<usize>)
        ensures
            alerts@ == positions(crossing_flags(old(self).offline@, table@, now)),
            final(self).offline@ == offline_flags(table@, now),
    {
        let mut alerts: Vec<usize> = Vec::new();
        let mut seen: Vec<bool> = Vec::new();
        let ghost crossing = crossing_flags(self.offline@, table@, now);
        let ghost gone = offline_flags(table@, now);
        let mut i: usize = 0;
        while i < table.rows.len()
            invariant
                i <= table.rows@.len(),
                *self == *old(self),
                crossing == crossing_flags(self.offline@, table@, now),
                gone == offline_flags(table@, now),
                alerts@ == positions(crossing.take(i as int)),
                seen@ == gone.take(i as int),
            decreases table.rows@.len() - i,
        {
            assert(crossing.take(i + 1).drop_last() =~= crossing.take(i as int));
            let is_gone = table.rows[i].is_offline(now);
            let was_gone = i < self.offline.len() && self.offline[i];
            if is_gone && !was_gone {
                alerts.push(i);
            }
            seen.push(is_gone);
            assert(seen@ =~= gone.take(i + 1));
            i = i + 1;
        }
        assert(crossing.take(i as int) =~= crossing);
        assert(gone.take(i as int) =~= gone);
        self.offline = seen;
        alerts
    }
}

/// The alarms of a run of ticks are those of its first part and those of
/// the rest, the rest starting from where the first part ended.
pub proof fn lemma_alarms_split(was: bool, first: Seq<bool>, rest: Seq<bool>)
    ensures
        alarms(was, first + rest) == alarms(was, first) + alarms(
            if first.len() == 0 {
                was
            } else {
                first.last()
            },
            rest,
        ),
    decreases first.len(),
{
    if first.len() == 0 {
        assert(first + rest =~= rest);
    } else {
        let all = first + rest;
        assert(all[0] == first[0]);
        assert(all.drop_first() =~= first.drop_first() + rest);
        lemma_alarms_split(first[0], first.drop_first(), rest);
        if first.len() > 1 {
            assert(first.drop_first().last() == first.last());
        }
    }
}

/// A peer that stays offline tick after tick raises one alarm, at the tick
/// that finds it gone for the first time, and none if it was gone before; a
/// peer that stays alive raises none.
pub proof fn lemma_alarms_steady(was: bool, gone: bool, n: nat)
    ensures
        alarms(was, steady(gone, n)) == (if n > 0 && crosses(was, gone) {
            1nat
        } else {
            0nat
        }),
    decreases n,
{
    if n > 0 {
        let run = steady(gone, n);
        assert(run.drop_first() =~= steady(gone, (n - 1) as nat));
        lemma_alarms_steady(gone, gone, (n - 1) as nat);
    }
}

/// A peer that goes offline, comes back and goes offline again raises
/// exactly two alarms, however many ticks each of the three phases lasts.
pub proof fn lemma_two_outages_two_alarms(away: nat, back: nat, away_again: nat)
    requires
        away > 0,
        back > 0,
        away_again > 0,
    ensures
        alarms(false, steady(true, away) + steady(false, back) + steady(true, away_again)) == 2,
{
    let a = steady(true, away);
    let b = steady(false, back);
    let c = steady(true, away_again);
    lemma_alarms_split(false, a + b, c);
    lemma_alarms_split(false, a, b);
    lemma_alarms_steady(false, true, away);
    lemma_alarms_steady(true, false, back);
    lemma_alarms_steady(false, true, away_again);
    assert((a + b).last() == false);
    assert(a.last() == true);
}

} // verus!
