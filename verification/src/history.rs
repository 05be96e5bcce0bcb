//! The playback-history model: an append-only log.
//!
//! Records arrive in execution order, so their timestamps never decrease
//! along the log; listing recent records walks the log backwards, so the
//! timestamps of a listing never increase.  The persistence collaborator
//! stores the same records; this model is what its behaviour is held to.
//! Each record carries its instant on the civil timeline next to the
//! stored ISO-8601 text.

use vstd::prelude::*;
use crate::models::PlaybackHistory;

verus! {

/// An append-only log of playback records, each with its instant.
pub struct HistoryLog {
    records: Vec<PlaybackHistory>,
    instants: Vec<i64>,
}

impl View for HistoryLog {
    type V = Seq<(i64, PlaybackHistory)>;

    closed spec fn view(&self) -> Seq<(i64, PlaybackHistory)> {
        Seq::new(self.records@.len(), |i: int| (self.instants@[i], self.records@[i]))
    }
}

impl HistoryLog {
    /// Well-formed: one instant per record, in non-decreasing order.
    pub closed spec fn well_formed(&self) -> bool {
        &&& self.instants@.len() == self.records@.len()
        &&& forall|i: int, j: int|
            0 <= i <= j < self.instants@.len() ==> #[trigger] self.instants@[i]
                <= #[trigger] self.instants@[j]
    }

    /// An empty log.
    pub fn new() -> (log: Self)
        ensures
            log.well_formed(),
            log@.len() == 0,
    {
        let log = HistoryLog { records: Vec::new(), instants: Vec::new() };
        proof {
            assert(log@.len() == 0);
        }
        log
    }

    /// The number of records.
    pub fn len(&self) -> (n: usize)
        requires
            self.well_formed(),
        ensures
            n == self@.len(),
    {
        self.records.len()
    }

    /// Appends one record.  Records arrive in execution order: the new
    /// instant is no earlier than the last one.
    pub fn record(&mut self, entry: PlaybackHistory, instant: i64)
        requires
            old(self).well_formed(),
            old(self)@.len() > 0 ==> old(self)@.last().0 <= instant,
        ensures
            final(self).well_formed(),
            final(self)@ == old(self)@.push((instant, entry)),
    {
        let ghost e = entry;
        self.records.push(entry);
        self.instants.push(instant);
        proof {
            assert(self@ =~= old(self)@.push((instant, e)));
        }
    }

    /// The most recent records, newest first, at most `limit` of them,
    /// paired with their instants.
    pub fn list_recent(&self, limit: usize) -> (r: Vec<(i64, PlaybackHistory)>)
        requires
            self.well_formed(),
        ensures
            r@.len() == (if limit <= self@.len() {
                limit as int
            } else {
                self@.len() as int
            }),
            forall|i: int| 0 <= i < r@.len() ==> r@[i] == self@[self@.len() - 1 - i],
            forall|i: int, j: int| 0 <= i <= j < r@.len() ==> r@[j].0 <= r@[i].0,
    {
        let n = self.records.len();
        let count = if limit <= n {
            limit
        } else {
            n
        };
        let mut r: Vec<(i64, PlaybackHistory)> = Vec::new();
        let mut i: usize = 0;
        while i < count
            invariant
                self.well_formed(),
                count <= n == self@.len(),
                0 <= i <= count,
                r@.len() == i,
                forall|k: int| 0 <= k < i ==> r@[k] == self@[self@.len() - 1 - k],
            decreases count - i,
        {
            let idx = n - 1 - i;
            let entry = (self.instants[idx], self.records[idx].clone());
            proof {
                assert(self@[idx as int].0 == self.instants@[idx as int]);
                assert(self@[idx as int].1 == self.records@[idx as int]);
            }
            r.push(entry);
            i += 1;
        }
        r
    }

    /// Deletes every record of one schedule, keeping the others in order.
    pub fn delete_for_schedule(&mut self, schedule_id: &str)
        requires
            old(self).well_formed(),
        ensures
            final(self).well_formed(),
            final(self)@ == retained(old(self)@, schedule_id@),
    {
        let ghost orig = self@;
        let mut records: Vec<PlaybackHistory> = Vec::new();
        let mut instants: Vec<i64> = Vec::new();
        let mut i: usize = 0;
        while i < self.records.len()
            invariant
                self.well_formed(),
                0 <= i <= self@.len(),
                orig == self@,
                records@.len() == instants@.len(),
                Seq::new(records@.len(), |k: int| (instants@[k], records@[k])) == retained(
                    orig.subrange(0, i as int),
                    schedule_id@,
                ),
                forall|a: int, b: int|
                    0 <= a <= b < instants@.len() ==> #[trigger] instants@[a]
                        <= #[trigger] instants@[b],
                instants@.len() > 0 && i > 0 ==> instants@.last() <= self@[i - 1].0,
            decreases self@.len() - i,
        {
            let keep = !crate::text::str_eq(self.records[i].schedule_id.as_str(), schedule_id);
            proof {
                assert(orig.subrange(0, i + 1 as int).drop_last() =~= orig.subrange(0, i as int));
                assert(orig.subrange(0, i + 1 as int).last() == orig[i as int]);
            }
            if keep {
                records.push(self.records[i].clone());
                instants.push(self.instants[i]);
                proof {
                    assert(Seq::new(records@.len(), |k: int| (instants@[k], records@[k]))
                        =~= retained(orig.subrange(0, i + 1 as int), schedule_id@));
                }
            } else {
                proof {
                    assert(Seq::new(records@.len(), |k: int| (instants@[k], records@[k]))
                        =~= retained(orig.subrange(0, i + 1 as int), schedule_id@));
                }
            }
            i += 1;
        }
        proof {
            assert(orig.subrange(0, orig.len() as int) =~= orig);
        }
        self.records = records;
        self.instants = instants;
    }
}

/// The records of a log that survive deleting one schedule's records, in
/// their original order.
pub open spec fn retained(h: Seq<(i64, PlaybackHistory)>, schedule_id: Seq<char>) -> Seq<
    (i64, PlaybackHistory),
>
    decreases h.len(),
{
    if h.len() == 0 {
        Seq::empty()
    } else if h.last().1.schedule_id@ == schedule_id {
        retained(h.drop_last(), schedule_id)
    } else {
        retained(h.drop_last(), schedule_id).push(h.last())
    }
}

/// History monotonicity: however many records are listed, the instants of
/// a recent listing never increase from one entry to the next.
pub proof fn lemma_history_monotone(log: HistoryLog, listing: Seq<(i64, PlaybackHistory)>, i:
    int, j: int)
    requires
        log.well_formed(),
        listing.len() <= log@.len(),
        forall|k: int| 0 <= k < listing.len() ==> listing[k] == log@[log@.len() - 1 - k],
        0 <= i <= j < listing.len(),
    ensures
        listing[j].0 <= listing[i].0,
{
}

} // verus!
