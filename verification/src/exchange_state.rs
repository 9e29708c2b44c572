//! The exchange operator's buffer: record batches pushed by producers,
//! pulled and acknowledged by consumers.
//!
//! Records carry monotonically increasing ids. The buffer is bounded; a
//! producer whose push is refused must retry. A record is evicted exactly
//! when every registered consumer has acknowledged it.

use vstd::prelude::*;
use crate::wire::{bytes_eq, clone_bytes};

verus! {

/// True iff `x` occurs in the list of byte strings.
pub open spec fn contains_bytes(s: Seq<Vec<u8>>, x: Seq<u8>) -> bool {
    exists|i: int| 0 <= i < s.len() && (#[trigger] s[i])@ == x
}

/// True iff every entry of `a` occurs in `b`.
pub open spec fn all_in(a: Seq<Vec<u8>>, b: Seq<Vec<u8>>) -> bool {
    forall|i: int| 0 <= i < a.len() ==> contains_bytes(b, (#[trigger] a[i])@)
}

/// Executable membership test.
pub fn contains_bytes_exec(s: &Vec<Vec<u8>>, x: &Vec<u8>) -> (r: bool)
    ensures
        r == contains_bytes(s@, x@),
{
    let mut i: usize = 0;
    while i < s.len()
        invariant
            i <= s@.len(),
            forall|i0: int| 0 <= i0 < i ==> (#[trigger] s@[i0])@ != x@,
        decreases s@.len() - i,
    {
        if bytes_eq(&s[i], x) {
            return true;
        }
        i = i + 1;
    }
    false
}

/// One buffered record batch with the consumers that have acknowledged it.
#[derive(Debug, Clone, PartialEq, Eq)]
pub struct ExchangeRecord {
    pub record_id: u64,
    pub record: Vec<u8>,
    pub table_aliases: Vec<Vec<u8>>,
    pub completed_consumers: Vec<Vec<u8>>,
}

/// What a consumer's pull yields.
#[derive(Debug, Clone, PartialEq, Eq)]
pub enum GetNextRecordOutcome {
    /// A buffered record the consumer has not yet acknowledged.
    Record { record_id: u64, record: Vec<u8>, table_aliases: Vec<Vec<u8>> },
    /// Every upstream producer has completed and nothing is left to hand
    /// to this consumer.
    NoneLeft,
    /// Nothing is ready yet: the consumer should ask again later.
    Pending,
}

/// The exchange's state.
#[derive(Debug, Clone, PartialEq, Eq)]
pub struct ExchangeState {
    pub buffer: Vec<ExchangeRecord>,
    pub consumers: Vec<Vec<u8>>,
    pub drained_upstreams: Vec<Vec<u8>>,
    pub upstream_producers: Vec<Vec<u8>>,
    pub next_record_id: u64,
    pub capacity: u64,
}

/// Record ids are assigned monotonically: the buffer holds strictly
/// increasing ids, all below the next id to assign. In particular every
/// buffered record id is unique.
pub open spec fn exchange_wf(s: ExchangeState) -> bool {
    &&& forall|i1: int, i2: int|
        0 <= i1 < i2 < s.buffer@.len() ==> (#[trigger] s.buffer@[i1]).record_id < (
        #[trigger] s.buffer@[i2]).record_id
    &&& forall|i: int|
        0 <= i < s.buffer@.len() ==> (#[trigger] s.buffer@[i]).record_id < s.next_record_id
}

/// No buffered record is already acknowledged by every registered
/// consumer: a fully acknowledged record is evicted at once, so none
/// lingers.
pub open spec fn no_fully_acked_record(s: ExchangeState) -> bool {
    forall|i: int|
        0 <= i < s.buffer@.len() ==> !all_in(
            s.consumers@,
            (#[trigger] s.buffer@[i]).completed_consumers@,
        ) || s.consumers@.len() == 0
}

impl ExchangeState {
    /// A fresh exchange with the given buffer bound and upstream producer
    /// operator ids.
    pub fn new(capacity: u64, upstream_producers: Vec<Vec<u8>>) -> (r: ExchangeState)
        ensures
            r.buffer@.len() == 0,
            r.consumers@.len() == 0,
            r.drained_upstreams@.len() == 0,
            r.upstream_producers == upstream_producers,
            r.next_record_id == 0,
            r.capacity == capacity,
            no_fully_acked_record(r),
            exchange_wf(r),
    {
        ExchangeState {
            buffer: Vec::new(),
            consumers: Vec::new(),
            drained_upstreams: Vec::new(),
            upstream_producers,
            next_record_id: 0,
            capacity,
        }
    }

    /// Registers a consumer; a second registration of the same id is a
    /// no-op.
    pub fn register_consumer(&mut self, operator_id: &Vec<u8>)
        ensures
            final(self).buffer == old(self).buffer,
            final(self).drained_upstreams == old(self).drained_upstreams,
            final(self).upstream_producers == old(self).upstream_producers,
            final(self).next_record_id == old(self).next_record_id,
            final(self).capacity == old(self).capacity,
            contains_bytes(old(self).consumers@, operator_id@) ==> final(self).consumers == old(self).consumers,
            !contains_bytes(old(self).consumers@, operator_id@) ==> {
                &&& final(self).consumers@.len() == old(self).consumers@.len() + 1
                &&& forall|i: int|
                    0 <= i < old(self).consumers@.len() ==> final(self).consumers@[i] == old(self).consumers@[i]
                &&& final(self).consumers@.last()@ == operator_id@
            },
            contains_bytes(final(self).consumers@, operator_id@),
    {
        if !contains_bytes_exec(&self.consumers, operator_id) {
            let c = clone_bytes(operator_id);
            self.consumers.push(c);
        }
    }

    /// Accepts a record iff the buffer is below its bound; the accepted
    /// record gets the next id. A refused producer must retry later.
    pub fn push_record(&mut self, record: Vec<u8>, table_aliases: Vec<Vec<u8>>) -> (r: Option<u64>)
        requires
            old(self).next_record_id < u64::MAX,
            exchange_wf(*old(self)),
        ensures
            exchange_wf(*final(self)),
            final(self).consumers == old(self).consumers,
            final(self).drained_upstreams == old(self).drained_upstreams,
            final(self).upstream_producers == old(self).upstream_producers,
            final(self).capacity == old(self).capacity,
            (r is Some) == (old(self).buffer@.len() < old(self).capacity),
            r is None ==> *final(self) == *old(self),
            r is Some ==> {
                &&& r->0 == old(self).next_record_id
                &&& final(self).next_record_id == old(self).next_record_id + 1
                &&& final(self).buffer@.len() == old(self).buffer@.len() + 1
                &&& forall|i: int|
                    0 <= i < old(self).buffer@.len() ==> final(self).buffer@[i] == old(self).buffer@[i]
                &&& final(self).buffer@.last().record_id == old(self).next_record_id
                &&& final(self).buffer@.last().record@ == record@
                &&& final(self).buffer@.last().completed_consumers@.len() == 0
            },
    {
        if (self.buffer.len() as u64) < self.capacity {
            let id = self.next_record_id;
            let rec = ExchangeRecord {
                record_id: id,
                record,
                table_aliases,
                completed_consumers: Vec::new(),
            };
            let ghost buf0 = self.buffer@;
            self.buffer.push(rec);
            self.next_record_id = id + 1;
            proof {
                assert(forall|t: int| 0 <= t < buf0.len() ==> self.buffer@[t] == buf0[t]);
                assert(self.buffer@[buf0.len() as int].record_id == id);
            }
            Some(id)
        } else {
            None
        }
    }

    /// Marks an upstream producer as drained; a second report is a no-op.
    pub fn mark_upstream_complete(&mut self, operator_id: &Vec<u8>)
        ensures
            final(self).buffer == old(self).buffer,
            final(self).consumers == old(self).consumers,
            final(self).upstream_producers == old(self).upstream_producers,
            final(self).next_record_id == old(self).next_record_id,
            final(self).capacity == old(self).capacity,
            contains_bytes(final(self).drained_upstreams@, operator_id@),
    {
        if !contains_bytes_exec(&self.drained_upstreams, operator_id) {
            let c = clone_bytes(operator_id);
            let ghost d0 = self.drained_upstreams@;
            self.drained_upstreams.push(c);
            proof {
                assert((self.drained_upstreams@[d0.len() as int])@ == operator_id@);
            }
        } else {
            proof {
                assert(contains_bytes(self.drained_upstreams@, operator_id@));
            }
        }
    }

    /// True iff every upstream producer has been reported complete.
    pub fn all_upstreams_drained(&self) -> (r: bool)
        ensures
            r == all_in(self.upstream_producers@, self.drained_upstreams@),
    {
        let mut i: usize = 0;
        while i < self.upstream_producers.len()
            invariant
                i <= self.upstream_producers@.len(),
                forall|i0: int|
                    0 <= i0 < i ==> contains_bytes(
                        self.drained_upstreams@,
                        (#[trigger] self.upstream_producers@[i0])@,
                    ),
            decreases self.upstream_producers@.len() - i,
        {
            if !contains_bytes_exec(&self.drained_upstreams, &self.upstream_producers[i]) {
                return false;
            }
            i = i + 1;
        }
        true
    }

    /// The next record for a consumer: the first buffered record the
    /// consumer has not acknowledged; `NoneLeft` once every upstream is
    /// drained and nothing unacknowledged remains for it; `Pending`
    /// otherwise.
    pub fn get_next_record(&self, consumer: &Vec<u8>) -> (r: GetNextRecordOutcome)
        ensures
            match r {
                GetNextRecordOutcome::Record { record_id, record, table_aliases } => exists|i: int|
                    {
                        &&& 0 <= i < self.buffer@.len()
                        &&& (#[trigger] self.buffer@[i]).record_id == record_id
                        &&& self.buffer@[i].record@ == record@
                        &&& !contains_bytes(self.buffer@[i].completed_consumers@, consumer@)
                    },
                GetNextRecordOutcome::NoneLeft => {
                    &&& all_in(self.upstream_producers@, self.drained_upstreams@)
                    &&& forall|i: int|
                        0 <= i < self.buffer@.len() ==> contains_bytes(
                            (#[trigger] self.buffer@[i]).completed_consumers@,
                            consumer@,
                        )
                },
                GetNextRecordOutcome::Pending => {
                    &&& !all_in(self.upstream_producers@, self.drained_upstreams@)
                    &&& forall|i: int|
                        0 <= i < self.buffer@.len() ==> contains_bytes(
                            (#[trigger] self.buffer@[i]).completed_consumers@,
                            consumer@,
                        )
                },
            },
    {
        let mut i: usize = 0;
        while i < self.buffer.len()
            invariant
                i <= self.buffer@.len(),
                forall|i0: int|
                    0 <= i0 < i ==> contains_bytes(
                        (#[trigger] self.buffer@[i0]).completed_consumers@,
                        consumer@,
                    ),
            decreases self.buffer@.len() - i,
        {
            let rec = &self.buffer[i];
            if !contains_bytes_exec(&rec.completed_consumers, consumer) {
                return GetNextRecordOutcome::Record {
                    record_id: rec.record_id,
                    record: clone_bytes(&rec.record),
                    table_aliases: crate::wire::clone_texts(&rec.table_aliases),
                };
            }
            i = i + 1;
        }
        if self.all_upstreams_drained() {
            GetNextRecordOutcome::NoneLeft
        } else {
            GetNextRecordOutcome::Pending
        }
    }
}

} // verus!

verus! {

impl ExchangeState {
    /// Records a consumer's acknowledgement of a record.
    ///
    /// The record is evicted exactly when, with this acknowledgement,
    /// every registered consumer has acknowledged it: no premature
    /// eviction, no leak. A second acknowledgement for the same pair, or
    /// one for a record no longer buffered, changes nothing, and in
    /// particular cannot evict twice.
    #[verifier::rlimit(100)]
    #[verifier::loop_isolation(false)]
    pub fn completed_record_processing(&mut self, consumer: &Vec<u8>, record_id: u64) -> (evicted:
        bool)
        requires
            exchange_wf(*old(self)),
        ensures
            exchange_wf(*final(self)),
            final(self).consumers == old(self).consumers,
            final(self).drained_upstreams == old(self).drained_upstreams,
            final(self).upstream_producers == old(self).upstream_producers,
            final(self).next_record_id == old(self).next_record_id,
            final(self).capacity == old(self).capacity,
            (forall|i: int|
                0 <= i < old(self).buffer@.len() ==> (#[trigger] old(self).buffer@[i]).record_id != record_id) ==> (*final(self) == *old(self) && !evicted),
            forall|i: int|
                {
                    &&& 0 <= i < old(self).buffer@.len()
                    &&& (#[trigger] old(self).buffer@[i]).record_id == record_id
                    &&& contains_bytes(old(self).buffer@[i].completed_consumers@, consumer@)
                    &&& (forall|i2: int|
                        0 <= i2 < i ==> (#[trigger] old(self).buffer@[i2]).record_id != record_id)
                } ==> (*final(self) == *old(self) && !evicted),
            forall|i: int|
                {
                    &&& 0 <= i < old(self).buffer@.len()
                    &&& (#[trigger] old(self).buffer@[i]).record_id == record_id
                    &&& !contains_bytes(old(self).buffer@[i].completed_consumers@, consumer@)
                    &&& (forall|i2: int|
                        0 <= i2 < i ==> (#[trigger] old(self).buffer@[i2]).record_id != record_id)
                } ==> {
                    &&& evicted == (forall|t: int|
                        0 <= t < old(self).consumers@.len() ==> (contains_bytes(
                            old(self).buffer@[i].completed_consumers@,
                            (#[trigger] old(self).consumers@[t])@,
                        ) || old(self).consumers@[t]@ == consumer@))
                    &&& (evicted ==> final(self).buffer@ == old(self).buffer@.remove(i))
                    &&& (!evicted ==> {
                        &&& final(self).buffer@.len() == old(self).buffer@.len()
                        &&& forall|i2: int|
                            0 <= i2 < old(self).buffer@.len() && i2 != i ==> final(self).buffer@[i2] == old(self).buffer@[i2]
                        &&& final(self).buffer@[i].record_id == old(self).buffer@[i].record_id
                        &&& final(self).buffer@[i].record == old(self).buffer@[i].record
                        &&& final(self).buffer@[i].completed_consumers@.len() == old(self).buffer@[i].completed_consumers@.len() + 1
                        &&& forall|t: int|
                            0 <= t < old(self).buffer@[i].completed_consumers@.len() ==> final(self).buffer@[i].completed_consumers@[t] == old(self).buffer@[i].completed_consumers@[t]
                        &&& final(self).buffer@[i].completed_consumers@.last()@ == consumer@
                    })
                },
    {
        let mut i: usize = 0;
        let n = self.buffer.len();
        while i < n
            invariant
                n == self.buffer@.len(),
                i <= n,
                *self == *old(self),
                forall|i2: int|
                    0 <= i2 < i ==> (#[trigger] self.buffer@[i2]).record_id != record_id,
            decreases n - i,
        {
            if self.buffer[i].record_id == record_id {
                if contains_bytes_exec(&self.buffer[i].completed_consumers, consumer) {
                    return false;
                }
                let c = clone_bytes(consumer);
                let ghost cv = c;
                let ghost rec0 = self.buffer@[i as int];
                self.buffer[i].completed_consumers.push(c);
                proof {
                    assert(self.buffer@[i as int].completed_consumers@
                        == rec0.completed_consumers@.push(cv));
                }
                let mut all_acked = true;
                let mut t: usize = 0;
                while t < self.consumers.len()
                    invariant
                        0 <= i < self.buffer@.len(),
                        t <= self.consumers@.len(),
                        all_acked == (forall|t0: int|
                            0 <= t0 < t ==> contains_bytes(
                                self.buffer@[i as int].completed_consumers@,
                                (#[trigger] self.consumers@[t0])@,
                            )),
                    decreases self.consumers@.len() - t,
                {
                    let inside = contains_bytes_exec(
                        &self.buffer[i].completed_consumers,
                        &self.consumers[t],
                    );
                    all_acked = all_acked && inside;
                    t = t + 1;
                }
                proof {
                    let news = self.buffer@[i as int].completed_consumers@;
                    let olds = rec0.completed_consumers@;
                    assert(news == olds.push(cv));
                    assert forall|t0: int|
                        0 <= t0 < self.consumers@.len() implies (contains_bytes(
                        news,
                        (#[trigger] self.consumers@[t0])@,
                    ) == (contains_bytes(olds, (self.consumers@[t0])@) || (self.consumers@[t0])@
                        == consumer@)) by {
                        let x = (self.consumers@[t0])@;
                        if contains_bytes(news, x) {
                            let ii = choose|ii: int|
                                0 <= ii < news.len() && (#[trigger] news[ii])@ == x;
                            if ii < olds.len() {
                                assert((olds[ii])@ == x);
                            } else {
                                assert(news[ii] == cv);
                            }
                        }
                        if contains_bytes(olds, x) {
                            let ii = choose|ii: int|
                                0 <= ii < olds.len() && (#[trigger] olds[ii])@ == x;
                            assert((news[ii])@ == x);
                        }
                        if x == consumer@ {
                            assert((news[olds.len() as int])@ == x);
                        }
                    }
                }
                if all_acked {
                    let ghost buf0 = self.buffer@;
                    let _ = self.buffer.remove(i);
                    proof {
                        assert(self.buffer@ =~= buf0.remove(i as int));
                        assert forall|t: int|
                            0 <= t < self.buffer@.len() implies (#[trigger] self.buffer@[t])
                            == (if t < i as int {
                            buf0[t]
                        } else {
                            buf0[t + 1]
                        }) by {}
                        assert(exchange_wf(*self));
                    }
                    return true;
                } else {
                    return false;
                }
            }
            i = i + 1;
        }
        false
    }
}

} // verus!
