//! Queue of routed interrupts that wait for their vCPUs.

use crate::error;
use crate::error::{AxError, AxResult};
use crate::irq::{Delivery, InterruptDelivery, PendingInterrupt};
use crate::types::VCpuId;
use std::collections::VecDeque;
use vstd::prelude::*;

verus! {

/// An interrupt together with the vCPU that it is meant for.
#[derive(Clone, Copy, Debug, PartialEq, Eq, Structural)]
pub struct QueuedInterrupt {
    /// Target vCPU.
    pub vcpu_id: VCpuId,
    /// The interrupt.
    pub interrupt: PendingInterrupt,
}

/// The entries that are meant for the vCPU, in order.
pub open spec fn of_vcpu(queue: Seq<QueuedInterrupt>, vcpu_id: VCpuId) -> Seq<QueuedInterrupt>
    decreases queue.len(),
{
    if queue.len() == 0 {
        Seq::empty()
    } else if queue[0].vcpu_id == vcpu_id {
        seq![queue[0]] + of_vcpu(queue.drop_first(), vcpu_id)
    } else {
        of_vcpu(queue.drop_first(), vcpu_id)
    }
}

/// The entries that are meant for other vCPUs, in order.
pub open spec fn of_others(queue: Seq<QueuedInterrupt>, vcpu_id: VCpuId) -> Seq<QueuedInterrupt>
    decreases queue.len(),
{
    if queue.len() == 0 {
        Seq::empty()
    } else if queue[0].vcpu_id == vcpu_id {
        of_others(queue.drop_first(), vcpu_id)
    } else {
        seq![queue[0]] + of_others(queue.drop_first(), vcpu_id)
    }
}

/// The queue without the first `n` entries of the vCPU.
pub open spec fn without_first(queue: Seq<QueuedInterrupt>, vcpu_id: VCpuId, n: int) -> Seq<
    QueuedInterrupt,
>
    decreases queue.len(),
{
    if n <= 0 || queue.len() == 0 {
        queue
    } else if queue[0].vcpu_id == vcpu_id {
        without_first(queue.drop_first(), vcpu_id, n - 1)
    } else {
        seq![queue[0]] + without_first(queue.drop_first(), vcpu_id, n)
    }
}

/// Whether the first entry of the vCPU stands at `i`.
pub open spec fn first_at(queue: Seq<QueuedInterrupt>, vcpu_id: VCpuId, i: int) -> bool {
    &&& 0 <= i < queue.len()
    &&& queue[i].vcpu_id == vcpu_id
    &&& forall|j: int| 0 <= j < i ==> (#[trigger] queue[j]).vcpu_id != vcpu_id
}

/// Whether no entry is meant for the vCPU.
pub open spec fn none_for(queue: Seq<QueuedInterrupt>, vcpu_id: VCpuId) -> bool {
    forall|j: int| 0 <= j < queue.len() ==> (#[trigger] queue[j]).vcpu_id != vcpu_id
}

/// Taking out the first entry of a vCPU.
pub proof fn lemma_take_first(queue: Seq<QueuedInterrupt>, vcpu_id: VCpuId, i: int)
    requires
        first_at(queue, vcpu_id, i),
    ensures
        of_vcpu(queue, vcpu_id).len() > 0,
        of_vcpu(queue, vcpu_id)[0] == queue[i],
        without_first(queue, vcpu_id, 1) == queue.remove(i),
        of_vcpu(queue.remove(i), vcpu_id) == of_vcpu(queue, vcpu_id).drop_first(),
        of_others(queue.remove(i), vcpu_id) == of_others(queue, vcpu_id),
    decreases queue.len(),
{
    let tail = queue.drop_first();
    if i == 0 {
        assert(queue.remove(0) =~= tail);
        assert(without_first(tail, vcpu_id, 0) == tail);
        assert(of_vcpu(queue, vcpu_id).drop_first() =~= of_vcpu(tail, vcpu_id));
    } else {
        assert(queue[0].vcpu_id != vcpu_id);
        assert(first_at(tail, vcpu_id, i - 1));
        lemma_take_first(tail, vcpu_id, i - 1);
        let rest = queue.remove(i);
        assert(rest.drop_first() =~= tail.remove(i - 1));
        assert(rest =~= seq![queue[0]] + tail.remove(i - 1));
    }
}

/// A queue without entries for a vCPU.
pub proof fn lemma_none_for(queue: Seq<QueuedInterrupt>, vcpu_id: VCpuId)
    requires
        none_for(queue, vcpu_id),
    ensures
        of_vcpu(queue, vcpu_id).len() == 0,
        of_others(queue, vcpu_id) == queue,
    decreases queue.len(),
{
    if queue.len() > 0 {
        let tail = queue.drop_first();
        assert(none_for(tail, vcpu_id)) by {
            assert forall|j: int| 0 <= j < tail.len() implies (#[trigger] tail[j]).vcpu_id
                != vcpu_id by {
                assert(tail[j] == queue[j + 1]);
            }
        }
        assert(queue[0].vcpu_id != vcpu_id);
        lemma_none_for(tail, vcpu_id);
        assert(queue =~= seq![queue[0]] + tail);
    }
}

/// A queue that holds entries of one vCPU only.
pub proof fn lemma_all_for(entries: Seq<QueuedInterrupt>, vcpu_id: VCpuId)
    requires
        forall|i: int| 0 <= i < entries.len() ==> (#[trigger] entries[i]).vcpu_id == vcpu_id,
    ensures
        of_vcpu(entries, vcpu_id) == entries,
        of_others(entries, vcpu_id).len() == 0,
    decreases entries.len(),
{
    if entries.len() > 0 {
        let tail = entries.drop_first();
        assert forall|i: int| 0 <= i < tail.len() implies (#[trigger] tail[i]).vcpu_id
            == vcpu_id by {
            assert(tail[i] == entries[i + 1]);
        }
        assert(entries[0].vcpu_id == vcpu_id);
        lemma_all_for(tail, vcpu_id);
        assert(entries =~= seq![entries[0]] + tail);
    }
}

/// Taking out one more entry.
pub proof fn lemma_without_first_step(queue: Seq<QueuedInterrupt>, vcpu_id: VCpuId, n: int)
    requires
        n >= 0,
    ensures
        without_first(without_first(queue, vcpu_id, n), vcpu_id, 1) == without_first(
            queue,
            vcpu_id,
            n + 1,
        ),
    decreases queue.len(),
{
    if queue.len() > 0 {
        let tail = queue.drop_first();
        if n > 0 {
            if queue[0].vcpu_id == vcpu_id {
                lemma_without_first_step(tail, vcpu_id, n - 1);
            } else {
                lemma_without_first_step(tail, vcpu_id, n);
                let inner = without_first(tail, vcpu_id, n);
                let outer = seq![queue[0]] + inner;
                assert(outer.drop_first() =~= inner);
            }
        }
    }
}

/// The parts of a queue without its first entries.
pub proof fn lemma_without_first_parts(queue: Seq<QueuedInterrupt>, vcpu_id: VCpuId, n: int)
    requires
        0 <= n <= of_vcpu(queue, vcpu_id).len(),
    ensures
        of_vcpu(without_first(queue, vcpu_id, n), vcpu_id) == of_vcpu(queue, vcpu_id).skip(n),
        of_others(without_first(queue, vcpu_id, n), vcpu_id) == of_others(queue, vcpu_id),
    decreases queue.len(),
{
    let mine = of_vcpu(queue, vcpu_id);
    if n == 0 {
        assert(mine.skip(0) =~= mine);
    } else if queue.len() > 0 {
        let tail = queue.drop_first();
        if queue[0].vcpu_id == vcpu_id {
            lemma_without_first_parts(tail, vcpu_id, n - 1);
            assert(mine.skip(n) =~= of_vcpu(tail, vcpu_id).skip(n - 1));
        } else {
            lemma_without_first_parts(tail, vcpu_id, n);
            let inner = without_first(tail, vcpu_id, n);
            assert((seq![queue[0]] + inner).drop_first() =~= inner);
        }
    }
}

/// The parts of two queues joined together.
pub proof fn lemma_joined_parts(
    a: Seq<QueuedInterrupt>,
    b: Seq<QueuedInterrupt>,
    vcpu_id: VCpuId,
)
    ensures
        of_vcpu(a + b, vcpu_id) == of_vcpu(a, vcpu_id) + of_vcpu(b, vcpu_id),
        of_others(a + b, vcpu_id) == of_others(a, vcpu_id) + of_others(b, vcpu_id),
    decreases a.len(),
{
    if a.len() == 0 {
        assert(a + b =~= b);
        assert(of_vcpu(a, vcpu_id) + of_vcpu(b, vcpu_id) =~= of_vcpu(b, vcpu_id));
        assert(of_others(a, vcpu_id) + of_others(b, vcpu_id) =~= of_others(b, vcpu_id));
    } else {
        assert((a + b).drop_first() =~= a.drop_first() + b);
        lemma_joined_parts(a.drop_first(), b, vcpu_id);
        assert(of_vcpu(a + b, vcpu_id) =~= of_vcpu(a, vcpu_id) + of_vcpu(b, vcpu_id));
        assert(of_others(a + b, vcpu_id) =~= of_others(a, vcpu_id) + of_others(b, vcpu_id));
    }
}

/// Taking the first entry of a vCPU out of two queues joined together.
pub proof fn lemma_joined_first(
    a: Seq<QueuedInterrupt>,
    b: Seq<QueuedInterrupt>,
    vcpu_id: VCpuId,
)
    requires
        of_vcpu(a, vcpu_id).len() > 0,
    ensures
        without_first(a + b, vcpu_id, 1) == without_first(a, vcpu_id, 1) + b,
        of_vcpu(a + b, vcpu_id)[0] == of_vcpu(a, vcpu_id)[0],
    decreases a.len(),
{
    lemma_joined_parts(a, b, vcpu_id);
    assert((a + b).drop_first() =~= a.drop_first() + b);
    assert((a + b)[0] == a[0]);
    if a[0].vcpu_id == vcpu_id {
        assert(without_first((a + b).drop_first(), vcpu_id, 0) == (a + b).drop_first());
        assert(without_first(a.drop_first(), vcpu_id, 0) == a.drop_first());
    } else {
        lemma_joined_first(a.drop_first(), b, vcpu_id);
        assert(seq![a[0]] + (without_first(a.drop_first(), vcpu_id, 1) + b) =~= (seq![a[0]]
            + without_first(a.drop_first(), vcpu_id, 1)) + b);
    }
}

/// Entries of a vCPU are meant for it.
pub proof fn lemma_of_vcpu_target(queue: Seq<QueuedInterrupt>, vcpu_id: VCpuId, i: int)
    requires
        0 <= i < of_vcpu(queue, vcpu_id).len(),
    ensures
        of_vcpu(queue, vcpu_id)[i].vcpu_id == vcpu_id,
        queue.contains(of_vcpu(queue, vcpu_id)[i]),
    decreases queue.len(),
{
    let tail = queue.drop_first();
    let entry = of_vcpu(queue, vcpu_id)[i];
    if queue[0].vcpu_id == vcpu_id {
        if i == 0 {
            assert(queue[0] == entry);
        } else {
            lemma_of_vcpu_target(tail, vcpu_id, i - 1);
            let j = choose|j: int| 0 <= j < tail.len() && tail[j] == entry;
            assert(queue[j + 1] == entry);
        }
    } else {
        lemma_of_vcpu_target(tail, vcpu_id, i);
        let j = choose|j: int| 0 <= j < tail.len() && tail[j] == entry;
        assert(queue[j + 1] == entry);
    }
}

/// The queue after the delivery of the vCPU's entry at `k` failed: the entries
/// before it are gone, and it moved to the front.
pub open spec fn after_failure(queue: Seq<QueuedInterrupt>, vcpu_id: VCpuId, k: int) -> Seq<
    QueuedInterrupt,
> {
    seq![of_vcpu(queue, vcpu_id)[k]] + without_first(queue, vcpu_id, k + 1)
}

/// A failed delivery loses nothing: the entry whose delivery failed and all
/// those behind it wait for the next attempt, in their order, and the entries
/// of other vCPUs are as they were.
pub proof fn law_failed_delivery_loses_nothing(
    queue: Seq<QueuedInterrupt>,
    vcpu_id: VCpuId,
    k: int,
)
    requires
        0 <= k < of_vcpu(queue, vcpu_id).len(),
    ensures
        of_vcpu(after_failure(queue, vcpu_id, k), vcpu_id) == of_vcpu(queue, vcpu_id).skip(k),
        of_others(after_failure(queue, vcpu_id, k), vcpu_id) == of_others(queue, vcpu_id),
{
    let entry = of_vcpu(queue, vcpu_id)[k];
    lemma_of_vcpu_target(queue, vcpu_id, k);
    lemma_without_first_parts(queue, vcpu_id, k + 1);
    let rest = without_first(queue, vcpu_id, k + 1);
    assert((seq![entry] + rest).drop_first() =~= rest);
    assert(of_vcpu(queue, vcpu_id).skip(k) =~= seq![entry] + of_vcpu(queue, vcpu_id).skip(k + 1));
}

/// A vCPU never receives an interrupt that is meant for another one, and the
/// two kinds of entries make up the whole queue.
pub proof fn law_delivery_is_isolated_by_vcpu(queue: Seq<QueuedInterrupt>, vcpu_id: VCpuId)
    ensures
        of_vcpu(queue, vcpu_id).len() + of_others(queue, vcpu_id).len() == queue.len(),
        none_for(of_others(queue, vcpu_id), vcpu_id),
        forall|i: int|
            0 <= i < of_vcpu(queue, vcpu_id).len() ==> (#[trigger] of_vcpu(
                queue,
                vcpu_id,
            )[i]).vcpu_id == vcpu_id,
    decreases queue.len(),
{
    if queue.len() > 0 {
        law_delivery_is_isolated_by_vcpu(queue.drop_first(), vcpu_id);
        let rest = of_others(queue.drop_first(), vcpu_id);
        let whole = of_others(queue, vcpu_id);
        assert forall|j: int| 0 <= j < whole.len() implies (#[trigger] whole[j]).vcpu_id
            != vcpu_id by {
            if queue[0].vcpu_id == vcpu_id {
                assert(whole[j] == rest[j]);
            } else if j > 0 {
                assert(whole[j] == rest[j - 1]);
            }
        }
        assert forall|i: int| 0 <= i < of_vcpu(queue, vcpu_id).len() implies (#[trigger] of_vcpu(
            queue,
            vcpu_id,
        )[i]).vcpu_id == vcpu_id by {
            lemma_of_vcpu_target(queue, vcpu_id, i);
        }
    }
}

/// A queued interrupt reaches the vCPU that it is meant for, behind those that
/// wait for it already, and no other vCPU.
pub proof fn law_queued_interrupt_reaches_its_vcpu(
    queue: Seq<QueuedInterrupt>,
    queued: QueuedInterrupt,
    vcpu_id: VCpuId,
)
    ensures
        of_vcpu(queue.push(queued), vcpu_id) == (if vcpu_id == queued.vcpu_id {
            of_vcpu(queue, vcpu_id).push(queued)
        } else {
            of_vcpu(queue, vcpu_id)
        }),
{
    let last = seq![queued];
    assert(queue.push(queued) =~= queue + last);
    lemma_joined_parts(queue, last, vcpu_id);
    assert(last.drop_first() =~= Seq::<QueuedInterrupt>::empty());
    reveal_with_fuel(of_vcpu, 2);
    if vcpu_id == queued.vcpu_id {
        assert(of_vcpu(last, vcpu_id) =~= last);
        assert(of_vcpu(queue, vcpu_id).push(queued) =~= of_vcpu(queue, vcpu_id) + last);
    } else {
        assert(of_vcpu(queue, vcpu_id) + Seq::<QueuedInterrupt>::empty() =~= of_vcpu(
            queue,
            vcpu_id,
        ));
    }
}

/// Interrupts that wait for their vCPUs, oldest first.
pub struct PendingQueue {
    entries: VecDeque<QueuedInterrupt>,
}

impl View for PendingQueue {
    type V = Seq<QueuedInterrupt>;

    closed spec fn view(&self) -> Seq<QueuedInterrupt> {
        self.entries@
    }
}

impl PendingQueue {
    /// Creates an empty queue.
    pub fn new() -> (r: Self)
        ensures
            r@ == Seq::<QueuedInterrupt>::empty(),
    {
        PendingQueue { entries: VecDeque::new() }
    }

    /// Adds an entry behind all others.
    pub fn push_back(&mut self, queued: QueuedInterrupt)
        ensures
            final(self)@ == old(self)@.push(queued),
    {
        self.entries.push_back(queued);
    }

    /// Puts an entry before all others.
    pub fn push_front(&mut self, queued: QueuedInterrupt)
        ensures
            final(self)@ == seq![queued] + old(self)@,
    {
        self.entries.push_front(queued);
    }

    /// Takes out the first entry of the vCPU.
    pub fn take_next(&mut self, vcpu_id: VCpuId) -> (r: Option<QueuedInterrupt>)
        ensures
            match r {
                Some(queued) => {
                    &&& of_vcpu(old(self)@, vcpu_id).len() > 0
                    &&& queued == of_vcpu(old(self)@, vcpu_id)[0]
                    &&& final(self)@ == without_first(old(self)@, vcpu_id, 1)
                },
                None => {
                    &&& of_vcpu(old(self)@, vcpu_id).len() == 0
                    &&& final(self)@ == old(self)@
                },
            },
    {
        let mut index: usize = 0;
        while index < self.entries.len()
            invariant
                index <= self.entries@.len(),
                self.entries@ == old(self)@,
                forall|j: int|
                    0 <= j < index ==> (#[trigger] self.entries@[j]).vcpu_id != vcpu_id,
            decreases self.entries@.len() - index,
        {
            if self.entries[index].vcpu_id == vcpu_id {
                proof {
                    lemma_take_first(self.entries@, vcpu_id, index as int);
                }
                return self.entries.remove(index);
            }
            index = index + 1;
        }
        proof {
            lemma_none_for(self.entries@, vcpu_id);
        }
        None
    }

    /// Returns the number of entries of the vCPU.
    pub fn count_for(&self, vcpu_id: VCpuId) -> (r: usize)
        ensures
            r == of_vcpu(self@, vcpu_id).len(),
    {
        let mut count: usize = 0;
        let mut index: usize = 0;
        proof {
            assert(self.entries@.skip(0) =~= self.entries@);
        }
        while index < self.entries.len()
            invariant
                index <= self.entries@.len(),
                count <= index,
                of_vcpu(self.entries@, vcpu_id).len() == count + of_vcpu(
                    self.entries@.skip(index as int),
                    vcpu_id,
                ).len(),
            decreases self.entries@.len() - index,
        {
            proof {
                assert(self.entries@.skip(index as int).drop_first() =~= self.entries@.skip(
                    index + 1,
                ));
            }
            if self.entries[index].vcpu_id == vcpu_id {
                count = count + 1;
            }
            index = index + 1;
        }
        count
    }

    /// Removes all entries with that vector.
    pub fn remove_vector(&mut self, vector: usize)
        ensures
            final(self)@ == without_vector(old(self)@, vector),
            final(self)@ == old(self)@.filter(
                |queued: QueuedInterrupt| queued.interrupt.vector != vector,
            ),
    {
        proof {
            law_removal_keeps_other_vectors(self@, vector);
        }
        let mut kept: VecDeque<QueuedInterrupt> = VecDeque::new();
        let mut index: usize = 0;
        proof {
            assert(self.entries@.skip(0) =~= self.entries@);
            assert(kept@ + without_vector(self.entries@, vector) =~= without_vector(
                self.entries@,
                vector,
            ));
        }
        while index < self.entries.len()
            invariant
                index <= self.entries@.len(),
                self.entries@ == old(self)@,
                without_vector(self.entries@, vector) == kept@ + without_vector(
                    self.entries@.skip(index as int),
                    vector,
                ),
            decreases self.entries@.len() - index,
        {
            let queued = self.entries[index];
            proof {
                let rest = self.entries@.skip(index as int);
                assert(rest.drop_first() =~= self.entries@.skip(index + 1));
                assert(kept@.push(queued) + without_vector(rest.drop_first(), vector) =~= kept@ + (
                seq![queued] + without_vector(rest.drop_first(), vector)));
            }
            if queued.interrupt.vector != vector {
                kept.push_back(queued);
            }
            index = index + 1;
        }
        proof {
            assert(self.entries@.skip(index as int) =~= Seq::<QueuedInterrupt>::empty());
            assert(kept@ + Seq::<QueuedInterrupt>::empty() =~= kept@);
        }
        self.entries = kept;
    }

    /// Delivers the entries of the vCPU in order. The first that cannot be
    /// delivered goes back to the front of the queue and ends the delivery.
    pub fn drain<D: InterruptDelivery + ?Sized>(&mut self, vcpu_id: VCpuId, deliver: &mut D) -> (r:
        AxResult<()>)
        ensures
            drained(
                old(self)@,
                final(self)@,
                vcpu_id,
                old(deliver).log(),
                final(deliver).log(),
                r,
            ),
    {
        let ghost queue = self@;
        let ghost log = deliver.log();
        let ghost mine = of_vcpu(queue, vcpu_id);
        let ghost mut n: int = 0;
        proof {
            assert(log + accepted(mine.take(0)) =~= log);
        }
        loop
            invariant
                queue == old(self)@,
                log == old(deliver).log(),
                mine == of_vcpu(queue, vcpu_id),
                0 <= n <= mine.len(),
                self@ == without_first(queue, vcpu_id, n),
                deliver.log() == log + accepted(mine.take(n)),
            decreases mine.len() - n,
        {
            proof {
                lemma_without_first_parts(queue, vcpu_id, n);
                lemma_without_first_step(queue, vcpu_id, n);
            }
            let queued = match self.take_next(vcpu_id) {
                Some(queued) => queued,
                None => {
                    proof {
                        assert(n == mine.len());
                        assert(mine.take(n) =~= mine);
                        lemma_emptied(queue, vcpu_id);
                    }
                    return Ok(());
                },
            };
            assert(queued == mine[n]);
            let outcome = deliver.deliver(queued.interrupt);
            proof {
                error::lemma_plain_success(outcome);
                lemma_one_more_accepted(log, mine, n);
            }
            if let Err(error) = outcome {
                self.push_front(queued);
                proof {
                    assert(failed_at(queue, vcpu_id, log, deliver.log(), n, error));
                }
                return Err(error);
            }
            proof {
                n = n + 1;
            }
        }
    }
}

/// The queue without the entries of a vector.
pub open spec fn without_vector(queue: Seq<QueuedInterrupt>, vector: usize) -> Seq<QueuedInterrupt>
    decreases queue.len(),
{
    if queue.len() == 0 {
        Seq::empty()
    } else if queue[0].interrupt.vector == vector {
        without_vector(queue.drop_first(), vector)
    } else {
        seq![queue[0]] + without_vector(queue.drop_first(), vector)
    }
}

/// Without its entries for a vCPU a queue holds those of the others.
pub proof fn lemma_emptied(queue: Seq<QueuedInterrupt>, vcpu_id: VCpuId)
    ensures
        without_first(queue, vcpu_id, of_vcpu(queue, vcpu_id).len() as int) == of_others(
            queue,
            vcpu_id,
        ),
    decreases queue.len(),
{
    if queue.len() > 0 {
        lemma_emptied(queue.drop_first(), vcpu_id);
        if of_vcpu(queue, vcpu_id).len() == 0 {
            assert(queue =~= seq![queue[0]] + queue.drop_first());
        }
    }
}

/// The interrupts of the entries.
pub open spec fn interrupts(entries: Seq<QueuedInterrupt>) -> Seq<PendingInterrupt> {
    Seq::new(entries.len(), |i: int| entries[i].interrupt)
}

/// The record of handing the entries over, one after the other, all with
/// success.
pub open spec fn accepted(entries: Seq<QueuedInterrupt>) -> Seq<Delivery> {
    Seq::new(entries.len(), |i: int| (entries[i].interrupt, Ok(())))
}

/// The interrupts of a record that were handed over with success.
pub open spec fn successes(log: Seq<Delivery>) -> Seq<PendingInterrupt>
    decreases log.len(),
{
    if log.len() == 0 {
        Seq::empty()
    } else if log.last().1 is Ok {
        successes(log.drop_last()).push(log.last().0)
    } else {
        successes(log.drop_last())
    }
}

/// Whether the record grew by the first `k` interrupts of the vCPU, all handed
/// over with success, and by the next one, which failed with `error`.
pub open spec fn failed_at(
    queue: Seq<QueuedInterrupt>,
    vcpu_id: VCpuId,
    before: Seq<Delivery>,
    after: Seq<Delivery>,
    k: int,
    error: AxError,
) -> bool {
    let mine = of_vcpu(queue, vcpu_id);
    &&& 0 <= k < mine.len()
    &&& after == (before + accepted(mine.take(k))).push((mine[k].interrupt, Err(error)))
}

/// What delivering the interrupts of a vCPU does to the queue and to the record
/// of deliveries: all are handed over once, in order, and leave the queue, or
/// those before the first that fails are.
pub open spec fn drained(
    queue: Seq<QueuedInterrupt>,
    queue_after: Seq<QueuedInterrupt>,
    vcpu_id: VCpuId,
    log: Seq<Delivery>,
    log_after: Seq<Delivery>,
    r: AxResult<()>,
) -> bool {
    match r {
        Ok(_) => {
            &&& log_after == log + accepted(of_vcpu(queue, vcpu_id))
            &&& queue_after == of_others(queue, vcpu_id)
        },
        Err(error) => exists|k: int| #[trigger]
            failed_at(queue, vcpu_id, log, log_after, k, error) && queue_after == after_failure(
                queue,
                vcpu_id,
                k,
            ),
    }
}

/// Handing one more entry over with success.
pub proof fn lemma_one_more_accepted(log: Seq<Delivery>, entries: Seq<QueuedInterrupt>, n: int)
    requires
        0 <= n < entries.len(),
    ensures
        (log + accepted(entries.take(n))).push((entries[n].interrupt, Ok(()))) == log + accepted(
            entries.take(n + 1),
        ),
{
    assert((log + accepted(entries.take(n))).push((entries[n].interrupt, Ok(()))) =~= log
        + accepted(entries.take(n + 1)));
}

/// Entries that were handed over with success count as such.
pub proof fn lemma_accepted_successes(entries: Seq<QueuedInterrupt>)
    ensures
        successes(accepted(entries)) == interrupts(entries),
    decreases entries.len(),
{
    if entries.len() > 0 {
        let front = entries.drop_last();
        lemma_accepted_successes(front);
        assert(accepted(entries).drop_last() =~= accepted(front));
        assert(interrupts(entries) =~= interrupts(front).push(entries.last().interrupt));
    } else {
        assert(interrupts(entries) =~= Seq::<PendingInterrupt>::empty());
    }
}

proof fn lemma_joined_successes(a: Seq<Delivery>, b: Seq<Delivery>)
    ensures
        successes(a + b) == successes(a) + successes(b),
    decreases b.len(),
{
    if b.len() == 0 {
        assert(a + b =~= a);
        assert(successes(a) + successes(b) =~= successes(a));
    } else {
        assert((a + b).drop_last() =~= a + b.drop_last());
        lemma_joined_successes(a, b.drop_last());
        assert(successes(a + b) =~= successes(a) + successes(b));
    }
}

/// A queued interrupt is delivered once, in order: a drain that succeeds hands
/// over each interrupt of the vCPU once and nothing else, and none of them stays
/// queued. The entries of other vCPUs stay, in their order.
pub proof fn law_queued_interrupts_are_delivered_once(
    queue: Seq<QueuedInterrupt>,
    queue_after: Seq<QueuedInterrupt>,
    vcpu_id: VCpuId,
    log: Seq<Delivery>,
    log_after: Seq<Delivery>,
)
    requires
        drained(queue, queue_after, vcpu_id, log, log_after, Ok(())),
    ensures
        successes(log_after) == successes(log) + interrupts(of_vcpu(queue, vcpu_id)),
        log_after.len() == log.len() + of_vcpu(queue, vcpu_id).len(),
        of_vcpu(queue_after, vcpu_id).len() == 0,
        of_others(queue_after, vcpu_id) == of_others(queue, vcpu_id),
{
    let mine = of_vcpu(queue, vcpu_id);
    lemma_accepted_successes(mine);
    lemma_joined_successes(log, accepted(mine));
    law_delivery_is_isolated_by_vcpu(queue, vcpu_id);
    lemma_none_for(queue_after, vcpu_id);
}

/// A failed delivery repeats nothing and loses nothing: a drain that fails and
/// the next one, which succeeds, together hand over each interrupt of the vCPU
/// once with success, in order. The next drain starts with the interrupt that
/// failed.
pub proof fn law_failed_delivery_is_resumed(
    queue: Seq<QueuedInterrupt>,
    queue_between: Seq<QueuedInterrupt>,
    queue_after: Seq<QueuedInterrupt>,
    vcpu_id: VCpuId,
    log: Seq<Delivery>,
    log_between: Seq<Delivery>,
    log_after: Seq<Delivery>,
    error: AxError,
)
    requires
        drained(queue, queue_between, vcpu_id, log, log_between, Err(error)),
        drained(queue_between, queue_after, vcpu_id, log_between, log_after, Ok(())),
    ensures
        successes(log_after) == successes(log) + interrupts(of_vcpu(queue, vcpu_id)),
        log_between.last().1 == Err::<(), AxError>(error),
        log_after[log_between.len() as int].0 == log_between.last().0,
        of_vcpu(queue_after, vcpu_id).len() == 0,
        of_others(queue_after, vcpu_id) == of_others(queue, vcpu_id),
{
    let k = choose|k: int| #[trigger]
        failed_at(queue, vcpu_id, log, log_between, k, error) && queue_between == after_failure(
            queue,
            vcpu_id,
            k,
        );
    let mine = of_vcpu(queue, vcpu_id);
    let head = log + accepted(mine.take(k));
    law_failed_delivery_loses_nothing(queue, vcpu_id, k);
    law_queued_interrupts_are_delivered_once(
        queue_between,
        queue_after,
        vcpu_id,
        log_between,
        log_after,
    );
    lemma_accepted_successes(mine.take(k));
    lemma_joined_successes(log, accepted(mine.take(k)));
    assert(log_between.drop_last() =~= head);
    assert(log_after[log_between.len() as int] == accepted(mine.skip(k))[0]);
    assert((successes(log) + interrupts(mine.take(k))) + interrupts(mine.skip(k)) =~= successes(log)
        + interrupts(mine));
}

proof fn lemma_filter_first(queue: Seq<QueuedInterrupt>, pred: spec_fn(QueuedInterrupt) -> bool)
    requires
        queue.len() > 0,
    ensures
        queue.filter(pred) == (if pred(queue[0]) {
            seq![queue[0]] + queue.drop_first().filter(pred)
        } else {
            queue.drop_first().filter(pred)
        }),
{
    let head = seq![queue[0]];
    let tail = queue.drop_first();
    assert(queue =~= head + tail);
    Seq::filter_distributes_over_add(head, tail, pred);
    reveal(Seq::filter);
    assert(head.drop_last() =~= Seq::<QueuedInterrupt>::empty());
    assert(head.drop_last().filter(pred) =~= Seq::<QueuedInterrupt>::empty());
    if pred(queue[0]) {
        assert(head.filter(pred) =~= head);
    } else {
        assert(head.filter(pred) + tail.filter(pred) =~= tail.filter(pred));
    }
}

/// Removing a vector takes out its entries and no other: the queue afterwards is
/// the queue before, filtered by the vector, so each entry of another vector is
/// still there as often as before and in the same order.
pub proof fn law_removal_keeps_other_vectors(queue: Seq<QueuedInterrupt>, vector: usize)
    ensures
        without_vector(queue, vector) == queue.filter(
            |queued: QueuedInterrupt| queued.interrupt.vector != vector,
        ),
        forall|i: int|
            0 <= i < queue.len() && (#[trigger] queue[i]).interrupt.vector != vector
                ==> without_vector(queue, vector).contains(queue[i]),
        forall|i: int|
            0 <= i < without_vector(queue, vector).len() ==> (#[trigger] without_vector(
                queue,
                vector,
            )[i]).interrupt.vector != vector,
    decreases queue.len(),
{
    let pred = |queued: QueuedInterrupt| queued.interrupt.vector != vector;
    if queue.len() > 0 {
        law_removal_keeps_other_vectors(queue.drop_first(), vector);
        lemma_filter_first(queue, pred);
    } else {
        reveal(Seq::filter);
    }
    assert(without_vector(queue, vector) =~= queue.filter(pred));
    broadcast use vstd::seq_lib::group_filter_ensures;

    assert forall|i: int| 0 <= i < queue.len() && (#[trigger] queue[i]).interrupt.vector
        != vector implies without_vector(queue, vector).contains(queue[i]) by {
        assert(pred(queue[i]));
    }
    assert forall|i: int| 0 <= i < without_vector(queue, vector).len() implies (
    #[trigger] without_vector(queue, vector)[i]).interrupt.vector != vector by {
        assert(pred(queue.filter(pred)[i]));
    }
}

/// What is meant for a vCPU is what names it as target, what is meant for the
/// others is the rest, and neither loses its order.
pub proof fn law_targets_divide_the_queue(queue: Seq<QueuedInterrupt>, vcpu_id: VCpuId)
    ensures
        of_vcpu(queue, vcpu_id) == queue.filter(
            |queued: QueuedInterrupt| queued.vcpu_id == vcpu_id,
        ),
        of_others(queue, vcpu_id) == queue.filter(
            |queued: QueuedInterrupt| queued.vcpu_id != vcpu_id,
        ),
    decreases queue.len(),
{
    let mine = |queued: QueuedInterrupt| queued.vcpu_id == vcpu_id;
    let theirs = |queued: QueuedInterrupt| queued.vcpu_id != vcpu_id;
    if queue.len() > 0 {
        law_targets_divide_the_queue(queue.drop_first(), vcpu_id);
        lemma_filter_first(queue, mine);
        lemma_filter_first(queue, theirs);
    } else {
        reveal(Seq::filter);
    }
    assert(of_vcpu(queue, vcpu_id) =~= queue.filter(mine));
    assert(of_others(queue, vcpu_id) =~= queue.filter(theirs));
}

/// What a drain hands over and leaves, entry by entry. If it succeeds, each entry
/// that names the vCPU was handed over once, in order, and the others are left. If
/// it fails, those before some entry were handed over with success and that entry
/// with the error; it comes first in what is left for the vCPU, followed by those
/// behind it, and the entries of others are left as they were.
pub proof fn law_drain_by_entry(
    queue: Seq<QueuedInterrupt>,
    queue_after: Seq<QueuedInterrupt>,
    vcpu_id: VCpuId,
    log: Seq<Delivery>,
    log_after: Seq<Delivery>,
    r: AxResult<()>,
)
    requires
        drained(queue, queue_after, vcpu_id, log, log_after, r),
    ensures
        ({
            let mine = queue.filter(|queued: QueuedInterrupt| queued.vcpu_id == vcpu_id);
            let theirs = queue.filter(|queued: QueuedInterrupt| queued.vcpu_id != vcpu_id);
            let left = queue_after.filter(|queued: QueuedInterrupt| queued.vcpu_id == vcpu_id);
            let others = queue_after.filter(|queued: QueuedInterrupt| queued.vcpu_id != vcpu_id);
            let added = log_after.len() - log.len();
            &&& others == theirs
            &&& log_after.take(log.len() as int) == log
            &&& r is Ok ==> added == mine.len() && left.len() == 0
            &&& r is Err ==> 0 < added <= mine.len() && left == mine.skip(added - 1)
            &&& forall|i: int|
                0 <= i < added ==> {
                    let entry = #[trigger] log_after[log.len() + i];
                    &&& entry.0 == mine[i].interrupt
                    &&& entry.1 == (if r is Err && i == added - 1 {
                        r
                    } else {
                        Ok(())
                    })
                }
        }),
{
    let mine = of_vcpu(queue, vcpu_id);
    law_targets_divide_the_queue(queue, vcpu_id);
    law_targets_divide_the_queue(queue_after, vcpu_id);
    match r {
        Ok(_) => {
            law_delivery_is_isolated_by_vcpu(queue, vcpu_id);
            lemma_none_for(queue_after, vcpu_id);
            assert(log_after.take(log.len() as int) =~= log);
        },
        Err(error) => {
            let k = choose|k: int| #[trigger]
                failed_at(queue, vcpu_id, log, log_after, k, error) && queue_after
                    == after_failure(queue, vcpu_id, k);
            law_failed_delivery_loses_nothing(queue, vcpu_id, k);
            assert(log_after.take(log.len() as int) =~= log);
        },
    }
}

} // verus!
