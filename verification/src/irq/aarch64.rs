//! AArch64 virtual GIC interrupt backend and the placement of GPPT devices.

use crate::error;
use crate::error::{AxError, AxResult};
use crate::factory;
use crate::factory::{DeviceFactory, DeviceFactoryRegistry};
use crate::irq::line::IrqSink;
use crate::irq::queue;
use crate::irq::queue::{PendingQueue, QueuedInterrupt};
use crate::irq::router::MsiRoute;
use crate::irq::{
    Delivery, InterruptControllerOps, InterruptDelivery, InterruptFabric, PendingInterrupt,
};
use crate::shared::Shared;
use crate::types::{
    EmulatedDeviceConfig, InterruptTriggerMode, InterruptVector, IrqLineId, VCpuId,
    VMInterruptMode, BSP_VCPU_ID,
};
use vstd::prelude::*;

verus! {

/// First interrupt past the software-generated ones.
pub const SGI_END: usize = 16;

/// First interrupt past the private peripheral ones.
pub const PPI_END: usize = 32;

/// First of the special interrupt numbers.
pub const SPECIAL_INTERRUPT_START: usize = 1020;

/// Whether a device can use the line: it is a private or a shared peripheral
/// interrupt.
pub open spec fn is_device_line(line: IrqLineId) -> bool {
    SGI_END <= line.0 < SPECIAL_INTERRUPT_START
}

/// The entry that a signal on the line queues. The vector of an entry is the
/// number of its line.
pub open spec fn line_entry(line: IrqLineId, trigger: InterruptTriggerMode) -> QueuedInterrupt {
    QueuedInterrupt {
        vcpu_id: BSP_VCPU_ID,
        interrupt: PendingInterrupt { vector: line.0, trigger },
    }
}

/// Whether an entry goes back to the queue after its delivery: its line is
/// level-triggered and still asserted.
pub open spec fn stays_queued(asserted: Seq<bool>, queued: QueuedInterrupt) -> bool {
    queued.interrupt.trigger == InterruptTriggerMode::LevelTriggered
        && asserted[queued.interrupt.vector as int]
}

/// Those entries of a list that go back to the queue after their delivery.
pub open spec fn requeued(asserted: Seq<bool>, entries: Seq<QueuedInterrupt>) -> Seq<
    QueuedInterrupt,
>
    decreases entries.len(),
{
    if entries.len() == 0 {
        Seq::empty()
    } else if stays_queued(asserted, entries.last()) {
        requeued(asserted, entries.drop_last()).push(entries.last())
    } else {
        requeued(asserted, entries.drop_last())
    }
}

/// The queue after the first `n` interrupts of the vCPU were delivered.
pub open spec fn after_deliveries(
    asserted: Seq<bool>,
    pending: Seq<QueuedInterrupt>,
    vcpu_id: VCpuId,
    n: int,
) -> Seq<QueuedInterrupt> {
    queue::without_first(pending, vcpu_id, n) + requeued(
        asserted,
        queue::of_vcpu(pending, vcpu_id).take(n),
    )
}

/// The queue after the delivery of the vCPU's entry at `k` failed: an entry
/// that was only refused for now goes back to the front, any other is dropped.
pub open spec fn after_failed_delivery(
    asserted: Seq<bool>,
    pending: Seq<QueuedInterrupt>,
    vcpu_id: VCpuId,
    k: int,
    error: AxError,
) -> Seq<QueuedInterrupt> {
    let rest = queue::without_first(pending, vcpu_id, k + 1) + requeued(
        asserted,
        queue::of_vcpu(pending, vcpu_id).take(k),
    );
    if error == AxError::WouldBlock {
        seq![queue::of_vcpu(pending, vcpu_id)[k]] + rest
    } else {
        rest
    }
}

/// What delivering the interrupts of a vCPU does to the queue and to the record
/// of deliveries: each entry that was there is handed over once, in order, up to
/// the first that fails.
pub open spec fn drained(
    asserted: Seq<bool>,
    queue: Seq<QueuedInterrupt>,
    queue_after: Seq<QueuedInterrupt>,
    vcpu_id: VCpuId,
    log: Seq<Delivery>,
    log_after: Seq<Delivery>,
    r: AxResult<()>,
) -> bool {
    match r {
        Ok(_) => {
            &&& log_after == log + queue::accepted(queue::of_vcpu(queue, vcpu_id))
            &&& queue_after == queue::of_others(queue, vcpu_id) + requeued(
                asserted,
                queue::of_vcpu(queue, vcpu_id),
            )
        },
        Err(error) => exists|k: int|
            {
                &&& #[trigger] queue::failed_at(queue, vcpu_id, log, log_after, k, error)
                &&& queue_after == after_failed_delivery(asserted, queue, vcpu_id, k, error)
            },
    }
}

/// What setting a line does to the line states and to the queue: a line that
/// becomes asserted is queued, one that becomes low leaves the queue.
pub open spec fn level_set(
    asserted: Seq<bool>,
    pending: Seq<QueuedInterrupt>,
    asserted_after: Seq<bool>,
    pending_after: Seq<QueuedInterrupt>,
    line: IrqLineId,
    level: bool,
    r: AxResult<()>,
) -> bool {
    if !is_device_line(line) {
        &&& r == Err::<(), AxError>(AxError::InvalidInput)
        &&& asserted_after == asserted
        &&& pending_after == pending
    } else {
        &&& r == Ok::<(), AxError>(())
        &&& asserted_after == asserted.update(line.0 as int, level)
        &&& pending_after == (if asserted[line.0 as int] == level {
            pending
        } else if level {
            pending.push(line_entry(line, InterruptTriggerMode::LevelTriggered))
        } else {
            queue::without_vector(pending, line.0)
        })
    }
}

/// What pulsing a line does to the queue.
pub open spec fn line_pulsed(
    pending: Seq<QueuedInterrupt>,
    pending_after: Seq<QueuedInterrupt>,
    line: IrqLineId,
    r: AxResult<()>,
) -> bool {
    if is_device_line(line) {
        &&& r == Ok::<(), AxError>(())
        &&& pending_after == pending.push(line_entry(line, InterruptTriggerMode::EdgeTriggered))
    } else {
        &&& r == Err::<(), AxError>(AxError::InvalidInput)
        &&& pending_after == pending
    }
}

/// Line states and waiting interrupts of a VM.
pub struct Aarch64InterruptBackend {
    vcpu_count: usize,
    asserted: Vec<bool>,
    pending: PendingQueue,
}

impl Aarch64InterruptBackend {
    /// The number of vCPUs.
    pub closed spec fn spec_vcpu_count(&self) -> usize {
        self.vcpu_count
    }

    /// Which lines are asserted.
    pub closed spec fn spec_asserted(&self) -> Seq<bool> {
        self.asserted@
    }

    /// The interrupts that wait for delivery, oldest first.
    pub closed spec fn spec_pending(&self) -> Seq<QueuedInterrupt> {
        self.pending@
    }

    /// There is a vCPU, every line has a state, and the entries of the queue
    /// belong to device lines, which are asserted where they are
    /// level-triggered.
    pub open spec fn wf(&self) -> bool {
        &&& self.spec_vcpu_count() > 0
        &&& self.spec_asserted().len() == SPECIAL_INTERRUPT_START
        &&& entries_sound(self.spec_asserted(), self.spec_pending())
    }
}

/// Whether no line is asserted.
pub open spec fn all_low(asserted: Seq<bool>) -> bool {
    forall|i: int| 0 <= i < asserted.len() ==> !#[trigger] asserted[i]
}

/// Whether the entries belong to device lines, which are asserted where they
/// are level-triggered.
pub open spec fn entries_sound(asserted: Seq<bool>, pending: Seq<QueuedInterrupt>) -> bool {
    forall|i: int|
        0 <= i < pending.len() ==> entry_sound(asserted, #[trigger] pending[i])
}

/// Whether the entry belongs to a device line, which is asserted where it is
/// level-triggered.
pub open spec fn entry_sound(asserted: Seq<bool>, queued: QueuedInterrupt) -> bool {
    &&& is_device_line(IrqLineId(queued.interrupt.vector))
    &&& queued.interrupt.trigger == InterruptTriggerMode::LevelTriggered ==> asserted[
        queued.interrupt.vector as int]
}

proof fn lemma_requeued_sound(asserted: Seq<bool>, entries: Seq<QueuedInterrupt>)
    requires
        entries_sound(asserted, entries),
    ensures
        entries_sound(asserted, requeued(asserted, entries)),
    decreases entries.len(),
{
    if entries.len() > 0 {
        let front = entries.drop_last();
        assert(entries_sound(asserted, front)) by {
            assert forall|i: int| 0 <= i < front.len() implies entry_sound(
                asserted,
                #[trigger] front[i],
            ) by {
                assert(front[i] == entries[i]);
            }
        }
        lemma_requeued_sound(asserted, front);
        assert(entry_sound(asserted, entries[entries.len() - 1]));
    }
}

proof fn lemma_parts_sound(
    asserted: Seq<bool>,
    pending: Seq<QueuedInterrupt>,
    vcpu_id: VCpuId,
    n: int,
)
    requires
        entries_sound(asserted, pending),
    ensures
        entries_sound(asserted, queue::of_vcpu(pending, vcpu_id)),
        entries_sound(asserted, queue::without_first(pending, vcpu_id, n)),
    decreases pending.len(),
{
    if pending.len() > 0 {
        let tail = pending.drop_first();
        assert(entries_sound(asserted, tail)) by {
            assert forall|i: int| 0 <= i < tail.len() implies entry_sound(
                asserted,
                #[trigger] tail[i],
            ) by {
                assert(tail[i] == pending[i + 1]);
            }
        }
        lemma_parts_sound(asserted, tail, vcpu_id, n);
        lemma_parts_sound(asserted, tail, vcpu_id, n - 1);
        assert(entry_sound(asserted, pending[0]));
    }
}

proof fn lemma_joined_sound(
    asserted: Seq<bool>,
    a: Seq<QueuedInterrupt>,
    b: Seq<QueuedInterrupt>,
)
    requires
        entries_sound(asserted, a),
        entries_sound(asserted, b),
    ensures
        entries_sound(asserted, a + b),
{
    assert forall|i: int| 0 <= i < (a + b).len() implies entry_sound(
        asserted,
        #[trigger] (a + b)[i],
    ) by {
        if i < a.len() {
            assert((a + b)[i] == a[i]);
        } else {
            assert((a + b)[i] == b[i - a.len()]);
        }
    }
}

proof fn lemma_deliveries_sound(
    asserted: Seq<bool>,
    pending: Seq<QueuedInterrupt>,
    vcpu_id: VCpuId,
    taken: int,
    n: int,
)
    requires
        entries_sound(asserted, pending),
        0 <= n <= queue::of_vcpu(pending, vcpu_id).len(),
    ensures
        entries_sound(
            asserted,
            queue::without_first(pending, vcpu_id, taken) + requeued(
                asserted,
                queue::of_vcpu(pending, vcpu_id).take(n),
            ),
        ),
{
    let mine = queue::of_vcpu(pending, vcpu_id);
    lemma_parts_sound(asserted, pending, vcpu_id, taken);
    assert(entries_sound(asserted, mine.take(n))) by {
        assert forall|i: int| 0 <= i < mine.take(n).len() implies entry_sound(
            asserted,
            #[trigger] mine.take(n)[i],
        ) by {
            assert(mine.take(n)[i] == mine[i]);
        }
    }
    lemma_requeued_sound(asserted, mine.take(n));
    lemma_joined_sound(
        asserted,
        queue::without_first(pending, vcpu_id, taken),
        requeued(asserted, mine.take(n)),
    );
}

proof fn lemma_without_vector_sound(
    asserted: Seq<bool>,
    pending: Seq<QueuedInterrupt>,
    line: usize,
)
    requires
        entries_sound(asserted, pending),
        asserted.len() == SPECIAL_INTERRUPT_START,
        line < SPECIAL_INTERRUPT_START,
    ensures
        entries_sound(
            asserted.update(line as int, false),
            queue::without_vector(pending, line),
        ),
    decreases pending.len(),
{
    if pending.len() > 0 {
        let tail = pending.drop_first();
        assert(entries_sound(asserted, tail)) by {
            assert forall|i: int| 0 <= i < tail.len() implies entry_sound(
                asserted,
                #[trigger] tail[i],
            ) by {
                assert(tail[i] == pending[i + 1]);
            }
        }
        lemma_without_vector_sound(asserted, tail, line);
        assert(entry_sound(asserted, pending[0]));
    }
}

impl Aarch64InterruptBackend {
    /// Creates a backend for that many vCPUs, with all lines low and nothing
    /// queued.
    pub fn new(vcpu_count: usize) -> (r: AxResult<Self>)
        ensures
            vcpu_count == 0 ==> r == Err::<Self, AxError>(AxError::InvalidInput),
            vcpu_count > 0 ==> {
                &&& r is Ok
                &&& r->Ok_0.wf()
                &&& r->Ok_0.spec_vcpu_count() == vcpu_count
                &&& r->Ok_0.spec_pending() == Seq::<QueuedInterrupt>::empty()
                &&& all_low(r->Ok_0.spec_asserted())
            },
    {
        if vcpu_count == 0 {
            return Err(AxError::InvalidInput);
        }
        Ok(
            Aarch64InterruptBackend {
                vcpu_count,
                asserted: vec![false; SPECIAL_INTERRUPT_START],
                pending: PendingQueue::new(),
            },
        )
    }

    /// Checks that a device can use the line.
    pub fn validate_line(&self, line: IrqLineId) -> (r: AxResult<()>)
        ensures
            r == (if is_device_line(line) {
                Ok::<(), AxError>(())
            } else {
                Err(AxError::InvalidInput)
            }),
    {
        if line.0 < SGI_END {
            return Err(AxError::InvalidInput);
        }
        if line.0 >= SPECIAL_INTERRUPT_START {
            return Err(AxError::InvalidInput);
        }
        Ok(())
    }

    /// Returns the vCPU that the line is routed to. Lines have no affinity: all
    /// are routed to the bootstrap vCPU.
    pub fn target_vcpu(&self, line: IrqLineId) -> (r: AxResult<VCpuId>)
        ensures
            r == (if !is_device_line(line) {
                Err::<VCpuId, AxError>(AxError::InvalidInput)
            } else if self.spec_vcpu_count() > 0 {
                Ok(BSP_VCPU_ID)
            } else {
                Err(AxError::BadState)
            }),
    {
        match self.validate_line(line) {
            Ok(()) => {},
            Err(error) => {
                return Err(error);
            },
        }
        if BSP_VCPU_ID >= self.vcpu_count {
            return Err(AxError::BadState);
        }
        Ok(BSP_VCPU_ID)
    }

    fn queue_interrupt(&mut self, line: IrqLineId, trigger: InterruptTriggerMode) -> (r: AxResult<()>)
        requires
            old(self).wf(),
            trigger == InterruptTriggerMode::EdgeTriggered,
        ensures
            final(self).wf(),
            final(self).spec_vcpu_count() == old(self).spec_vcpu_count(),
            final(self).spec_asserted() == old(self).spec_asserted(),
            r == (if is_device_line(line) {
                Ok::<(), AxError>(())
            } else {
                Err(AxError::InvalidInput)
            }),
            final(self).spec_pending() == (if is_device_line(line) {
                old(self).spec_pending().push(line_entry(line, trigger))
            } else {
                old(self).spec_pending()
            }),
    {
        let vcpu_id: VCpuId = match self.target_vcpu(line) {
            Ok(vcpu_id) => vcpu_id,
            Err(error) => {
                return Err(error);
            },
        };
        self.pending.push_back(
            QueuedInterrupt { vcpu_id, interrupt: PendingInterrupt { vector: line.0, trigger } },
        );
        Ok(())
    }

    /// Sets the asserted state of a line. A line that becomes asserted is
    /// queued; one that becomes low leaves the queue.
    pub fn set_level(&mut self, line: IrqLineId, asserted: bool) -> (r: AxResult<()>)
        requires
            old(self).wf(),
        ensures
            level_set(
                old(self).spec_asserted(),
                old(self).spec_pending(),
                final(self).spec_asserted(),
                final(self).spec_pending(),
                line,
                asserted,
                r,
            ),
            final(self).wf(),
            final(self).spec_vcpu_count() == old(self).spec_vcpu_count(),
            r == (if is_device_line(line) {
                Ok::<(), AxError>(())
            } else {
                Err(AxError::InvalidInput)
            }),
            final(self).spec_asserted() == (if is_device_line(line) {
                old(self).spec_asserted().update(line.0 as int, asserted)
            } else {
                old(self).spec_asserted()
            }),
            final(self).spec_pending() == (if !is_device_line(line)
                || old(self).spec_asserted()[line.0 as int] == asserted {
                old(self).spec_pending()
            } else if asserted {
                old(self).spec_pending().push(
                    line_entry(line, InterruptTriggerMode::LevelTriggered),
                )
            } else {
                queue::without_vector(old(self).spec_pending(), line.0)
            }),
    {
        let vcpu_id: VCpuId = match self.target_vcpu(line) {
            Ok(vcpu_id) => vcpu_id,
            Err(error) => {
                return Err(error);
            },
        };
        let ghost before = self.asserted@;
        let ghost pending = self.pending@;
        if self.asserted[line.0] == asserted {
            assert(before.update(line.0 as int, asserted) =~= before);
            return Ok(());
        }
        self.asserted.set(line.0, asserted);
        if asserted {
            self.pending.push_back(
                QueuedInterrupt {
                    vcpu_id,
                    interrupt: PendingInterrupt {
                        vector: line.0,
                        trigger: InterruptTriggerMode::LevelTriggered,
                    },
                },
            );
            proof {
                assert forall|i: int| 0 <= i < self.pending@.len() implies entry_sound(
                    self.asserted@,
                    #[trigger] self.pending@[i],
                ) by {
                    if i < pending.len() {
                        assert(entry_sound(before, pending[i]));
                    }
                }
            }
        } else {
            self.pending.remove_vector(line.0);
            proof {
                lemma_without_vector_sound(before, pending, line.0);
            }
        }
        Ok(())
    }

    /// Queues one edge-triggered interrupt of a line for the bootstrap vCPU.
    pub fn pulse(&mut self, line: IrqLineId) -> (r: AxResult<()>)
        requires
            old(self).wf(),
        ensures
            line_pulsed(old(self).spec_pending(), final(self).spec_pending(), line, r),
            final(self).wf(),
            final(self).spec_vcpu_count() == old(self).spec_vcpu_count(),
            final(self).spec_asserted() == old(self).spec_asserted(),
            r == (if is_device_line(line) {
                Ok::<(), AxError>(())
            } else {
                Err(AxError::InvalidInput)
            }),
            final(self).spec_pending() == (if is_device_line(line) {
                old(self).spec_pending().push(line_entry(line, InterruptTriggerMode::EdgeTriggered))
            } else {
                old(self).spec_pending()
            }),
    {
        self.queue_interrupt(line, InterruptTriggerMode::EdgeTriggered)
    }

    /// Refuses message-signaled interrupts.
    pub fn inject_msi(&self, route: MsiRoute) -> (r: AxResult<()>)
        ensures
            r == Err::<(), AxError>(AxError::Unsupported),
    {
        Err(AxError::Unsupported)
    }

    /// Accepts an EOI and changes nothing: list-register state is maintained by
    /// hardware, and an asserted level line was queued again when it was
    /// delivered. Only one whose delivery failed for another reason than full
    /// list registers is no longer queued.
    pub fn eoi(&self, vcpu_id: VCpuId, vector: InterruptVector) -> (r: AxResult<()>)
        ensures
            r == Ok::<(), AxError>(()),
    {
        Ok(())
    }

    /// Forwards a host interrupt as a pulse on the line of the same number.
    pub fn forward_host_irq(&mut self, host_irq: usize) -> (r: AxResult<()>)
        requires
            old(self).wf(),
        ensures
            line_pulsed(old(self).spec_pending(), final(self).spec_pending(), IrqLineId(host_irq), r),
            final(self).wf(),
            final(self).spec_vcpu_count() == old(self).spec_vcpu_count(),
            final(self).spec_asserted() == old(self).spec_asserted(),
            r == (if is_device_line(IrqLineId(host_irq)) {
                Ok::<(), AxError>(())
            } else {
                Err(AxError::InvalidInput)
            }),
            final(self).spec_pending() == (if is_device_line(IrqLineId(host_irq)) {
                old(self).spec_pending().push(
                    line_entry(IrqLineId(host_irq), InterruptTriggerMode::EdgeTriggered),
                )
            } else {
                old(self).spec_pending()
            }),
    {
        self.pulse(IrqLineId(host_irq))
    }

    /// Tries each interrupt of the vCPU once, in order, up to the first that
    /// fails. Asserted level lines go back to the end of the queue.
    pub fn drain_pending<D: InterruptDelivery + ?Sized>(
        &mut self,
        vcpu_id: VCpuId,
        deliver: &mut D,
    ) -> (r: AxResult<()>)
        requires
            old(self).wf(),
        ensures
            final(self).wf(),
            final(self).spec_vcpu_count() == old(self).spec_vcpu_count(),
            final(self).spec_asserted() == old(self).spec_asserted(),
            drained(
                old(self).spec_asserted(),
                old(self).spec_pending(),
                final(self).spec_pending(),
                vcpu_id,
                old(deliver).log(),
                final(deliver).log(),
                r,
            ),
    {
        let ghost log = deliver.log();
        let ghost before = self.pending@;
        let ghost asserted = self.asserted@;
        let ghost mine = queue::of_vcpu(before, vcpu_id);
        let attempts: usize = self.pending.count_for(vcpu_id);
        let mut n: usize = 0;
        proof {
            assert(after_deliveries(asserted, before, vcpu_id, 0) =~= before);
            assert(log + queue::accepted(mine.take(0)) =~= log);
        }
        while n < attempts
            invariant
                log == old(deliver).log(),
                before == old(self).spec_pending(),
                asserted == old(self).spec_asserted(),
                self.vcpu_count == old(self).spec_vcpu_count(),
                self.vcpu_count > 0,
                self.asserted@ == asserted,
                asserted.len() == SPECIAL_INTERRUPT_START,
                entries_sound(asserted, before),
                mine == queue::of_vcpu(before, vcpu_id),
                n <= attempts == mine.len(),
                self.pending@ == after_deliveries(asserted, before, vcpu_id, n as int),
                deliver.log() == log + queue::accepted(mine.take(n as int)),
            decreases attempts - n,
        {
            let ghost left = queue::without_first(before, vcpu_id, n as int);
            let ghost back = requeued(asserted, mine.take(n as int));
            proof {
                queue::lemma_without_first_parts(before, vcpu_id, n as int);
                queue::lemma_without_first_step(before, vcpu_id, n as int);
                queue::lemma_joined_first(left, back, vcpu_id);
                lemma_parts_sound(asserted, before, vcpu_id, n as int);
                lemma_deliveries_sound(asserted, before, vcpu_id, n + 1, n as int);
                assert(mine.take(n + 1).drop_last() =~= mine.take(n as int));
            }
            let queued = match self.pending.take_next(vcpu_id) {
                Some(queued) => queued,
                None => {
                    proof {
                        queue::lemma_joined_parts(left, back, vcpu_id);
                        assert(false);
                    }
                    return Ok(());
                },
            };
            proof {
                assert(queued == mine[n as int]);
                assert(entry_sound(asserted, mine[n as int]));
            }
            let outcome = deliver.deliver(queued.interrupt);
            proof {
                error::lemma_plain_success(outcome);
                queue::lemma_one_more_accepted(log, mine, n as int);
            }
            match outcome {
                Ok(()) => {
                    if queued.interrupt.trigger == InterruptTriggerMode::LevelTriggered {
                        if self.asserted[queued.interrupt.vector] {
                            self.pending.push_back(queued);
                        }
                    }
                    proof {
                        let rest = queue::without_first(before, vcpu_id, n + 1);
                        assert(self.pending@ =~= rest + requeued(asserted, mine.take(n + 1)));
                    }
                },
                Err(error) => {
                    if error == AxError::WouldBlock {
                        self.pending.push_front(queued);
                    }
                    proof {
                        assert(queue::failed_at(
                            before,
                            vcpu_id,
                            log,
                            deliver.log(),
                            n as int,
                            error,
                        ));
                        let rest = queue::without_first(before, vcpu_id, n + 1) + back;
                        assert(entries_sound(asserted, seq![queued]));
                        lemma_joined_sound(asserted, seq![queued], rest);
                    }
                    return Err(error);
                },
            }
            n = n + 1;
        }
        proof {
            assert(mine.take(n as int) =~= mine);
            queue::lemma_emptied(before, vcpu_id);
            lemma_deliveries_sound(asserted, before, vcpu_id, n as int, n as int);
        }
        Ok(())
    }
}

proof fn lemma_requeued_contains(asserted: Seq<bool>, entries: Seq<QueuedInterrupt>, i: int)
    requires
        0 <= i < entries.len(),
        stays_queued(asserted, entries[i]),
    ensures
        requeued(asserted, entries).contains(entries[i]),
    decreases entries.len(),
{
    let front = entries.drop_last();
    let back = requeued(asserted, front);
    if i < front.len() {
        lemma_requeued_contains(asserted, front, i);
        let j = choose|j: int| 0 <= j < back.len() && back[j] == front[i];
        assert(requeued(asserted, entries)[j] == entries[i]);
    } else {
        assert(requeued(asserted, entries)[back.len() as int] == entries[i]);
    }
}

proof fn lemma_entry_is_somewhere(
    pending: Seq<QueuedInterrupt>,
    vcpu_id: VCpuId,
    queued: QueuedInterrupt,
    n: int,
)
    requires
        pending.contains(queued),
        0 <= n <= queue::of_vcpu(pending, vcpu_id).len(),
    ensures
        queue::without_first(pending, vcpu_id, n).contains(queued) || exists|i: int|
            0 <= i < n && queue::of_vcpu(pending, vcpu_id)[i] == queued,
    decreases pending.len(),
{
    let at = choose|at: int| 0 <= at < pending.len() && pending[at] == queued;
    let tail = pending.drop_first();
    let mine = queue::of_vcpu(pending, vcpu_id);
    let left = queue::without_first(pending, vcpu_id, n);
    if n == 0 {
        assert(left[at] == queued);
    } else if pending[0].vcpu_id == vcpu_id {
        if at == 0 {
            assert(mine[0] == queued);
        } else {
            assert(tail[at - 1] == queued);
            lemma_entry_is_somewhere(tail, vcpu_id, queued, n - 1);
            if !left.contains(queued) {
                let i = choose|i: int|
                    0 <= i < n - 1 && queue::of_vcpu(tail, vcpu_id)[i] == queued;
                assert(mine[i + 1] == queued);
            }
        }
    } else {
        let inner = queue::without_first(tail, vcpu_id, n);
        assert(left == seq![pending[0]] + inner);
        if at == 0 {
            assert(left[0] == queued);
        } else {
            assert(tail[at - 1] == queued);
            lemma_entry_is_somewhere(tail, vcpu_id, queued, n);
            if inner.contains(queued) {
                let j = choose|j: int| 0 <= j < inner.len() && inner[j] == queued;
                assert(left[j + 1] == queued);
            }
        }
    }
}

/// An asserted level line stays queued: through deliveries that succeed and
/// through one that is refused for now.
pub proof fn law_asserted_line_stays_queued(
    asserted: Seq<bool>,
    pending: Seq<QueuedInterrupt>,
    vcpu_id: VCpuId,
    queued: QueuedInterrupt,
    k: int,
)
    requires
        entries_sound(asserted, pending),
        pending.contains(queued),
        queued.interrupt.trigger == InterruptTriggerMode::LevelTriggered,
        0 <= k < queue::of_vcpu(pending, vcpu_id).len(),
    ensures
        (queue::of_others(pending, vcpu_id) + requeued(
            asserted,
            queue::of_vcpu(pending, vcpu_id),
        )).contains(queued),
        after_failed_delivery(asserted, pending, vcpu_id, k, AxError::WouldBlock).contains(queued),
{
    let mine = queue::of_vcpu(pending, vcpu_id);
    let others = queue::of_others(pending, vcpu_id);
    let at = choose|at: int| 0 <= at < pending.len() && pending[at] == queued;
    assert(entry_sound(asserted, pending[at]));
    assert(stays_queued(asserted, queued));
    lemma_entry_is_somewhere(pending, vcpu_id, queued, mine.len() as int);
    queue::lemma_emptied(pending, vcpu_id);
    let all = others + requeued(asserted, mine);
    if others.contains(queued) {
        let j = choose|j: int| 0 <= j < others.len() && others[j] == queued;
        assert(all[j] == queued);
    } else {
        let i = choose|i: int| 0 <= i < mine.len() && mine[i] == queued;
        lemma_requeued_contains(asserted, mine, i);
        let back = requeued(asserted, mine);
        let j = choose|j: int| 0 <= j < back.len() && back[j] == queued;
        assert(all[others.len() + j] == queued);
    }
    let left = queue::without_first(pending, vcpu_id, k + 1);
    let back = requeued(asserted, mine.take(k));
    let blocked = seq![mine[k]] + (left + back);
    assert(blocked == after_failed_delivery(asserted, pending, vcpu_id, k, AxError::WouldBlock));
    lemma_entry_is_somewhere(pending, vcpu_id, queued, k + 1);
    if left.contains(queued) {
        let j = choose|j: int| 0 <= j < left.len() && left[j] == queued;
        assert(blocked[j + 1] == queued);
    } else {
        let i = choose|i: int| 0 <= i < k + 1 && mine[i] == queued;
        if i == k {
            assert(blocked[0] == queued);
        } else {
            assert(mine.take(k)[i] == queued);
            lemma_requeued_contains(asserted, mine.take(k), i);
            let j = choose|j: int| 0 <= j < back.len() && back[j] == queued;
            assert(blocked[1 + left.len() + j] == queued);
        }
    }
}

proof fn lemma_requeued_targets(asserted: Seq<bool>, entries: Seq<QueuedInterrupt>, vcpu_id: VCpuId)
    requires
        forall|i: int| 0 <= i < entries.len() ==> (#[trigger] entries[i]).vcpu_id == vcpu_id,
    ensures
        forall|i: int|
            0 <= i < requeued(asserted, entries).len() ==> (#[trigger] requeued(
                asserted,
                entries,
            )[i]).vcpu_id == vcpu_id && requeued(asserted, entries)[i].interrupt.trigger
                == InterruptTriggerMode::LevelTriggered,
    decreases entries.len(),
{
    if entries.len() > 0 {
        let front = entries.drop_last();
        assert forall|i: int| 0 <= i < front.len() implies (#[trigger] front[i]).vcpu_id
            == vcpu_id by {
            assert(front[i] == entries[i]);
        }
        lemma_requeued_targets(asserted, front, vcpu_id);
        let all = requeued(asserted, entries);
        let back = requeued(asserted, front);
        assert forall|i: int| 0 <= i < all.len() implies (#[trigger] all[i]).vcpu_id == vcpu_id
            && all[i].interrupt.trigger == InterruptTriggerMode::LevelTriggered by {
            if i < back.len() {
                assert(all[i] == back[i]);
            } else {
                assert(entries[entries.len() - 1].vcpu_id == vcpu_id);
            }
        }
    }
}

/// A delivery that is refused for now loses nothing: the refused interrupt and
/// those behind it come first in the next attempt, in their order, followed by
/// the asserted lines that were delivered already. Other vCPUs are not touched.
pub proof fn law_blocked_delivery_loses_nothing(
    asserted: Seq<bool>,
    pending: Seq<QueuedInterrupt>,
    vcpu_id: VCpuId,
    k: int,
)
    requires
        0 <= k < queue::of_vcpu(pending, vcpu_id).len(),
    ensures
        ({
            let mine = queue::of_vcpu(pending, vcpu_id);
            let after = after_failed_delivery(asserted, pending, vcpu_id, k, AxError::WouldBlock);
            &&& queue::of_vcpu(after, vcpu_id) == mine.skip(k) + requeued(asserted, mine.take(k))
            &&& queue::of_others(after, vcpu_id) == queue::of_others(pending, vcpu_id)
        }),
{
    let mine = queue::of_vcpu(pending, vcpu_id);
    let left = queue::without_first(pending, vcpu_id, k + 1);
    let back = requeued(asserted, mine.take(k));
    queue::law_delivery_is_isolated_by_vcpu(pending, vcpu_id);
    assert forall|i: int| 0 <= i < mine.take(k).len() implies (#[trigger] mine.take(k)[i]).vcpu_id
        == vcpu_id by {
        assert(mine.take(k)[i] == mine[i]);
    }
    lemma_requeued_targets(asserted, mine.take(k), vcpu_id);
    queue::lemma_all_for(back, vcpu_id);
    queue::lemma_without_first_parts(pending, vcpu_id, k + 1);
    queue::lemma_joined_parts(left, back, vcpu_id);
    let head = seq![mine[k]];
    assert(mine[k].vcpu_id == vcpu_id);
    assert(forall|i: int| 0 <= i < head.len() ==> (#[trigger] head[i]).vcpu_id == vcpu_id);
    queue::lemma_all_for(head, vcpu_id);
    queue::lemma_joined_parts(head, left + back, vcpu_id);
    assert(head + (mine.skip(k + 1) + back) =~= mine.skip(k) + back);
    assert(queue::of_others(head, vcpu_id) + (queue::of_others(pending, vcpu_id)
        + queue::of_others(back, vcpu_id)) =~= queue::of_others(pending, vcpu_id));
}

/// A line that is lowered leaves the queue: it is not retried.
pub proof fn law_lowered_line_is_not_retried(
    pending: Seq<QueuedInterrupt>,
    line: usize,
    queued: QueuedInterrupt,
)
    requires
        queue::without_vector(pending, line).contains(queued),
    ensures
        queued.interrupt.vector != line,
        pending.contains(queued),
    decreases pending.len(),
{
    let all = queue::without_vector(pending, line);
    let at = choose|at: int| 0 <= at < all.len() && all[at] == queued;
    let tail = pending.drop_first();
    let rest = queue::without_vector(tail, line);
    if pending[0].interrupt.vector == line {
        law_lowered_line_is_not_retried(tail, line, queued);
        let j = choose|j: int| 0 <= j < tail.len() && tail[j] == queued;
        assert(pending[j + 1] == queued);
    } else if at == 0 {
        assert(pending[0] == queued);
    } else {
        assert(rest[at - 1] == queued);
        law_lowered_line_is_not_retried(tail, line, queued);
        let j = choose|j: int| 0 <= j < tail.len() && tail[j] == queued;
        assert(pending[j + 1] == queued);
    }
}

/// Only level-triggered interrupts that were handed over go back to the queue.
pub proof fn law_only_level_interrupts_go_back(
    asserted: Seq<bool>,
    entries: Seq<QueuedInterrupt>,
    queued: QueuedInterrupt,
)
    requires
        requeued(asserted, entries).contains(queued),
    ensures
        queued.interrupt.trigger == InterruptTriggerMode::LevelTriggered,
        entries.contains(queued),
    decreases entries.len(),
{
    let front = entries.drop_last();
    let back = requeued(asserted, front);
    let all = requeued(asserted, entries);
    let at = choose|at: int| 0 <= at < all.len() && all[at] == queued;
    if at < back.len() {
        assert(back[at] == queued);
        law_only_level_interrupts_go_back(asserted, front, queued);
        let j = choose|j: int| 0 <= j < front.len() && front[j] == queued;
        assert(entries[j] == queued);
    } else {
        assert(entries[entries.len() - 1] == queued);
    }
}

/// A queued interrupt is delivered once, in order, by a drain that succeeds, and
/// nothing else is. Of the vCPU's entries only level-triggered ones whose lines
/// are asserted wait for the next drain, so an edge-triggered interrupt is
/// delivered once altogether.
pub proof fn law_queued_interrupts_are_delivered_once(
    asserted: Seq<bool>,
    queue: Seq<QueuedInterrupt>,
    queue_after: Seq<QueuedInterrupt>,
    vcpu_id: VCpuId,
    log: Seq<Delivery>,
    log_after: Seq<Delivery>,
)
    requires
        drained(asserted, queue, queue_after, vcpu_id, log, log_after, Ok(())),
    ensures
        queue::successes(log_after) == queue::successes(log) + queue::interrupts(
            queue::of_vcpu(queue, vcpu_id),
        ),
        log_after.len() == log.len() + queue::of_vcpu(queue, vcpu_id).len(),
        queue::of_vcpu(queue_after, vcpu_id) == requeued(
            asserted,
            queue::of_vcpu(queue, vcpu_id),
        ),
        queue::of_others(queue_after, vcpu_id) == queue::of_others(queue, vcpu_id),
        forall|i: int|
            0 <= i < queue::of_vcpu(queue_after, vcpu_id).len() ==> (#[trigger] queue::of_vcpu(
                queue_after,
                vcpu_id,
            )[i]).interrupt.trigger == InterruptTriggerMode::LevelTriggered,
{
    let mine = queue::of_vcpu(queue, vcpu_id);
    let others = queue::of_others(queue, vcpu_id);
    let back = requeued(asserted, mine);
    queue::law_delivery_is_isolated_by_vcpu(queue, vcpu_id);
    queue::law_queued_interrupts_are_delivered_once(queue, others, vcpu_id, log, log_after);
    lemma_requeued_targets(asserted, mine, vcpu_id);
    queue::lemma_all_for(back, vcpu_id);
    queue::lemma_joined_parts(others, back, vcpu_id);
    assert(queue::of_vcpu(others, vcpu_id) + back =~= back);
    assert(others + queue::of_others(back, vcpu_id) =~= others);
}

/// A delivery that fails for good drops its own interrupt and no other: those
/// behind it come first in the next attempt, in their order, followed by the
/// asserted lines that were delivered already. Other vCPUs are not touched.
pub proof fn law_failed_delivery_drops_one_interrupt(
    asserted: Seq<bool>,
    pending: Seq<QueuedInterrupt>,
    vcpu_id: VCpuId,
    k: int,
    error: AxError,
)
    requires
        0 <= k < queue::of_vcpu(pending, vcpu_id).len(),
        error != AxError::WouldBlock,
    ensures
        ({
            let mine = queue::of_vcpu(pending, vcpu_id);
            let after = after_failed_delivery(asserted, pending, vcpu_id, k, error);
            &&& queue::of_vcpu(after, vcpu_id) == mine.skip(k + 1) + requeued(
                asserted,
                mine.take(k),
            )
            &&& queue::of_others(after, vcpu_id) == queue::of_others(pending, vcpu_id)
        }),
{
    let mine = queue::of_vcpu(pending, vcpu_id);
    let left = queue::without_first(pending, vcpu_id, k + 1);
    let back = requeued(asserted, mine.take(k));
    queue::law_delivery_is_isolated_by_vcpu(pending, vcpu_id);
    assert forall|i: int| 0 <= i < mine.take(k).len() implies (#[trigger] mine.take(k)[i]).vcpu_id
        == vcpu_id by {
        assert(mine.take(k)[i] == mine[i]);
    }
    lemma_requeued_targets(asserted, mine.take(k), vcpu_id);
    queue::lemma_all_for(back, vcpu_id);
    queue::lemma_without_first_parts(pending, vcpu_id, k + 1);
    queue::lemma_joined_parts(left, back, vcpu_id);
    assert(queue::of_others(pending, vcpu_id) + queue::of_others(back, vcpu_id)
        =~= queue::of_others(pending, vcpu_id));
}

/// Where one redistributor stands, and the physical CPU that it serves.
#[derive(Clone, Copy, Debug, PartialEq, Eq, Structural)]
pub struct RedistributorPlacement {
    /// First address of the MMIO window.
    pub base_gpa: usize,
    /// Size of the MMIO window.
    pub length: usize,
    /// Physical CPU.
    pub pcpu_id: usize,
}

/// Whether the configured MMIO range is not empty and ends in the address
/// space.
pub open spec fn mmio_range_valid(config: EmulatedDeviceConfig) -> bool {
    config.length > 0 && config.base_gpa + config.length <= usize::MAX
}

/// Whether redistributors can be placed: the arguments are a number of CPUs, a
/// stride and the first CPU, none of the first two is zero, and the last
/// redistributor still fits.
pub open spec fn redistributors_fit(config: EmulatedDeviceConfig) -> bool {
    let args = config.cfg_list@;
    &&& args.len() == 3
    &&& args[0] > 0
    &&& args[1] > 0
    &&& mmio_range_valid(config)
    &&& config.base_gpa + (args[0] - 1) * args[1] + config.length <= usize::MAX
    &&& args[2] + (args[0] - 1) <= usize::MAX
}

/// The placement of one of the configured redistributors.
pub open spec fn redistributor_at(config: EmulatedDeviceConfig, i: int) -> RedistributorPlacement {
    RedistributorPlacement {
        base_gpa: (config.base_gpa + i * config.cfg_list@[1]) as usize,
        length: config.length,
        pcpu_id: (config.cfg_list@[2] + i) as usize,
    }
}

/// Checks that the configured MMIO range is valid.
pub fn validate_mmio_range(config: &EmulatedDeviceConfig) -> (r: AxResult<()>)
    ensures
        r == (if mmio_range_valid(*config) {
            Ok::<(), AxError>(())
        } else {
            Err(AxError::InvalidInput)
        }),
{
    if config.length == 0 || config.base_gpa.checked_add(config.length).is_none() {
        return Err(AxError::InvalidInput);
    }
    Ok(())
}

proof fn lemma_last_is_highest(i: int, count: int, stride: int)
    requires
        0 <= i < count,
        stride > 0,
    ensures
        0 <= i * stride <= (count - 1) * stride,
{
    assert(0 <= i * stride <= (count - 1) * stride) by (nonlinear_arith)
        requires
            0 <= i < count,
            stride > 0,
    ;
}

/// Places the redistributors of a configured device, one per CPU.
pub fn place_redistributors(config: &EmulatedDeviceConfig) -> (r: AxResult<
    Vec<RedistributorPlacement>,
>)
    ensures
        match r {
            Ok(placements) => {
                &&& redistributors_fit(*config)
                &&& placements@.len() == config.cfg_list@[0]
                &&& forall|i: int|
                    0 <= i < placements@.len() ==> #[trigger] placements@[i] == redistributor_at(
                        *config,
                        i,
                    )
            },
            Err(error) => !redistributors_fit(*config) && error == AxError::InvalidInput,
        },
{
    if config.cfg_list.len() != 3 {
        return Err(AxError::InvalidInput);
    }
    let cpu_count: usize = config.cfg_list[0];
    let stride: usize = config.cfg_list[1];
    let first_pcpu_id: usize = config.cfg_list[2];
    if cpu_count == 0 || stride == 0 {
        return Err(AxError::InvalidInput);
    }
    match validate_mmio_range(config) {
        Ok(()) => {},
        Err(error) => {
            return Err(error);
        },
    }
    let mut placements: Vec<RedistributorPlacement> = Vec::new();
    let mut index: usize = 0;
    while index < cpu_count
        invariant
            config.cfg_list@.len() == 3,
            cpu_count == config.cfg_list@[0] > 0,
            stride == config.cfg_list@[1] > 0,
            first_pcpu_id == config.cfg_list@[2],
            mmio_range_valid(*config),
            index <= cpu_count,
            placements@.len() == index,
            forall|i: int|
                0 <= i < index ==> #[trigger] placements@[i] == redistributor_at(*config, i),
            index > 0 ==> config.base_gpa + (index - 1) * stride + config.length <= usize::MAX
                && first_pcpu_id + (index - 1) <= usize::MAX,
        decreases cpu_count - index,
    {
        proof {
            lemma_last_is_highest(index as int, cpu_count as int, stride as int);
        }
        let offset: usize = match index.checked_mul(stride) {
            Some(offset) => offset,
            None => {
                return Err(AxError::InvalidInput);
            },
        };
        let address: usize = match config.base_gpa.checked_add(offset) {
            Some(address) => address,
            None => {
                return Err(AxError::InvalidInput);
            },
        };
        if address.checked_add(config.length).is_none() {
            return Err(AxError::InvalidInput);
        }
        let pcpu_id: usize = match first_pcpu_id.checked_add(index) {
            Some(pcpu_id) => pcpu_id,
            None => {
                return Err(AxError::InvalidInput);
            },
        };
        placements.push(
            RedistributorPlacement { base_gpa: address, length: config.length, pcpu_id },
        );
        index = index + 1;
    }
    Ok(placements)
}

/// Redistributors whose stride is not below their size do not overlap, and each
/// serves a CPU of its own.
pub proof fn law_redistributors_are_apart(config: EmulatedDeviceConfig, i: int, j: int)
    requires
        redistributors_fit(config),
        config.length <= config.cfg_list@[1],
        0 <= i < j < config.cfg_list@[0],
    ensures
        redistributor_at(config, i).base_gpa + redistributor_at(config, i).length
            <= redistributor_at(config, j).base_gpa,
        redistributor_at(config, i).pcpu_id != redistributor_at(config, j).pcpu_id,
{
    let stride = config.cfg_list@[1] as int;
    lemma_last_is_highest(i, config.cfg_list@[0] as int, stride);
    lemma_last_is_highest(j, config.cfg_list@[0] as int, stride);
    assert(i * stride + stride <= j * stride) by (nonlinear_arith)
        requires
            i < j,
            stride > 0,
    ;
}

/// Checks the configuration of a distributor.
pub fn validate_distributor(config: &EmulatedDeviceConfig) -> (r: AxResult<()>)
    ensures
        r == (if mmio_range_valid(*config) && config.cfg_list@.len() == 0 {
            Ok::<(), AxError>(())
        } else {
            Err(AxError::InvalidInput)
        }),
{
    match validate_mmio_range(config) {
        Ok(()) => {},
        Err(error) => {
            return Err(error);
        },
    }
    if config.cfg_list.len() != 0 {
        return Err(AxError::InvalidInput);
    }
    Ok(())
}

/// Checks the configuration of an interrupt translation service and returns the
/// host address that it is backed by.
pub fn its_host_base(config: &EmulatedDeviceConfig) -> (r: AxResult<usize>)
    ensures
        r == (if mmio_range_valid(*config) && config.cfg_list@.len() == 1 {
            Ok::<usize, AxError>(config.cfg_list@[0])
        } else {
            Err(AxError::InvalidInput)
        }),
{
    match validate_mmio_range(config) {
        Ok(()) => {},
        Err(error) => {
            return Err(error);
        },
    }
    if config.cfg_list.len() != 1 {
        return Err(AxError::InvalidInput);
    }
    Ok(config.cfg_list[0])
}

/// The factories of the GIC partial-passthrough devices.
pub struct GpptFactories {
    /// The factory of redistributors.
    pub redistributor: Shared<dyn DeviceFactory>,
    /// The factory of distributors.
    pub distributor: Shared<dyn DeviceFactory>,
    /// The factory of interrupt translation services.
    pub its: Shared<dyn DeviceFactory>,
}

/// The handles through which a VM shares its backend.
pub struct Aarch64BackendHandles {
    /// The line sink.
    pub sink: Shared<dyn IrqSink>,
    /// The controller.
    pub controller: Shared<dyn InterruptControllerOps>,
}

/// Whether setting up the fabric may end with `r`: a VM without interrupts gets
/// no backend, and a backend needs a vCPU.
pub open spec fn fabric_set_up<F: FnOnce(Aarch64InterruptBackend) -> Aarch64BackendHandles>(
    mode: VMInterruptMode,
    vcpu_count: usize,
    share: F,
    r: AxResult<InterruptFabric>,
) -> bool {
    if mode == VMInterruptMode::NoIrq {
        &&& r is Ok
        &&& r->Ok_0.wf()
        &&& r->Ok_0.spec_mode() == mode
        &&& r->Ok_0.spec_sink() is None
        &&& r->Ok_0.spec_controller() is None
        &&& r->Ok_0.spec_msi_routes().len() == 0
    } else if vcpu_count == 0 {
        r == Err::<InterruptFabric, AxError>(AxError::InvalidInput)
    } else {
        &&& r is Ok
        &&& r->Ok_0.wf()
        &&& r->Ok_0.spec_mode() == mode
        &&& r->Ok_0.spec_msi_routes().len() == 0
        &&& exists|backend: Aarch64InterruptBackend, handles: Aarch64BackendHandles|
            {
                &&& #[trigger] call_ensures(share, (backend,), handles)
                &&& backend.wf()
                &&& backend.spec_vcpu_count() == vcpu_count
                &&& backend.spec_pending() == Seq::<QueuedInterrupt>::empty()
                &&& all_low(backend.spec_asserted())
                &&& r->Ok_0.spec_sink() == Some(handles.sink)
                &&& r->Ok_0.spec_controller() == Some(handles.controller)
            }
    }
}

/// Registers the GIC partial-passthrough factories and sets up the interrupt
/// fabric of a VM. `share` turns the backend into handles to it.
pub fn configure<F: FnOnce(Aarch64InterruptBackend) -> Aarch64BackendHandles>(
    factories: &mut DeviceFactoryRegistry,
    gppt: GpptFactories,
    mode: VMInterruptMode,
    vcpu_count: usize,
    share: F,
) -> (r: AxResult<InterruptFabric>)
    requires
        forall|backend: Aarch64InterruptBackend| #[trigger] call_requires(share, (backend,)),
    ensures
        ({
            let before = old(factories).spec_factories();
            let after = final(factories).spec_factories();
            let one = before.push(gppt.redistributor);
            let two = one.push(gppt.distributor);
            let three = two.push(gppt.its);
            if !factory::no_factory(before, gppt.redistributor.obj().spec_device_type()) {
                &&& r == Err::<InterruptFabric, AxError>(AxError::AlreadyExists)
                &&& after == before
            } else if !factory::no_factory(one, gppt.distributor.obj().spec_device_type()) {
                &&& r == Err::<InterruptFabric, AxError>(AxError::AlreadyExists)
                &&& after == one
            } else if !factory::no_factory(two, gppt.its.obj().spec_device_type()) {
                &&& r == Err::<InterruptFabric, AxError>(AxError::AlreadyExists)
                &&& after == two
            } else {
                &&& after == three
                &&& fabric_set_up(mode, vcpu_count, share, r)
            }
        }),
{
    match factories.register(gppt.redistributor) {
        Ok(()) => {},
        Err(error) => {
            return Err(error);
        },
    }
    match factories.register(gppt.distributor) {
        Ok(()) => {},
        Err(error) => {
            return Err(error);
        },
    }
    match factories.register(gppt.its) {
        Ok(()) => {},
        Err(error) => {
            return Err(error);
        },
    }
    if mode == VMInterruptMode::NoIrq {
        return Ok(InterruptFabric::new(mode));
    }
    let backend = match Aarch64InterruptBackend::new(vcpu_count) {
        Ok(backend) => backend,
        Err(error) => {
            return Err(error);
        },
    };
    let handles = share(backend);
    InterruptFabric::with_controller(mode, handles.sink, handles.controller)
}

/// Devices have the lines from 16 to 1019. Lowering an asserted line takes its
/// entries out of the queue and keeps every entry of another line, in order.
/// Raising a low line adds one level-triggered entry of its number at the end, for
/// the first vCPU. Setting a line to the state that it has does nothing, and the
/// states of the other lines stay in any case.
pub proof fn law_setting_a_line_touches_its_entries_only(
    asserted: Seq<bool>,
    pending: Seq<QueuedInterrupt>,
    asserted_after: Seq<bool>,
    pending_after: Seq<QueuedInterrupt>,
    line: IrqLineId,
    level: bool,
    r: AxResult<()>,
)
    requires
        asserted.len() == 1020,
        level_set(asserted, pending, asserted_after, pending_after, line, level, r),
    ensures
        r is Ok <==> 16 <= line.0 <= 1019,
        r is Err ==> {
            &&& r == Err::<(), AxError>(AxError::InvalidInput)
            &&& asserted_after == asserted
            &&& pending_after == pending
        },
        r is Ok ==> {
            &&& asserted_after.len() == asserted.len()
            &&& asserted_after[line.0 as int] == level
            &&& forall|g: int|
                0 <= g < 1020 && g != line.0 ==> #[trigger] asserted_after[g] == asserted[g]
        },
        r is Ok && asserted[line.0 as int] == level ==> pending_after == pending,
        r is Ok && asserted[line.0 as int] && !level ==> pending_after == pending.filter(
            |queued: QueuedInterrupt| queued.interrupt.vector != line.0,
        ),
        r is Ok && !asserted[line.0 as int] && level ==> {
            &&& pending_after.len() == pending.len() + 1
            &&& pending_after.drop_last() == pending
            &&& pending_after.last().vcpu_id == 0
            &&& pending_after.last().interrupt.vector == line.0
            &&& pending_after.last().interrupt.trigger == InterruptTriggerMode::LevelTriggered
        },
{
    queue::law_removal_keeps_other_vectors(pending, line.0);
    if pending_after.len() == pending.len() + 1 {
        assert(pending_after.drop_last() =~= pending);
    }
}

/// A pulse on a device line adds one edge-triggered entry of its number at the
/// end of the queue, for the first vCPU. Any other line is refused.
pub proof fn law_pulse_queues_one_interrupt(
    pending: Seq<QueuedInterrupt>,
    pending_after: Seq<QueuedInterrupt>,
    line: IrqLineId,
    r: AxResult<()>,
)
    requires
        line_pulsed(pending, pending_after, line, r),
    ensures
        r is Ok <==> 16 <= line.0 <= 1019,
        r is Err ==> r == Err::<(), AxError>(AxError::InvalidInput) && pending_after == pending,
        r is Ok ==> {
            &&& pending_after.len() == pending.len() + 1
            &&& pending_after.drop_last() == pending
            &&& pending_after.last().vcpu_id == 0
            &&& pending_after.last().interrupt.vector == line.0
            &&& pending_after.last().interrupt.trigger == InterruptTriggerMode::EdgeTriggered
        },
{
    if r is Ok {
        assert(pending_after.drop_last() =~= pending);
    }
}

/// What goes back to the queue after its delivery: the level-triggered entries
/// whose lines are asserted, in order, and nothing else.
pub proof fn law_requeued_entries_are_the_asserted_levels(
    asserted: Seq<bool>,
    entries: Seq<QueuedInterrupt>,
)
    ensures
        requeued(asserted, entries) == entries.filter(
            |queued: QueuedInterrupt|
                queued.interrupt.trigger == InterruptTriggerMode::LevelTriggered
                    && asserted[queued.interrupt.vector as int],
        ),
    decreases entries.len(),
{
    reveal(Seq::filter);
    if entries.len() > 0 {
        law_requeued_entries_are_the_asserted_levels(asserted, entries.drop_last());
    }
}

/// What a failed delivery leaves: where the vCPU could not take an interrupt for
/// now, that interrupt comes first and nothing of what was not delivered is
/// missing; after any other failure, that interrupt alone is missing.
pub proof fn law_failed_delivery_keeps_what_would_block(
    asserted: Seq<bool>,
    pending: Seq<QueuedInterrupt>,
    vcpu_id: VCpuId,
    k: int,
    error: AxError,
)
    requires
        0 <= k < queue::of_vcpu(pending, vcpu_id).len(),
    ensures
        ({
            let mine = pending.filter(|queued: QueuedInterrupt| queued.vcpu_id == vcpu_id);
            let after = after_failed_delivery(asserted, pending, vcpu_id, k, error);
            let back = mine.take(k).filter(
                |queued: QueuedInterrupt|
                    queued.interrupt.trigger == InterruptTriggerMode::LevelTriggered
                        && asserted[queued.interrupt.vector as int],
            );
            let kept = if error == AxError::WouldBlock {
                mine.skip(k)
            } else {
                mine.skip(k + 1)
            };
            &&& after.filter(|queued: QueuedInterrupt| queued.vcpu_id == vcpu_id) == kept + back
            &&& after.filter(|queued: QueuedInterrupt| queued.vcpu_id != vcpu_id)
                == pending.filter(|queued: QueuedInterrupt| queued.vcpu_id != vcpu_id)
            &&& error == AxError::WouldBlock ==> after[0] == mine[k]
        }),
{
    let after = after_failed_delivery(asserted, pending, vcpu_id, k, error);
    queue::law_targets_divide_the_queue(pending, vcpu_id);
    queue::law_targets_divide_the_queue(after, vcpu_id);
    law_requeued_entries_are_the_asserted_levels(
        asserted,
        queue::of_vcpu(pending, vcpu_id).take(k),
    );
    if error == AxError::WouldBlock {
        law_blocked_delivery_loses_nothing(asserted, pending, vcpu_id, k);
    } else {
        law_failed_delivery_drops_one_interrupt(asserted, pending, vcpu_id, k, error);
    }
}

/// A configured MMIO range is usable exactly when it is not empty and does not
/// run past the end of the address space.
pub proof fn law_mmio_range_ends_in_the_address_space(config: EmulatedDeviceConfig)
    ensures
        mmio_range_valid(config) <==> 0 < config.length && config.length <= usize::MAX
            - config.base_gpa,
{
}

/// The redistributors follow each other at the configured stride, from the
/// configured address on, and serve consecutive CPUs from the configured one on.
pub proof fn law_redistributors_follow_the_stride(config: EmulatedDeviceConfig, i: int)
    requires
        redistributors_fit(config),
        0 <= i < config.cfg_list@[0],
    ensures
        redistributor_at(config, 0).base_gpa == config.base_gpa,
        redistributor_at(config, 0).pcpu_id == config.cfg_list@[2],
        redistributor_at(config, i).length == config.length,
        i + 1 < config.cfg_list@[0] ==> {
            &&& redistributor_at(config, i + 1).base_gpa == redistributor_at(config, i).base_gpa
                + config.cfg_list@[1]
            &&& redistributor_at(config, i + 1).pcpu_id == redistributor_at(config, i).pcpu_id + 1
        },
        redistributor_at(config, i).base_gpa + config.length <= usize::MAX,
{
    let stride = config.cfg_list@[1] as int;
    let count = config.cfg_list@[0] as int;
    lemma_last_is_highest(i, count, stride);
    if i + 1 < count {
        lemma_last_is_highest(i + 1, count, stride);
    }
    lemma_last_is_highest(0, count, stride);
    assert((i + 1) * stride == i * stride + stride) by (nonlinear_arith);
    assert(0 * stride == 0) by (nonlinear_arith);
}

/// A VM without interrupts gets a fabric without a backend, whatever its vCPUs are.
/// Any other VM needs a vCPU and gets a fabric that ends in the handles to a backend
/// in which no line is asserted and nothing is queued.
pub proof fn law_fabric_follows_the_interrupt_mode<
    F: FnOnce(Aarch64InterruptBackend) -> Aarch64BackendHandles,
>(mode: VMInterruptMode, vcpu_count: usize, share: F, r: AxResult<InterruptFabric>)
    requires
        fabric_set_up(mode, vcpu_count, share, r),
    ensures
        r is Err <==> mode != VMInterruptMode::NoIrq && vcpu_count == 0,
        r is Err ==> r->Err_0 == AxError::InvalidInput,
        r is Ok ==> r->Ok_0.spec_mode() == mode && r->Ok_0.spec_msi_routes().len() == 0,
        r is Ok && mode == VMInterruptMode::NoIrq ==> r->Ok_0.spec_sink() is None
            && r->Ok_0.spec_controller() is None,
        r is Ok && mode != VMInterruptMode::NoIrq ==> exists|
            backend: Aarch64InterruptBackend,
            handles: Aarch64BackendHandles,
        |
            {
                &&& #[trigger] call_ensures(share, (backend,), handles)
                &&& backend.spec_vcpu_count() == vcpu_count
                &&& backend.spec_pending().len() == 0
                &&& forall|g: int|
                    0 <= g < backend.spec_asserted().len() ==> !(
                    #[trigger] backend.spec_asserted()[g])
                &&& r->Ok_0.spec_sink() == Some(handles.sink)
                &&& r->Ok_0.spec_controller() == Some(handles.controller)
            },
{
}

} // verus!
