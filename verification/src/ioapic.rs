//! A minimal emulated x86 IO APIC.

use crate::error::{AxError, AxResult};
use crate::range::GuestPhysAddrRange;
use crate::types::{AccessWidth, EmulatedDeviceType, GuestPhysAddr};
use vstd::prelude::*;

verus! {

/// Guest physical address of the IO APIC on a PC.
pub const IOAPIC_BASE: usize = 0xfec0_0000;

/// Size of the IO APIC's MMIO window on a PC.
pub const IOAPIC_SIZE: usize = 0x1000;

/// Offset of the register that selects an indirect register.
pub const IOREGSEL: usize = 0x00;

/// Offset of the window onto the selected register.
pub const IOWIN: usize = 0x10;

/// Selector of the identification register.
pub const IOAPIC_ID: u32 = 0x00;

/// Selector of the version register.
pub const IOAPIC_VER: u32 = 0x01;

/// Selector of the arbitration register.
pub const IOAPIC_ARB: u32 = 0x02;

/// Selector of the first half of the first redirection entry.
pub const IOREDTBL_BASE: u32 = 0x10;

/// Selector of the second half of the last redirection entry.
pub const IOREDTBL_LAST: u32 = 0x3f;

/// Contents of the identification register: identifier one.
pub const IOAPIC_ID_VALUE: u32 = 0x0100_0000;

/// Contents of the version register: version 0x11 with 24 redirection entries.
pub const IOAPIC_VERSION_VALUE: u32 = 0x0017_0011;

/// Number of virtual IO APIC input lines.
pub const IOAPIC_GSI_COUNT: usize = 24;

/// The line is masked.
pub const REDIRECTION_ENTRY_MASKED: u64 = 0x1_0000;

/// The line is level-triggered.
pub const REDIRECTION_ENTRY_TRIGGER_MODE: u64 = 0x8000;

/// A level-triggered interrupt was sent and its end is awaited.
pub const REDIRECTION_ENTRY_REMOTE_IRR: u64 = 0x4000;

/// The delivery mode. Only mode zero, fixed delivery, is supported.
pub const REDIRECTION_ENTRY_DELIVERY_MODE_MASK: u64 = 0x700;

/// The vector.
pub const REDIRECTION_ENTRY_VECTOR_MASK: u64 = 0xff;

/// The lower half of an entry.
pub const REDIRECTION_ENTRY_LOW_MASK: u64 = 0xffff_ffff;

/// A routed interrupt from the virtual IO APIC.
#[derive(Clone, Copy, Debug, PartialEq, Eq, Structural)]
pub struct IoApicInterrupt {
    /// Guest interrupt vector.
    pub vector: u8,
    /// Whether the redirection entry is level-triggered.
    pub level_triggered: bool,
}

/// Whether the entry masks its line.
pub open spec fn masked(entry: u64) -> bool {
    entry & REDIRECTION_ENTRY_MASKED != 0
}

/// Whether the entry is level-triggered.
pub open spec fn level(entry: u64) -> bool {
    entry & REDIRECTION_ENTRY_TRIGGER_MODE != 0
}

/// Whether a level-triggered interrupt of the entry awaits its end.
pub open spec fn in_service(entry: u64) -> bool {
    entry & REDIRECTION_ENTRY_REMOTE_IRR != 0
}

/// Whether the entry asks for fixed delivery.
pub open spec fn fixed_delivery(entry: u64) -> bool {
    entry & REDIRECTION_ENTRY_DELIVERY_MODE_MASK == 0
}

/// The vector of the entry.
pub open spec fn vector(entry: u64) -> u8 {
    (entry & REDIRECTION_ENTRY_VECTOR_MASK) as u8
}

/// Whether the entry routes its line to a vector: it is not masked, delivers in
/// the fixed mode, and names none of the reserved vectors.
pub open spec fn routable(entry: u64) -> bool {
    !masked(entry) && fixed_delivery(entry) && vector(entry) >= 16
}

/// Whether a signal on the line is sent at once.
pub open spec fn sendable(entry: u64) -> bool {
    routable(entry) && !(level(entry) && in_service(entry))
}

/// The entry after its interrupt was sent.
pub open spec fn sent(entry: u64) -> u64 {
    if level(entry) {
        entry | REDIRECTION_ENTRY_REMOTE_IRR
    } else {
        entry
    }
}

/// The entry after the end of its interrupt.
pub open spec fn ended(entry: u64) -> u64 {
    entry & !REDIRECTION_ENTRY_REMOTE_IRR
}

/// The interrupt that the entry routes to.
pub open spec fn interrupt(entry: u64) -> IoApicInterrupt {
    IoApicInterrupt { vector: vector(entry), level_triggered: level(entry) }
}

/// What an IO APIC remembers, line by line.
#[verifier::ext_equal]
pub struct IoApicModel {
    /// The selected indirect register.
    pub selector: u32,
    /// The redirection table.
    pub table: Seq<u64>,
    /// Whether the line is asserted.
    pub asserted: Seq<bool>,
    /// Whether the present assertion of the line was delivered.
    pub delivered: Seq<bool>,
    /// Whether a further interrupt was asked for while one was in service.
    pub pending: Seq<bool>,
}

/// What every operation keeps of one line: only a routed level-triggered
/// interrupt is in service, only behind one in service is another pending, only
/// a routed assertion counts as delivered, and a delivered assertion of a
/// level-triggered line is in service for as long as it lasts.
pub open spec fn line_sound(entry: u64, asserted: bool, delivered: bool, pending: bool) -> bool {
    &&& in_service(entry) ==> routable(entry) && level(entry)
    &&& pending ==> in_service(entry)
    &&& delivered ==> routable(entry)
    &&& asserted && delivered && level(entry) ==> in_service(entry)
}

impl IoApicModel {
    /// The state at power-on: all lines masked and idle.
    pub open spec fn initial() -> Self {
        IoApicModel {
            selector: 0,
            table: Seq::new(IOAPIC_GSI_COUNT as nat, |i: int| REDIRECTION_ENTRY_MASKED),
            asserted: Seq::new(IOAPIC_GSI_COUNT as nat, |i: int| false),
            delivered: Seq::new(IOAPIC_GSI_COUNT as nat, |i: int| false),
            pending: Seq::new(IOAPIC_GSI_COUNT as nat, |i: int| false),
        }
    }

    /// There is one slot per line.
    pub open spec fn shaped(self) -> bool {
        &&& self.table.len() == IOAPIC_GSI_COUNT
        &&& self.asserted.len() == IOAPIC_GSI_COUNT
        &&& self.delivered.len() == IOAPIC_GSI_COUNT
        &&& self.pending.len() == IOAPIC_GSI_COUNT
    }

    /// The state is shaped and every line is sound.
    pub open spec fn sound(self) -> bool {
        &&& self.shaped()
        &&& forall|g: int|
            0 <= g < IOAPIC_GSI_COUNT ==> line_sound(
                #[trigger] self.table[g],
                self.asserted[g],
                self.delivered[g],
                self.pending[g],
            )
    }

    /// The interrupt that a signal on the line gives rise to.
    pub open spec fn signal(self, gsi: int) -> Option<IoApicInterrupt> {
        if 0 <= gsi < IOAPIC_GSI_COUNT && sendable(self.table[gsi]) {
            Some(interrupt(self.table[gsi]))
        } else {
            None
        }
    }

    /// The state after a signal on the line. A signal that comes too early is
    /// kept where `queue` says so.
    pub open spec fn after_signal(self, gsi: int, queue: bool) -> Self {
        if !(0 <= gsi < IOAPIC_GSI_COUNT) || !routable(self.table[gsi]) {
            self
        } else if sendable(self.table[gsi]) {
            IoApicModel { table: self.table.update(gsi, sent(self.table[gsi])), ..self }
        } else if queue {
            IoApicModel { pending: self.pending.update(gsi, true), ..self }
        } else {
            self
        }
    }

    /// The interrupt that setting the line gives rise to: only a line that
    /// becomes asserted signals.
    pub open spec fn level_interrupt(self, gsi: int, asserted: bool) -> Option<IoApicInterrupt> {
        if 0 <= gsi < IOAPIC_GSI_COUNT && asserted && !self.asserted[gsi] {
            self.signal(gsi)
        } else {
            None
        }
    }

    /// The state after the line was set.
    pub open spec fn after_level(self, gsi: int, asserted: bool) -> Self {
        if !(0 <= gsi < IOAPIC_GSI_COUNT) {
            self
        } else if !asserted {
            IoApicModel {
                asserted: self.asserted.update(gsi, false),
                delivered: self.delivered.update(gsi, false),
                ..self
            }
        } else if self.asserted[gsi] {
            self
        } else {
            IoApicModel {
                table: self.after_signal(gsi, false).table,
                asserted: self.asserted.update(gsi, true),
                delivered: self.delivered.update(
                    gsi,
                    self.delivered[gsi] || self.signal(gsi) is Some,
                ),
                ..self
            }
        }
    }

    /// Whether the line is asserted, was not delivered, and can be sent now.
    pub open spec fn due(self, gsi: int) -> bool {
        self.asserted[gsi] && !self.delivered[gsi] && sendable(self.table[gsi])
    }

    /// The interrupts of the first `n` lines that are due, by line.
    pub open spec fn due_interrupts(self, n: int) -> Seq<IoApicInterrupt>
        decreases n,
    {
        if n <= 0 {
            Seq::empty()
        } else if self.due(n - 1) {
            self.due_interrupts(n - 1).push(interrupt(self.table[n - 1]))
        } else {
            self.due_interrupts(n - 1)
        }
    }

    /// The state after the first `n` lines that are due were sent.
    pub open spec fn after_routing(self, n: int) -> Self {
        IoApicModel {
            table: Seq::new(
                self.table.len(),
                |g: int|
                    if g < n && self.due(g) {
                        sent(self.table[g])
                    } else {
                        self.table[g]
                    },
            ),
            delivered: Seq::new(
                self.delivered.len(),
                |g: int| self.delivered[g] || (g < n && self.due(g)),
            ),
            ..self
        }
    }

    /// Whether the end of `v` ends the interrupt of the line.
    pub open spec fn ends(self, gsi: int, v: u8) -> bool {
        vector(self.table[gsi]) == v && level(self.table[gsi]) && in_service(self.table[gsi])
    }

    /// Whether the end of `v` lets the line signal again.
    pub open spec fn resumes(self, gsi: int, v: u8) -> bool {
        self.ends(gsi, v) && (self.asserted[gsi] || self.pending[gsi])
    }

    /// The first line from `from` on that the end of `v` lets signal again, or
    /// the number of lines.
    pub open spec fn first_resumed(self, v: u8, from: int) -> int
        decreases IOAPIC_GSI_COUNT - from,
    {
        if from >= IOAPIC_GSI_COUNT {
            IOAPIC_GSI_COUNT as int
        } else if self.resumes(from, v) {
            from
        } else {
            self.first_resumed(v, from + 1)
        }
    }

    /// The interrupt that the end of `v` gives rise to.
    pub open spec fn eoi_interrupt(self, v: u8) -> Option<IoApicInterrupt> {
        let g = self.first_resumed(v, 0);
        if g < IOAPIC_GSI_COUNT && routable(self.table[g]) {
            Some(interrupt(self.table[g]))
        } else {
            None
        }
    }

    /// The state after the end of `v`: all interrupts of that vector end up to
    /// the first line that signals again, which stays in service if it is
    /// routed.
    pub open spec fn after_eoi(self, v: u8) -> Self {
        let stop = self.first_resumed(v, 0);
        IoApicModel {
            table: Seq::new(
                self.table.len(),
                |g: int|
                    if self.ends(g, v) && (g < stop || (g == stop && !routable(self.table[g]))) {
                        ended(self.table[g])
                    } else {
                        self.table[g]
                    },
            ),
            delivered: Seq::new(
                self.delivered.len(),
                |g: int| self.delivered[g] || (g == stop && routable(self.table[g])),
            ),
            pending: Seq::new(
                self.pending.len(),
                |g: int| self.pending[g] && (g != stop || self.asserted[g]),
            ),
            ..self
        }
    }

    /// The contents of the selected register.
    pub open spec fn selected(self) -> u32 {
        if self.selector == IOAPIC_ID || self.selector == IOAPIC_ARB {
            IOAPIC_ID_VALUE
        } else if self.selector == IOAPIC_VER {
            IOAPIC_VERSION_VALUE
        } else if IOREDTBL_BASE <= self.selector <= IOREDTBL_LAST {
            let entry = self.table[(self.selector - IOREDTBL_BASE) / 2];
            if (self.selector - IOREDTBL_BASE) % 2 == 0 {
                entry as u32
            } else {
                (entry >> 32) as u32
            }
        } else {
            0
        }
    }

    /// The state after a write to the lower half of an entry. The service flag
    /// is not writable: it stays if the rest is written back unchanged, and a
    /// change starts the line afresh.
    pub open spec fn after_low_write(self, gsi: int, value: u32) -> Self {
        let entry = self.table[gsi];
        let kept = ended(entry) & REDIRECTION_ENTRY_LOW_MASK == ended(value as u64);
        let high = entry & !REDIRECTION_ENTRY_LOW_MASK;
        let updated = if kept {
            high | ended(value as u64) | (entry & REDIRECTION_ENTRY_REMOTE_IRR)
        } else {
            high | ended(value as u64)
        };
        let fresh = !kept || masked(updated);
        IoApicModel {
            table: self.table.update(gsi, updated),
            delivered: if fresh {
                self.delivered.update(gsi, false)
            } else {
                self.delivered
            },
            pending: if fresh {
                self.pending.update(gsi, false)
            } else {
                self.pending
            },
            ..self
        }
    }

    /// The state after a write to the upper half of an entry.
    pub open spec fn after_high_write(self, gsi: int, value: u32) -> Self {
        let entry = self.table[gsi];
        IoApicModel {
            table: self.table.update(
                gsi,
                (entry & REDIRECTION_ENTRY_LOW_MASK) | ((value as u64) << 32),
            ),
            ..self
        }
    }

    /// The state after a write to the selected register. Registers other than
    /// the redirection entries ignore writes.
    pub open spec fn after_selected_write(self, value: u32) -> Self {
        if IOREDTBL_BASE <= self.selector <= IOREDTBL_LAST {
            let gsi = (self.selector - IOREDTBL_BASE) / 2;
            if (self.selector - IOREDTBL_BASE) % 2 == 0 {
                self.after_low_write(gsi, value)
            } else {
                self.after_high_write(gsi, value)
            }
        } else {
            self
        }
    }
}

proof fn lemma_sent_bits(entry: u64)
    by (bit_vector)
    ensures
        sent(entry) & REDIRECTION_ENTRY_MASKED == entry & REDIRECTION_ENTRY_MASKED,
        sent(entry) & REDIRECTION_ENTRY_TRIGGER_MODE == entry & REDIRECTION_ENTRY_TRIGGER_MODE,
        sent(entry) & REDIRECTION_ENTRY_DELIVERY_MODE_MASK == entry
            & REDIRECTION_ENTRY_DELIVERY_MODE_MASK,
        sent(entry) & REDIRECTION_ENTRY_VECTOR_MASK == entry & REDIRECTION_ENTRY_VECTOR_MASK,
        level(entry) ==> in_service(sent(entry)),
        !level(entry) ==> sent(entry) == entry,
{
}

proof fn lemma_ended_bits(entry: u64)
    by (bit_vector)
    ensures
        ended(entry) & REDIRECTION_ENTRY_MASKED == entry & REDIRECTION_ENTRY_MASKED,
        ended(entry) & REDIRECTION_ENTRY_TRIGGER_MODE == entry & REDIRECTION_ENTRY_TRIGGER_MODE,
        ended(entry) & REDIRECTION_ENTRY_DELIVERY_MODE_MASK == entry
            & REDIRECTION_ENTRY_DELIVERY_MODE_MASK,
        ended(entry) & REDIRECTION_ENTRY_VECTOR_MASK == entry & REDIRECTION_ENTRY_VECTOR_MASK,
        !in_service(ended(entry)),
        in_service(entry) ==> ended(entry) | REDIRECTION_ENTRY_REMOTE_IRR == entry,
        !in_service(entry) ==> ended(entry) == entry,
{
}

proof fn lemma_low_write_bits(entry: u64, value: u64)
    by (bit_vector)
    requires
        value <= 0xffff_ffff,
    ensures
        ({
            let same = (entry & !REDIRECTION_ENTRY_LOW_MASK) | ended(value) | (entry
                & REDIRECTION_ENTRY_REMOTE_IRR);
            ended(entry) & REDIRECTION_ENTRY_LOW_MASK == ended(value) ==> same == entry
        }),
        !in_service((entry & !REDIRECTION_ENTRY_LOW_MASK) | ended(value)),
{
}

proof fn lemma_high_write_bits(entry: u64, value: u64)
    by (bit_vector)
    requires
        value <= 0xffff_ffff,
    ensures
        ({
            let updated = (entry & REDIRECTION_ENTRY_LOW_MASK) | (value << 32);
            &&& updated & REDIRECTION_ENTRY_MASKED == entry & REDIRECTION_ENTRY_MASKED
            &&& updated & REDIRECTION_ENTRY_TRIGGER_MODE == entry & REDIRECTION_ENTRY_TRIGGER_MODE
            &&& updated & REDIRECTION_ENTRY_REMOTE_IRR == entry & REDIRECTION_ENTRY_REMOTE_IRR
            &&& updated & REDIRECTION_ENTRY_DELIVERY_MODE_MASK == entry
                & REDIRECTION_ENTRY_DELIVERY_MODE_MASK
            &&& updated & REDIRECTION_ENTRY_VECTOR_MASK == entry & REDIRECTION_ENTRY_VECTOR_MASK
            &&& updated >> 32 == value
            &&& updated & REDIRECTION_ENTRY_LOW_MASK == entry & REDIRECTION_ENTRY_LOW_MASK
        }),
{
}

/// A signal keeps the state sound.
pub proof fn lemma_signal_keeps_sound(model: IoApicModel, gsi: int, queue: bool)
    requires
        model.sound(),
    ensures
        model.after_signal(gsi, queue).sound(),
{
    if 0 <= gsi < IOAPIC_GSI_COUNT {
        lemma_sent_bits(model.table[gsi]);
        assert(line_sound(
            model.table[gsi],
            model.asserted[gsi],
            model.delivered[gsi],
            model.pending[gsi],
        ));
    }
    let after = model.after_signal(gsi, queue);
    assert forall|g: int| 0 <= g < IOAPIC_GSI_COUNT implies line_sound(
        #[trigger] after.table[g],
        after.asserted[g],
        after.delivered[g],
        after.pending[g],
    ) by {
        assert(line_sound(model.table[g], model.asserted[g], model.delivered[g], model.pending[g]));
    }
}

/// Setting a line keeps the state sound.
pub proof fn lemma_level_keeps_sound(model: IoApicModel, gsi: int, asserted: bool)
    requires
        model.sound(),
    ensures
        model.after_level(gsi, asserted).sound(),
{
    if 0 <= gsi < IOAPIC_GSI_COUNT {
        lemma_sent_bits(model.table[gsi]);
    }
    let after = model.after_level(gsi, asserted);
    assert forall|g: int| 0 <= g < IOAPIC_GSI_COUNT implies line_sound(
        #[trigger] after.table[g],
        after.asserted[g],
        after.delivered[g],
        after.pending[g],
    ) by {
        assert(line_sound(model.table[g], model.asserted[g], model.delivered[g], model.pending[g]));
    }
}

/// Routing asserted lines keeps the state sound.
pub proof fn lemma_routing_keeps_sound(model: IoApicModel, n: int)
    requires
        model.sound(),
    ensures
        model.after_routing(n).sound(),
{
    let after = model.after_routing(n);
    assert forall|g: int| 0 <= g < IOAPIC_GSI_COUNT implies line_sound(
        #[trigger] after.table[g],
        after.asserted[g],
        after.delivered[g],
        after.pending[g],
    ) by {
        lemma_sent_bits(model.table[g]);
        assert(line_sound(model.table[g], model.asserted[g], model.delivered[g], model.pending[g]));
    }
}

proof fn lemma_first_resumed(model: IoApicModel, v: u8, from: int)
    requires
        0 <= from <= IOAPIC_GSI_COUNT,
    ensures
        from <= model.first_resumed(v, from) <= IOAPIC_GSI_COUNT,
        model.first_resumed(v, from) < IOAPIC_GSI_COUNT ==> model.resumes(
            model.first_resumed(v, from),
            v,
        ),
        forall|g: int|
            from <= g < model.first_resumed(v, from) ==> !#[trigger] model.resumes(g, v),
    decreases IOAPIC_GSI_COUNT - from,
{
    if from < IOAPIC_GSI_COUNT && !model.resumes(from, v) {
        lemma_first_resumed(model, v, from + 1);
    }
}

/// The end of an interrupt keeps the state sound.
pub proof fn lemma_eoi_keeps_sound(model: IoApicModel, v: u8)
    requires
        model.sound(),
    ensures
        model.after_eoi(v).sound(),
{
    lemma_first_resumed(model, v, 0);
    let stop = model.first_resumed(v, 0);
    let after = model.after_eoi(v);
    assert forall|g: int| 0 <= g < IOAPIC_GSI_COUNT implies line_sound(
        #[trigger] after.table[g],
        after.asserted[g],
        after.delivered[g],
        after.pending[g],
    ) by {
        lemma_ended_bits(model.table[g]);
        assert(line_sound(model.table[g], model.asserted[g], model.delivered[g], model.pending[g]));
        if g < stop {
            assert(!model.resumes(g, v));
        }
    }
}

/// A write to the selected register keeps the state sound.
pub proof fn lemma_write_keeps_sound(model: IoApicModel, value: u32)
    requires
        model.sound(),
    ensures
        model.after_selected_write(value).sound(),
{
    let after = model.after_selected_write(value);
    if IOREDTBL_BASE <= model.selector <= IOREDTBL_LAST {
        let gsi = (model.selector - IOREDTBL_BASE) / 2;
        lemma_low_write_bits(model.table[gsi], value as u64);
        lemma_high_write_bits(model.table[gsi], value as u64);
        assert forall|g: int| 0 <= g < IOAPIC_GSI_COUNT implies line_sound(
            #[trigger] after.table[g],
            after.asserted[g],
            after.delivered[g],
            after.pending[g],
        ) by {
            assert(line_sound(
                model.table[g],
                model.asserted[g],
                model.delivered[g],
                model.pending[g],
            ));
        }
    }
}

proof fn lemma_selector_keeps_sound(model: IoApicModel, selector: u32)
    requires
        model.sound(),
    ensures
        (IoApicModel { selector, ..model }).sound(),
{
    let after = IoApicModel { selector, ..model };
    assert forall|g: int| 0 <= g < IOAPIC_GSI_COUNT implies line_sound(
        #[trigger] after.table[g],
        after.asserted[g],
        after.delivered[g],
        after.pending[g],
    ) by {
        assert(line_sound(model.table[g], model.asserted[g], model.delivered[g], model.pending[g]));
    }
}

proof fn lemma_initial_sound()
    ensures
        IoApicModel::initial().sound(),
{
    assert(!in_service(REDIRECTION_ENTRY_MASKED)) by (bit_vector);
}

/// The registers and line states of an IO APIC.
struct IoApicState {
    selector: u32,
    redirection_table: [u64; 24],
    asserted: [bool; 24],
    assertion_delivered: [bool; 24],
    pending_level: [bool; 24],
}

impl View for IoApicState {
    type V = IoApicModel;

    closed spec fn view(&self) -> IoApicModel {
        IoApicModel {
            selector: self.selector,
            table: self.redirection_table@,
            asserted: self.asserted@,
            delivered: self.assertion_delivered@,
            pending: self.pending_level@,
        }
    }
}

impl IoApicState {
    fn new() -> (r: Self)
        ensures
            r@ == IoApicModel::initial(),
    {
        let state = IoApicState {
            selector: 0,
            redirection_table: [REDIRECTION_ENTRY_MASKED; 24],
            asserted: [false; 24],
            assertion_delivered: [false; 24],
            pending_level: [false; 24],
        };
        assert(state@ =~= IoApicModel::initial());
        state
    }

    fn interrupt_for_entry(&mut self, gsi: usize, queue_if_remote_irr: bool) -> (r: Option<
        IoApicInterrupt,
    >)
        ensures
            r == old(self)@.signal(gsi as int),
            final(self)@ == old(self)@.after_signal(gsi as int, queue_if_remote_irr),
    {
        if gsi >= IOAPIC_GSI_COUNT {
            return None;
        }
        let entry: u64 = self.redirection_table[gsi];
        if entry & REDIRECTION_ENTRY_MASKED != 0 {
            return None;
        }
        if entry & REDIRECTION_ENTRY_DELIVERY_MODE_MASK != 0 {
            return None;
        }
        let vector: u8 = (entry & REDIRECTION_ENTRY_VECTOR_MASK) as u8;
        if vector < 16 {
            return None;
        }
        let level_triggered = entry & REDIRECTION_ENTRY_TRIGGER_MODE != 0;
        if level_triggered {
            if entry & REDIRECTION_ENTRY_REMOTE_IRR != 0 {
                if queue_if_remote_irr {
                    self.pending_level[gsi] = true;
                }
                return None;
            }
            self.redirection_table[gsi] = entry | REDIRECTION_ENTRY_REMOTE_IRR;
        }
        assert(self@ =~= old(self)@.after_signal(gsi as int, queue_if_remote_irr));
        Some(IoApicInterrupt { vector, level_triggered })
    }
}

impl IoApicModel {
    /// What a guest read at an offset of the window returns.
    pub open spec fn guest_read(self, offset: int, width: AccessWidth) -> AxResult<usize> {
        if !width_supported(width) {
            Err(AxError::Unsupported)
        } else if offset == IOREGSEL {
            Ok(self.selector as usize)
        } else if offset == IOWIN {
            Ok(self.selected() as usize)
        } else {
            Ok(0)
        }
    }

    /// The state after a guest write at an offset of the window.
    pub open spec fn after_guest_write(self, offset: int, width: AccessWidth, value: usize) -> Self {
        if !width_supported(width) {
            self
        } else if offset == IOREGSEL {
            IoApicModel { selector: value as u32, ..self }
        } else if offset == IOWIN {
            self.after_selected_write(value as u32)
        } else {
            self
        }
    }
}

/// A minimal emulated x86 IO APIC.
pub struct EmulatedIoApic {
    base: GuestPhysAddr,
    size: usize,
    state: IoApicState,
}

impl View for EmulatedIoApic {
    type V = IoApicModel;

    closed spec fn view(&self) -> IoApicModel {
        self.state@
    }
}

/// Whether an access of that width is supported.
pub open spec fn width_supported(width: AccessWidth) -> bool {
    width == AccessWidth::Dword || width == AccessWidth::Qword
}

impl EmulatedIoApic {
    /// The first address of the MMIO window.
    pub closed spec fn spec_base(&self) -> GuestPhysAddr {
        self.base
    }

    /// The size of the MMIO window.
    pub closed spec fn spec_size(&self) -> usize {
        self.size
    }

    /// Every line is sound.
    pub open spec fn wf(&self) -> bool {
        self@.sound()
    }

    /// Creates an IO APIC with the given MMIO window.
    pub fn new(base: GuestPhysAddr, size: Option<usize>) -> (r: Self)
        ensures
            r.wf(),
            r@ == IoApicModel::initial(),
            r.spec_base() == base,
            r.spec_size() == (match size {
                Some(size) => size,
                None => IOAPIC_SIZE,
            }),
            size is None ==> r.spec_size() == 0x1000,
    {
        proof {
            lemma_initial_sound();
        }
        let size: usize = match size {
            Some(size) => size,
            None => IOAPIC_SIZE,
        };
        EmulatedIoApic { base, size, state: IoApicState::new() }
    }

    /// Creates an IO APIC at the default PC-compatible address.
    pub fn new_default() -> (r: Self)
        ensures
            r.wf(),
            r@ == IoApicModel::initial(),
            r.spec_base() == GuestPhysAddr(IOAPIC_BASE),
            r.spec_size() == IOAPIC_SIZE,
            r.spec_base().0 == 0xfec0_0000,
            r.spec_size() == 0x1000,
    {
        Self::new(GuestPhysAddr::from_usize(IOAPIC_BASE), Some(IOAPIC_SIZE))
    }

    /// Returns the guest interrupt vector programmed for a GSI.
    pub fn vector_for_gsi(&self, gsi: usize) -> (r: Option<u8>)
        ensures
            r == (if gsi < IOAPIC_GSI_COUNT && routable(self@.table[gsi as int]) {
                Some(vector(self@.table[gsi as int]))
            } else {
                None
            }),
    {
        if gsi >= IOAPIC_GSI_COUNT {
            return None;
        }
        let entry: u64 = self.state.redirection_table[gsi];
        if entry & REDIRECTION_ENTRY_MASKED != 0 {
            return None;
        }
        if entry & REDIRECTION_ENTRY_DELIVERY_MODE_MASK != 0 {
            return None;
        }
        let vector: u8 = (entry & REDIRECTION_ENTRY_VECTOR_MASK) as u8;
        if vector < 16 {
            return None;
        }
        Some(vector)
    }

    /// Sets the asserted state of an input line.
    pub fn set_gsi_level(&mut self, gsi: usize, asserted: bool) -> (r: Option<IoApicInterrupt>)
        ensures
            r == old(self)@.level_interrupt(gsi as int, asserted),
            final(self)@ == old(self)@.after_level(gsi as int, asserted),
            final(self).spec_base() == old(self).spec_base(),
            final(self).spec_size() == old(self).spec_size(),
            old(self).wf() ==> final(self).wf(),
    {
        proof {
            if self.wf() {
                lemma_level_keeps_sound(self@, gsi as int, asserted);
            }
        }
        if gsi >= IOAPIC_GSI_COUNT {
            return None;
        }
        let previous = self.state.asserted[gsi];
        self.state.asserted[gsi] = asserted;
        if !asserted {
            self.state.assertion_delivered[gsi] = false;
            assert(self@ =~= old(self)@.after_level(gsi as int, asserted));
            return None;
        }
        if previous {
            assert(self@ =~= old(self)@.after_level(gsi as int, asserted));
            return None;
        }
        let interrupt = self.state.interrupt_for_entry(gsi, false);
        if interrupt.is_some() {
            self.state.assertion_delivered[gsi] = true;
        }
        assert(self@ =~= old(self)@.after_level(gsi as int, asserted));
        interrupt
    }

    /// Delivers one pulse on an input line.
    pub fn pulse_gsi(&mut self, gsi: usize) -> (r: Option<IoApicInterrupt>)
        ensures
            r == old(self)@.signal(gsi as int),
            final(self)@ == old(self)@.after_signal(gsi as int, true),
            final(self).spec_base() == old(self).spec_base(),
            final(self).spec_size() == old(self).spec_size(),
            old(self).wf() ==> final(self).wf(),
    {
        proof {
            if self.wf() {
                lemma_signal_keeps_sound(self@, gsi as int, true);
            }
        }
        self.state.interrupt_for_entry(gsi, true)
    }

    /// Routes asserted inputs that became deliverable after guest
    /// reconfiguration.
    pub fn route_asserted_lines(&mut self) -> (r: Vec<IoApicInterrupt>)
        ensures
            r@ == old(self)@.due_interrupts(IOAPIC_GSI_COUNT as int),
            final(self)@ == old(self)@.after_routing(IOAPIC_GSI_COUNT as int),
            final(self).spec_base() == old(self).spec_base(),
            final(self).spec_size() == old(self).spec_size(),
            old(self).wf() ==> final(self).wf(),
    {
        let ghost before = self@;
        proof {
            if before.sound() {
                lemma_routing_keeps_sound(before, IOAPIC_GSI_COUNT as int);
            }
            assert(before.after_routing(0) =~= before);
        }
        let mut interrupts: Vec<IoApicInterrupt> = Vec::new();
        let mut gsi: usize = 0;
        while gsi < IOAPIC_GSI_COUNT
            invariant
                gsi <= IOAPIC_GSI_COUNT,
                before == old(self)@,
                before.shaped(),
                self@ == before.after_routing(gsi as int),
                interrupts@ == before.due_interrupts(gsi as int),
                self.spec_base() == old(self).spec_base(),
                self.spec_size() == old(self).spec_size(),
            decreases IOAPIC_GSI_COUNT - gsi,
        {
            proof {
                assert(self@.table[gsi as int] == before.table[gsi as int]);
                assert(self@.delivered[gsi as int] == before.delivered[gsi as int]);
                assert(self@.asserted[gsi as int] == before.asserted[gsi as int]);
            }
            if self.state.asserted[gsi] && !self.state.assertion_delivered[gsi] {
                if let Some(interrupt) = self.state.interrupt_for_entry(gsi, false) {
                    self.state.assertion_delivered[gsi] = true;
                    interrupts.push(interrupt);
                }
            }
            assert(self@ =~= before.after_routing(gsi + 1));
            gsi = gsi + 1;
        }
        interrupts
    }

    /// Processes an EOI broadcast from the local APIC.
    pub fn end_of_interrupt(&mut self, vector: u8) -> (r: Option<IoApicInterrupt>)
        ensures
            r == old(self)@.eoi_interrupt(vector),
            final(self)@ == old(self)@.after_eoi(vector),
            final(self).spec_base() == old(self).spec_base(),
            final(self).spec_size() == old(self).spec_size(),
            old(self).wf() ==> final(self).wf(),
    {
        let ghost before = self@;
        let ghost stop = before.first_resumed(vector, 0);
        proof {
            if before.sound() {
                lemma_eoi_keeps_sound(before, vector);
            }
            lemma_first_resumed(before, vector, 0);
        }
        let mut gsi: usize = 0;
        while gsi < IOAPIC_GSI_COUNT
            invariant
                gsi <= stop <= IOAPIC_GSI_COUNT,
                before == old(self)@,
                before.shaped(),
                stop == before.first_resumed(vector, 0),
                stop == before.first_resumed(vector, gsi as int),
                stop < IOAPIC_GSI_COUNT ==> before.resumes(stop, vector),
                self@.shaped(),
                self@.selector == before.selector,
                self@.asserted == before.asserted,
                self@.delivered == before.delivered,
                self@.pending == before.pending,
                forall|g: int|
                    0 <= g < gsi ==> #[trigger] self@.table[g] == (if before.ends(g, vector) {
                        ended(before.table[g])
                    } else {
                        before.table[g]
                    }),
                forall|g: int|
                    gsi <= g < IOAPIC_GSI_COUNT ==> #[trigger] self@.table[g] == before.table[g],
                self.spec_base() == old(self).spec_base(),
                self.spec_size() == old(self).spec_size(),
                before.sound() ==> before.after_eoi(vector).sound(),
            decreases IOAPIC_GSI_COUNT - gsi,
        {
            let entry: u64 = self.state.redirection_table[gsi];
            proof {
                assert(self@.table[gsi as int] == before.table[gsi as int]);
                lemma_ended_bits(entry);
                lemma_sent_bits(ended(entry));
            }
            if (entry & REDIRECTION_ENTRY_VECTOR_MASK) as u8 == vector && entry
                & REDIRECTION_ENTRY_TRIGGER_MODE != 0 && entry & REDIRECTION_ENTRY_REMOTE_IRR != 0 {
                self.state.redirection_table[gsi] = entry & !REDIRECTION_ENTRY_REMOTE_IRR;
                let resumed = if self.state.asserted[gsi] {
                    true
                } else {
                    let pending = self.state.pending_level[gsi];
                    self.state.pending_level[gsi] = false;
                    pending
                };
                if resumed {
                    proof {
                        assert(before.resumes(gsi as int, vector));
                        assert(stop == gsi);
                    }
                    let interrupt = self.state.interrupt_for_entry(gsi, false);
                    if interrupt.is_some() {
                        self.state.assertion_delivered[gsi] = true;
                    }
                    assert(self@ =~= before.after_eoi(vector));
                    return interrupt;
                }
                assert(self@.pending =~= before.pending);
            }
            proof {
                assert(!before.resumes(gsi as int, vector));
            }
            gsi = gsi + 1;
        }
        assert(self@ =~= before.after_eoi(vector));
        None
    }

    fn offset(&self, addr: GuestPhysAddr) -> (r: usize)
        requires
            self.spec_base().0 <= addr.0,
        ensures
            r == addr.0 - self.spec_base().0,
    {
        addr.as_usize() - self.base.as_usize()
    }

    fn read_selected_register(&self) -> (r: u32)
        ensures
            r == self@.selected(),
    {
        let reg: u32 = self.state.selector;
        if reg == IOAPIC_ID || reg == IOAPIC_ARB {
            IOAPIC_ID_VALUE
        } else if reg == IOAPIC_VER {
            IOAPIC_VERSION_VALUE
        } else if IOREDTBL_BASE <= reg && reg <= IOREDTBL_LAST {
            let index: usize = ((reg - IOREDTBL_BASE) / 2) as usize;
            let entry: u64 = self.state.redirection_table[index];
            if (reg - IOREDTBL_BASE) % 2 == 0 {
                entry as u32
            } else {
                (entry >> 32) as u32
            }
        } else {
            0
        }
    }

    fn write_selected_register(&mut self, value: u32)
        ensures
            final(self)@ == old(self)@.after_selected_write(value),
            final(self).spec_base() == old(self).spec_base(),
            final(self).spec_size() == old(self).spec_size(),
    {
        let reg: u32 = self.state.selector;
        if reg < IOREDTBL_BASE || reg > IOREDTBL_LAST {
            return;
        }
        let index: usize = ((reg - IOREDTBL_BASE) / 2) as usize;
        let entry: u64 = self.state.redirection_table[index];
        if (reg - IOREDTBL_BASE) % 2 == 0 {
            let old_low: u64 = entry & !REDIRECTION_ENTRY_REMOTE_IRR & REDIRECTION_ENTRY_LOW_MASK;
            let new_low: u64 = (value as u64) & !REDIRECTION_ENTRY_REMOTE_IRR;
            let high: u64 = entry & !REDIRECTION_ENTRY_LOW_MASK;
            let updated: u64 = if old_low == new_low {
                high | new_low | (entry & REDIRECTION_ENTRY_REMOTE_IRR)
            } else {
                self.state.pending_level[index] = false;
                self.state.assertion_delivered[index] = false;
                high | new_low
            };
            self.state.redirection_table[index] = updated;
            if updated & REDIRECTION_ENTRY_MASKED != 0 {
                self.state.pending_level[index] = false;
                self.state.assertion_delivered[index] = false;
            }
        } else {
            self.state.redirection_table[index] = (entry & REDIRECTION_ENTRY_LOW_MASK) | ((
            value as u64) << 32);
        }
        assert(self@ =~= old(self)@.after_selected_write(value));
    }

    /// Returns the device type.
    pub fn emu_type(&self) -> (r: EmulatedDeviceType)
        ensures
            r == EmulatedDeviceType::X86IoApic,
    {
        EmulatedDeviceType::X86IoApic
    }

    /// Returns the MMIO window.
    pub fn address_range(&self) -> (r: GuestPhysAddrRange)
        requires
            self.spec_base().0 + self.spec_size() <= usize::MAX,
        ensures
            r == (GuestPhysAddrRange {
                start: self.spec_base(),
                end: GuestPhysAddr((self.spec_base().0 + self.spec_size()) as usize),
            }),
    {
        GuestPhysAddrRange::new(
            self.base,
            GuestPhysAddr::from_usize(self.base.as_usize() + self.size),
        )
    }

    /// Handles a guest read of the MMIO window.
    pub fn handle_read(&self, addr: GuestPhysAddr, width: AccessWidth) -> (r: AxResult<usize>)
        requires
            width_supported(width) ==> self.spec_base().0 <= addr.0,
        ensures
            r == self@.guest_read(addr.0 - self.spec_base().0, width),
            r == (if !width_supported(width) {
                Err::<usize, AxError>(AxError::Unsupported)
            } else if addr.0 - self.spec_base().0 == IOREGSEL {
                Ok(self@.selector as usize)
            } else if addr.0 - self.spec_base().0 == IOWIN {
                Ok(self@.selected() as usize)
            } else {
                Ok(0)
            }),
    {
        match width {
            AccessWidth::Dword | AccessWidth::Qword => {},
            _ => {
                return Err(AxError::Unsupported);
            },
        }
        let offset: usize = self.offset(addr);
        if offset == IOREGSEL {
            Ok(self.state.selector as usize)
        } else if offset == IOWIN {
            Ok(self.read_selected_register() as usize)
        } else {
            Ok(0)
        }
    }

    /// Handles a guest write to the MMIO window.
    pub fn handle_write(&mut self, addr: GuestPhysAddr, width: AccessWidth, val: usize) -> (r:
        AxResult<()>)
        requires
            width_supported(width) ==> old(self).spec_base().0 <= addr.0,
        ensures
            r is Ok <==> width == AccessWidth::Dword || width == AccessWidth::Qword,
            final(self)@ == old(self)@.after_guest_write(
                addr.0 - old(self).spec_base().0,
                width,
                val,
            ),
            r == (if width_supported(width) {
                Ok::<(), AxError>(())
            } else {
                Err(AxError::Unsupported)
            }),
            final(self)@ == (if !width_supported(width) {
                old(self)@
            } else if addr.0 - old(self).spec_base().0 == IOREGSEL {
                IoApicModel { selector: val as u32, ..old(self)@ }
            } else if addr.0 - old(self).spec_base().0 == IOWIN {
                old(self)@.after_selected_write(val as u32)
            } else {
                old(self)@
            }),
            final(self).spec_base() == old(self).spec_base(),
            final(self).spec_size() == old(self).spec_size(),
            old(self).wf() ==> final(self).wf(),
    {
        match width {
            AccessWidth::Dword | AccessWidth::Qword => {},
            _ => {
                return Err(AxError::Unsupported);
            },
        }
        let offset: usize = self.offset(addr);
        if offset == IOREGSEL {
            self.state.selector = val as u32;
            proof {
                if old(self).wf() {
                    lemma_selector_keeps_sound(old(self)@, val as u32);
                }
            }
        } else if offset == IOWIN {
            proof {
                if self.wf() {
                    lemma_write_keeps_sound(self@, val as u32);
                }
            }
            self.write_selected_register(val as u32);
        }
        Ok(())
    }
}

impl Default for EmulatedIoApic {
    fn default() -> (r: Self)
        ensures
            r.wf(),
            r@ == IoApicModel::initial(),
            r.spec_base() == GuestPhysAddr(IOAPIC_BASE),
            r.spec_size() == IOAPIC_SIZE,
            r.spec_base().0 == 0xfec0_0000,
            r.spec_size() == 0x1000,
    {
        Self::new_default()
    }
}

/// A masked line is silent: neither a pulse nor an assertion interrupts, and
/// routing passes it by.
pub proof fn law_masked_line_is_silent(model: IoApicModel, gsi: int, queue: bool)
    requires
        0 <= gsi < IOAPIC_GSI_COUNT,
        masked(model.table[gsi]),
    ensures
        model.signal(gsi) is None,
        model.after_signal(gsi, queue) == model,
        model.level_interrupt(gsi, true) is None,
        !model.due(gsi),
{
}

/// A line that does not exist never interrupts and changes nothing.
pub proof fn law_missing_line_is_ignored(model: IoApicModel, gsi: int, asserted: bool)
    requires
        gsi >= IOAPIC_GSI_COUNT,
    ensures
        model.signal(gsi) is None,
        model.after_signal(gsi, true) == model,
        model.level_interrupt(gsi, asserted) is None,
        model.after_level(gsi, asserted) == model,
{
}

/// A level-triggered interrupt that was sent is not sent again before it ends.
/// A pulse in between is remembered.
pub proof fn law_level_interrupt_waits_for_its_end(model: IoApicModel, gsi: int)
    requires
        model.shaped(),
        0 <= gsi < IOAPIC_GSI_COUNT,
        level(model.table[gsi]),
        model.signal(gsi) is Some,
    ensures
        model.after_signal(gsi, true).signal(gsi) is None,
        model.after_signal(gsi, true).after_signal(gsi, true).pending[gsi],
{
    lemma_sent_bits(model.table[gsi]);
}

/// An edge-triggered line interrupts on every pulse and keeps no memory of it.
pub proof fn law_edge_interrupt_repeats(model: IoApicModel, gsi: int)
    requires
        model.shaped(),
        0 <= gsi < IOAPIC_GSI_COUNT,
        routable(model.table[gsi]),
        !level(model.table[gsi]),
    ensures
        model.signal(gsi) == Some(interrupt(model.table[gsi])),
        model.after_signal(gsi, true) == model,
{
    assert(model.after_signal(gsi, true) =~= model);
}

/// The end of an interrupt sends it again while its line is asserted or a
/// further pulse is pending: on the first such line of that vector.
pub proof fn law_end_resends_waiting_line(model: IoApicModel, v: u8)
    requires
        model.sound(),
        model.first_resumed(v, 0) < IOAPIC_GSI_COUNT,
    ensures
        model.eoi_interrupt(v) == Some(interrupt(model.table[model.first_resumed(v, 0)])),
        model.eoi_interrupt(v)->0.vector == v,
        in_service(model.after_eoi(v).table[model.first_resumed(v, 0)]),
{
    lemma_first_resumed(model, v, 0);
    let g = model.first_resumed(v, 0);
    assert(line_sound(model.table[g], model.asserted[g], model.delivered[g], model.pending[g]));
}

/// The end of an interrupt frees an idle line, unless an earlier line of that
/// vector is sent again: the next signal interrupts.
pub proof fn law_end_frees_idle_line(model: IoApicModel, gsi: int, v: u8)
    requires
        model.sound(),
        0 <= gsi < model.first_resumed(v, 0),
        model.ends(gsi, v),
    ensures
        !in_service(model.after_eoi(v).table[gsi]),
        model.after_eoi(v).signal(gsi) == Some(interrupt(model.table[gsi])),
{
    lemma_first_resumed(model, v, 0);
    lemma_ended_bits(model.table[gsi]);
    assert(line_sound(
        model.table[gsi],
        model.asserted[gsi],
        model.delivered[gsi],
        model.pending[gsi],
    ));
}

/// With no asserted line and no pending pulse on its vector the end of an
/// interrupt sends nothing.
pub proof fn law_end_without_waiting_line_is_silent(model: IoApicModel, v: u8)
    requires
        forall|g: int| 0 <= g < IOAPIC_GSI_COUNT ==> !#[trigger] model.resumes(g, v),
    ensures
        model.eoi_interrupt(v) is None,
{
    lemma_first_resumed(model, v, 0);
}

/// No asserted line is lost: after routing, every asserted line that the guest
/// routes was delivered, and it is in service if it is level-triggered.
pub proof fn law_asserted_line_is_not_lost(model: IoApicModel, gsi: int)
    requires
        model.sound(),
        0 <= gsi < IOAPIC_GSI_COUNT,
        model.asserted[gsi],
        routable(model.table[gsi]),
    ensures
        level(model.table[gsi]) ==> in_service(
            model.after_routing(IOAPIC_GSI_COUNT as int).table[gsi],
        ),
        !level(model.table[gsi]) ==> model.after_routing(IOAPIC_GSI_COUNT as int).delivered[gsi],
{
    lemma_sent_bits(model.table[gsi]);
    assert(line_sound(
        model.table[gsi],
        model.asserted[gsi],
        model.delivered[gsi],
        model.pending[gsi],
    ));
}

/// Routing sends an assertion once: a second round finds nothing due.
pub proof fn law_routing_is_done_once(model: IoApicModel, gsi: int)
    requires
        model.shaped(),
        0 <= gsi < IOAPIC_GSI_COUNT,
    ensures
        !model.after_routing(IOAPIC_GSI_COUNT as int).due(gsi),
{
}

/// A line that is lowered interrupts no more until it is asserted again.
pub proof fn law_lowered_line_is_not_routed(model: IoApicModel, gsi: int)
    requires
        model.shaped(),
        0 <= gsi < IOAPIC_GSI_COUNT,
    ensures
        model.level_interrupt(gsi, false) is None,
        !model.after_level(gsi, false).due(gsi),
{
}

/// Signals on one line leave the others alone.
pub proof fn law_lines_are_independent(
    model: IoApicModel,
    gsi: int,
    other: int,
    asserted: bool,
    queue: bool,
)
    requires
        model.shaped(),
        0 <= other < IOAPIC_GSI_COUNT,
        other != gsi,
    ensures
        ({
            let pulsed = model.after_signal(gsi, queue);
            let set = model.after_level(gsi, asserted);
            &&& pulsed.table[other] == model.table[other]
            &&& pulsed.asserted[other] == model.asserted[other]
            &&& pulsed.delivered[other] == model.delivered[other]
            &&& pulsed.pending[other] == model.pending[other]
            &&& set.table[other] == model.table[other]
            &&& set.asserted[other] == model.asserted[other]
            &&& set.delivered[other] == model.delivered[other]
            &&& set.pending[other] == model.pending[other]
        }),
{
}

/// A redirection register reads back what was written to it, but for the
/// service flag, which the guest cannot write.
pub proof fn law_entry_reads_back(model: IoApicModel, value: u32)
    requires
        model.shaped(),
        IOREDTBL_BASE <= model.selector <= IOREDTBL_LAST,
    ensures
        (model.selector - IOREDTBL_BASE) % 2 == 1 ==> model.after_selected_write(value).selected()
            == value,
        (model.selector - IOREDTBL_BASE) % 2 == 0 ==> model.after_selected_write(value).selected()
            & !0x4000u32 == value & !0x4000u32,
{
    let gsi = (model.selector - IOREDTBL_BASE) / 2;
    let entry = model.table[gsi];
    assert(((((entry & REDIRECTION_ENTRY_LOW_MASK) | ((value as u64) << 32)) >> 32) as u32) == value)
        by (bit_vector);
    assert((((entry & !REDIRECTION_ENTRY_LOW_MASK) | ended(value as u64) | (entry
        & REDIRECTION_ENTRY_REMOTE_IRR)) as u32) & !0x4000u32 == value & !0x4000u32)
        by (bit_vector);
    assert((((entry & !REDIRECTION_ENTRY_LOW_MASK) | ended(value as u64)) as u32) & !0x4000u32
        == value & !0x4000u32) by (bit_vector);
}

/// A line whose configuration changes starts afresh: nothing is in service,
/// pending or delivered. Writing the same configuration back changes nothing of
/// an unmasked line.
pub proof fn law_reconfigured_line_starts_afresh(model: IoApicModel, gsi: int, value: u32)
    requires
        model.shaped(),
        0 <= gsi < IOAPIC_GSI_COUNT,
    ensures
        ended(model.table[gsi]) & REDIRECTION_ENTRY_LOW_MASK != ended(value as u64) ==> {
            let after = model.after_low_write(gsi, value);
            !in_service(after.table[gsi]) && !after.pending[gsi] && !after.delivered[gsi]
        },
        ended(model.table[gsi]) & REDIRECTION_ENTRY_LOW_MASK == ended(value as u64) && !masked(
            model.table[gsi],
        ) ==> model.after_low_write(gsi, value) == model,
{
    lemma_low_write_bits(model.table[gsi], value as u64);
    if ended(model.table[gsi]) & REDIRECTION_ENTRY_LOW_MASK == ended(value as u64) && !masked(
        model.table[gsi],
    ) {
        assert(model.after_low_write(gsi, value) =~= model);
    }
}

/// The layout of a redirection entry: the vector stands in the lowest eight
/// bits, then come the delivery mode, which has to be zero, the service flag in
/// bit 14, the trigger mode in bit 15 and the mask in bit 16. The vectors below
/// 16 are reserved.
pub proof fn law_entry_layout(entry: u64)
    ensures
        routable(entry) <==> entry & 0x1_0000 == 0 && entry & 0x700 == 0 && entry & 0xff >= 16,
        vector(entry) as u64 == entry & 0xff,
        level(entry) <==> entry & 0x8000 != 0,
        in_service(entry) <==> entry & 0x4000 != 0,
        masked(entry) <==> entry & 0x1_0000 != 0,
{
    assert(entry & 0xff <= 0xff) by (bit_vector);
}

/// A signal on a line is sent exactly when the line is not masked, asks for
/// fixed delivery and for no reserved vector, and no earlier interrupt of a
/// level-triggered line awaits its end. What is sent carries the vector and the
/// trigger mode of the entry.
pub proof fn law_signal_is_sent_by_entry(model: IoApicModel, gsi: int)
    requires
        0 <= gsi < 24,
    ensures
        ({
            let entry = model.table[gsi];
            &&& model.signal(gsi) is Some <==> entry & 0x1_0000 == 0 && entry & 0x700 == 0 && entry
                & 0xff >= 16 && (entry & 0x8000 == 0 || entry & 0x4000 == 0)
            &&& model.signal(gsi) is Some ==> {
                &&& model.signal(gsi)->0.vector as u64 == entry & 0xff
                &&& model.signal(gsi)->0.level_triggered == (entry & 0x8000 != 0)
            }
        }),
{
    law_entry_layout(model.table[gsi]);
}

/// A signal that is sent on a level-triggered line sets the service flag of its
/// entry and nothing else. A pulse that comes while the flag is set is kept; any
/// other signal leaves no trace.
pub proof fn law_signal_marks_its_line(model: IoApicModel, gsi: int, queue: bool)
    requires
        model.shaped(),
        0 <= gsi < 24,
    ensures
        ({
            let entry = model.table[gsi];
            let after = model.after_signal(gsi, queue);
            let routed = entry & 0x1_0000 == 0 && entry & 0x700 == 0 && entry & 0xff >= 16;
            let waits = entry & 0x8000 != 0 && entry & 0x4000 != 0;
            &&& after.selector == model.selector
            &&& after.asserted == model.asserted
            &&& after.delivered == model.delivered
            &&& after.table == model.table.update(
                gsi,
                if routed && entry & 0x8000 != 0 {
                    entry | 0x4000
                } else {
                    entry
                },
            )
            &&& after.pending == model.pending.update(
                gsi,
                model.pending[gsi] || (queue && routed && waits),
            )
        }),
{
    let entry = model.table[gsi];
    law_entry_layout(entry);
    assert(entry & 0x4000 != 0 ==> entry | 0x4000 == entry) by (bit_vector);
    let after = model.after_signal(gsi, queue);
    assert(after.table =~= model.table.update(gsi, after.table[gsi]));
    assert(after.pending =~= model.pending.update(gsi, after.pending[gsi]));
}

/// Lowering a line sends nothing and leaves its redirection entry and its
/// pending pulse as they were.
pub proof fn law_lowering_keeps_entry_and_pulse(model: IoApicModel, gsi: int)
    requires
        model.shaped(),
        0 <= gsi < 24,
    ensures
        model.level_interrupt(gsi, false) is None,
        model.after_level(gsi, false).table == model.table,
        model.after_level(gsi, false).pending == model.pending,
        model.after_level(gsi, false).selector == model.selector,
        model.after_level(gsi, false).asserted == model.asserted.update(gsi, false),
        model.after_level(gsi, false).delivered == model.delivered.update(gsi, false),
{
}

/// Raising a line signals once, when it becomes asserted: the entry changes as
/// by a pulse, but a signal that comes too early is not kept. Raising an
/// asserted line does nothing.
pub proof fn law_raising_signals_once(model: IoApicModel, gsi: int)
    requires
        model.shaped(),
        0 <= gsi < 24,
    ensures
        model.asserted[gsi] ==> {
            &&& model.level_interrupt(gsi, true) is None
            &&& model.after_level(gsi, true) == model
        },
        !model.asserted[gsi] ==> {
            let after = model.after_level(gsi, true);
            let pulsed = model.after_signal(gsi, true);
            &&& model.level_interrupt(gsi, true) == model.signal(gsi)
            &&& after.table == pulsed.table
            &&& after.pending == model.pending
            &&& after.selector == model.selector
            &&& after.asserted == model.asserted.update(gsi, true)
            &&& after.delivered == model.delivered.update(
                gsi,
                model.delivered[gsi] || model.signal(gsi) is Some,
            )
        },
        model.after_level(gsi, true).after_level(gsi, true) == model.after_level(gsi, true),
        model.after_level(gsi, true).level_interrupt(gsi, true) is None,
{
    assert(model.after_level(gsi, true).after_level(gsi, true) =~= model.after_level(gsi, true));
}

/// What can happen to an IO APIC between two writes of the guest.
pub enum LineEvent {
    /// A line is set.
    Level(int, bool),
    /// A line is pulsed.
    Pulse(int),
    /// Asserted lines are routed.
    Route,
    /// An interrupt ends.
    End(u8),
}

impl IoApicModel {
    /// The state after an event.
    pub open spec fn after_event(self, event: LineEvent) -> Self {
        match event {
            LineEvent::Level(gsi, asserted) => self.after_level(gsi, asserted),
            LineEvent::Pulse(gsi) => self.after_signal(gsi, true),
            LineEvent::Route => self.after_routing(24),
            LineEvent::End(v) => self.after_eoi(v),
        }
    }

    /// The state after events, in order.
    pub open spec fn after_events(self, events: Seq<LineEvent>) -> Self
        decreases events.len(),
    {
        if events.len() == 0 {
            self
        } else {
            self.after_events(events.drop_last()).after_event(events.last())
        }
    }
}

/// A level-triggered interrupt that was sent is not sent again before it ends:
/// after any events other than the end of its vector, the entry of its line is
/// the same, service flag included, and neither a change of the line nor a pulse
/// nor routing sends it.
pub proof fn law_interrupt_in_service_is_not_sent_again(
    model: IoApicModel,
    gsi: int,
    events: Seq<LineEvent>,
    asserted: bool,
)
    requires
        model.shaped(),
        0 <= gsi < 24,
        model.table[gsi] & 0x8000 != 0,
        model.table[gsi] & 0x4000 != 0,
        forall|i: int|
            0 <= i < events.len() ==> match #[trigger] events[i] {
                LineEvent::End(v) => v as u64 != model.table[gsi] & 0xff,
                _ => true,
            },
    ensures
        ({
            let after = model.after_events(events);
            &&& after.shaped()
            &&& after.table[gsi] == model.table[gsi]
            &&& after.signal(gsi) is None
            &&& after.level_interrupt(gsi, asserted) is None
            &&& !after.due(gsi)
        }),
    decreases events.len(),
{
    law_entry_layout(model.table[gsi]);
    if events.len() > 0 {
        let front = events.drop_last();
        assert forall|i: int| 0 <= i < front.len() implies match #[trigger] front[i] {
            LineEvent::End(v) => v as u64 != model.table[gsi] & 0xff,
            _ => true,
        } by {
            assert(front[i] == events[i]);
        }
        law_interrupt_in_service_is_not_sent_again(model, gsi, front, asserted);
        let before = model.after_events(front);
        assert(events[events.len() - 1] == events.last());
        match events.last() {
            LineEvent::Level(line, asserted) => {
                if line == gsi && asserted {
                    law_raising_signals_once(before, gsi);
                    law_signal_marks_its_line(before, gsi, true);
                }
            },
            LineEvent::Pulse(line) => {
                if line == gsi {
                    law_signal_marks_its_line(before, gsi, true);
                }
            },
            LineEvent::Route => {},
            LineEvent::End(v) => {},
        }
    }
}

/// The same of a whole exchange: once a signal was sent on a level-triggered
/// line, no sequence of signals on the line sends another interrupt before the
/// end of its vector.
pub proof fn law_one_interrupt_per_end(
    model: IoApicModel,
    gsi: int,
    events: Seq<LineEvent>,
    asserted: bool,
)
    requires
        model.shaped(),
        0 <= gsi < 24,
        model.signal(gsi) is Some,
        model.signal(gsi)->0.level_triggered,
        forall|i: int|
            0 <= i < events.len() ==> match #[trigger] events[i] {
                LineEvent::End(v) => v != model.signal(gsi)->0.vector,
                _ => true,
            },
    ensures
        ({
            let after = model.after_event(LineEvent::Pulse(gsi)).after_events(events);
            &&& after.signal(gsi) is None
            &&& after.level_interrupt(gsi, asserted) is None
            &&& !after.due(gsi)
            &&& after.table[gsi] & 0x4000 != 0
        }),
{
    let entry = model.table[gsi];
    let sent = model.after_signal(gsi, true);
    law_entry_layout(entry);
    law_signal_is_sent_by_entry(model, gsi);
    law_signal_marks_its_line(model, gsi, true);
    assert((entry | 0x4000) & 0x4000 != 0 && (entry | 0x4000) & 0x8000 == entry & 0x8000 && (entry
        | 0x4000) & 0xff == entry & 0xff) by (bit_vector);
    law_interrupt_in_service_is_not_sent_again(sent, gsi, events, asserted);
}

/// What the end of an interrupt does, line by line, where `stop` is the lowest
/// line of that vector that is in service and still asks for an interrupt: lines
/// of the vector below it are freed, it stays in service and is sent again, and
/// the lines above it and those of other vectors are as they were. The pulse that
/// was kept is used up unless the line is asserted.
pub proof fn law_end_of_interrupt_by_line(model: IoApicModel, v: u8, stop: int, gsi: int)
    requires
        model.sound(),
        0 <= stop <= 24,
        stop < 24 ==> {
            let entry = model.table[stop];
            &&& entry & 0xff == v as u64
            &&& entry & 0x8000 != 0
            &&& entry & 0x4000 != 0
            &&& model.asserted[stop] || model.pending[stop]
        },
        forall|g: int|
            0 <= g < stop ==> {
                let entry = #[trigger] model.table[g];
                !(entry & 0xff == v as u64 && entry & 0x8000 != 0 && entry & 0x4000 != 0 && (
                model.asserted[g] || model.pending[g]))
            },
        0 <= gsi < 24,
    ensures
        ({
            let entry = model.table[gsi];
            let after = model.after_eoi(v);
            let mine = entry & 0xff == v as u64 && entry & 0x8000 != 0 && entry & 0x4000 != 0;
            &&& after.selector == model.selector
            &&& after.asserted == model.asserted
            &&& after.table[gsi] == (if mine && gsi < stop {
                entry & !0x4000
            } else {
                entry
            })
            &&& after.delivered[gsi] == (model.delivered[gsi] || gsi == stop)
            &&& after.pending[gsi] == (model.pending[gsi] && (gsi != stop || model.asserted[gsi]))
            &&& model.eoi_interrupt(v) == (if stop < 24 {
                Some(IoApicInterrupt { vector: v, level_triggered: true })
            } else {
                None
            })
        }),
{
    assert forall|g: int| 0 <= g < 24 implies #[trigger] model.resumes(g, v) == (model.table[g] & 0xff
        == v as u64 && model.table[g] & 0x8000 != 0 && model.table[g] & 0x4000 != 0 && (
    model.asserted[g] || model.pending[g])) by {
        law_entry_layout(model.table[g]);
    }
    law_entry_layout(model.table[gsi]);
    lemma_first_resumed(model, v, 0);
    let first = model.first_resumed(v, 0);
    if first < stop {
        assert(model.resumes(first, v));
        assert(model.table[first] == model.table[first]);
    }
    if stop < first {
        assert(!model.resumes(stop, v));
    }
    if stop < 24 {
        law_entry_layout(model.table[stop]);
        assert(line_sound(
            model.table[stop],
            model.asserted[stop],
            model.delivered[stop],
            model.pending[stop],
        ));
    }
}

/// What routing does, line by line: a line is sent exactly when it is asserted,
/// its assertion was not delivered and a signal on it is sent, and its entry
/// changes as by that signal.
pub proof fn law_routing_by_line(model: IoApicModel, gsi: int)
    requires
        model.shaped(),
        0 <= gsi < 24,
    ensures
        ({
            let after = model.after_routing(24);
            let sends = model.asserted[gsi] && !model.delivered[gsi] && model.signal(gsi) is Some;
            &&& model.due(gsi) == sends
            &&& after.selector == model.selector
            &&& after.asserted == model.asserted
            &&& after.pending == model.pending
            &&& after.table[gsi] == (if sends {
                model.after_signal(gsi, true).table[gsi]
            } else {
                model.table[gsi]
            })
            &&& after.delivered[gsi] == (model.delivered[gsi] || sends)
        }),
{
}

/// Routing sends the interrupts of the lines that are due, one of each, from the
/// lowest line up.
pub proof fn law_routing_sends_due_lines_in_order(model: IoApicModel, n: nat)
    requires
        model.shaped(),
        n <= 24,
    ensures
        model.due_interrupts(n as int) == Seq::new(n, |g: int| g).filter(
            |g: int| model.asserted[g] && !model.delivered[g] && model.signal(g) is Some,
        ).map_values(|g: int| model.signal(g)->0),
    decreases n,
{
    let lines = Seq::new(n, |g: int| g);
    let due = |g: int| model.asserted[g] && !model.delivered[g] && model.signal(g) is Some;
    let sent = |g: int| model.signal(g)->0;
    reveal(Seq::filter);
    if n > 0 {
        let m = (n - 1) as nat;
        law_routing_sends_due_lines_in_order(model, m);
        assert(lines.drop_last() =~= Seq::new(m, |g: int| g));
        let front = lines.drop_last().filter(due);
        if due(n - 1) {
            assert(lines.filter(due) =~= front.push(n - 1));
            assert(lines.filter(due).map_values(sent) =~= front.map_values(sent).push(sent(n - 1)));
        }
    } else {
        assert(lines.filter(due).map_values(sent) =~= model.due_interrupts(0));
    }
}

/// The indirect registers: the identification and arbitration registers hold
/// identifier one, the version register tells of 24 entries, and two registers
/// show the halves of each entry, the lower one first. All others read as zero.
pub proof fn law_registers_show_the_table(model: IoApicModel, gsi: int)
    requires
        model.shaped(),
        0 <= gsi < 24,
    ensures
        model.selector == 0 || model.selector == 2 ==> model.selected() == 0x0100_0000,
        model.selector == 1 ==> model.selected() == 0x0017_0011,
        model.selector == 0x10 + 2 * gsi ==> model.selected() == (model.table[gsi]
            & 0xffff_ffff) as u32,
        model.selector == 0x11 + 2 * gsi ==> model.selected() == (model.table[gsi] >> 32) as u32,
        3 <= model.selector < 0x10 || model.selector >= 0x40 ==> model.selected() == 0,
{
    let entry = model.table[gsi];
    assert(entry as u32 == (entry & 0xffff_ffff) as u32) by (bit_vector);
}

/// What a write to an indirect register changes. Only the half of the entry that
/// is selected takes the value, but for the service flag; the other half, the
/// other entries and the states of the other lines stay. A write of the upper
/// half disturbs nothing else. A write of the lower half that changes it clears
/// the service flag and forgets what was delivered and kept; one that does not
/// leaves the flag; one that masks the line forgets as well.
pub proof fn law_write_changes_one_half(model: IoApicModel, value: u32, gsi: int)
    requires
        model.shaped(),
        0 <= gsi < 24,
    ensures
        ({
            let entry = model.table[gsi];
            let after = model.after_selected_write(value);
            let low = model.selector == 0x10 + 2 * gsi;
            let high = model.selector == 0x11 + 2 * gsi;
            let same = (entry & 0xffff_ffff) & !0x4000 == (value as u64) & !0x4000;
            let forgets = low && (!same || value as u64 & 0x1_0000 != 0);
            &&& after.selector == model.selector
            &&& after.asserted == model.asserted
            &&& after.table.len() == 24
            &&& !low && !high ==> after.table[gsi] == entry
            &&& high ==> after.table[gsi] >> 32 == value as u64 && after.table[gsi] & 0xffff_ffff
                == entry & 0xffff_ffff
            &&& low ==> after.table[gsi] >> 32 == entry >> 32
            &&& low && same ==> after.table[gsi] == entry
            &&& low && !same ==> after.table[gsi] & 0xffff_ffff == (value as u64) & !0x4000
            &&& after.delivered[gsi] == (model.delivered[gsi] && !forgets)
            &&& after.pending[gsi] == (model.pending[gsi] && !forgets)
        }),
{
    let entry = model.table[gsi];
    let v = value as u64;
    lemma_low_write_bits(entry, v);
    lemma_high_write_bits(entry, v);
    law_entry_layout(entry);
    law_entry_layout((entry & !0xffff_ffff) | (v & !0x4000));
    assert((entry & !0x4000) & 0xffff_ffff == (entry & 0xffff_ffff) & !0x4000) by (bit_vector);
    assert({
        let changed = (entry & !0xffff_ffff) | (v & !0x4000);
        &&& changed >> 32 == entry >> 32
        &&& changed & 0xffff_ffff == v & !0x4000
        &&& changed & 0x1_0000 == v & 0x1_0000
        &&& (entry & 0xffff_ffff) & !0x4000 == v & !0x4000 ==> entry & 0x1_0000 == v & 0x1_0000
    }) by (bit_vector)
        requires
            v <= 0xffff_ffff,
    ;
}

/// The window has two registers, for accesses of 32 or 64 bits: at offset zero the
/// one that selects an indirect register and reads back, at offset 16 the one that
/// shows it. Elsewhere reads return zero and writes do nothing; narrower accesses
/// are not supported and do nothing.
pub proof fn law_guest_reaches_registers_through_the_window(
    model: IoApicModel,
    offset: int,
    width: AccessWidth,
    value: usize,
)
    requires
        model.shaped(),
    ensures
        ({
            let wide = width == AccessWidth::Dword || width == AccessWidth::Qword;
            let after = model.after_guest_write(offset, width, value);
            &&& !wide ==> {
                &&& model.guest_read(offset, width) == Err::<usize, AxError>(AxError::Unsupported)
                &&& after == model
            }
            &&& wide && offset != 0 && offset != 16 ==> {
                &&& model.guest_read(offset, width) == Ok::<usize, AxError>(0)
                &&& after == model
            }
            &&& wide && offset == 0 ==> {
                &&& model.guest_read(0, width) == Ok::<usize, AxError>(model.selector as usize)
                &&& after.guest_read(0, width) == Ok::<usize, AxError>((value as u32) as usize)
                &&& after.table == model.table
                &&& after.asserted == model.asserted
                &&& after.delivered == model.delivered
                &&& after.pending == model.pending
            }
            &&& wide && offset == 16 ==> {
                &&& model.guest_read(16, width) == Ok::<usize, AxError>(model.selected() as usize)
                &&& after == model.after_selected_write(value as u32)
            }
        }),
{
}

/// At power-on every line is masked and has vector zero, and nothing is asserted,
/// delivered or kept.
pub proof fn law_power_on_masks_every_line(gsi: int)
    requires
        0 <= gsi < 24,
    ensures
        ({
            let model = IoApicModel::initial();
            &&& model.shaped()
            &&& model.selector == 0
            &&& model.table[gsi] == 0x1_0000
            &&& !model.asserted[gsi]
            &&& !model.delivered[gsi]
            &&& !model.pending[gsi]
            &&& model.signal(gsi) is None
        }),
{
    law_signal_is_sent_by_entry(IoApicModel::initial(), gsi);
    assert(0x1_0000u64 & 0x1_0000 != 0) by (bit_vector);
}

} // verus!
