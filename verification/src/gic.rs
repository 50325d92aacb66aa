//! Injection of virtual interrupts through the list registers of a GIC.

use crate::error::{AxError, AxResult};
use vstd::prelude::*;

verus! {

/// First of the special interrupt numbers.
pub const SPECIAL_INTERRUPT_START: usize = 1020;

/// State of the interrupt in a list register.
#[derive(Clone, Copy, Debug, PartialEq, Eq, Structural)]
pub enum ListRegisterState {
    /// The register holds no interrupt.
    Invalid,
    /// The interrupt is pending.
    Pending,
    /// The interrupt is active.
    Active,
    /// The interrupt is pending and active.
    PendingAndActive,
}

/// What a list register holds.
#[derive(Clone, Copy, Debug, PartialEq, Eq, Structural)]
pub struct ListRegister {
    /// Number of the virtual interrupt.
    pub virtual_id: u64,
    /// State of the interrupt.
    pub state: ListRegisterState,
    /// Whether the GIC reports the register as empty.
    pub vacant: bool,
}

/// The GIC of the host, as far as it can be reached.
pub enum HostGic {
    /// There is no interrupt controller driver.
    Missing,
    /// The driver is in use.
    Busy,
    /// A GICv2 without hypervisor interface.
    V2WithoutHypervisor,
    /// A GICv2 with its list registers.
    V2(Vec<ListRegister>),
    /// A GICv3.
    V3 {
        /// Its list registers.
        registers: Vec<ListRegister>,
        /// Whether the virtual interrupt interface is enabled.
        enabled: bool,
    },
    /// A driver of another controller.
    Unknown,
}

/// When the virtual interrupt interface is enabled.
#[derive(Clone, Copy, Debug, PartialEq, Eq, Structural)]
pub enum Enabling {
    /// It is enabled already.
    NotNeeded,
    /// Before the list register is written.
    BeforeWrite,
    /// After the list register was written.
    AfterWrite,
}

/// A write to a list register.
#[derive(Clone, Copy, Debug, PartialEq, Eq, Structural)]
pub struct RegisterUpdate {
    /// Index of the register.
    pub index: usize,
    /// What the register holds afterwards.
    pub register: ListRegister,
    /// Priority of the interrupt.
    pub priority: u8,
    /// Whether the interrupt belongs to group one.
    pub group1: bool,
    /// Whether the end of the interrupt raises a maintenance interrupt.
    pub eoi_maintenance: bool,
    /// When the virtual interrupt interface is enabled.
    pub enabling: Enabling,
}

/// How a virtual interrupt is injected.
#[derive(Clone, Copy, Debug, PartialEq, Eq, Structural)]
pub enum Injection {
    /// A list register holds the interrupt already: nothing is written.
    AlreadyHeld,
    /// One list register is written.
    Write(RegisterUpdate),
}

/// What a list register holds after an injection: the interrupt, pending.
pub open spec fn pending_register(irq: usize) -> ListRegister {
    ListRegister { virtual_id: irq as u64, state: ListRegisterState::Pending, vacant: false }
}

/// The write that injects into a GICv2: in group zero, with a maintenance
/// interrupt at the end, after the interface was enabled.
pub open spec fn update_v2(index: int, irq: usize) -> RegisterUpdate {
    RegisterUpdate {
        index: index as usize,
        register: pending_register(irq),
        priority: 0,
        group1: false,
        eoi_maintenance: true,
        enabling: Enabling::BeforeWrite,
    }
}

/// The write that injects into a GICv3: in group one, without a maintenance
/// interrupt. The interface is enabled afterwards unless it is already.
pub open spec fn update_v3(index: int, irq: usize, enabled: bool) -> RegisterUpdate {
    RegisterUpdate {
        index: index as usize,
        register: pending_register(irq),
        priority: 0,
        group1: true,
        eoi_maintenance: false,
        enabling: if enabled {
            Enabling::NotNeeded
        } else {
            Enabling::AfterWrite
        },
    }
}

/// Whether a GICv2 list register holds the interrupt.
pub open spec fn held_v2(register: ListRegister, irq: usize) -> bool {
    register.virtual_id == irq && register.state != ListRegisterState::Invalid
}

/// Whether a GICv3 list register holds the interrupt, pending or active.
pub open spec fn held_v3(register: ListRegister, irq: usize) -> bool {
    !register.vacant && register.virtual_id == irq && (register.state == ListRegisterState::Pending
        || register.state == ListRegisterState::Active)
}

/// Index of the first vacant register from `from` on, or the number of
/// registers.
pub open spec fn first_vacant(registers: Seq<ListRegister>, from: int) -> int
    decreases registers.len() - from,
{
    if from >= registers.len() {
        registers.len() as int
    } else if registers[from].vacant {
        from
    } else {
        first_vacant(registers, from + 1)
    }
}

/// Index of the first register from `from` on whose interrupt is invalid, or
/// the number of registers.
pub open spec fn first_invalid(registers: Seq<ListRegister>, from: int) -> int
    decreases registers.len() - from,
{
    if from >= registers.len() {
        registers.len() as int
    } else if registers[from].state == ListRegisterState::Invalid {
        from
    } else {
        first_invalid(registers, from + 1)
    }
}

/// The injection into a GICv2: nothing if a register holds the interrupt, the
/// first vacant register otherwise.
pub open spec fn injection_v2(registers: Seq<ListRegister>, irq: usize) -> AxResult<Injection> {
    if exists|i: int| 0 <= i < registers.len() && held_v2(#[trigger] registers[i], irq) {
        Ok(Injection::AlreadyHeld)
    } else if first_vacant(registers, 0) < registers.len() {
        Ok(Injection::Write(update_v2(first_vacant(registers, 0), irq)))
    } else {
        Err(AxError::WouldBlock)
    }
}

/// The injection into a GICv3: nothing if a register holds the interrupt, the
/// first vacant register otherwise, and failing that the first one whose
/// interrupt is invalid.
pub open spec fn injection_v3(
    registers: Seq<ListRegister>,
    irq: usize,
    enabled: bool,
) -> AxResult<Injection> {
    if exists|i: int| 0 <= i < registers.len() && held_v3(#[trigger] registers[i], irq) {
        Ok(Injection::AlreadyHeld)
    } else if first_vacant(registers, 0) < registers.len() {
        Ok(Injection::Write(update_v3(first_vacant(registers, 0), irq, enabled)))
    } else if first_invalid(registers, 0) < registers.len() {
        Ok(Injection::Write(update_v3(first_invalid(registers, 0), irq, enabled)))
    } else {
        Err(AxError::WouldBlock)
    }
}

/// The injection of an interrupt through the GIC of the host.
pub open spec fn injection(irq: usize, gic: HostGic) -> AxResult<Injection> {
    if irq >= SPECIAL_INTERRUPT_START {
        Err(AxError::InvalidInput)
    } else {
        match gic {
            HostGic::Missing => Err(AxError::NoSuchDevice),
            HostGic::Busy => Err(AxError::ResourceBusy),
            HostGic::V2WithoutHypervisor => Err(AxError::NoSuchDevice),
            HostGic::V2(registers) => injection_v2(registers@, irq),
            HostGic::V3 { registers, enabled } => injection_v3(registers@, irq, enabled),
            HostGic::Unknown => Err(AxError::NoSuchDevice),
        }
    }
}

fn find_vacant(registers: &Vec<ListRegister>) -> (r: usize)
    ensures
        r == first_vacant(registers@, 0),
        r <= registers@.len(),
{
    let mut i: usize = 0;
    while i < registers.len()
        invariant
            i <= registers@.len(),
            first_vacant(registers@, 0) == first_vacant(registers@, i as int),
        decreases registers@.len() - i,
    {
        if registers[i].vacant {
            return i;
        }
        i = i + 1;
    }
    i
}

fn find_invalid(registers: &Vec<ListRegister>) -> (r: usize)
    ensures
        r == first_invalid(registers@, 0),
        r <= registers@.len(),
{
    let mut i: usize = 0;
    while i < registers.len()
        invariant
            i <= registers@.len(),
            first_invalid(registers@, 0) == first_invalid(registers@, i as int),
        decreases registers@.len() - i,
    {
        if registers[i].state == ListRegisterState::Invalid {
            return i;
        }
        i = i + 1;
    }
    i
}

/// The state that two state bits of a list register stand for.
pub open spec fn state_of(bits: u64) -> ListRegisterState {
    if bits == 0 {
        ListRegisterState::Invalid
    } else if bits == 1 {
        ListRegisterState::Pending
    } else if bits == 2 {
        ListRegisterState::Active
    } else {
        ListRegisterState::PendingAndActive
    }
}

/// The fields of a GICv3 list register.
#[derive(Clone, Copy, Debug, PartialEq, Eq, Structural)]
pub struct ListRegisterFields {
    /// Number of the virtual interrupt.
    pub virtual_id: u64,
    /// State bits.
    pub state: u64,
}

/// Decodes the list registers of a GICv3. `empty` has a bit for each register
/// that the GIC reports as empty.
pub fn decode_list_registers(empty: u64, fields: &Vec<ListRegisterFields>) -> (r: Vec<ListRegister>)
    requires
        fields@.len() <= 64,
    ensures
        r@.len() == fields@.len(),
        forall|i: int|
            0 <= i < r@.len() ==> #[trigger] r@[i] == (ListRegister {
                virtual_id: fields@[i].virtual_id,
                state: state_of(fields@[i].state),
                vacant: (1u64 << i) & empty > 0,
            }),
{
    let mut registers: Vec<ListRegister> = Vec::new();
    let mut i: usize = 0;
    while i < fields.len()
        invariant
            i <= fields@.len() <= 64,
            registers@.len() == i,
            forall|j: int|
                0 <= j < i ==> #[trigger] registers@[j] == (ListRegister {
                    virtual_id: fields@[j].virtual_id,
                    state: state_of(fields@[j].state),
                    vacant: (1u64 << j) & empty > 0,
                }),
        decreases fields@.len() - i,
    {
        let bits: u64 = fields[i].state;
        let state = if bits == 0 {
            ListRegisterState::Invalid
        } else if bits == 1 {
            ListRegisterState::Pending
        } else if bits == 2 {
            ListRegisterState::Active
        } else {
            ListRegisterState::PendingAndActive
        };
        registers.push(
            ListRegister {
                virtual_id: fields[i].virtual_id,
                state,
                vacant: (1u64 << i) & empty > 0,
            },
        );
        i = i + 1;
    }
    registers
}

/// Checks that the number is one of an interrupt that can be injected. This
/// comes before any access to the GIC.
pub fn validate_interrupt(irq: usize) -> (r: AxResult<()>)
    ensures
        r == (if irq < SPECIAL_INTERRUPT_START {
            Ok::<(), AxError>(())
        } else {
            Err(AxError::InvalidInput)
        }),
{
    if irq >= SPECIAL_INTERRUPT_START {
        return Err(AxError::InvalidInput);
    }
    Ok(())
}

fn pending(irq: usize) -> (r: ListRegister)
    ensures
        r == pending_register(irq),
{
    ListRegister { virtual_id: irq as u64, state: ListRegisterState::Pending, vacant: false }
}

fn inject_interrupt_gic_v2(registers: &Vec<ListRegister>, irq: usize) -> (r: AxResult<Injection>)
    ensures
        r == injection_v2(registers@, irq),
{
    let mut i: usize = 0;
    while i < registers.len()
        invariant
            i <= registers@.len(),
            forall|j: int| 0 <= j < i ==> !held_v2(#[trigger] registers@[j], irq),
        decreases registers@.len() - i,
    {
        if registers[i].virtual_id == irq as u64 && registers[i].state != ListRegisterState::Invalid {
            assert(held_v2(registers@[i as int], irq));
            return Ok(Injection::AlreadyHeld);
        }
        i = i + 1;
    }
    let free: usize = find_vacant(registers);
    if free >= registers.len() {
        return Err(AxError::WouldBlock);
    }
    Ok(
        Injection::Write(
            RegisterUpdate {
                index: free,
                register: pending(irq),
                priority: 0,
                group1: false,
                eoi_maintenance: true,
                enabling: Enabling::BeforeWrite,
            },
        ),
    )
}

fn write_gic_v3(index: usize, irq: usize, enabled: bool) -> (r: Injection)
    ensures
        r == Injection::Write(update_v3(index as int, irq, enabled)),
{
    Injection::Write(
        RegisterUpdate {
            index,
            register: pending(irq),
            priority: 0,
            group1: true,
            eoi_maintenance: false,
            enabling: if enabled {
                Enabling::NotNeeded
            } else {
                Enabling::AfterWrite
            },
        },
    )
}

fn inject_interrupt_gic_v3(registers: &Vec<ListRegister>, irq: usize, enabled: bool) -> (r:
    AxResult<Injection>)
    ensures
        r == injection_v3(registers@, irq, enabled),
{
    let mut free: Option<usize> = None;
    let mut i: usize = 0;
    while i < registers.len()
        invariant
            i <= registers@.len(),
            forall|j: int| 0 <= j < i ==> !held_v3(#[trigger] registers@[j], irq),
            match free {
                Some(index) => index == first_vacant(registers@, 0) < registers@.len(),
                None => first_vacant(registers@, 0) == first_vacant(registers@, i as int),
            },
        decreases registers@.len() - i,
    {
        if registers[i].vacant {
            if free.is_none() {
                free = Some(i);
            }
        } else if registers[i].virtual_id == irq as u64 && (registers[i].state
            == ListRegisterState::Pending || registers[i].state == ListRegisterState::Active) {
            assert(held_v3(registers@[i as int], irq));
            return Ok(Injection::AlreadyHeld);
        }
        i = i + 1;
    }
    if let Some(index) = free {
        return Ok(write_gic_v3(index, irq, enabled));
    }
    let invalid: usize = find_invalid(registers);
    if invalid >= registers.len() {
        return Err(AxError::WouldBlock);
    }
    Ok(write_gic_v3(invalid, irq, enabled))
}

/// Decides how to inject a virtual interrupt through the GIC of the host.
pub fn inject_interrupt(irq: usize, gic: &HostGic) -> (r: AxResult<Injection>)
    ensures
        r == injection(irq, *gic),
{
    match validate_interrupt(irq) {
        Ok(()) => {},
        Err(error) => {
            return Err(error);
        },
    }
    match gic {
        HostGic::Missing => Err(AxError::NoSuchDevice),
        HostGic::Busy => Err(AxError::ResourceBusy),
        HostGic::V2WithoutHypervisor => Err(AxError::NoSuchDevice),
        HostGic::V2(registers) => inject_interrupt_gic_v2(registers, irq),
        HostGic::V3 { registers, enabled } => {
            inject_interrupt_gic_v3(registers, irq, *enabled)
        },
        HostGic::Unknown => Err(AxError::NoSuchDevice),
    }
}

/// Returns the number of the host interrupt that was handled, zero if there was
/// none.
pub fn fetch_irq(handled: Option<usize>) -> (r: usize)
    ensures
        r == (match handled {
            Some(irq) => irq,
            None => 0,
        }),
{
    match handled {
        Some(irq) => irq,
        None => 0,
    }
}

/// The registers after one of them was written.
pub open spec fn after_write(registers: Seq<ListRegister>, update: RegisterUpdate) -> Seq<
    ListRegister,
> {
    registers.update(update.index as int, update.register)
}

proof fn lemma_first_vacant(registers: Seq<ListRegister>, from: int)
    requires
        0 <= from <= registers.len(),
    ensures
        from <= first_vacant(registers, from) <= registers.len(),
        first_vacant(registers, from) < registers.len() ==> registers[first_vacant(
            registers,
            from,
        )].vacant,
    decreases registers.len() - from,
{
    if from < registers.len() && !registers[from].vacant {
        lemma_first_vacant(registers, from + 1);
    }
}

proof fn lemma_first_invalid(registers: Seq<ListRegister>, from: int)
    requires
        0 <= from <= registers.len(),
    ensures
        from <= first_invalid(registers, from) <= registers.len(),
        first_invalid(registers, from) < registers.len() ==> registers[first_invalid(
            registers,
            from,
        )].state == ListRegisterState::Invalid,
    decreases registers.len() - from,
{
    if from < registers.len() && registers[from].state != ListRegisterState::Invalid {
        lemma_first_invalid(registers, from + 1);
    }
}

/// An injection writes the interrupt, pending, to one register that is vacant or
/// whose interrupt is invalid, so it overwrites no interrupt.
pub proof fn law_injection_overwrites_nothing(
    registers: Seq<ListRegister>,
    irq: usize,
    enabled: bool,
    update: RegisterUpdate,
)
    requires
        registers.len() <= usize::MAX,
        injection_v2(registers, irq) == Ok::<Injection, AxError>(Injection::Write(update))
            || injection_v3(registers, irq, enabled) == Ok::<Injection, AxError>(
            Injection::Write(update),
        ),
    ensures
        update.index < registers.len(),
        registers[update.index as int].vacant || registers[update.index as int].state
            == ListRegisterState::Invalid,
        update.register == pending_register(irq),
        forall|i: int|
            0 <= i < registers.len() && i != update.index ==> #[trigger] after_write(
                registers,
                update,
            )[i] == registers[i],
{
    lemma_first_vacant(registers, 0);
    lemma_first_invalid(registers, 0);
}

/// Injecting an interrupt that was just injected changes nothing: it never
/// takes a second register while it is pending.
pub proof fn law_injection_is_idempotent(
    registers: Seq<ListRegister>,
    irq: usize,
    enabled: bool,
    update: RegisterUpdate,
    enabled_after: bool,
)
    requires
        registers.len() <= usize::MAX,
        injection_v2(registers, irq) == Ok::<Injection, AxError>(Injection::Write(update))
            || injection_v3(registers, irq, enabled) == Ok::<Injection, AxError>(
            Injection::Write(update),
        ),
    ensures
        injection_v2(after_write(registers, update), irq) == Ok::<Injection, AxError>(
            Injection::AlreadyHeld,
        ),
        injection_v3(after_write(registers, update), irq, enabled_after) == Ok::<
            Injection,
            AxError,
        >(Injection::AlreadyHeld),
{
    law_injection_overwrites_nothing(registers, irq, enabled, update);
    let after = after_write(registers, update);
    assert(held_v2(after[update.index as int], irq));
    assert(held_v3(after[update.index as int], irq));
}

/// After an injection the virtual interrupt interface is enabled: it was, or the
/// injection enables it.
pub proof fn law_injection_leaves_interface_enabled(
    registers: Seq<ListRegister>,
    irq: usize,
    enabled: bool,
    update: RegisterUpdate,
)
    requires
        injection_v2(registers, irq) == Ok::<Injection, AxError>(Injection::Write(update))
            || injection_v3(registers, irq, enabled) == Ok::<Injection, AxError>(
            Injection::Write(update),
        ),
    ensures
        enabled || update.enabling != Enabling::NotNeeded,
{
}

/// While a register is vacant an interrupt can always be injected.
pub proof fn law_vacant_register_accepts(
    registers: Seq<ListRegister>,
    irq: usize,
    enabled: bool,
    i: int,
)
    requires
        0 <= i < registers.len(),
        registers[i].vacant,
    ensures
        injection_v2(registers, irq) is Ok,
        injection_v3(registers, irq, enabled) is Ok,
{
    lemma_vacant_is_found(registers, 0, i);
}

proof fn lemma_vacant_is_found(registers: Seq<ListRegister>, from: int, i: int)
    requires
        0 <= from <= i < registers.len(),
        registers[i].vacant,
    ensures
        first_vacant(registers, from) <= i,
    decreases registers.len() - from,
{
    if from < i && !registers[from].vacant {
        lemma_vacant_is_found(registers, from + 1, i);
    }
}

/// A GICv2 takes an interrupt that none of its registers holds, in whatever valid
/// state, into its lowest vacant register.
pub proof fn law_gicv2_takes_the_lowest_vacant_register(
    registers: Seq<ListRegister>,
    irq: usize,
    n: int,
)
    requires
        registers.len() <= usize::MAX,
        0 <= n <= registers.len(),
        forall|i: int| 0 <= i < n ==> !(#[trigger] registers[i]).vacant,
        n < registers.len() ==> registers[n].vacant,
    ensures
        ({
            let held = exists|i: int|
                0 <= i < registers.len() && (#[trigger] registers[i]).virtual_id == irq as u64
                    && registers[i].state != ListRegisterState::Invalid;
            let r = injection_v2(registers, irq);
            &&& held ==> r == Ok::<Injection, AxError>(Injection::AlreadyHeld)
            &&& !held && n < registers.len() ==> r == Ok::<Injection, AxError>(
                Injection::Write(
                    RegisterUpdate {
                        index: n as usize,
                        register: ListRegister {
                            virtual_id: irq as u64,
                            state: ListRegisterState::Pending,
                            vacant: false,
                        },
                        priority: 0,
                        group1: false,
                        eoi_maintenance: true,
                        enabling: Enabling::BeforeWrite,
                    },
                ),
            )
            &&& !held && n == registers.len() ==> r == Err::<Injection, AxError>(
                AxError::WouldBlock,
            )
        }),
{
    lemma_vacant_at(registers, 0, n);
    if exists|i: int|
        0 <= i < registers.len() && (#[trigger] registers[i]).virtual_id == irq as u64
            && registers[i].state != ListRegisterState::Invalid {
        let i = choose|i: int|
            0 <= i < registers.len() && (#[trigger] registers[i]).virtual_id == irq as u64
                && registers[i].state != ListRegisterState::Invalid;
        assert(held_v2(registers[i], irq));
    }
}

proof fn lemma_vacant_at(registers: Seq<ListRegister>, from: int, n: int)
    requires
        0 <= from <= n <= registers.len(),
        forall|i: int| from <= i < n ==> !(#[trigger] registers[i]).vacant,
        n < registers.len() ==> registers[n].vacant,
    ensures
        first_vacant(registers, from) == n,
    decreases n - from,
{
    if from < n {
        lemma_vacant_at(registers, from + 1, n);
    }
}

proof fn lemma_invalid_at(registers: Seq<ListRegister>, from: int, n: int)
    requires
        0 <= from <= n <= registers.len(),
        forall|i: int|
            from <= i < n ==> (#[trigger] registers[i]).state != ListRegisterState::Invalid,
        n < registers.len() ==> registers[n].state == ListRegisterState::Invalid,
    ensures
        first_invalid(registers, from) == n,
    decreases n - from,
{
    if from < n {
        lemma_invalid_at(registers, from + 1, n);
    }
}

/// A GICv3 takes an interrupt that none of its registers in use holds pending or
/// active, into its lowest vacant register, and failing that into the lowest one
/// whose interrupt is invalid.
pub proof fn law_gicv3_takes_the_lowest_free_register(
    registers: Seq<ListRegister>,
    irq: usize,
    enabled: bool,
    vacant: int,
    invalid: int,
)
    requires
        registers.len() <= usize::MAX,
        0 <= vacant <= registers.len(),
        forall|i: int| 0 <= i < vacant ==> !(#[trigger] registers[i]).vacant,
        vacant < registers.len() ==> registers[vacant].vacant,
        0 <= invalid <= registers.len(),
        forall|i: int|
            0 <= i < invalid ==> (#[trigger] registers[i]).state != ListRegisterState::Invalid,
        invalid < registers.len() ==> registers[invalid].state == ListRegisterState::Invalid,
    ensures
        ({
            let held = exists|i: int|
                0 <= i < registers.len() && (#[trigger] registers[i]).virtual_id == irq as u64
                    && !registers[i].vacant && (registers[i].state == ListRegisterState::Pending
                    || registers[i].state == ListRegisterState::Active);
            let free = if vacant < registers.len() {
                vacant
            } else {
                invalid
            };
            let r = injection_v3(registers, irq, enabled);
            &&& held ==> r == Ok::<Injection, AxError>(Injection::AlreadyHeld)
            &&& !held && free < registers.len() ==> r == Ok::<Injection, AxError>(
                Injection::Write(
                    RegisterUpdate {
                        index: free as usize,
                        register: ListRegister {
                            virtual_id: irq as u64,
                            state: ListRegisterState::Pending,
                            vacant: false,
                        },
                        priority: 0,
                        group1: true,
                        eoi_maintenance: false,
                        enabling: if enabled {
                            Enabling::NotNeeded
                        } else {
                            Enabling::AfterWrite
                        },
                    },
                ),
            )
            &&& !held && free == registers.len() ==> r == Err::<Injection, AxError>(
                AxError::WouldBlock,
            )
        }),
{
    lemma_vacant_at(registers, 0, vacant);
    lemma_invalid_at(registers, 0, invalid);
    if exists|i: int|
        0 <= i < registers.len() && (#[trigger] registers[i]).virtual_id == irq as u64
            && !registers[i].vacant && (registers[i].state == ListRegisterState::Pending
            || registers[i].state == ListRegisterState::Active) {
        let i = choose|i: int|
            0 <= i < registers.len() && (#[trigger] registers[i]).virtual_id == irq as u64
                && !registers[i].vacant && (registers[i].state == ListRegisterState::Pending
                || registers[i].state == ListRegisterState::Active);
        assert(held_v3(registers[i], irq));
    }
}

/// The special interrupt numbers are refused before anything is asked of the
/// GIC, and a GIC that cannot be reached is reported as what it is.
pub proof fn law_injection_needs_a_reachable_gic(irq: usize, gic: HostGic)
    ensures
        irq >= 1020 ==> injection(irq, gic) == Err::<Injection, AxError>(AxError::InvalidInput),
        irq < 1020 && (gic is Missing || gic is V2WithoutHypervisor || gic is Unknown) ==> injection(
            irq,
            gic,
        ) == Err::<Injection, AxError>(AxError::NoSuchDevice),
        irq < 1020 && gic is Busy ==> injection(irq, gic) == Err::<Injection, AxError>(
            AxError::ResourceBusy,
        ),
        irq < 1020 && gic is V2 ==> injection(irq, gic) == injection_v2(gic->V2_0@, irq),
        irq < 1020 && gic is V3 ==> injection(irq, gic) == injection_v3(
            gic->registers@,
            irq,
            gic->enabled,
        ),
{
}

/// The two state bits of a list register: the lower one says pending, the upper
/// one active.
pub proof fn law_state_bits(bits: u64)
    requires
        bits < 4,
    ensures
        bits & 1 == 0 && bits & 2 == 0 <==> state_of(bits) == ListRegisterState::Invalid,
        bits & 1 != 0 && bits & 2 == 0 <==> state_of(bits) == ListRegisterState::Pending,
        bits & 1 == 0 && bits & 2 != 0 <==> state_of(bits) == ListRegisterState::Active,
        bits & 1 != 0 && bits & 2 != 0 <==> state_of(bits) == ListRegisterState::PendingAndActive,
{
    assert(0u64 & 1 == 0 && 0u64 & 2 == 0 && 1u64 & 1 != 0 && 1u64 & 2 == 0 && 2u64 & 1 == 0 && 2u64
        & 2 != 0 && 3u64 & 1 != 0 && 3u64 & 2 != 0) by (bit_vector);
}

} // verus!
