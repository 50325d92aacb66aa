//! Register values of the LoongArch PCH interrupt controller.

use vstd::prelude::*;

verus! {

/// Interrupts per register.
pub const PIC_COUNT_PER_REG: usize = 32;

/// Number of registers of each kind.
pub const PIC_REG_COUNT: usize = 2;

/// Number of interrupts.
pub const PIC_IRQ_COUNT: usize = 64;

/// Offset of the mask registers.
pub const PCH_PIC_MASK: usize = 0x20;

/// Offset of the message enable registers.
pub const PCH_PIC_HTMSI_EN: usize = 0x40;

/// Offset of the edge trigger registers.
pub const PCH_PIC_EDGE: usize = 0x60;

/// Offset of the clear registers.
pub const PCH_PIC_CLR: usize = 0x80;

/// Offset of the route bytes.
pub const PCH_INT_ROUTE: usize = 0x100;

/// Offset of the polarity registers.
pub const PCH_PIC_POL: usize = 0x3e0;

/// Offset of the vector bytes.
pub const PCH_INT_HTVEC: usize = 0x200;

/// A write to the controller, at an offset from its base.
#[derive(Clone, Copy, Debug, PartialEq, Eq, Structural)]
pub enum RegisterWrite {
    /// Writes a 32-bit register.
    Word {
        /// Offset of the register.
        offset: usize,
        /// Value to write.
        value: u32,
    },
    /// Writes a byte.
    Byte {
        /// Offset of the byte.
        offset: usize,
        /// Value to write.
        value: u8,
    },
}

/// The writes that set up the registers below `n`: all interrupts are masked
/// and cleared, triggered by a high level, and sent as messages.
pub open spec fn register_setup(n: int) -> Seq<RegisterWrite>
    decreases n,
{
    if n <= 0 {
        Seq::empty()
    } else {
        let at = (n - 1) * 4;
        register_setup(n - 1) + seq![
            RegisterWrite::Word { offset: (PCH_PIC_MASK + at) as usize, value: u32::MAX },
            RegisterWrite::Word { offset: (PCH_PIC_CLR + at) as usize, value: u32::MAX },
            RegisterWrite::Word { offset: (PCH_PIC_EDGE + at) as usize, value: 0 },
            RegisterWrite::Word { offset: (PCH_PIC_POL + at) as usize, value: 0 },
            RegisterWrite::Word { offset: (PCH_PIC_HTMSI_EN + at) as usize, value: u32::MAX },
        ]
    }
}

/// The writes that route the interrupts below `n`: each to the first output,
/// with its number as vector.
pub open spec fn route_setup(n: int) -> Seq<RegisterWrite>
    decreases n,
{
    if n <= 0 {
        Seq::empty()
    } else {
        route_setup(n - 1) + seq![
            RegisterWrite::Byte { offset: (PCH_INT_ROUTE + (n - 1)) as usize, value: 1 },
            RegisterWrite::Byte { offset: (PCH_INT_HTVEC + (n - 1)) as usize, value: (n - 1) as u8 },
        ]
    }
}

/// Returns the writes that initialize the controller, in order.
pub fn init() -> (r: Vec<RegisterWrite>)
    ensures
        r@ == register_setup(PIC_REG_COUNT as int) + route_setup(PIC_IRQ_COUNT as int),
        forall|irq: int, before: u8|
            0 <= irq < PIC_IRQ_COUNT ==> #[trigger] sets_up(r@, irq, before),
{
    let mut writes: Vec<RegisterWrite> = Vec::new();
    let mut i: usize = 0;
    while i < PIC_REG_COUNT
        invariant
            i <= PIC_REG_COUNT,
            writes@ == register_setup(i as int),
        decreases PIC_REG_COUNT - i,
    {
        let at: usize = i * 4;
        let ghost before = writes@;
        writes.push(RegisterWrite::Word { offset: PCH_PIC_MASK + at, value: u32::MAX });
        writes.push(RegisterWrite::Word { offset: PCH_PIC_CLR + at, value: u32::MAX });
        writes.push(RegisterWrite::Word { offset: PCH_PIC_EDGE + at, value: 0 });
        writes.push(RegisterWrite::Word { offset: PCH_PIC_POL + at, value: 0 });
        writes.push(RegisterWrite::Word { offset: PCH_PIC_HTMSI_EN + at, value: u32::MAX });
        proof {
            assert(writes@ =~= register_setup(i + 1));
        }
        i = i + 1;
    }
    let mut irq: usize = 0;
    proof {
        assert(register_setup(PIC_REG_COUNT as int) + route_setup(0) =~= writes@);
    }
    while irq < PIC_IRQ_COUNT
        invariant
            irq <= PIC_IRQ_COUNT,
            writes@ == register_setup(PIC_REG_COUNT as int) + route_setup(irq as int),
        decreases PIC_IRQ_COUNT - irq,
    {
        writes.push(RegisterWrite::Byte { offset: PCH_INT_ROUTE + irq, value: 1 });
        writes.push(RegisterWrite::Byte { offset: PCH_INT_HTVEC + irq, value: irq as u8 });
        proof {
            assert(writes@ =~= register_setup(PIC_REG_COUNT as int) + route_setup(irq + 1));
        }
        irq = irq + 1;
    }
    proof {
        assert forall|irq: int, before: u8| 0 <= irq < PIC_IRQ_COUNT implies #[trigger] sets_up(
            writes@,
            irq,
            before,
        ) by {
            law_initialization_sets_up_every_interrupt(irq, before);
        }
    }
    writes
}

/// The offset of an interrupt's register among those of its kind.
pub open spec fn register_offset(irq: usize) -> usize {
    (irq / 32 * 4) as usize
}

/// The bit of an interrupt in its register.
pub open spec fn register_bit(irq: usize) -> u32 {
    1u32 << (irq % 32)
}

/// Returns the register offset and the bit of an interrupt.
pub fn split_bit(irq: usize) -> (r: (usize, u32))
    ensures
        r == (register_offset(irq), register_bit(irq)),
{
    (irq / PIC_COUNT_PER_REG * 4, 1u32 << (irq % PIC_COUNT_PER_REG))
}

/// Returns the offset of the mask register of an interrupt.
pub fn mask_register(irq: usize) -> (r: usize)
    ensures
        r == PCH_PIC_MASK + register_offset(irq),
{
    let (offset, _bit): (usize, u32) = split_bit(irq);
    PCH_PIC_MASK + offset
}

/// Returns the writes that enable an interrupt whose mask register holds
/// `mask`: it is unmasked, and its vector is set to its number.
pub fn enable_irq(irq: usize, mask: u32) -> (r: (RegisterWrite, RegisterWrite))
    requires
        PCH_INT_HTVEC + irq <= usize::MAX,
    ensures
        r.0 == (RegisterWrite::Word {
            offset: (PCH_PIC_MASK + register_offset(irq)) as usize,
            value: mask & !register_bit(irq),
        }),
        r.1 == (RegisterWrite::Byte {
            offset: (PCH_INT_HTVEC + irq) as usize,
            value: irq as u8,
        }),
{
    let (offset, bit): (usize, u32) = split_bit(irq);
    (
        RegisterWrite::Word { offset: PCH_PIC_MASK + offset, value: mask & !bit },
        RegisterWrite::Byte { offset: PCH_INT_HTVEC + irq, value: irq as u8 },
    )
}

/// Returns the write that disables an interrupt whose mask register holds
/// `mask`.
pub fn disable_irq(irq: usize, mask: u32) -> (r: RegisterWrite)
    ensures
        r == (RegisterWrite::Word {
            offset: (PCH_PIC_MASK + register_offset(irq)) as usize,
            value: mask | register_bit(irq),
        }),
{
    let (offset, bit): (usize, u32) = split_bit(irq);
    RegisterWrite::Word { offset: PCH_PIC_MASK + offset, value: mask | bit }
}

/// Whether the mask masks the interrupt.
pub open spec fn masks(mask: u32, irq: usize) -> bool {
    mask & register_bit(irq) != 0
}

/// Different interrupts do not share a bit.
pub proof fn law_interrupts_have_their_own_bits(a: usize, b: usize)
    requires
        a != b,
    ensures
        register_offset(a) != register_offset(b) || register_bit(a) & register_bit(b) == 0,
{
    if register_offset(a) == register_offset(b) {
        let x = (a % 32) as u32;
        let y = (b % 32) as u32;
        assert(x != y);
        assert((1u32 << x) & (1u32 << y) == 0) by (bit_vector)
            requires
                x < 32,
                y < 32,
                x != y,
        ;
    }
}

/// Enabling unmasks the interrupt, disabling masks it, and either leaves the
/// others of the register alone.
pub proof fn law_masking_touches_one_interrupt(mask: u32, irq: usize, other: usize)
    requires
        other != irq,
        register_offset(other) == register_offset(irq),
    ensures
        !masks(mask & !register_bit(irq), irq),
        masks(mask | register_bit(irq), irq),
        masks(mask & !register_bit(irq), other) == masks(mask, other),
        masks(mask | register_bit(irq), other) == masks(mask, other),
{
    let x = (irq % 32) as u32;
    let y = (other % 32) as u32;
    assert(x != y);
    assert({
        let bit = 1u32 << x;
        let other_bit = 1u32 << y;
        &&& mask & !bit & bit == 0
        &&& (mask | bit) & bit != 0
        &&& (mask & !bit) & other_bit == mask & other_bit
        &&& (mask | bit) & other_bit == mask & other_bit
    }) by (bit_vector)
        requires
            x < 32,
            y < 32,
            x != y,
    ;
}

/// Enabling an interrupt undoes disabling it, and the other way round.
pub proof fn law_enable_undoes_disable(mask: u32, irq: usize)
    ensures
        !masks(mask, irq) ==> (mask | register_bit(irq)) & !register_bit(irq) == mask,
        masks(mask, irq) ==> (mask & !register_bit(irq)) | register_bit(irq) == mask,
{
    let x = (irq % 32) as u32;
    assert({
        let bit = 1u32 << x;
        &&& mask & bit == 0 ==> (mask | bit) & !bit == mask
        &&& mask & bit != 0 ==> (mask & !bit) | bit == mask
    }) by (bit_vector)
        requires
            x < 32,
    ;
}

/// The byte at an offset after a write: a word covers four bytes, the lowest one
/// first.
pub open spec fn byte_after(write: RegisterWrite, before: u8, at: int) -> u8 {
    match write {
        RegisterWrite::Word { offset, value } => if offset <= at < offset + 4 {
            ((value >> ((8 * (at - offset)) as u32)) & 0xff) as u8
        } else {
            before
        },
        RegisterWrite::Byte { offset, value } => if offset == at {
            value
        } else {
            before
        },
    }
}

/// The byte at an offset after the writes, made in order.
pub open spec fn byte_after_all(writes: Seq<RegisterWrite>, before: u8, at: int) -> u8
    decreases writes.len(),
{
    if writes.len() == 0 {
        before
    } else {
        byte_after(writes.last(), byte_after_all(writes.drop_last(), before, at), at)
    }
}

/// Whether the writes, made in order to registers whose bytes held `before`, set
/// an interrupt up: its mask, clear and message enable bits are set, its edge and
/// polarity bits are not, its route is the first output and its vector its
/// number.
pub open spec fn sets_up(writes: Seq<RegisterWrite>, irq: int, before: u8) -> bool {
    let bit = 1u8 << ((irq % 8) as u8);
    &&& byte_after_all(writes, before, PCH_PIC_MASK + irq / 8) & bit != 0
    &&& byte_after_all(writes, before, PCH_PIC_CLR + irq / 8) & bit != 0
    &&& byte_after_all(writes, before, PCH_PIC_HTMSI_EN + irq / 8) & bit != 0
    &&& byte_after_all(writes, before, PCH_PIC_EDGE + irq / 8) & bit == 0
    &&& byte_after_all(writes, before, PCH_PIC_POL + irq / 8) & bit == 0
    &&& byte_after_all(writes, before, PCH_INT_ROUTE + irq) == 1
    &&& byte_after_all(writes, before, PCH_INT_HTVEC + irq) == irq
}

proof fn lemma_joined_writes(
    a: Seq<RegisterWrite>,
    b: Seq<RegisterWrite>,
    before: u8,
    at: int,
)
    ensures
        byte_after_all(a + b, before, at) == byte_after_all(b, byte_after_all(a, before, at), at),
    decreases b.len(),
{
    if b.len() == 0 {
        assert(a + b =~= a);
    } else {
        assert((a + b).drop_last() =~= a + b.drop_last());
        lemma_joined_writes(a, b.drop_last(), before, at);
    }
}

proof fn lemma_two_writes(a: RegisterWrite, b: RegisterWrite, before: u8, at: int)
    ensures
        byte_after_all(seq![a, b], before, at) == byte_after(b, byte_after(a, before, at), at),
{
    let both = seq![a, b];
    assert(both.drop_last() =~= seq![a]);
    assert(seq![a].drop_last() =~= Seq::<RegisterWrite>::empty());
    reveal_with_fuel(byte_after_all, 3);
}

proof fn lemma_five_writes(
    a: RegisterWrite,
    b: RegisterWrite,
    c: RegisterWrite,
    d: RegisterWrite,
    e: RegisterWrite,
    before: u8,
    at: int,
)
    ensures
        byte_after_all(seq![a, b, c, d, e], before, at) == byte_after(
            e,
            byte_after(d, byte_after(c, byte_after(b, byte_after(a, before, at), at), at), at),
            at,
        ),
{
    lemma_joined_writes(seq![a, b], seq![c, d], before, at);
    lemma_two_writes(a, b, before, at);
    lemma_two_writes(c, d, byte_after_all(seq![a, b], before, at), at);
    let all = seq![a, b, c, d, e];
    assert(all.drop_last() =~= seq![a, b] + seq![c, d]);
}

proof fn lemma_routes(n: int, before: u8, at: int)
    requires
        0 <= n <= 64,
    ensures
        byte_after_all(route_setup(n), before, at) == (if 0x100 <= at < 0x100 + n {
            1u8
        } else if 0x200 <= at < 0x200 + n {
            (at - 0x200) as u8
        } else {
            before
        }),
    decreases n,
{
    if n > 0 {
        lemma_routes(n - 1, before, at);
        let a = RegisterWrite::Byte { offset: (PCH_INT_ROUTE + (n - 1)) as usize, value: 1 };
        let b = RegisterWrite::Byte {
            offset: (PCH_INT_HTVEC + (n - 1)) as usize,
            value: (n - 1) as u8,
        };
        lemma_joined_writes(route_setup(n - 1), seq![a, b], before, at);
        lemma_two_writes(a, b, byte_after_all(route_setup(n - 1), before, at), at);
    }
}

proof fn lemma_registers(n: int, before: u8, at: int)
    requires
        0 <= n <= 2,
    ensures
        byte_after_all(register_setup(n), before, at) == (if 0x20 <= at < 0x20 + 4 * n || 0x80 <= at
            < 0x80 + 4 * n || 0x40 <= at < 0x40 + 4 * n {
            0xffu8
        } else if 0x60 <= at < 0x60 + 4 * n || 0x3e0 <= at < 0x3e0 + 4 * n {
            0u8
        } else {
            before
        }),
    decreases n,
{
    if n > 0 {
        lemma_registers(n - 1, before, at);
        let k: int = (n - 1) * 4;
        let a = RegisterWrite::Word { offset: (PCH_PIC_MASK + k) as usize, value: u32::MAX };
        let b = RegisterWrite::Word { offset: (PCH_PIC_CLR + k) as usize, value: u32::MAX };
        let c = RegisterWrite::Word { offset: (PCH_PIC_EDGE + k) as usize, value: 0 };
        let d = RegisterWrite::Word { offset: (PCH_PIC_POL + k) as usize, value: 0 };
        let e = RegisterWrite::Word { offset: (PCH_PIC_HTMSI_EN + k) as usize, value: u32::MAX };
        lemma_joined_writes(register_setup(n - 1), seq![a, b, c, d, e], before, at);
        lemma_five_writes(
            a,
            b,
            c,
            d,
            e,
            byte_after_all(register_setup(n - 1), before, at),
            at,
        );
        assert forall|shift: u32| shift < 32 implies #[trigger] (0u32 >> shift) & 0xff == 0 by {
            assert((0u32 >> shift) & 0xff == 0) by (bit_vector);
        }
        assert((0xffff_ffffu32 >> 0u32) & 0xff == 0xff) by (bit_vector);
        assert((0xffff_ffffu32 >> 8u32) & 0xff == 0xff) by (bit_vector);
        assert((0xffff_ffffu32 >> 16u32) & 0xff == 0xff) by (bit_vector);
        assert((0xffff_ffffu32 >> 24u32) & 0xff == 0xff) by (bit_vector);
    }
}

/// Initialization sets up every interrupt, whatever the registers held before:
/// it is masked, cleared, triggered by a high level and sent as a message, its
/// route is the first output, and its vector is its number. An interrupt's bit
/// stands in the byte of its number divided by eight, from the start of the
/// registers of a kind.
pub proof fn law_initialization_sets_up_every_interrupt(irq: int, before: u8)
    requires
        0 <= irq < 64,
    ensures
        ({
            let writes = register_setup(PIC_REG_COUNT as int) + route_setup(PIC_IRQ_COUNT as int);
            let bit = 1u8 << ((irq % 8) as u8);
            &&& sets_up(writes, irq, before)
            &&& byte_after_all(writes, before, 0x20 + irq / 8) & bit != 0
            &&& byte_after_all(writes, before, 0x80 + irq / 8) & bit != 0
            &&& byte_after_all(writes, before, 0x40 + irq / 8) & bit != 0
            &&& byte_after_all(writes, before, 0x60 + irq / 8) & bit == 0
            &&& byte_after_all(writes, before, 0x3e0 + irq / 8) & bit == 0
            &&& byte_after_all(writes, before, 0x100 + irq) == 1
            &&& byte_after_all(writes, before, 0x200 + irq) == irq
        }),
{
    let registers = register_setup(PIC_REG_COUNT as int);
    let routes = route_setup(PIC_IRQ_COUNT as int);
    let shift = (irq % 8) as u8;
    assert(0xffu8 & (1u8 << shift) != 0) by (bit_vector)
        requires
            shift < 8,
    ;
    assert(0u8 & (1u8 << shift) == 0) by (bit_vector);
    lemma_initialized(registers, routes, before, 0x20 + irq / 8);
    lemma_initialized(registers, routes, before, 0x80 + irq / 8);
    lemma_initialized(registers, routes, before, 0x40 + irq / 8);
    lemma_initialized(registers, routes, before, 0x60 + irq / 8);
    lemma_initialized(registers, routes, before, 0x3e0 + irq / 8);
    lemma_initialized(registers, routes, before, 0x100 + irq);
    lemma_initialized(registers, routes, before, 0x200 + irq);
}

proof fn lemma_initialized(
    registers: Seq<RegisterWrite>,
    routes: Seq<RegisterWrite>,
    before: u8,
    at: int,
)
    requires
        registers == register_setup(PIC_REG_COUNT as int),
        routes == route_setup(PIC_IRQ_COUNT as int),
    ensures
        byte_after_all(registers + routes, before, at) == (if 0x100 <= at < 0x140 {
            1u8
        } else if 0x200 <= at < 0x240 {
            (at - 0x200) as u8
        } else if 0x20 <= at < 0x28 || 0x80 <= at < 0x88 || 0x40 <= at < 0x48 {
            0xffu8
        } else if 0x60 <= at < 0x68 || 0x3e0 <= at < 0x3e8 {
            0u8
        } else {
            before
        }),
{
    lemma_joined_writes(registers, routes, before, at);
    lemma_registers(PIC_REG_COUNT as int, before, at);
    lemma_routes(PIC_IRQ_COUNT as int, byte_after_all(registers, before, at), at);
}

/// Initialization writes nothing but the registers that it sets up.
pub proof fn law_initialization_leaves_other_registers(at: int, before: u8)
    requires
        !(0x20 <= at < 0x28),
        !(0x40 <= at < 0x48),
        !(0x60 <= at < 0x68),
        !(0x80 <= at < 0x88),
        !(0x100 <= at < 0x140),
        !(0x200 <= at < 0x240),
        !(0x3e0 <= at < 0x3e8),
    ensures
        byte_after_all(
            register_setup(PIC_REG_COUNT as int) + route_setup(PIC_IRQ_COUNT as int),
            before,
            at,
        ) == before,
{
    lemma_initialized(
        register_setup(PIC_REG_COUNT as int),
        route_setup(PIC_IRQ_COUNT as int),
        before,
        at,
    );
}

/// Enabling an interrupt, given what its mask register holds, unmasks it and
/// gives it its number as vector; disabling masks it. In the bytes of the
/// controller, every other interrupt stays masked or unmasked, and no other
/// register is written.
pub proof fn law_masking_changes_one_bit(irq: usize, mask: u32, at: int, before: u8)
    requires
        irq < 64,
        0x20 + irq / 32 * 4 <= at < 0x24 + irq / 32 * 4 ==> before == ((mask >> ((8 * (at - 0x20
            - irq / 32 * 4)) as u32)) & 0xff) as u8,
    ensures
        ({
            let offset = PCH_PIC_MASK + register_offset(irq);
            let clear = RegisterWrite::Word {
                offset: offset as usize,
                value: mask & !register_bit(irq),
            };
            let set = RegisterWrite::Word {
                offset: offset as usize,
                value: mask | register_bit(irq),
            };
            let bit = 1u8 << ((irq % 8) as u8);
            if at == 0x20 + irq / 8 {
                &&& byte_after(clear, before, at) == before & !bit
                &&& byte_after(set, before, at) == before | bit
            } else {
                &&& byte_after(clear, before, at) == before
                &&& byte_after(set, before, at) == before
            }
        }),
{
    let k = irq / 32 * 4;
    if 0x20 + k <= at < 0x24 + k {
        let shift = (8 * (at - 0x20 - k)) as u32;
        let b = (irq % 32) as u32;
        let own = (irq % 8) as u8;
        assert(shift == 0 || shift == 8 || shift == 16 || shift == 24);
        assert({
            let bit = 1u32 << b;
            let cleared = ((mask & !bit) >> shift) & 0xff;
            let filled = ((mask | bit) >> shift) & 0xff;
            let byte = (mask >> shift) & 0xff;
            if shift <= b && b < shift + 8 {
                &&& cleared as u8 == (byte as u8) & !(1u8 << own)
                &&& filled as u8 == (byte as u8) | (1u8 << own)
            } else {
                &&& cleared == byte
                &&& filled == byte
            }
        }) by (bit_vector)
            requires
                b < 32,
                own == b % 8,
                shift == 0 || shift == 8 || shift == 16 || shift == 24,
        ;
    }
}

} // verus!
