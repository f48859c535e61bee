//! APIC programming: the legacy-PIC shutdown sequence, local-APIC enable
//! decisions, IO APIC redirection entries, the periodic timer programming,
//! and the tick counter the timer interrupt drives.
//!
//! Every MMIO or port access is expressed as the exact `(register, value)`
//! writes; the surrounding kernel plays them onto the hardware with
//! volatile stores.

use vstd::prelude::*;

verus! {

/// Physical base of the local APIC's MMIO page.
pub const APIC_BASE: u64 = 0xfee0_0000;

/// Physical base of the IO APIC's MMIO page.
pub const IOAPIC_BASE: u64 = 0xfec0_0000;

/// Timer interrupt vector.
pub const TIMER_VECTOR: u8 = 32;

/// Divide-configuration value: divide by 16.
pub const TIMER_DIVIDE_CONFIG: u32 = 0x3;

/// Initial count of the periodic timer.
pub const TIMER_INITIAL_COUNT: u32 = 100_000;

/// The local APIC, addressed at a virtual base once the MMIO page is
/// mapped through the HHDM.
pub struct LocalApic {
    pub base: u64,
}

impl LocalApic {
    /// A local APIC at its physical base, before any remapping.
    pub fn new() -> (a: LocalApic)
        ensures
            a.base == APIC_BASE,
    {
        LocalApic { base: APIC_BASE }
    }

    /// Point the driver at the virtual base of the mapped MMIO page.
    pub fn set_base(&mut self, addr: u64)
        ensures
            final(self).base == addr,
    {
        self.base = addr;
    }

    /// Address of a local-APIC register.
    pub fn lapic_reg(&self, offset: u32) -> (r: u64)
        requires
            self.base + offset <= u64::MAX,
        ensures
            r == self.base + offset,
    {
        self.base + (offset as u64)
    }

    /// The write acknowledging the current interrupt: zero into the EOI
    /// register.
    pub fn send_eoi(&self) -> (w: (u32, u32))
        ensures
            w == (0xb0u32, 0u32),
    {
        (0xb0, 0)
    }

    /// The three writes that arm the periodic timer: divide configuration,
    /// LVT timer with the periodic bit, and the initial count that starts
    /// it.
    pub fn set_timer(&self, vector: u8, divide: u32, initial_count: u32) -> (w: Vec<(u32, u32)>)
        ensures
            w@.len() == 3,
            w@[0] == (0x3e0u32, divide),
            w@[1] == (0x320u32, (vector as u32) | 0x20000u32),
            w@[2] == (0x380u32, initial_count),
    {
        let mut w: Vec<(u32, u32)> = Vec::new();
        w.push((0x3e0, divide));
        w.push((0x320, (vector as u32) | 0x20000));
        w.push((0x380, initial_count));
        w
    }
}

/// The IO APIC, addressed at a virtual base once mapped.
pub struct IoApic {
    pub base: u64,
}

impl IoApic {
    pub fn new() -> (a: IoApic)
        ensures
            a.base == IOAPIC_BASE,
    {
        IoApic { base: IOAPIC_BASE }
    }

    /// Point the driver at the virtual base of the mapped MMIO page.
    pub fn set_base(&mut self, addr: u64)
        ensures
            final(self).base == addr,
    {
        self.base = addr;
    }

    /// Address of an IO APIC register window.
    pub fn ioapic_reg(&self, offset: u32) -> (r: u64)
        requires
            self.base + offset <= u64::MAX,
        ensures
            r == self.base + offset,
    {
        self.base + (offset as u64)
    }
}

/// The two redirection-table writes that route one legacy IRQ to a vector:
/// the low entry carries the vector (destination BSP, physical delivery,
/// unmasked), the high entry is zero.
pub fn map_irq(irq: u8, vector: u8) -> (w: Vec<(u32, u32)>)
    ensures
        w@.len() == 2,
        w@[0] == (((0x10 + (irq as u32) * 2) as u32), vector as u32),
        w@[1] == (((0x10 + (irq as u32) * 2 + 1) as u32), 0u32),
{
    let reg: u32 = 0x10 + (irq as u32) * 2;
    let mut w: Vec<(u32, u32)> = Vec::new();
    w.push((reg, vector as u32));
    w.push((reg + 1, 0));
    w
}

/// Route the timer (IRQ 0, vector 32) and the keyboard (IRQ 1, vector 33).
pub fn init_ioapic() -> (w: Vec<(u32, u32)>)
    ensures
        w@.len() == 4,
        w@[0] == (0x12u32, 33u32),
        w@[1] == (0x13u32, 0u32),
        w@[2] == (0x10u32, 32u32),
        w@[3] == (0x11u32, 0u32),
{
    let mut w = map_irq(1, 33);
    let mut second = map_irq(0, 32);
    let a = second.remove(0);
    let b = second.remove(0);
    w.push(a);
    w.push(b);
    w
}

/// The port-write sequence that remaps the legacy 8259 PIC pair to vectors
/// 0x20/0x28 and masks every IRQ line: initialization on both command
/// ports, the vector bases, the cascade wiring, 8086 mode, then all-ones
/// masks.
pub fn disable_pic() -> (w: Vec<(u16, u8)>)
    ensures
        w@.len() == 10,
        w@[0] == (0x20u16, 0x11u8),
        w@[1] == (0xa0u16, 0x11u8),
        w@[2] == (0x21u16, 0x20u8),
        w@[3] == (0xa1u16, 0x28u8),
        w@[4] == (0x21u16, 0x04u8),
        w@[5] == (0xa1u16, 0x02u8),
        w@[6] == (0x21u16, 0x01u8),
        w@[7] == (0xa1u16, 0x01u8),
        w@[8] == (0x21u16, 0xffu8),
        w@[9] == (0xa1u16, 0xffu8),
{
    let mut w: Vec<(u16, u8)> = Vec::new();
    w.push((0x20, 0x11));
    w.push((0xa0, 0x11));
    w.push((0x21, 0x20));
    w.push((0xa1, 0x28));
    w.push((0x21, 0x04));
    w.push((0xa1, 0x02));
    w.push((0x21, 0x01));
    w.push((0xa1, 0x01));
    w.push((0x21, 0xff));
    w.push((0xa1, 0xff));
    w
}

/// Decide the IA32_APIC_BASE update: when the global-enable bit (bit 11)
/// is clear, write the value back with it set; an already-enabled APIC
/// needs no write.
pub fn enable_apic_base(apic_base_msr: u64) -> (r: Option<u64>)
    ensures
        apic_base_msr & 0x800 == 0 ==> r == Some(apic_base_msr | 0x800),
        apic_base_msr & 0x800 != 0 ==> r.is_none(),
{
    if apic_base_msr & 0x800 == 0 {
        Some(apic_base_msr | 0x800)
    } else {
        None
    }
}

/// The spurious-interrupt-vector value that software-enables the local
/// APIC: the read value with bit 8 set.
pub fn enable_svr(svr: u32) -> (r: u32)
    ensures
        r == svr | 0x100,
{
    svr | 0x100
}

/// The tick counter the timer interrupt drives. Reads outside the
/// interrupt see a plain 64-bit load.
pub struct TickCounter {
    pub count: u64,
}

impl TickCounter {
    pub fn new() -> (t: TickCounter)
        ensures
            t.count == 0,
    {
        TickCounter { count: 0 }
    }

    /// One timer interrupt: the counter strictly increases. The counter
    /// would take centuries to saturate; the bound keeps the increment
    /// exact.
    pub fn on_timer_interrupt(&mut self)
        requires
            old(self).count < u64::MAX,
        ensures
            final(self).count == old(self).count + 1,
            final(self).count > old(self).count,
    {
        self.count = self.count + 1;
    }

    /// Read the tick count.
    pub fn ticks(&self) -> (t: u64)
        ensures
            t == self.count,
    {
        self.count
    }
}

} // verus!
