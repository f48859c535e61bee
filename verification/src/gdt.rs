//! GDT, TSS and per-CPU layout: the six selectors in the fixed order the
//! SYSRET hardware contract demands, the TSS stack slots, and the per-CPU
//! area the syscall trampoline indexes through GS.
//!
//! Loading the tables and segment registers is privileged; the surrounding
//! kernel performs those loads with the selector values computed here.

use vstd::prelude::*;

use crate::arch;

verus! {

/// The user-data placeholder selector (GDT index 3, RPL 3): the base that
/// SYSCALL's STAR register is programmed with.
pub const STAR_USER_BASE: u16 = 0x1b;

/// The user-visible selectors of the GDT.
#[derive(Clone, Copy, PartialEq, Eq, Structural, Debug)]
pub struct Selectors {
    pub kernel_code: u16,
    pub kernel_data: u16,
    pub user_data: u16,
    pub user_code: u16,
    pub tss_selector: u16,
}

/// The selector values `init` produces: kernel code and data at indices 1
/// and 2 with RPL 0, user data and code at indices 4 and 5 with RPL 3 (the
/// placeholder sits at index 3), and the TSS at index 6.
pub open spec fn spec_init_selectors() -> Selectors {
    Selectors {
        kernel_code: 0x08,
        kernel_data: 0x10,
        user_data: 0x23,
        user_code: 0x2b,
        tss_selector: 0x30,
    }
}

/// The task-state segment: the ring-0 stack pointer loaded on a
/// privilege-raising interrupt, and the dedicated double-fault stack.
#[derive(Clone, Copy, PartialEq, Eq, Structural, Debug)]
pub struct Tss {
    pub rsp0: u64,
    pub ist_double_fault: u64,
}

/// The GDT as the kernel sees it after `init`: its selectors and the TSS
/// they point at.
pub struct Gdt {
    pub selectors: Selectors,
    pub tss: Tss,
}

/// Build the GDT layout: selectors in the fixed order dictated by SYSRET,
/// computed through the x86_64 crate, and a TSS whose double-fault IST slot
/// points at the given stack top.
pub fn init(double_fault_stack_top: u64) -> (g: Gdt)
    ensures
        g.selectors == spec_init_selectors(),
        g.tss.rsp0 == 0,
        g.tss.ist_double_fault == double_fault_stack_top,
{
    let kernel_code = arch::selector_value(1, 0);
    let kernel_data = arch::selector_value(2, 0);
    let user_base = arch::selector_value(3, 3);
    let user_data = arch::selector_value(4, 3);
    let user_code = arch::selector_value(5, 3);
    let tss_selector = arch::selector_value(6, 0);
    proof {
        arch::lemma_selector_arith(1, 0);
        arch::lemma_selector_arith(2, 0);
        arch::lemma_selector_arith(3, 3);
        arch::lemma_selector_arith(4, 3);
        arch::lemma_selector_arith(5, 3);
        arch::lemma_selector_arith(6, 0);
    }
    assert(user_base == STAR_USER_BASE);
    Gdt {
        selectors: Selectors { kernel_code, kernel_data, user_data, user_code, tss_selector },
        tss: Tss { rsp0: 0, ist_double_fault: double_fault_stack_top },
    }
}

impl Gdt {
    /// The selectors of this GDT.
    pub fn descriptors(&self) -> (s: &Selectors)
        ensures
            s == self.selectors,
    {
        &self.selectors
    }

    /// Update the TSS ring-0 stack pointer, as done on every context change
    /// into user mode.
    pub fn set_kernel_stack(&mut self, stack_top: u64)
        ensures
            final(self).selectors == old(self).selectors,
            final(self).tss.rsp0 == stack_top,
            final(self).tss.ist_double_fault == old(self).tss.ist_double_fault,
    {
        self.tss.rsp0 = stack_top;
    }
}

/// The per-CPU area reachable through GS after `swapgs`: a scratch slot,
/// the kernel stack the trampoline switches to, and where it parks the user
/// stack pointer.
#[derive(Clone, Copy, PartialEq, Eq, Structural, Debug)]
pub struct PerCpuData {
    pub scratch: u64,
    pub kernel_stack: u64,
    pub user_stack_save: u64,
}

impl PerCpuData {
    /// A zeroed per-CPU area.
    pub fn new() -> (p: PerCpuData)
        ensures
            p.scratch == 0 && p.kernel_stack == 0 && p.user_stack_save == 0,
    {
        PerCpuData { scratch: 0, kernel_stack: 0, user_stack_save: 0 }
    }

    /// Point the trampoline's kernel-stack slot at a new stack top.
    pub fn set_syscall_stack(&mut self, stack_top: u64)
        ensures
            *final(self) == (PerCpuData { kernel_stack: stack_top, ..*old(self) }),
    {
        self.kernel_stack = stack_top;
    }
}

/// The STAR layout checks the hardware contract imposes: SYSRET derives
/// user CS as base+16 and user SS as base+8, so the user-code selector must
/// sit 16 bytes and the user-data selector 8 bytes past the base, with
/// RPL 3; SYSCALL loads kernel CS directly and kernel SS 8 past it, with
/// RPL 0.
pub open spec fn star_ok(s: Selectors) -> bool {
    &&& s.user_code >= 16
    &&& s.user_code - 16 == s.user_data - 8
    &&& s.user_data >= 8
    &&& s.kernel_data >= 8
    &&& s.kernel_data - 8 == s.kernel_code
    &&& s.user_data & 3 == 3
    &&& s.kernel_data & 3 == 0
}

/// Compute the two STAR selector bases for the syscall MSRs, refusing a
/// selector set that breaks the SYSRET derivation; on success the first
/// base is the value SYSRET adds 8 and 16 to, the second the kernel CS.
pub fn star_config(s: &Selectors) -> (r: Result<(u16, u16), ()>)
    ensures
        r.is_ok() == star_ok(*s),
        r.is_ok() ==> r.unwrap() == (((s.user_data - 8) as u16, s.kernel_code)),
{
    if s.user_code < 16 || s.user_data < 8 || s.kernel_data < 8 {
        return Err(());
    }
    if s.user_code - 16 != s.user_data - 8 {
        return Err(());
    }
    if s.kernel_data - 8 != s.kernel_code {
        return Err(());
    }
    if s.user_data & 3 != 3 {
        return Err(());
    }
    if s.kernel_data & 3 != 0 {
        return Err(());
    }
    Ok((s.user_data - 8, s.kernel_code))
}

/// After `init`, the three user-mode selectors lie at consecutive GDT
/// indices in exactly the order SYSRET needs: the STAR base is the
/// user-data placeholder at index 3, SYSRET's SS (base + 8) is the
/// user-data selector at index 4, and SYSRET's CS (base + 16) is the
/// user-code selector at index 5. The layout passes the STAR checks, and
/// the programmed base is the placeholder selector.
pub proof fn lemma_sysret_selector_layout()
    ensures
        spec_init_selectors().user_data == STAR_USER_BASE + 8,
        spec_init_selectors().user_code == STAR_USER_BASE + 16,
        star_ok(spec_init_selectors()),
        spec_init_selectors().user_data - 8 == STAR_USER_BASE,
{
    assert(0x23u16 & 3 == 3) by (bit_vector);
    assert(0x10u16 & 3 == 0) by (bit_vector);
}

} // verus!
