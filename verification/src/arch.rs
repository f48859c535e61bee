//! Thin trusted layer over the `x86_64` crate: pure address, selector and
//! page-flag computations that the rest of the library builds on.
//!
//! Everything here is a plain value-to-value computation; the privileged
//! instructions of that crate (loads of descriptor tables, MSR writes, port
//! I/O) are never called from the library.

use vstd::prelude::*;
use x86_64::structures::paging::PageTableFlags;

verus! {

/// A virtual address is canonical when bits 48..64 are copies of bit 47:
/// it lies in the lower half below 2^47 or in the upper half at or above
/// 0xFFFF_8000_0000_0000.
pub open spec fn canonical(addr: u64) -> bool {
    addr < 0x8000_0000_0000 || addr >= 0xffff_8000_0000_0000
}

/// Relies on x86_64::structures::paging::Page::<Size4KiB>::containing_address
/// and Page::start_address: the containing 4 KiB page starts at the address
/// with its low 12 bits cleared.
#[verifier::external_body]
pub fn page_base(addr: u64) -> (base: u64)
    requires
        canonical(addr),
    ensures
        base == addr & !0xfffu64,
{
    x86_64::structures::paging::Page::<x86_64::structures::paging::Size4KiB>::containing_address(
        x86_64::VirtAddr::new(addr),
    ).start_address().as_u64()
}

/// Relies on x86_64::structures::paging::PhysFrame::<Size4KiB>::containing_address
/// and PhysFrame::start_address: the containing 4 KiB frame starts at the
/// address with its low 12 bits cleared. PhysAddr::new panics when bits
/// 52..64 are set, so those addresses are excluded.
#[verifier::external_body]
pub fn frame_base(addr: u64) -> (base: u64)
    requires
        addr < 0x10_0000_0000_0000,
    ensures
        base == addr & !0xfffu64,
{
    x86_64::structures::paging::PhysFrame::<x86_64::structures::paging::Size4KiB>::containing_address(
        x86_64::PhysAddr::new(addr),
    ).start_address().as_u64()
}

/// Relies on x86_64::structures::gdt::SegmentSelector::new, whose value is
/// `(index << 3) | rpl`. PrivilegeLevel::from_u16 panics above 3, so those
/// requested privilege levels are excluded.
#[verifier::external_body]
pub fn selector_value(index: u16, rpl: u8) -> (sel: u16)
    requires
        index < 0x2000,
        rpl <= 3,
    ensures
        sel == (index << 3) | rpl as u16,
{
    let level = x86_64::PrivilegeLevel::from_u16(rpl as u16);
    x86_64::structures::gdt::SegmentSelector::new(index, level).0
}

/// Relies on the bit constants of x86_64::structures::paging::PageTableFlags:
/// PRESENT = 1, WRITABLE = 1 << 1, USER_ACCESSIBLE = 1 << 2, NO_CACHE = 1 << 4,
/// NO_EXECUTE = 1 << 63; bitwise or combines them.
#[verifier::external_body]
pub fn page_flag_bits(
    present: bool,
    writable: bool,
    user: bool,
    no_cache: bool,
    no_execute: bool,
) -> (bits: u64)
    ensures
        bits == (if present { 0x1u64 } else { 0u64 })
            | (if writable { 0x2u64 } else { 0u64 })
            | (if user { 0x4u64 } else { 0u64 })
            | (if no_cache { 0x10u64 } else { 0u64 })
            | (if no_execute { 0x8000_0000_0000_0000u64 } else { 0u64 }),
{
    let mut flags = PageTableFlags::empty();
    if present { flags |= PageTableFlags::PRESENT; }
    if writable { flags |= PageTableFlags::WRITABLE; }
    if user { flags |= PageTableFlags::USER_ACCESSIBLE; }
    if no_cache { flags |= PageTableFlags::NO_CACHE; }
    if no_execute { flags |= PageTableFlags::NO_EXECUTE; }
    flags.bits()
}

/// The masked form returned by `page_base` and `frame_base` equals rounding
/// down to the 4 KiB page boundary.
pub proof fn lemma_page_align_arith(addr: u64)
    ensures
        addr & !0xfffu64 == addr - addr % 4096,
        (addr & !0xfffu64) % 4096 == 0,
        addr & !0xfffu64 <= addr,
{
    assert(addr & !0xfffu64 == addr - addr % 4096 && (addr & !0xfffu64) % 4096 == 0
        && addr & !0xfffu64 <= addr) by (bit_vector);
}

/// The selector bits returned by `selector_value` in arithmetic form.
pub proof fn lemma_selector_arith(index: u16, rpl: u8)
    requires
        index < 0x2000,
        rpl <= 3,
    ensures
        ((index << 3) | rpl as u16) == index * 8 + rpl,
{
    assert(index < 0x2000 && rpl <= 3 ==> ((index << 3) | rpl as u16) == index * 8 + rpl)
        by (bit_vector);
}

/// The page-flag bits returned by `page_flag_bits` in arithmetic form: the
/// five flags occupy disjoint bits, so the bitwise or is a plain sum.
pub proof fn lemma_flag_bits_arith(p: u64, w: u64, u: u64, c: u64, x: u64)
    requires
        p == 0x1 || p == 0,
        w == 0x2 || w == 0,
        u == 0x4 || u == 0,
        c == 0x10 || c == 0,
        x == 0x8000_0000_0000_0000 || x == 0,
    ensures
        (p | w | u | c | x) == p + w + u + c + x,
{
    assert((p == 0x1 || p == 0) && (w == 0x2 || w == 0) && (u == 0x4 || u == 0) && (c == 0x10
        || c == 0) && (x == 0x8000_0000_0000_0000 || x == 0) ==> (p | w | u | c | x) == p + w + u + c
        + x) by (bit_vector);
}

} // verus!
