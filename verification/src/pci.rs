//! PCI configuration-space arithmetic: the legacy 0xCF8 address encoding,
//! extraction of narrow reads from 32-bit config words, BAR decoding, and
//! the command-register updates. The port I/O itself happens outside; these
//! are the values it reads and writes.

use vstd::prelude::*;

verus! {

/// The legacy configuration address and data ports.
pub const CONFIG_ADDRESS: u16 = 0xcf8;

pub const CONFIG_DATA: u16 = 0xcfc;

/// A device located on the bus.
#[derive(Clone, Copy, PartialEq, Eq, Structural, Debug)]
pub struct PciDevice {
    pub bus: u8,
    pub device: u8,
    pub function: u8,
    pub vendor_id: u16,
    pub device_id: u16,
}

impl PciDevice {
    /// The 0xCF8 address word selecting this function's aligned config
    /// dword at `offset`: enable bit, bus, device, function, and the offset
    /// with its low two bits cleared.
    pub fn config_address(&self, offset: u8) -> (a: u32)
        ensures
            a == 0x8000_0000u32 | ((self.bus as u32) << 16) | ((self.device as u32) << 11) | ((
            self.function as u32) << 8) | ((offset as u32) & 0xfc),
    {
        0x8000_0000u32 | ((self.bus as u32) << 16) | ((self.device as u32) << 11) | ((
        self.function as u32) << 8) | ((offset as u32) & 0xfc)
    }
}

/// The byte at `offset` within its aligned config dword `word`.
pub fn extract_u8(word: u32, offset: u8) -> (b: u8)
    ensures
        b == (word >> (((offset as u32) & 3) * 8)) & 0xff,
{
    proof {
        assert(((offset as u32) & 3) <= 3) by (bit_vector);
    }
    let shift = ((offset as u32) & 3) * 8;
    let masked = (word >> shift) & 0xff;
    proof {
        assert((word >> shift) & 0xff <= 0xff) by (bit_vector);
    }
    masked as u8
}

/// The 16-bit value at `offset` within its aligned config dword `word`.
pub fn extract_u16(word: u32, offset: u8) -> (v: u16)
    ensures
        v == (word >> (((offset as u32) & 2) * 8)) & 0xffff,
{
    proof {
        assert(((offset as u32) & 2) <= 2) by (bit_vector);
    }
    let shift = ((offset as u32) & 2) * 8;
    let masked = (word >> shift) & 0xffff;
    proof {
        assert((word >> shift) & 0xffff <= 0xffff) by (bit_vector);
    }
    masked as u16
}

/// Merge a 16-bit write into its aligned config dword, as the
/// read-modify-write on the data port does.
pub fn merge_u16(current: u32, offset: u8, value: u16) -> (v: u32)
    ensures
        v == (current & !(0xffffu32 << (((offset as u32) & 2) * 8))) | ((value as u32) << (((
        offset as u32) & 2) * 8)),
{
    proof {
        assert(((offset as u32) & 2) <= 2) by (bit_vector);
    }
    let shift = ((offset as u32) & 2) * 8;
    let mask = 0xffffu32 << shift;
    (current & !mask) | ((value as u32) << shift)
}

/// Decode a memory BAR from its raw dwords: I/O-space BARs (bit 0 set) are
/// not supported; a 64-bit BAR (type field 0b10 in bits 2..1) extends the
/// masked low half with the high dword.
pub fn decode_bar(bar_low: u32, bar_high: u32) -> (r: Option<u64>)
    ensures
        bar_low & 1 != 0 ==> r.is_none(),
        bar_low & 1 == 0 && (bar_low >> 1) & 3 == 2 ==> r == Some(
            ((bar_low & 0xffff_fff0) as u64) | ((bar_high as u64) << 32),
        ),
        bar_low & 1 == 0 && (bar_low >> 1) & 3 != 2 ==> r == Some((bar_low & 0xffff_fff0) as u64),
{
    if bar_low & 1 != 0 {
        return None;
    }
    let bar_type = (bar_low >> 1) & 0x3;
    let address = (bar_low & 0xffff_fff0) as u64;
    if bar_type == 0x2 {
        Some(address | ((bar_high as u64) << 32))
    } else {
        Some(address)
    }
}

/// The command-register value that enables bus mastering and memory space:
/// the current value with bits 1 and 2 set.
pub fn enable_bus_master_command(cmd: u16) -> (v: u16)
    ensures
        v == cmd | 0x06,
{
    cmd | 0x06
}

/// Whether a status word advertises a capability list (bit 4).
pub fn has_capability_list(status: u16) -> (r: bool)
    ensures
        r == (status & 0x10 != 0),
{
    status & 0x10 != 0
}

/// How many functions to probe on a device, from its header type: bit 7
/// marks a multi-function device with eight functions, otherwise one.
pub fn function_count(header_type: u8) -> (n: u8)
    ensures
        header_type & 0x80 != 0 ==> n == 8,
        header_type & 0x80 == 0 ==> n == 1,
{
    if header_type & 0x80 != 0 {
        8
    } else {
        1
    }
}

/// Whether a vendor word marks an absent function.
pub fn vendor_absent(vendor: u16) -> (r: bool)
    ensures
        r == (vendor == 0xffff),
{
    vendor == 0xffff
}

} // verus!
