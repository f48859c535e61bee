//! Diagnostics: lowercase hexadecimal formatting of addresses and the
//! kernel's oops line. Halting after an oops is the caller's last act.

use vstd::prelude::*;
use vstd::string::StringSliceAdditionalSpecFns;

use crate::serial::SerialPort;

verus! {

/// The ASCII byte of one hex digit, lowercase.
pub open spec fn hex_digit(d: u64) -> u8
    recommends
        d < 16,
{
    if d < 10 {
        (0x30 + d) as u8
    } else {
        (0x57 + d) as u8
    }
}

/// The hex digits of `v`, most significant first, no leading zeroes, at
/// least one digit.
pub open spec fn spec_hex_digits(v: u64) -> Seq<u8>
    decreases v,
{
    if v < 16 {
        seq![hex_digit(v as u64)]
    } else {
        spec_hex_digits(v / 16).push(hex_digit(v % 16))
    }
}

/// `v` printed as `0x` followed by its hex digits.
pub open spec fn spec_hex(v: u64) -> Seq<u8> {
    seq![0x30u8, 0x78u8] + spec_hex_digits(v)
}

/// Transmit the hex digits of `v`.
fn write_hex_digits(port: &mut SerialPort, v: u64)
    ensures
        final(port).base == old(port).base,
        final(port).transmitted() == old(port).transmitted() + spec_hex_digits(v),
    decreases v,
{
    if v >= 16 {
        write_hex_digits(port, v / 16);
    }
    let d = (v % 16) as u8;
    let b: u8 = if d < 10 {
        0x30 + d
    } else {
        0x57 + d
    };
    port.write_byte(b);
    proof {
        if v < 16 {
            assert(final(port).transmitted() =~= old(port).transmitted() + spec_hex_digits(v));
        } else {
            assert(final(port).transmitted() =~= old(port).transmitted() + spec_hex_digits(v));
        }
    }
}

/// Transmit `v` in `0x...` form, as the kernel's `{:#x}` diagnostics do.
pub fn write_hex(port: &mut SerialPort, v: u64)
    ensures
        final(port).base == old(port).base,
        final(port).transmitted() == old(port).transmitted() + spec_hex(v),
{
    port.write_byte(0x30);
    port.write_byte(0x78);
    write_hex_digits(port, v);
    proof {
        assert(final(port).transmitted() =~= old(port).transmitted() + spec_hex(v));
    }
}

/// The decimal digits of `v`, most significant first.
pub open spec fn spec_decimal_digits(v: u64) -> Seq<u8>
    decreases v,
{
    if v < 10 {
        seq![(0x30 + v) as u8]
    } else {
        spec_decimal_digits(v / 10).push((0x30 + v % 10) as u8)
    }
}

/// Transmit `v` in decimal.
pub fn write_decimal(port: &mut SerialPort, v: u64)
    ensures
        final(port).base == old(port).base,
        final(port).transmitted() == old(port).transmitted() + spec_decimal_digits(v),
    decreases v,
{
    if v >= 10 {
        write_decimal(port, v / 10);
    }
    port.write_byte(0x30 + (v % 10) as u8);
    proof {
        assert(final(port).transmitted() =~= old(port).transmitted() + spec_decimal_digits(v));
    }
}

/// The fatal-error report: the panic header and the source location, each
/// on its own line. The caller halts afterwards.
pub fn panic_report(port: &mut SerialPort, file: &str, line: u64)
    ensures
        final(port).base == old(port).base,
        final(port).transmitted() == old(port).transmitted() + "[KERNEL PANIC]\n".spec_bytes()
            + "Location: ".spec_bytes() + file.spec_bytes() + ":".spec_bytes()
            + spec_decimal_digits(line) + "\n".spec_bytes(),
{
    port.write_str("[KERNEL PANIC]\n");
    port.write_str("Location: ");
    port.write_str(file);
    port.write_str(":");
    write_decimal(port, line);
    port.write_str("\n");
    proof {
        assert(final(port).transmitted() =~= old(port).transmitted()
            + "[KERNEL PANIC]\n".spec_bytes() + "Location: ".spec_bytes() + file.spec_bytes()
            + ":".spec_bytes() + spec_decimal_digits(line) + "\n".spec_bytes());
    }
}

/// Report a non-fatal kernel error on the serial line. The caller halts
/// afterwards; this merely emits `[KERNEL OOPS] <msg>` and a newline.
pub fn oops(msg: &str, port: &mut SerialPort)
    ensures
        final(port).base == old(port).base,
        final(port).transmitted() == old(port).transmitted() + "[KERNEL OOPS] ".spec_bytes()
            + msg.spec_bytes() + "\n".spec_bytes(),
{
    port.write_str("[KERNEL OOPS] ");
    port.write_str(msg);
    port.write_str("\n");
}

} // verus!
