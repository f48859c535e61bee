//! PS/2 keyboard scancode handling: the US QWERTY set-1 translation and
//! the handler that turns a scancode into console output.

use vstd::prelude::*;

use crate::serial::SerialPort;

verus! {

/// The set-1 scancode to ASCII translation: zero marks a non-printable or
/// unsupported key; break codes never reach this map.
pub open spec fn scancode_ascii(sc: u8) -> u8 {
    if sc == 1 { 27u8 } else if sc == 2 { 49u8 } else if sc == 3 { 50u8 } else if sc == 4 { 51u8 } else if sc == 5 { 52u8 } else if sc == 6 { 53u8 } else if sc == 7 { 54u8 } else if sc == 8 { 55u8 } else if sc == 9 { 56u8 } else if sc == 10 { 57u8 } else if sc == 11 { 48u8 } else if sc == 12 { 45u8 } else if sc == 13 { 61u8 } else if sc == 14 { 8u8 } else if sc == 15 { 9u8 } else if sc == 16 { 113u8 } else if sc == 17 { 119u8 } else if sc == 18 { 101u8 } else if sc == 19 { 114u8 } else if sc == 20 { 116u8 } else if sc == 21 { 121u8 } else if sc == 22 { 117u8 } else if sc == 23 { 105u8 } else if sc == 24 { 111u8 } else if sc == 25 { 112u8 } else if sc == 26 { 91u8 } else if sc == 27 { 93u8 } else if sc == 28 { 10u8 } else if sc == 30 { 97u8 } else if sc == 31 { 115u8 } else if sc == 32 { 100u8 } else if sc == 33 { 102u8 } else if sc == 34 { 103u8 } else if sc == 35 { 104u8 } else if sc == 36 { 106u8 } else if sc == 37 { 107u8 } else if sc == 38 { 108u8 } else if sc == 39 { 59u8 } else if sc == 40 { 39u8 } else if sc == 41 { 96u8 } else if sc == 43 { 92u8 } else if sc == 44 { 122u8 } else if sc == 45 { 120u8 } else if sc == 46 { 99u8 } else if sc == 47 { 118u8 } else if sc == 48 { 98u8 } else if sc == 49 { 110u8 } else if sc == 50 { 109u8 } else if sc == 51 { 44u8 } else if sc == 52 { 46u8 } else if sc == 53 { 47u8 } else if sc == 55 { 42u8 } else if sc == 57 { 32u8 } else { 0u8 }
}

/// Translate one scancode.
pub fn scancode_to_ascii(scancode: u8) -> (a: u8)
    ensures
        a == scancode_ascii(scancode),
{
    match scancode {
            1 => 27,
            2 => 49,
            3 => 50,
            4 => 51,
            5 => 52,
            6 => 53,
            7 => 54,
            8 => 55,
            9 => 56,
            10 => 57,
            11 => 48,
            12 => 45,
            13 => 61,
            14 => 8,
            15 => 9,
            16 => 113,
            17 => 119,
            18 => 101,
            19 => 114,
            20 => 116,
            21 => 121,
            22 => 117,
            23 => 105,
            24 => 111,
            25 => 112,
            26 => 91,
            27 => 93,
            28 => 10,
            30 => 97,
            31 => 115,
            32 => 100,
            33 => 102,
            34 => 103,
            35 => 104,
            36 => 106,
            37 => 107,
            38 => 108,
            39 => 59,
            40 => 39,
            41 => 96,
            43 => 92,
            44 => 122,
            45 => 120,
            46 => 99,
            47 => 118,
            48 => 98,
            49 => 110,
            50 => 109,
            51 => 44,
            52 => 46,
            53 => 47,
            55 => 42,
            57 => 32,
            _ => 0,
    }
}

/// Handle a scancode from the keyboard controller: break codes (bit 7 set)
/// and unmapped keys produce nothing; a mapped key is echoed to the serial
/// line and handed back for the framebuffer console.
pub fn handle_scancode(scancode: u8, port: &mut SerialPort) -> (r: Option<u8>)
    ensures
        final(port).base == old(port).base,
        scancode & 0x80 != 0 ==> r.is_none() && final(port).transmitted() == old(
            port,
        ).transmitted(),
        scancode & 0x80 == 0 ==> ({
            let a = scancode_ascii(scancode);
            if a == 0 {
                r.is_none() && final(port).transmitted() == old(port).transmitted()
            } else {
                r == Some(a) && final(port).transmitted() == old(port).transmitted().push(a)
            }
        }),
{
    if scancode & 0x80 != 0 {
        return None;
    }
    let ascii = scancode_to_ascii(scancode);
    if ascii != 0 {
        port.write_byte(ascii);
        Some(ascii)
    } else {
        None
    }
}

/// The legacy-PIC mask value that unmasks the keyboard line: the read mask
/// with IRQ 1's bit cleared.
pub fn keyboard_unmask(mask: u8) -> (r: u8)
    ensures
        r == mask & !0x02u8,
{
    mask & !0x02u8
}

} // verus!
