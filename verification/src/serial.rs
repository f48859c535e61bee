//! COM1 serial output, modelled as the exact byte stream handed to the
//! UART's transmit register. The port writes themselves are plain `(offset,
//! value)` pairs that the surrounding kernel plays onto the hardware.

use vstd::prelude::*;
use vstd::string::StringSliceAdditionalSpecFns;

verus! {

/// COM1 base I/O port.
pub const COM1: u16 = 0x3f8;

/// Register offsets from the base address.
pub const DATA_REG: u16 = 0;

pub const INT_EN_REG: u16 = 1;

pub const FIFO_REG: u16 = 2;

pub const LINE_CTRL_REG: u16 = 3;

pub const MODEM_CTRL_REG: u16 = 4;

pub const LINE_STATUS_REG: u16 = 5;

/// A serial port: its base address and the bytes transmitted so far.
pub struct SerialPort {
    pub base: u16,
    pub tx: Vec<u8>,
}

impl SerialPort {
    /// The byte stream transmitted so far.
    pub open spec fn transmitted(&self) -> Seq<u8> {
        self.tx@
    }

    /// A COM1 port with nothing transmitted yet.
    pub fn new() -> (p: SerialPort)
        ensures
            p.base == COM1,
            p.transmitted() == Seq::<u8>::empty(),
    {
        SerialPort { base: COM1, tx: Vec::new() }
    }

    /// The `(register offset, value)` writes that configure the UART for
    /// 115200 baud, 8N1, FIFO enabled: disable interrupts, enable DLAB, set
    /// the divisor to 1, 8N1 mode, FIFO on, and assert RTS/DTR.
    pub fn init_sequence() -> (w: Vec<(u16, u8)>)
        ensures
            w@.len() == 7,
            w@[0] == (INT_EN_REG, 0x00u8),
            w@[1] == (LINE_CTRL_REG, 0x80u8),
            w@[2] == (DATA_REG, 0x01u8),
            w@[3] == (INT_EN_REG, 0x00u8),
            w@[4] == (LINE_CTRL_REG, 0x03u8),
            w@[5] == (FIFO_REG, 0xc7u8),
            w@[6] == (MODEM_CTRL_REG, 0x0bu8),
    {
        let mut w: Vec<(u16, u8)> = Vec::new();
        w.push((INT_EN_REG, 0x00));
        w.push((LINE_CTRL_REG, 0x80));
        w.push((DATA_REG, 0x01));
        w.push((INT_EN_REG, 0x00));
        w.push((LINE_CTRL_REG, 0x03));
        w.push((FIFO_REG, 0xc7));
        w.push((MODEM_CTRL_REG, 0x0b));
        w
    }

    /// Bit 5 of the line-status register: the transmitter is ready for the
    /// next byte.
    pub fn transmit_ready(status: u8) -> (r: bool)
        ensures
            r == (status & 0x20 != 0),
    {
        status & 0x20 != 0
    }

    /// Transmit one byte.
    pub fn write_byte(&mut self, byte: u8)
        ensures
            final(self).base == old(self).base,
            final(self).transmitted() == old(self).transmitted().push(byte),
    {
        self.tx.push(byte);
    }

    /// Transmit every byte of a string.
    pub fn write_str(&mut self, s: &str)
        ensures
            final(self).base == old(self).base,
            final(self).transmitted() == old(self).transmitted() + s.spec_bytes(),
    {
        let bytes = s.as_bytes();
        let n = bytes.len();
        let mut i: usize = 0;
        while i < n
            invariant
                n == bytes@.len(),
                bytes@ == s.spec_bytes(),
                i <= n,
                self.base == old(self).base,
                self.tx@ == old(self).tx@ + bytes@.take(i as int),
            decreases n - i,
        {
            self.tx.push(bytes[i]);
            assert(self.tx@ =~= old(self).tx@ + bytes@.take(i + 1));
            i += 1;
        }
        proof {
            assert(self.tx@ =~= old(self).tx@ + bytes@);
        }
    }
}

/// Print a string to a serial port.
pub fn serial_print(port: &mut SerialPort, s: &str)
    ensures
        final(port).base == old(port).base,
        final(port).transmitted() == old(port).transmitted() + s.spec_bytes(),
{
    port.write_str(s);
}

} // verus!
