//! Device nodes: the console device, which accepts UTF-8 writes and pushes
//! them to the serial line with a trailing newline; anything else is
//! refused with a zero count.

use vstd::prelude::*;

use crate::serial::SerialPort;
use crate::vfs::{FileType, INode};

verus! {

/// The console as a file-system node, carrying the serial line it prints
/// to.
pub struct ConsoleDevice {
    pub serial: SerialPort,
}

impl ConsoleDevice {
    /// A console over a fresh serial port model.
    pub fn new() -> (d: ConsoleDevice)
        ensures
            d.serial.transmitted() == Seq::<u8>::empty(),
    {
        ConsoleDevice { serial: SerialPort::new() }
    }
}

impl INode for ConsoleDevice {
    open spec fn contents(&self) -> Seq<u8> {
        Seq::empty()
    }

    open spec fn node_type(&self) -> FileType {
        FileType::Device
    }

    open spec fn ident(&self) -> Seq<char> {
        Seq::empty()
    }

    open spec fn emitted(&self) -> Seq<u8> {
        self.serial.tx@
    }

    open spec fn write_pre(&self, offset: int, len: int) -> bool {
        true
    }

    open spec fn contents_after_write(&self, offset: int, bytes: Seq<u8>) -> Seq<u8> {
        Seq::empty()
    }

    open spec fn emit_of(&self, bytes: Seq<u8>) -> Seq<u8> {
        if vstd::utf8::valid_utf8(bytes) {
            bytes + seq![10u8]
        } else {
            Seq::empty()
        }
    }

    open spec fn write_len(&self, offset: int, bytes: Seq<u8>) -> int {
        if vstd::utf8::valid_utf8(bytes) {
            bytes.len() as int
        } else {
            0
        }
    }

    fn read(&self, offset: usize, len: usize) -> (out: Vec<u8>) {
        Vec::new()
    }

    fn write(&mut self, offset: usize, buf: &Vec<u8>) -> (n: usize) {
        if !crate::syscall::utf8_check(buf) {
            proof {
                assert(self.serial.tx@ =~= old(self).serial.tx@ + Seq::<u8>::empty());
            }
            return 0;
        }
        let n = buf.len();
        let mut i: usize = 0;
        while i < n
            invariant
                n == buf@.len(),
                i <= n,
                self.serial.tx@ == old(self).serial.tx@ + buf@.take(i as int),
            decreases n - i,
        {
            self.serial.write_byte(buf[i]);
            assert(self.serial.tx@ =~= old(self).serial.tx@ + buf@.take(i + 1));
            i += 1;
        }
        self.serial.write_byte(10);
        proof {
            assert(self.serial.tx@ =~= old(self).serial.tx@ + (buf@ + seq![10u8]));
        }
        n
    }

    fn metadata(&self) -> (t: FileType) {
        FileType::Device
    }

    fn size(&self) -> (n: usize) {
        0
    }
}

} // verus!
