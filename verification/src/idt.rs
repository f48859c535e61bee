//! The interrupt descriptor table as the kernel manages it: 256 entries,
//! default exception handlers, and in-place registration of device
//! handlers. The CPU transfers control to a code address, so a handler here
//! is its address tagged with the frame shape it expects.

use vstd::prelude::*;
use vstd::string::StringSliceAdditionalSpecFns;

use crate::serial::SerialPort;
use crate::util::{spec_hex, write_hex};

verus! {

/// The three shapes of interrupt handlers the hardware can call: with just
/// the stack frame, with an error code, or diverging (the double fault).
#[derive(Clone, Copy, PartialEq, Eq, Structural, Debug)]
pub enum HandlerKind {
    Basic,
    WithErrorCode,
    Diverging,
}

/// One IDT slot: whether a handler is installed, its address, and its kind.
#[derive(Clone, Copy, PartialEq, Eq, Structural, Debug)]
pub struct IdtEntry {
    pub present: bool,
    pub handler: u64,
    pub kind: HandlerKind,
}

/// An empty slot.
pub open spec fn empty_entry() -> IdtEntry {
    IdtEntry { present: false, handler: 0, kind: HandlerKind::Basic }
}

/// The 256-entry interrupt descriptor table, and whether it has been
/// loaded into the CPU.
pub struct Idt {
    pub entries: Vec<IdtEntry>,
    pub loaded: bool,
}

/// Vector numbers of the default handlers.
pub const VECTOR_DIVIDE_ERROR: u8 = 0;

pub const VECTOR_DOUBLE_FAULT: u8 = 8;

pub const VECTOR_PAGE_FAULT: u8 = 14;

pub const VECTOR_KEYBOARD: u8 = 33;

impl Idt {
    /// Always exactly 256 entries.
    pub open spec fn wf(&self) -> bool {
        self.entries@.len() == 256
    }

    /// A table of empty slots, not yet loaded.
    pub fn new() -> (t: Idt)
        ensures
            t.wf(),
            !t.loaded,
            forall|v: int| 0 <= v < 256 ==> t.entries@[v] == empty_entry(),
    {
        let mut entries: Vec<IdtEntry> = Vec::new();
        let mut k: usize = 0;
        while k < 256
            invariant
                k <= 256,
                entries@.len() == k,
                forall|v: int| 0 <= v < k ==> entries@[v] == empty_entry(),
            decreases 256 - k,
        {
            entries.push(IdtEntry { present: false, handler: 0, kind: HandlerKind::Basic });
            k += 1;
        }
        Idt { entries, loaded: false }
    }

    /// Install a handler in place. The IDTR points into this same table, so
    /// a swap takes effect immediately without reloading.
    pub fn register_interrupt_handler(&mut self, vector: u8, handler: u64, kind: HandlerKind)
        requires
            old(self).wf(),
        ensures
            final(self).wf(),
            final(self).loaded == old(self).loaded,
            final(self).entries@ == old(self).entries@.update(
                vector as int,
                IdtEntry { present: true, handler, kind },
            ),
    {
        let entry = &mut self.entries[vector as usize];
        *entry = IdtEntry { present: true, handler, kind };
    }

    /// Mark the table as loaded into the CPU (the privileged `lidt` itself
    /// happens outside).
    pub fn mark_loaded(&mut self)
        ensures
            *final(self) == (Idt { loaded: true, ..*old(self) }),
    {
        self.loaded = true;
    }
}

/// Build and load the kernel IDT: default handlers for divide-by-zero,
/// page fault, double fault (on its own stack) and the keyboard vector,
/// given their code addresses.
pub fn init_idt(divide: u64, page_fault: u64, double_fault: u64, keyboard: u64) -> (t: Idt)
    ensures
        t.wf(),
        t.loaded,
        t.entries@[VECTOR_DIVIDE_ERROR as int] == (IdtEntry {
            present: true,
            handler: divide,
            kind: HandlerKind::Basic,
        }),
        t.entries@[VECTOR_PAGE_FAULT as int] == (IdtEntry {
            present: true,
            handler: page_fault,
            kind: HandlerKind::WithErrorCode,
        }),
        t.entries@[VECTOR_DOUBLE_FAULT as int] == (IdtEntry {
            present: true,
            handler: double_fault,
            kind: HandlerKind::Diverging,
        }),
        t.entries@[VECTOR_KEYBOARD as int] == (IdtEntry {
            present: true,
            handler: keyboard,
            kind: HandlerKind::Basic,
        }),
        forall|v: int|
            0 <= v < 256 && v != VECTOR_DIVIDE_ERROR && v != VECTOR_PAGE_FAULT && v
                != VECTOR_DOUBLE_FAULT && v != VECTOR_KEYBOARD ==> t.entries@[v] == empty_entry(),
{
    let mut t = Idt::new();
    t.register_interrupt_handler(VECTOR_DIVIDE_ERROR, divide, HandlerKind::Basic);
    t.register_interrupt_handler(VECTOR_PAGE_FAULT, page_fault, HandlerKind::WithErrorCode);
    t.register_interrupt_handler(VECTOR_DOUBLE_FAULT, double_fault, HandlerKind::Diverging);
    t.register_interrupt_handler(VECTOR_KEYBOARD, keyboard, HandlerKind::Basic);
    t.mark_loaded();
    t
}

/// The architectural page-fault error-code bits: present, write, user,
/// reserved-bit violation, instruction fetch.
pub fn page_fault_error_bits(err: u64) -> (r: (bool, bool, bool, bool, bool))
    ensures
        r.0 == (err & 1 != 0),
        r.1 == (err & 2 != 0),
        r.2 == (err & 4 != 0),
        r.3 == (err & 8 != 0),
        r.4 == (err & 16 != 0),
{
    (err & 1 != 0, err & 2 != 0, err & 4 != 0, err & 8 != 0, err & 16 != 0)
}

/// The diagnostic the page-fault handler prints before halting: the
/// faulting instruction pointer, the faulting address read from CR2, and
/// the raw error code, each in `0x...` form on its own line.
pub fn page_fault_report(port: &mut SerialPort, rip: u64, cr2: u64, err: u64)
    ensures
        final(port).base == old(port).base,
        final(port).transmitted() == old(port).transmitted()
            + "Page fault at instruction pointer: ".spec_bytes() + spec_hex(rip)
            + "\n".spec_bytes() + "Page fault address: ".spec_bytes() + spec_hex(cr2)
            + "\n".spec_bytes() + "Error code: ".spec_bytes() + spec_hex(err) + "\n".spec_bytes(),
{
    port.write_str("Page fault at instruction pointer: ");
    write_hex(port, rip);
    port.write_str("\n");
    port.write_str("Page fault address: ");
    write_hex(port, cr2);
    port.write_str("\n");
    port.write_str("Error code: ");
    write_hex(port, err);
    port.write_str("\n");
    proof {
        assert(final(port).transmitted() =~= old(port).transmitted()
            + "Page fault at instruction pointer: ".spec_bytes() + spec_hex(rip)
            + "\n".spec_bytes() + "Page fault address: ".spec_bytes() + spec_hex(cr2)
            + "\n".spec_bytes() + "Error code: ".spec_bytes() + spec_hex(err)
            + "\n".spec_bytes());
    }
}

} // verus!
