//! The syscall gate, ELF loading, IPC, serial output and diagnostics,
//! exercised end to end on concrete values.

use serix::elf::{load_elf, ElfError, SegmentFlags};
use serix::idt::{init_idt, page_fault_error_bits, page_fault_report, HandlerKind, IdtEntry};
use serix::ipc::{IpcSpace, Message, MAX_MSG_SIZE, PORT_QUEUE_LEN};
use serix::keyboard::{handle_scancode, scancode_to_ascii};
use serix::serial::{serial_print, SerialPort};
use serix::syscall::{
    is_user_accessible, sys_send_deliver, sys_write_finish, syscall_dispatcher, SyscallStep,
    ERRNO_EAGAIN, ERRNO_EBADF, ERRNO_EFAULT, ERRNO_EINVAL, ERRNO_ENOENT, SYS_EXIT, SYS_RECV,
    SYS_SEND, SYS_WRITE, SYS_YIELD,
};
use serix::util::{oops, panic_report, write_decimal, write_hex};

fn put16(buf: &mut Vec<u8>, off: usize, v: u16) {
    buf[off] = (v & 0xff) as u8;
    buf[off + 1] = (v >> 8) as u8;
}

fn put32(buf: &mut Vec<u8>, off: usize, v: u32) {
    for i in 0..4 {
        buf[off + i] = ((v >> (8 * i)) & 0xff) as u8;
    }
}

fn put64(buf: &mut Vec<u8>, off: usize, v: u64) {
    for i in 0..8 {
        buf[off + i] = ((v >> (8 * i)) & 0xff) as u8;
    }
}

/// A minimal 64-bit x86_64 ELF with one PT_LOAD segment carrying `code`.
fn tiny_elf(entry: u64, vaddr: u64, code: &[u8], memsz_extra: u64) -> Vec<u8> {
    let ph_off = 64usize;
    let data_off = ph_off + 56;
    let mut b = vec![0u8; data_off + code.len()];
    b[0] = 0x7f;
    b[1] = b'E';
    b[2] = b'L';
    b[3] = b'F';
    b[4] = 2; // 64-bit
    b[5] = 1;
    b[6] = 1;
    put16(&mut b, 16, 2); // ET_EXEC
    put16(&mut b, 18, 0x3e); // x86_64
    put32(&mut b, 20, 1);
    put64(&mut b, 24, entry);
    put64(&mut b, 32, ph_off as u64);
    put16(&mut b, 52, 64);
    put16(&mut b, 54, 56);
    put16(&mut b, 56, 1);
    // program header
    put32(&mut b, ph_off, 1); // PT_LOAD
    put32(&mut b, ph_off + 4, 5); // R + X
    put64(&mut b, ph_off + 8, data_off as u64);
    put64(&mut b, ph_off + 16, vaddr);
    put64(&mut b, ph_off + 32, code.len() as u64);
    put64(&mut b, ph_off + 40, code.len() as u64 + memsz_extra);
    b[data_off..].copy_from_slice(code);
    b
}

#[test]
fn elf_round_trip_preserves_segments() {
    let code = [0x48u8, 0xc7, 0xc0, 0x01, 0x00, 0x00, 0x00];
    let image = tiny_elf(0x401000, 0x400000, &code, 9);
    let loaded = load_elf(&image).unwrap();
    assert_eq!(loaded.entry_point, 0x401000);
    assert_eq!(loaded.segments.len(), 1);
    let seg = &loaded.segments[0];
    assert_eq!(seg.virtual_address, 0x400000);
    assert_eq!(seg.size, code.len() as u64 + 9);
    assert_eq!(
        seg.flags,
        SegmentFlags { readable: true, writable: false, executable: true }
    );
    // file bytes followed by zero fill
    assert_eq!(&seg.data[..code.len()], &code);
    assert!(seg.data[code.len()..].iter().all(|&b| b == 0));
    assert_eq!(seg.data.len(), code.len() + 9);
}

#[test]
fn elf_rejections_name_the_first_failed_check() {
    assert_eq!(load_elf(&[0u8; 10]), Err(ElfError::FileTooSmall));

    let mut bad_magic = tiny_elf(0, 0, &[1], 0);
    bad_magic[0] = 0x7e;
    assert_eq!(load_elf(&bad_magic), Err(ElfError::BadMagic));

    let mut not64 = tiny_elf(0, 0, &[1], 0);
    not64[4] = 1;
    assert_eq!(load_elf(&not64), Err(ElfError::NotElf64));

    let mut wrong_machine = tiny_elf(0, 0, &[1], 0);
    wrong_machine[18] = 0x03;
    assert_eq!(load_elf(&wrong_machine), Err(ElfError::WrongMachine));

    let mut truncated_table = tiny_elf(0, 0, &[1], 0);
    put16(&mut truncated_table, 56, 400);
    assert_eq!(load_elf(&truncated_table), Err(ElfError::HeadersTruncated));

    let mut truncated_seg = tiny_elf(0, 0, &[1], 0);
    put64(&mut truncated_seg, 64 + 32, 4096); // p_filesz beyond the buffer
    assert_eq!(load_elf(&truncated_seg), Err(ElfError::SegmentTruncated));
    assert_eq!(ElfError::SegmentTruncated.message(), "Segment truncated");
}

#[test]
fn user_pointer_validation() {
    assert!(is_user_accessible(0x1000, 16));
    assert!(!is_user_accessible(0, 16)); // null
    assert!(!is_user_accessible(0x1000, 0)); // empty
    assert!(!is_user_accessible(0x7fff_ffff_ffff, 2)); // crosses 2^47
    assert!(!is_user_accessible(0xffff_ffff_ffff_0000, 1)); // high half
    assert!(!is_user_accessible(u64::MAX, u64::MAX)); // overflow
}

#[test]
fn write_rejects_bad_fd_then_bad_pointer() {
    let mut ipc = IpcSpace::new();
    // fd checked first, even with a bad pointer
    match syscall_dispatcher(SYS_WRITE, 2, 0, 1, 0, 0, &mut ipc) {
        SyscallStep::Done(v) => assert_eq!(v, ERRNO_EBADF),
        _ => panic!("expected an immediate error"),
    }
    // null pointer faults with no output performed
    match syscall_dispatcher(SYS_WRITE, 1, 0, 1, 0, 0, &mut ipc) {
        SyscallStep::Done(v) => assert_eq!(v, ERRNO_EFAULT),
        _ => panic!("expected an immediate error"),
    }
}

#[test]
fn write_efault_above_canonical_boundary() {
    // write(1, 0xFFFF_FFFF_FFFF_0000, 1) yields the EFAULT errno and
    // no bytes reach the serial line, since the dispatcher never asks
    // for the copy.
    let mut ipc = IpcSpace::new();
    let r = syscall_dispatcher(SYS_WRITE, 1, 0xffff_ffff_ffff_0000, 1, 0, 0, &mut ipc);
    match r {
        SyscallStep::Done(v) => assert_eq!(v, u64::MAX - 13),
        _ => panic!("expected an immediate error"),
    }
}

#[test]
fn write_hi_returns_two_and_emits_hi() {
    let mut ipc = IpcSpace::new();
    let ptr = 0x5000u64;
    match syscall_dispatcher(SYS_WRITE, 1, ptr, 2, 0, 0, &mut ipc) {
        SyscallStep::ReadWrite { ptr: p, len } => {
            assert_eq!((p, len), (ptr, 2));
            let mut serial = SerialPort::new();
            let value = sys_write_finish(&b"hi".to_vec(), &mut serial);
            assert_eq!(value, 2);
            assert_eq!(serial.tx, b"hi".to_vec());
        },
        _ => panic!("expected a copy-in request"),
    }
}

#[test]
fn write_invalid_utf8_is_einval_with_no_output() {
    let mut serial = SerialPort::new();
    let value = sys_write_finish(&vec![0xff, 0xfe], &mut serial);
    assert_eq!(value, ERRNO_EINVAL);
    assert!(serial.tx.is_empty());
}

#[test]
fn exit_reaches_the_dispatcher_and_halts() {
    let mut ipc = IpcSpace::new();
    match syscall_dispatcher(SYS_EXIT, 0, 0, 0, 0, 0, &mut ipc) {
        SyscallStep::Halt { status } => assert_eq!(status, 0),
        _ => panic!("expected a halt"),
    }
    match syscall_dispatcher(SYS_YIELD, 0, 0, 0, 0, 0, &mut ipc) {
        SyscallStep::YieldTask => {},
        _ => panic!("expected a yield"),
    }
    match syscall_dispatcher(99, 0, 0, 0, 0, 0, &mut ipc) {
        SyscallStep::Done(v) => assert_eq!(v, ERRNO_EINVAL),
        _ => panic!("expected an error"),
    }
}

#[test]
fn user_elf_launch_path() {
    // load a 64-bit ELF whose code performs write(1, msg, n) then exit(0);
    // the exit path reaches the dispatcher with number 60 and argument 0
    // after the message bytes have been printed.
    let msg = b"Hello from a REAL ELF!\n";
    let code = [0x48u8, 0xc7, 0xc0, 0x3c, 0x00, 0x00, 0x00];
    let image = tiny_elf(0x400000, 0x400000, &code, 0);
    let loaded = load_elf(&image).unwrap();
    assert_eq!(loaded.entry_point, 0x400000);

    let mut ipc = IpcSpace::new();
    let mut serial = SerialPort::new();
    match syscall_dispatcher(SYS_WRITE, 1, 0x400100, msg.len() as u64, 0, 0, &mut ipc) {
        SyscallStep::ReadWrite { len, .. } => {
            assert_eq!(len, msg.len() as u64);
            assert_eq!(sys_write_finish(&msg.to_vec(), &mut serial), msg.len() as u64);
        },
        _ => panic!("expected a copy-in request"),
    }
    assert_eq!(serial.tx, msg.to_vec());
    match syscall_dispatcher(SYS_EXIT, 0, 0, 0, 0, 0, &mut ipc) {
        SyscallStep::Halt { status } => assert_eq!(status, 0),
        _ => panic!("expected a halt"),
    }
}

#[test]
fn send_and_recv_round_trip_in_fifo_order() {
    let mut ipc = IpcSpace::new();
    ipc.create_port(7);
    assert_eq!(sys_send_deliver(7, 41, &b"first".to_vec(), &mut ipc), 0);
    assert_eq!(sys_send_deliver(7, 42, &b"second".to_vec(), &mut ipc), 0);
    match syscall_dispatcher(SYS_RECV, 7, 0x6000, 0, 0, 0, &mut ipc) {
        SyscallStep::CopyOut { value, ptr, bytes } => {
            assert_eq!(value, 41);
            assert_eq!(ptr, 0x6000);
            assert_eq!(bytes, b"first".to_vec());
        },
        _ => panic!("expected a copy-out"),
    }
    match syscall_dispatcher(SYS_RECV, 7, 0x6000, 0, 0, 0, &mut ipc) {
        SyscallStep::CopyOut { value, bytes, .. } => {
            assert_eq!(value, 42);
            assert_eq!(bytes, b"second".to_vec());
        },
        _ => panic!("expected a copy-out"),
    }
    // now empty
    match syscall_dispatcher(SYS_RECV, 7, 0x6000, 0, 0, 0, &mut ipc) {
        SyscallStep::Done(v) => assert_eq!(v, ERRNO_EAGAIN),
        _ => panic!("expected try-again"),
    }
    // absent port
    match syscall_dispatcher(SYS_RECV, 8, 0x6000, 0, 0, 0, &mut ipc) {
        SyscallStep::Done(v) => assert_eq!(v, ERRNO_EINVAL),
        _ => panic!("expected invalid"),
    }
}

#[test]
fn send_errors_match_the_abi() {
    let mut ipc = IpcSpace::new();
    // oversized length is checked first
    match syscall_dispatcher(SYS_SEND, 1, 2, 0x5000, MAX_MSG_SIZE as u64 + 1, 0, &mut ipc) {
        SyscallStep::Done(v) => assert_eq!(v, ERRNO_EINVAL),
        _ => panic!("expected invalid"),
    }
    // then the user range
    match syscall_dispatcher(SYS_SEND, 1, 2, 0, 4, 0, &mut ipc) {
        SyscallStep::Done(v) => assert_eq!(v, ERRNO_EFAULT),
        _ => panic!("expected a fault"),
    }
    // a valid request asks for the copy
    match syscall_dispatcher(SYS_SEND, 1, 2, 0x5000, 4, 0, &mut ipc) {
        SyscallStep::ReadSend { port, msg_type, ptr, len } => {
            assert_eq!((port, msg_type, ptr, len), (1, 2, 0x5000, 4));
        },
        _ => panic!("expected a copy-in request"),
    }
    // missing port
    assert_eq!(sys_send_deliver(1, 2, &b"data".to_vec(), &mut ipc), ERRNO_ENOENT);
    // full queue
    ipc.create_port(1);
    for _ in 0..PORT_QUEUE_LEN {
        assert_eq!(sys_send_deliver(1, 2, &b"x".to_vec(), &mut ipc), 0);
    }
    assert_eq!(sys_send_deliver(1, 2, &b"x".to_vec(), &mut ipc), ERRNO_EAGAIN);
}

#[test]
fn message_padding_is_zero_filled() {
    let m = Message::from_bytes(0, 9, &b"abc".to_vec());
    assert_eq!(m.len, 3);
    assert_eq!(m.data.len(), MAX_MSG_SIZE);
    assert_eq!(&m.data[..3], b"abc");
    assert!(m.data[3..].iter().all(|&b| b == 0));
    let e = Message::empty();
    assert_eq!(e.len, 0);
    assert!(e.data.iter().all(|&b| b == 0));
}

#[test]
fn serial_boot_banner() {
    // after the serial probe the port emits the kernel banner, and the
    // line-status transmit bit is bit 5
    let mut serial = SerialPort::new();
    serial_print(&mut serial, "Serix Kernel Starting.....");
    assert_eq!(serial.tx, b"Serix Kernel Starting.....".to_vec());
    assert!(SerialPort::transmit_ready(0x20));
    assert!(SerialPort::transmit_ready(0xff));
    assert!(!SerialPort::transmit_ready(0x00));
    assert!(!SerialPort::transmit_ready(0xdf));
}

#[test]
fn serial_init_sequence_configures_8n1() {
    let w = SerialPort::init_sequence();
    assert_eq!(
        w,
        vec![(1, 0x00), (3, 0x80), (0, 0x01), (1, 0x00), (3, 0x03), (2, 0xc7), (4, 0x0b)]
    );
}

#[test]
fn page_fault_report_names_the_null_address() {
    let mut serial = SerialPort::new();
    page_fault_report(&mut serial, 0x401000, 0, 2);
    let text = String::from_utf8(serial.tx.clone()).unwrap();
    assert!(text.contains("Page fault address: 0x0\n"));
    assert!(text.contains("Page fault at instruction pointer: 0x401000\n"));
    let bits = page_fault_error_bits(2);
    assert_eq!(bits, (false, true, false, false, false));
}

#[test]
fn hex_formatting_matches_the_kernel_style() {
    let mut serial = SerialPort::new();
    write_hex(&mut serial, 0);
    serial.write_byte(b' ');
    write_hex(&mut serial, 0x2a);
    serial.write_byte(b' ');
    write_hex(&mut serial, 0xdeadbeef);
    assert_eq!(serial.tx, b"0x0 0x2a 0xdeadbeef".to_vec());
}

#[test]
fn panic_report_names_the_location() {
    let mut serial = SerialPort::new();
    panic_report(&mut serial, "main.rs", 327);
    assert_eq!(
        serial.tx,
        b"[KERNEL PANIC]\nLocation: main.rs:327\n".to_vec()
    );
    let mut digits = SerialPort::new();
    write_decimal(&mut digits, 0);
    write_decimal(&mut digits, 1024);
    assert_eq!(digits.tx, b"01024".to_vec());
}

#[test]
fn keyboard_unmask_clears_irq_one() {
    assert_eq!(serix::keyboard::keyboard_unmask(0xff), 0xfd);
    assert_eq!(serix::keyboard::keyboard_unmask(0x02), 0x00);
}

#[test]
fn oops_line_is_prefixed() {
    let mut serial = SerialPort::new();
    oops("Divide by Zero exception", &mut serial);
    assert_eq!(serial.tx, b"[KERNEL OOPS] Divide by Zero exception\n".to_vec());
}

#[test]
fn idt_defaults_and_registration() {
    let mut t = init_idt(0x100, 0x200, 0x300, 0x400);
    assert!(t.loaded);
    assert_eq!(t.entries.len(), 256);
    assert_eq!(
        t.entries[14],
        IdtEntry { present: true, handler: 0x200, kind: HandlerKind::WithErrorCode }
    );
    assert_eq!(
        t.entries[8],
        IdtEntry { present: true, handler: 0x300, kind: HandlerKind::Diverging }
    );
    assert!(!t.entries[32].present);
    t.register_interrupt_handler(32, 0x500, HandlerKind::Basic);
    assert_eq!(
        t.entries[32],
        IdtEntry { present: true, handler: 0x500, kind: HandlerKind::Basic }
    );
    // the other entries are untouched
    assert_eq!(
        t.entries[0],
        IdtEntry { present: true, handler: 0x100, kind: HandlerKind::Basic }
    );
}

#[test]
fn keyboard_scancodes() {
    assert_eq!(scancode_to_ascii(0x10), b'q');
    assert_eq!(scancode_to_ascii(0x1e), b'a');
    assert_eq!(scancode_to_ascii(0x02), b'1');
    let mut serial = SerialPort::new();
    assert_eq!(handle_scancode(0x10, &mut serial), Some(b'q'));
    assert_eq!(serial.tx, b"q".to_vec());
    // break code: ignored
    assert_eq!(handle_scancode(0x90, &mut serial), None);
    // unmapped key: no output
    assert_eq!(handle_scancode(0x2a, &mut serial), None);
    assert_eq!(serial.tx, b"q".to_vec());
}
