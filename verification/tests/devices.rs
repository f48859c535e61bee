//! Device-side logic: PCI configuration arithmetic, the VirtIO handshake,
//! APIC programming values, capabilities, the VFS, and the framebuffer
//! console.

use serix::apic::{
    disable_pic, enable_apic_base, enable_svr, init_ioapic, map_irq, IoApic, LocalApic,
    TickCounter, TIMER_DIVIDE_CONFIG, TIMER_INITIAL_COUNT, TIMER_VECTOR,
};
use serix::capability::{
    Capability, CapabilityHandle, CapabilityStore, CapabilityType, HandleKey,
};
use serix::console::FramebufferConsole;
use serix::drivers::ConsoleDevice;
use serix::pci::{
    decode_bar, enable_bus_master_command, extract_u16, extract_u8, function_count,
    has_capability_list, merge_u16, vendor_absent, PciDevice,
};
use serix::topology::{core_type_from_cpuid, CoreType};
use serix::vfs::{FileType, INode, RamDir, RamFile, VfsNode};
use serix::virtio::{
    capability_step, features_accepted, handshake_set, is_modern_virtio, CapWalk,
    STATUS_ACKNOWLEDGE, STATUS_DRIVER, STATUS_DRIVER_OK, STATUS_FEATURES_OK,
};

#[test]
fn pci_config_address_encoding() {
    let dev = PciDevice { bus: 1, device: 2, function: 3, vendor_id: 0, device_id: 0 };
    assert_eq!(dev.config_address(0x0e), 0x8001_130c);
    assert_eq!(dev.config_address(0x0f), 0x8001_130c); // low bits cleared
}

#[test]
fn pci_narrow_reads_and_writes() {
    let word = 0xaabb_ccdd_u32;
    assert_eq!(extract_u8(word, 0), 0xdd);
    assert_eq!(extract_u8(word, 1), 0xcc);
    assert_eq!(extract_u8(word, 2), 0xbb);
    assert_eq!(extract_u8(word, 3), 0xaa);
    assert_eq!(extract_u16(word, 0), 0xccdd);
    assert_eq!(extract_u16(word, 2), 0xaabb);
    assert_eq!(merge_u16(word, 0, 0x1122), 0xaabb_1122);
    assert_eq!(merge_u16(word, 2, 0x1122), 0x1122_ccdd);
    assert_eq!(enable_bus_master_command(0x0001), 0x0007);
    assert!(has_capability_list(0x0010));
    assert!(!has_capability_list(0x0000));
    assert_eq!(function_count(0x80), 8);
    assert_eq!(function_count(0x00), 1);
    assert!(vendor_absent(0xffff));
    assert!(!vendor_absent(0x1af4));
}

#[test]
fn pci_bar_decoding() {
    assert_eq!(decode_bar(0x0000_0001, 0), None); // I/O space
    assert_eq!(decode_bar(0xfebf_0000, 0), Some(0xfebf_0000)); // 32-bit
    assert_eq!(decode_bar(0xfebf_0004, 0x12), Some(0x12_febf_0000)); // 64-bit
}

#[test]
fn virtio_attachment_decisions() {
    let blk = PciDevice { bus: 0, device: 4, function: 0, vendor_id: 0x1af4, device_id: 0x1042 };
    assert!(is_modern_virtio(&blk));
    let legacy = PciDevice { vendor_id: 0x1af4, device_id: 0x1001, ..blk };
    assert!(!is_modern_virtio(&legacy));
    let other = PciDevice { vendor_id: 0x8086, device_id: 0x1042, ..blk };
    assert!(!is_modern_virtio(&other));

    assert!(matches!(capability_step(1, 0x50), CapWalk::Found));
    assert!(matches!(capability_step(2, 0x50), CapWalk::Next(0x50)));
    assert!(matches!(capability_step(2, 0), CapWalk::End));

    // reset -> ACKNOWLEDGE -> DRIVER -> FEATURES_OK -> verify -> DRIVER_OK
    let mut status = 0u8;
    status = handshake_set(status, STATUS_ACKNOWLEDGE);
    status = handshake_set(status, STATUS_DRIVER);
    status = handshake_set(status, STATUS_FEATURES_OK);
    assert_eq!(status, 0x0b);
    assert!(features_accepted(status));
    assert!(!features_accepted(status & !STATUS_FEATURES_OK));
    status = handshake_set(status, STATUS_DRIVER_OK);
    assert_eq!(status, 0x0f);
}

#[test]
fn apic_bring_up_values() {
    assert_eq!(
        disable_pic(),
        vec![
            (0x20, 0x11),
            (0xa0, 0x11),
            (0x21, 0x20),
            (0xa1, 0x28),
            (0x21, 0x04),
            (0xa1, 0x02),
            (0x21, 0x01),
            (0xa1, 0x01),
            (0x21, 0xff),
            (0xa1, 0xff),
        ]
    );
    assert_eq!(enable_apic_base(0xfee0_0000), Some(0xfee0_0800));
    assert_eq!(enable_apic_base(0xfee0_0800), None);
    assert_eq!(enable_svr(0x0f), 0x10f);
    assert_eq!(map_irq(1, 33), vec![(0x12, 33), (0x13, 0)]);
    assert_eq!(init_ioapic(), vec![(0x12, 33), (0x13, 0), (0x10, 32), (0x11, 0)]);

    let mut lapic = LocalApic::new();
    lapic.set_base(0xffff_8000_fee0_0000);
    assert_eq!(lapic.lapic_reg(0xb0), 0xffff_8000_fee0_00b0);
    assert_eq!(lapic.send_eoi(), (0xb0, 0));
    let writes = lapic.set_timer(TIMER_VECTOR, TIMER_DIVIDE_CONFIG, TIMER_INITIAL_COUNT);
    assert_eq!(writes, vec![(0x3e0, 0x3), (0x320, 32 | 0x20000), (0x380, 100_000)]);

    let mut io = IoApic::new();
    io.set_base(0xffff_8000_fec0_0000);
    assert_eq!(io.ioapic_reg(0x10), 0xffff_8000_fec0_0010);
}

#[test]
fn tick_counter_strictly_increases() {
    let mut t = TickCounter::new();
    let first = t.ticks();
    t.on_timer_interrupt();
    let second = t.ticks();
    t.on_timer_interrupt();
    let third = t.ticks();
    assert!(first < second && second < third);
    assert_eq!(third, 2);
}

#[test]
fn core_type_classification() {
    assert_eq!(core_type_from_cpuid(0x20 << 24), CoreType::Efficiency);
    assert_eq!(core_type_from_cpuid(0x40 << 24), CoreType::Performance);
    assert_eq!(core_type_from_cpuid(0), CoreType::Unknown);
}

#[test]
fn capability_generation_is_seed_determined() {
    let h1 = CapabilityHandle::generate(12345);
    let h2 = CapabilityHandle::generate(12345);
    let h3 = CapabilityHandle::generate(54321);
    assert_eq!(h1, h2);
    assert_ne!(h1, h3);
    assert_ne!(h1.key.low, h1.key.high);
    let named = CapabilityHandle::new(HandleKey { low: 1, high: 2 });
    assert_eq!(named.key, HandleKey { low: 1, high: 2 });
}

#[test]
fn capability_store_keeps_keys_unique() {
    let mut store = CapabilityStore::new();
    let cap = Capability {
        cap_type: CapabilityType::IODevice,
        handle: CapabilityHandle::generate(7),
    };
    assert!(store.add_capability(cap));
    assert!(!store.add_capability(cap)); // same key refused
    let got = store.get_capability(cap.handle.key).unwrap();
    assert_eq!(got.cap_type, CapabilityType::IODevice);
    assert!(store.remove_capability(cap.handle.key));
    assert!(!store.remove_capability(cap.handle.key));
    assert!(store.get_capability(cap.handle.key).is_none());
}

#[test]
fn ram_file_read_write_round_trip() {
    let mut f = RamFile::new("system.log");
    let msg = b"Serix Kernel Phase 3 OK".to_vec();
    assert_eq!(f.write(0, &msg), msg.len());
    assert_eq!(f.size(), msg.len());
    assert_eq!(f.read(0, msg.len()), msg);
    assert_eq!(f.metadata(), FileType::File);
    // a write past the end zero-fills the gap
    let mut g = RamFile::new("sparse");
    g.write(4, &vec![9, 9]);
    assert_eq!(g.read(0, 16), vec![0, 0, 0, 0, 9, 9]);
    // overwrite in place
    g.write(0, &vec![1]);
    assert_eq!(g.read(0, 16), vec![1, 0, 0, 0, 9, 9]);
    // reads past the end are empty
    assert!(g.read(100, 4).is_empty());
}

#[test]
fn ram_dir_names_are_unique() {
    let mut d = RamDir::new("root");
    assert!(d.insert("init", VfsNode::File(RamFile::new("init"))).is_ok());
    assert_eq!(
        d.insert("init", VfsNode::File(RamFile::new("other"))),
        Err("File exists")
    );
    assert!(d.lookup("init").is_some());
    assert!(d.lookup("missing").is_none());
    assert_eq!(d.metadata(), FileType::Directory);
    assert_eq!(d.size(), 0);
    assert!(d.read(0, 8).is_empty());
}

#[test]
fn console_device_prints_utf8_lines() {
    let mut c = ConsoleDevice::new();
    assert_eq!(c.metadata(), FileType::Device);
    assert_eq!(c.write(0, &b"hello".to_vec()), 5);
    assert_eq!(c.serial.tx, b"hello\n".to_vec());
    // invalid UTF-8 is refused with nothing printed
    assert_eq!(c.write(0, &vec![0xff, 0x00]), 0);
    assert_eq!(c.serial.tx, b"hello\n".to_vec());
    assert!(c.read(0, 4).is_empty());
}

fn small_console() -> FramebufferConsole {
    // 16x32 pixels: two columns, two lines
    FramebufferConsole::new(16, 32, 64, vec![0xa5; 1536])
}

#[test]
fn console_cursor_wraps_and_scrolls() {
    let mut c = small_console();
    assert_eq!((c.cursor_x, c.cursor_y), (0, 0));
    c.put_char(b'a');
    assert_eq!((c.cursor_x, c.cursor_y), (1, 0));
    c.put_char(b'b'); // wraps to the next line
    assert_eq!((c.cursor_x, c.cursor_y), (0, 1));
    c.put_char(b'\r');
    assert_eq!((c.cursor_x, c.cursor_y), (0, 1));
    c.put_char(b'\n'); // off the bottom: scrolls, pinned to the last line
    assert_eq!((c.cursor_x, c.cursor_y), (0, 1));
}

#[test]
fn console_scroll_moves_lines_up() {
    let mut c = small_console();
    // paint the second line's first byte through a glyph, then scroll
    c.put_char(b'X');
    let before = c.buf.clone();
    c.scroll_up();
    let line = 16 * 64;
    assert_eq!(&c.buf[..before.len() - line], &before[line..]);
    assert!(c.buf[before.len() - line..].iter().all(|&b| b == 0));
}

#[test]
fn console_write_string_keeps_geometry() {
    let mut c = small_console();
    c.write_string("hello\nworld\n");
    assert_eq!(c.buf.len(), 32 * 64);
    assert_eq!(c.cursor_x, 0);
}
