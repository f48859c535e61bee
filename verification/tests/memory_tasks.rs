//! Frame allocation, address-space construction, the GDT layout, and the
//! cooperative executor, on concrete values.

use serix::executor::{AsyncTask, Executor, TaskFuture};
use serix::gdt::{init, star_config, PerCpuData, Selectors, STAR_USER_BASE};
use serix::heap::{init_heap, StaticBootFrameAllocator, HEAP_START};
use serix::memory::{BootFrameAllocator, FrameSource, MemRegion, RegionKind};
use serix::paging::{
    allocate_user_stack, create_user_page_table, map_mmio, map_segment, segment_page_flags,
    AddressSpace, USER_STACK_TOP,
};
use serix::syscall::init_syscalls;
use serix::task::{
    task_yield, AsyncTask as Pollable, AsyncTaskExample, SchedClass, Scheduler, TaskBuilder,
    TaskCB, TaskId, TaskManager, TaskPoll, TaskState,
};
use serix::yield_now::YieldNow;

fn usable(base: u64, length: u64) -> MemRegion {
    MemRegion { base, length, kind: RegionKind::Usable }
}

fn test_allocator(frames: u64) -> BootFrameAllocator {
    BootFrameAllocator::new(&vec![usable(0x10_0000, frames * 4096)])
}

#[test]
fn allocator_enumerates_usable_regions_only() {
    let regions = vec![
        usable(0x1000, 0x2000),
        MemRegion { base: 0x8000, length: 0x1000, kind: RegionKind::Reserved },
        usable(0x10000, 0x1000),
    ];
    let a = BootFrameAllocator::new(&regions);
    assert_eq!(a.frames, vec![0x1000, 0x2000, 0x10000]);
}

#[test]
fn no_frame_is_returned_twice() {
    let mut a = test_allocator(3);
    let f1 = a.allocate_frame().unwrap();
    let f2 = a.allocate_frame().unwrap();
    let f3 = a.allocate_frame().unwrap();
    assert!(f1 != f2 && f2 != f3 && f1 != f3);
    assert_eq!(a.allocate_frame(), None);
    assert_eq!(a.allocate_frame(), None);
}

#[test]
fn static_allocator_skips_empty_slots_and_never_repeats() {
    let frames = vec![Some(0x1000), None, Some(0x3000), Some(0x4000)];
    let mut a = StaticBootFrameAllocator::new(frames, 4);
    assert_eq!(a.allocate_frame(), Some(0x1000));
    assert_eq!(a.allocate_frame(), Some(0x3000));
    assert_eq!(a.allocate_frame(), Some(0x4000));
    assert_eq!(a.allocate_frame(), None);
}

#[test]
fn fresh_user_page_table_shares_the_kernel_half() {
    let mut a = test_allocator(1);
    let kernel_half: Vec<u64> = (0..256u64).map(|i| 0xffff_8000_0000_0000 | i).collect();
    let space = create_user_page_table(&mut a, &kernel_half).unwrap();
    assert_eq!(space.pml4_frame, 0x10_0000);
    assert_eq!(space.kernel_half, kernel_half);
    assert!(space.pages.is_empty());
    // out of frames: no table
    assert!(create_user_page_table(&mut a, &kernel_half).is_none());
}

#[test]
fn map_segment_places_file_bytes_and_zero_fill() {
    // a writable, non-executable segment of 5000 bytes spanning two pages,
    // starting mid-page
    let vaddr = 0x40_0800u64;
    let filesz = 100usize;
    let memsz = 5000usize;
    let mut data: Vec<u8> = (0..filesz).map(|i| (i % 251) as u8 + 1).collect();
    data.resize(memsz, 0);
    let seg = serix::elf::LoadableSegment {
        virtual_address: vaddr,
        size: memsz as u64,
        flags: serix::elf::SegmentFlags { readable: true, writable: true, executable: false },
        data,
    };
    let mut alloc = test_allocator(8);
    let mut space = AddressSpace::new(0x9000, vec![0u64; 256]);
    map_segment(&mut space, &mut alloc, &seg);
    // pages 0x400000 and 0x401000 are mapped with PRESENT|WRITABLE|USER|NX
    let expected_flags = segment_page_flags(seg.flags);
    assert_eq!(expected_flags, 0x8000_0000_0000_0007);
    let mut checked = 0;
    for page in &space.pages {
        assert_eq!(page.flags, expected_flags);
        if page.page == 0x40_0000 {
            // bytes before the segment start read zero (freshly zeroed page)
            assert!(page.bytes[..0x800].iter().all(|&b| b == 0));
            assert_eq!(&page.bytes[0x800..0x800 + filesz], &seg.data[..filesz]);
            assert!(page.bytes[0x800 + filesz..].iter().all(|&b| b == 0));
            checked += 1;
        }
        if page.page == 0x40_1000 {
            // entirely BSS: zero
            assert!(page.bytes.iter().all(|&b| b == 0));
            checked += 1;
        }
    }
    assert_eq!(checked, 2);
    assert_eq!(space.pages.len(), 2);
}

#[test]
fn map_segment_reuses_an_existing_mapping() {
    // map a read-execute segment, then an overlapping writable one: the
    // shared page keeps its first frame and flags, and both contents land
    let code_seg = serix::elf::LoadableSegment {
        virtual_address: 0x40_0000,
        size: 16,
        flags: serix::elf::SegmentFlags { readable: true, writable: false, executable: true },
        data: vec![0xaa; 16],
    };
    let data_seg = serix::elf::LoadableSegment {
        virtual_address: 0x40_0100,
        size: 16,
        flags: serix::elf::SegmentFlags { readable: true, writable: true, executable: false },
        data: vec![0xbb; 16],
    };
    let mut alloc = test_allocator(8);
    let mut space = AddressSpace::new(0x9000, vec![0u64; 256]);
    map_segment(&mut space, &mut alloc, &code_seg);
    let first_frame = space.pages[0].frame;
    let first_flags = space.pages[0].flags;
    map_segment(&mut space, &mut alloc, &data_seg);
    assert_eq!(space.pages.len(), 1);
    assert_eq!(space.pages[0].frame, first_frame);
    assert_eq!(space.pages[0].flags, first_flags);
    assert_eq!(&space.pages[0].bytes[0..16], &[0xaa; 16]);
    assert_eq!(&space.pages[0].bytes[0x100..0x110], &[0xbb; 16]);
}

#[test]
fn user_stack_sits_below_the_canonical_gap() {
    let mut alloc = test_allocator(4);
    let mut space = AddressSpace::new(0x9000, vec![0u64; 256]);
    let top = allocate_user_stack(&mut space, &mut alloc);
    assert_eq!(top, USER_STACK_TOP);
    assert_eq!(top, 0x7fff_ffff_f000);
    assert_eq!(space.pages.len(), 4);
    for page in &space.pages {
        assert_eq!(page.flags, 7); // PRESENT | WRITABLE | USER
        assert!(page.bytes.iter().all(|&b| b == 0));
        assert!(page.page >= 0x7fff_ffff_b000 && page.page < top);
    }
}

#[test]
fn heap_pages_are_writable_supervisor_mappings() {
    let mut alloc = test_allocator(300);
    let mut space = AddressSpace::new(0x9000, vec![0u64; 256]);
    init_heap(&mut space, &mut alloc);
    assert_eq!(space.pages.len(), 256);
    for (k, page) in space.pages.iter().enumerate() {
        assert_eq!(page.page, HEAP_START + 4096 * k as u64);
        assert_eq!(page.flags, 3); // PRESENT | WRITABLE
        assert_eq!(page.frame, 0x10_0000 + 4096 * k as u64);
    }
}

#[test]
fn mmio_mapping_is_uncached_writable() {
    let mut space = AddressSpace::new(0x9000, vec![0u64; 256]);
    map_mmio(&mut space, 0xfee0_0123, 0xffff_8000_fee0_0123);
    assert_eq!(space.pages.len(), 1);
    assert_eq!(space.pages[0].page, 0xffff_8000_fee0_0000);
    assert_eq!(space.pages[0].frame, 0xfee0_0000);
    assert_eq!(space.pages[0].flags, 0x13); // PRESENT | WRITABLE | NO_CACHE
}

#[test]
fn gdt_selectors_obey_the_sysret_contract() {
    // the three user-mode selectors lie at consecutive GDT indices, so
    // SYSRET's base+8 is user SS and base+16 is user CS
    let g = init(0xffff_9000_0000_0000);
    assert_eq!(
        g.selectors,
        Selectors {
            kernel_code: 0x08,
            kernel_data: 0x10,
            user_data: 0x23,
            user_code: 0x2b,
            tss_selector: 0x30,
        }
    );
    assert_eq!(g.selectors.user_data, STAR_USER_BASE + 8);
    assert_eq!(g.selectors.user_code, STAR_USER_BASE + 16);
    assert_eq!(g.tss.ist_double_fault, 0xffff_9000_0000_0000);
    assert_eq!(star_config(&g.selectors), Ok((STAR_USER_BASE, 0x08)));
    // a layout breaking the derivation is refused
    let broken = Selectors { user_code: 0x33, ..g.selectors };
    assert_eq!(star_config(&broken), Err(()));
}

#[test]
fn syscall_msrs_follow_the_gdt() {
    let g = init(0);
    let plan = init_syscalls(&g.selectors, 0xffff_8000_1234_0000).unwrap();
    assert!(plan.efer_sce);
    assert_eq!(plan.lstar, 0xffff_8000_1234_0000);
    assert_eq!(plan.star_sysret_base, 0x1b);
    assert_eq!(plan.star_syscall_base, 0x08);
    assert_eq!(plan.sfmask, 0x300); // IF | TF
}

#[test]
fn per_cpu_and_tss_stack_slots() {
    let mut g = init(0);
    g.set_kernel_stack(0xffff_a000_0000_0000);
    assert_eq!(g.tss.rsp0, 0xffff_a000_0000_0000);
    let mut cpu = PerCpuData::new();
    cpu.set_syscall_stack(0xffff_b000_0000_0000);
    assert_eq!(cpu.kernel_stack, 0xffff_b000_0000_0000);
    assert_eq!(cpu.scratch, 0);
}

#[test]
fn yield_is_ready_on_exactly_the_second_poll() {
    let mut y = YieldNow::new();
    assert!(!y.poll()); // first poll: pending, wakes itself
    assert!(y.poll()); // second poll: ready
    assert!(y.poll());
}

#[test]
fn yield_task_completes_in_two_passes() {
    let mut e = Executor::new();
    e.spawn(AsyncTask::new(TaskFuture::Yielding(YieldNow::new())));
    e.poll_all();
    assert_eq!(e.tasks.len(), 1); // pending once
    e.poll_all();
    assert_eq!(e.tasks.len(), 0); // ready on the second poll
}

#[test]
fn every_task_completes_in_bounded_passes() {
    let mut e = Executor::new();
    e.spawn(AsyncTask::new(TaskFuture::CountDown { remaining: 2 }));
    e.spawn(AsyncTask::new(TaskFuture::CountDown { remaining: 3 }));
    e.spawn(AsyncTask::new(TaskFuture::CountDown { remaining: 4 }));
    let mut passes = 0;
    while e.tasks.len() > 0 {
        e.poll_all();
        passes += 1;
        assert!(passes <= 4);
    }
    assert_eq!(passes, 4);
}

#[test]
fn pending_tasks_cost_one_poll_per_pass() {
    // a never-ready task must not starve the others: after each pass every
    // task has been polled exactly once
    let mut e = Executor::new();
    e.spawn(AsyncTask::new(TaskFuture::CountDown { remaining: 1000 }));
    e.spawn(AsyncTask::new(TaskFuture::CountDown { remaining: 2 }));
    e.poll_all();
    assert_eq!(e.tasks.len(), 2);
    match e.tasks[0].future {
        TaskFuture::CountDown { remaining } => assert_eq!(remaining, 999),
        _ => panic!("wrong future"),
    }
    match e.tasks[1].future {
        TaskFuture::CountDown { remaining } => assert_eq!(remaining, 1),
        _ => panic!("wrong future"),
    }
    e.poll_all();
    // the short task completed, the long one lost exactly one more poll
    assert_eq!(e.tasks.len(), 1);
    match e.tasks[0].future {
        TaskFuture::CountDown { remaining } => assert_eq!(remaining, 998),
        _ => panic!("wrong future"),
    }
}

#[test]
fn executor_cursor_rotates() {
    let mut e = Executor::new();
    e.spawn(AsyncTask::new(TaskFuture::CountDown { remaining: 5 }));
    e.spawn(AsyncTask::new(TaskFuture::CountDown { remaining: 5 }));
    assert_eq!(e.current_task_index, 0);
    e.poll_next_task();
    assert_eq!(e.current_task_index, 1);
    e.task_yield();
    assert_eq!(e.current_task_index, 0);
}

#[test]
fn task_control_blocks() {
    let t = TaskCB::new("init", 0x400000, 0xffff_8000_0000_1009, SchedClass::Fair(120), 0x1000,
        TaskId::new(1));
    assert_eq!(t.context.rsp, 0xffff_8000_0000_1000); // aligned down to 16
    assert_eq!(t.context.rip, 0x400000);
    assert_eq!(t.context.rflags, 0x202);
    assert_eq!(t.context.cs, 0x8);
    assert_eq!(t.context.ss, 0x10);
    assert_eq!(t.context.cr3, 0x1000);
    assert_eq!(t.state, TaskState::Ready);
    assert_eq!(t.priority(), 120);
    assert_eq!(TaskCB::new("a", 0, 0, SchedClass::Batch, 0, TaskId::new(2)).priority(), 140);
    assert_eq!(TaskCB::new("a", 0, 0, SchedClass::Iso, 0, TaskId::new(3)).priority(), 50);
    assert_eq!(TaskId::new(5).as_u64(), 5);
}

#[test]
fn task_builder_defaults() {
    let b = TaskBuilder::new("worker");
    assert_eq!(b.stack_size, 8192);
    assert!(matches!(b.sched_class, SchedClass::Fair(120)));
    let t = b.sched_class(SchedClass::Realtime(5)).stack_size(16384).build_kernel_task(
        0x400000, 0x1000, TaskId::new(4),
    );
    assert_eq!(t.kstack, 0xffff_ff80_0000_0000 + 16384);
    assert_eq!(t.priority(), 5);
}

#[test]
fn counting_task_polls_to_completion() {
    let mut t = AsyncTaskExample::new(3);
    assert!(matches!(t.poll(), TaskPoll::Pending));
    assert!(matches!(t.poll(), TaskPoll::Pending));
    match t.poll() {
        TaskPoll::Ready(v) => assert_eq!(v, 3),
        TaskPoll::Pending => panic!("should be ready on the third poll"),
    }
}

#[test]
fn round_robin_picks_the_next_ready_task() {
    let mk = |id: u64, state: TaskState| {
        let mut t = TaskCB::new("t", 0, 0, SchedClass::Fair(120), 0, TaskId::new(id));
        t.set_state(state);
        t
    };
    let mut m = TaskManager::new();
    m.add_task(mk(1, TaskState::Running));
    m.add_task(mk(2, TaskState::Blocked));
    m.add_task(mk(3, TaskState::Ready));
    let picked = m.next_ready_task().unwrap();
    assert_eq!(picked.id.as_u64(), 3);
    assert_eq!(m.current_task_idx, 0); // just past index 2, wrapping
    // update the picked task to running; the table reflects it
    let mut running = picked;
    running.set_state(TaskState::Running);
    m.update_task(running);
    assert_eq!(m.tasks[2].state, TaskState::Running);
    // nothing ready any more
    assert!(m.next_ready_task().is_none());
}

#[test]
fn scheduler_yield_hands_over_to_the_next_ready_task() {
    let mk = |id: u64, state: TaskState| {
        let mut t = TaskCB::new("t", 0, 0, SchedClass::Fair(120), 0, TaskId::new(id));
        t.set_state(state);
        t
    };
    let mut s = Scheduler::new();
    s.add_task(mk(1, TaskState::Running));
    s.add_task(mk(2, TaskState::Ready));
    s.add_task(mk(3, TaskState::Ready));
    assert_eq!(s.task_count(), 3);
    let (from, to) = task_yield(&mut s).unwrap();
    assert_eq!((from, to), (0, 1));
    assert_eq!(s.tasks[0].state, TaskState::Ready);
    assert_eq!(s.tasks[1].state, TaskState::Running);
    assert_eq!(s.current, 1);
    // with no other task ready, yield declines
    s.tasks[0].set_state(TaskState::Blocked);
    s.tasks[2].set_state(TaskState::Blocked);
    assert!(task_yield(&mut s).is_none());
    // the first switch out of boot
    let mut s2 = Scheduler::new();
    s2.add_task(mk(1, TaskState::Running));
    s2.add_task(mk(2, TaskState::Ready));
    let (from2, to2) = s2.start();
    assert_eq!((from2, to2), (0, 1));
    assert_eq!(s2.tasks[1].state, TaskState::Running);
}
