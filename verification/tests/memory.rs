use os4::config::{
    kernel_stack_position, KERNEL_STACK_SIZE, MAX_SYSCALL_NUM, PAGE_SIZE, PAGE_SIZE_BITS,
    TRAMPOLINE, TRAP_CONTEXT,
};
use os4::mm::address::{PhysPageNum, VirtAddr, VirtPageNum};
use os4::mm::memory_set::{MapPermission, MemorySet, PERM_R, PERM_U, PERM_W, PERM_X};
use os4::task::task::{AppImage, TaskControlBlock, TaskStatus};

fn mapped_pages(space: &MemorySet, from: usize, to: usize) -> Vec<usize> {
    (from..to).filter(|p| space.is_mapped(VirtPageNum(*p))).collect()
}

fn image(token: usize) -> AppImage {
    let mut memory_set = MemorySet::new_bare(token);
    memory_set.insert_framed_area(
        VirtAddr(TRAP_CONTEXT),
        VirtAddr(TRAMPOLINE),
        MapPermission::kernel_rw(),
    );
    AppImage { memory_set, user_sp: 0x4_2000, trap_cx_ppn: PhysPageNum(0x8_1234) }
}

#[test]
fn page_size_is_two_to_the_page_bits() {
    assert_eq!(PAGE_SIZE, 1 << PAGE_SIZE_BITS);
    assert_eq!(TRAMPOLINE % PAGE_SIZE, 0);
    assert_eq!(TRAP_CONTEXT, TRAMPOLINE - PAGE_SIZE);
    assert_eq!(TRAMPOLINE.wrapping_add(PAGE_SIZE), 0);
}

#[test]
fn virtual_addresses_round_to_pages() {
    assert_eq!(VirtAddr(0).floor(), VirtPageNum(0));
    assert_eq!(VirtAddr(0).ceil(), VirtPageNum(0));
    assert_eq!(VirtAddr(1).floor(), VirtPageNum(0));
    assert_eq!(VirtAddr(1).ceil(), VirtPageNum(1));
    assert_eq!(VirtAddr(0x1000).floor(), VirtPageNum(1));
    assert_eq!(VirtAddr(0x1000).ceil(), VirtPageNum(1));
    assert_eq!(VirtAddr(0x1fff).floor(), VirtPageNum(1));
    assert_eq!(VirtAddr(0x1fff).ceil(), VirtPageNum(2));
    assert_eq!(VirtAddr(usize::MAX).floor(), VirtPageNum(usize::MAX / PAGE_SIZE));
    assert_eq!(VirtAddr(usize::MAX).ceil(), VirtPageNum(usize::MAX / PAGE_SIZE + 1));
}

#[test]
fn page_offset_and_alignment() {
    assert_eq!(VirtAddr(0x1000_0000).page_offset(), 0);
    assert!(VirtAddr(0x1000_0000).aligned());
    assert_eq!(VirtAddr(0x1000_0001).page_offset(), 1);
    assert!(!VirtAddr(0x1000_0001).aligned());
    assert_eq!(VirtAddr(0x1000_0fff).page_offset(), 0xfff);
    assert_eq!(VirtAddr::from(0x2345usize), VirtAddr(0x2345));
    assert_eq!(VirtAddr::from(0x2345usize).page_offset(), 0x345);
}

#[test]
fn port_bits_become_permissions() {
    let expected = [
        (1usize, true, false, false),
        (2, false, true, false),
        (3, true, true, false),
        (4, false, false, true),
        (5, true, false, true),
        (6, false, true, true),
        (7, true, true, true),
    ];
    for (port, r, w, x) in expected {
        let perm = MapPermission::from_port(port);
        assert_eq!(perm.bits as usize, 2 * port + 16);
        assert_eq!((perm.readable(), perm.writable(), perm.executable()), (r, w, x));
        assert!(perm.user());
    }
    assert_eq!(MapPermission::from_port(3).bits, PERM_R | PERM_W | PERM_U);
    assert_eq!(MapPermission::from_port(4).bits, PERM_X | PERM_U);
}

#[test]
fn kernel_stacks_lie_below_the_trampoline_with_guard_pages() {
    assert_eq!(kernel_stack_position(0), (TRAMPOLINE - KERNEL_STACK_SIZE, TRAMPOLINE));
    let stride = KERNEL_STACK_SIZE + PAGE_SIZE;
    assert_eq!(
        kernel_stack_position(1),
        (TRAMPOLINE - stride - KERNEL_STACK_SIZE, TRAMPOLINE - stride)
    );
    let (bottom, top) = kernel_stack_position(5);
    assert_eq!(top, TRAMPOLINE - 5 * 0x3000);
    assert_eq!(top - bottom, 0x2000);
    assert_eq!(kernel_stack_position(4).0 - top, PAGE_SIZE);
}

#[test]
fn a_bare_address_space_maps_nothing() {
    let space = MemorySet::new_bare(42);
    assert_eq!(space.token(), 42);
    assert!(!space.is_mapped(VirtPageNum(0)));
    assert_eq!(space.permission_of(VirtPageNum(5)), None);
    assert!(space.is_range_free(VirtPageNum(0), VirtPageNum(usize::MAX)));
    assert!(!space.is_range_mapped(VirtPageNum(0), VirtPageNum(1)));
    assert!(space.is_range_mapped(VirtPageNum(3), VirtPageNum(3)));
}

#[test]
fn mmap_maps_whole_pages_with_the_ports_permissions() {
    let mut space = MemorySet::new_bare(1);
    assert_eq!(space.mmap(VirtAddr(0x10_0000), VirtAddr(0x10_2001), 5), 0);
    assert_eq!(mapped_pages(&space, 0xfe, 0x106), vec![0x100, 0x101, 0x102]);
    assert_eq!(space.permission_of(VirtPageNum(0x102)), Some(MapPermission { bits: 26 }));
    assert_eq!(space.permission_of(VirtPageNum(0x103)), None);
    assert_eq!(space.token(), 1);
}

#[test]
fn mmap_of_a_mapped_page_fails_and_changes_nothing() {
    let mut space = MemorySet::new_bare(1);
    assert_eq!(space.mmap(VirtAddr(0x4000), VirtAddr(0x6000), 3), 0);
    assert_eq!(space.mmap(VirtAddr(0x5000), VirtAddr(0x6000), 1), -1);
    assert_eq!(space.mmap(VirtAddr(0x3000), VirtAddr(0x4001), 1), -1);
    assert_eq!(space.mmap(VirtAddr(0x1000), VirtAddr(0x9000), 7), -1);
    assert_eq!(mapped_pages(&space, 0, 16), vec![4, 5]);
    assert_eq!(space.permission_of(VirtPageNum(5)), Some(MapPermission::from_port(3)));
    assert_eq!(space.mmap(VirtAddr(0x3000), VirtAddr(0x4000), 1), 0);
    assert_eq!(space.mmap(VirtAddr(0x6000), VirtAddr(0x7000), 4), 0);
    assert_eq!(mapped_pages(&space, 0, 16), vec![3, 4, 5, 6]);
    assert_eq!(space.permission_of(VirtPageNum(3)), Some(MapPermission::from_port(1)));
    assert_eq!(space.permission_of(VirtPageNum(6)), Some(MapPermission::from_port(4)));
}

#[test]
fn unmap_removes_exactly_the_range() {
    let mut space = MemorySet::new_bare(1);
    assert_eq!(space.mmap(VirtAddr(0x2000), VirtAddr(0x8000), 3), 0);
    assert_eq!(space.unmap(VirtAddr(0x4000), VirtAddr(0x6000)), 0);
    assert_eq!(mapped_pages(&space, 0, 16), vec![2, 3, 6, 7]);
    assert_eq!(space.permission_of(VirtPageNum(3)), Some(MapPermission::from_port(3)));
    assert_eq!(space.permission_of(VirtPageNum(6)), Some(MapPermission::from_port(3)));
    assert_eq!(space.unmap(VirtAddr(0x2000), VirtAddr(0x3000)), 0);
    assert_eq!(space.unmap(VirtAddr(0x7000), VirtAddr(0x8000)), 0);
    assert_eq!(mapped_pages(&space, 0, 16), vec![3, 6]);
}

#[test]
fn unmap_spans_several_areas() {
    let mut space = MemorySet::new_bare(1);
    assert_eq!(space.mmap(VirtAddr(0x1000), VirtAddr(0x3000), 1), 0);
    assert_eq!(space.mmap(VirtAddr(0x3000), VirtAddr(0x5000), 2), 0);
    assert_eq!(space.mmap(VirtAddr(0x5000), VirtAddr(0x7000), 4), 0);
    assert!(space.is_range_mapped(VirtPageNum(1), VirtPageNum(7)));
    assert_eq!(space.unmap(VirtAddr(0x2000), VirtAddr(0x6000)), 0);
    assert_eq!(mapped_pages(&space, 0, 16), vec![1, 6]);
    assert_eq!(space.permission_of(VirtPageNum(1)), Some(MapPermission::from_port(1)));
    assert_eq!(space.permission_of(VirtPageNum(6)), Some(MapPermission::from_port(4)));
}

#[test]
fn unmap_of_a_range_with_a_hole_fails_and_changes_nothing() {
    let mut space = MemorySet::new_bare(1);
    assert_eq!(space.mmap(VirtAddr(0x1000), VirtAddr(0x3000), 3), 0);
    assert_eq!(space.mmap(VirtAddr(0x4000), VirtAddr(0x5000), 3), 0);
    assert_eq!(space.unmap(VirtAddr(0x1000), VirtAddr(0x5000)), -1);
    assert_eq!(space.unmap(VirtAddr(0x0000), VirtAddr(0x2000)), -1);
    assert_eq!(space.unmap(VirtAddr(0x2000), VirtAddr(0x3001)), -1);
    assert_eq!(space.unmap(VirtAddr(0x8000), VirtAddr(0x9000)), -1);
    assert_eq!(mapped_pages(&space, 0, 16), vec![1, 2, 4]);
}

#[test]
fn a_range_mapped_and_unmapped_can_be_mapped_again() {
    let mut space = MemorySet::new_bare(1);
    for _ in 0..3 {
        assert_eq!(space.mmap(VirtAddr(0x1000_0000), VirtAddr(0x1000_3000), 3), 0);
        assert_eq!(mapped_pages(&space, 0xffff, 0x1_0004), vec![0x1_0000, 0x1_0001, 0x1_0002]);
        assert_eq!(space.unmap(VirtAddr(0x1000_0000), VirtAddr(0x1000_3000)), 0);
        assert!(space.is_range_free(VirtPageNum(0), VirtPageNum(usize::MAX)));
    }
}

#[test]
fn range_queries_tell_free_from_mapped() {
    let mut space = MemorySet::new_bare(1);
    assert_eq!(space.mmap(VirtAddr(0x3000), VirtAddr(0x5000), 3), 0);
    assert!(space.is_range_free(VirtPageNum(0), VirtPageNum(3)));
    assert!(!space.is_range_free(VirtPageNum(0), VirtPageNum(4)));
    assert!(!space.is_range_free(VirtPageNum(4), VirtPageNum(9)));
    assert!(space.is_range_free(VirtPageNum(5), VirtPageNum(9)));
    assert!(space.is_range_free(VirtPageNum(4), VirtPageNum(4)));
    assert!(space.is_range_mapped(VirtPageNum(3), VirtPageNum(5)));
    assert!(space.is_range_mapped(VirtPageNum(4), VirtPageNum(5)));
    assert!(!space.is_range_mapped(VirtPageNum(3), VirtPageNum(6)));
    assert!(!space.is_range_mapped(VirtPageNum(2), VirtPageNum(4)));
}

#[test]
fn insert_framed_area_rounds_outwards() {
    let mut space = MemorySet::new_bare(1);
    let perm = MapPermission { bits: PERM_R | PERM_X | PERM_U };
    space.insert_framed_area(VirtAddr(0x2fff), VirtAddr(0x4001), perm);
    assert_eq!(mapped_pages(&space, 0, 16), vec![2, 3, 4]);
    assert_eq!(space.permission_of(VirtPageNum(4)), Some(perm));
    space.insert_framed_area(VirtAddr(0x9000), VirtAddr(0x9000), perm);
    assert_eq!(mapped_pages(&space, 0, 16), vec![2, 3, 4]);
}

#[test]
fn a_new_task_is_ready_with_zeroed_counters() {
    let mut kernel_space = MemorySet::new_bare(9);
    let task = TaskControlBlock::new(image(77), 2, &mut kernel_space, 0x8020_0040);
    assert_eq!(task.task_status, TaskStatus::Ready);
    assert_eq!(task.base_size, 0x4_2000);
    assert_eq!(task.trap_cx_ppn, PhysPageNum(0x8_1234));
    assert_eq!(task.get_trap_cx(), PhysPageNum(0x8_1234));
    assert_eq!(task.get_user_token(), 77);
    assert_eq!(task.syscall_counter, vec![0u32; MAX_SYSCALL_NUM]);
    assert_eq!(task.task_cx.ra, 0x8020_0040);
    assert_eq!(task.task_cx.sp, TRAMPOLINE - 2 * 0x3000);
    assert_eq!(task.task_cx.s, [0usize; 12]);
    assert!(task.memory_set.is_mapped(VirtPageNum(TRAP_CONTEXT / PAGE_SIZE)));
    let top = TRAMPOLINE / PAGE_SIZE - 6;
    assert_eq!(mapped_pages(&kernel_space, top - 4, top + 2), vec![top - 2, top - 1]);
    assert_eq!(kernel_space.token(), 9);
}

#[test]
fn a_task_counts_its_syscalls() {
    let mut kernel_space = MemorySet::new_bare(9);
    let mut task = TaskControlBlock::new(image(1), 0, &mut kernel_space, 0);
    task.record_syscall(124);
    task.record_syscall(124);
    task.record_syscall(410);
    let record = task.get_record_syscall();
    assert_eq!((record[124], record[410], record[0]), (2, 1, 0));
    assert_eq!(record.iter().map(|c| *c as usize).sum::<usize>(), 3);
    task.record_syscall(124);
    assert_eq!(record[124], 2);
    assert_eq!(task.get_record_syscall()[124], 3);
}

#[test]
fn a_task_maps_and_unmaps_in_its_own_address_space() {
    let mut kernel_space = MemorySet::new_bare(9);
    let mut task = TaskControlBlock::new(image(1), 0, &mut kernel_space, 0);
    assert_eq!(task.mmap(VirtAddr(0x1000), VirtAddr(0x3000), 3), 0);
    assert_eq!(task.mmap(VirtAddr(0x2000), VirtAddr(0x3000), 3), -1);
    assert_eq!(mapped_pages(&task.memory_set, 0, 8), vec![1, 2]);
    assert_eq!(task.unmap(VirtAddr(0x1000), VirtAddr(0x4000)), -1);
    assert_eq!(task.unmap(VirtAddr(0x1000), VirtAddr(0x3000)), 0);
    assert_eq!(mapped_pages(&task.memory_set, 0, 8), Vec::<usize>::new());
    assert_eq!(task.mmap(VirtAddr(TRAP_CONTEXT), VirtAddr(TRAMPOLINE), 3), -1);
    assert!(!kernel_space.is_mapped(VirtPageNum(1)));
    assert_eq!(task.task_status, TaskStatus::Ready);
}
