use os4::config::{MAX_SYSCALL_NUM, PAGE_SIZE, TRAMPOLINE, TRAP_CONTEXT};
use os4::mm::address::{PhysPageNum, VirtAddr};
use os4::mm::memory_set::{MapPermission, MemorySet};
use os4::syscall::process::{
    check_mmap_port, sys_exit, sys_get_time, sys_mmap, sys_munmap, sys_set_priority,
    sys_task_info, sys_yield, TimeVal,
};
use os4::syscall::{
    SYSCALL_EXIT, SYSCALL_GET_TIME, SYSCALL_MMAP, SYSCALL_MUNMAP, SYSCALL_SET_PRIORITY,
    SYSCALL_TASK_INFO, SYSCALL_YIELD,
};
use os4::task::task::{AppImage, TaskStatus};
use os4::task::{get_syscall_record, record_syscall, run_first_task, Switch, TaskManager};

const BASE: usize = 0x1000_0000;
const RW: usize = 0b011;

fn image(token: usize) -> AppImage {
    let mut memory_set = MemorySet::new_bare(token);
    memory_set.insert_framed_area(
        VirtAddr(TRAP_CONTEXT),
        VirtAddr(TRAMPOLINE),
        MapPermission::kernel_rw(),
    );
    AppImage { memory_set, user_sp: 0x8000, trap_cx_ppn: PhysPageNum(0x8_0000 + token) }
}

fn started(n: usize, now_us: usize) -> TaskManager {
    let mut kernel_space = MemorySet::new_bare(0);
    let images: Vec<AppImage> = (0..n).map(|i| image(10 + i)).collect();
    let mut manager = TaskManager::new(images, &mut kernel_space, 0x8020_0000, now_us);
    run_first_task(&mut manager);
    manager
}

#[test]
fn syscall_numbers_fit_the_counter_table() {
    let ids = [
        SYSCALL_EXIT,
        SYSCALL_YIELD,
        SYSCALL_SET_PRIORITY,
        SYSCALL_GET_TIME,
        SYSCALL_MUNMAP,
        SYSCALL_MMAP,
        SYSCALL_TASK_INFO,
    ];
    assert_eq!(ids, [93, 124, 140, 169, 215, 222, 410]);
    assert!(ids.iter().all(|id| *id < MAX_SYSCALL_NUM));
}

#[test]
fn port_check_wants_one_to_three_low_bits() {
    assert!(!check_mmap_port(0));
    for port in 1..=7 {
        assert!(check_mmap_port(port));
    }
    assert!(!check_mmap_port(0b1000));
    assert!(!check_mmap_port(0b1011));
    assert!(!check_mmap_port(0x10));
    assert!(!check_mmap_port(usize::MAX));
    assert!(!check_mmap_port(1 << 63 | 1));
}

#[test]
fn set_priority_is_always_turned_down() {
    for prio in [isize::MIN, -1, 0, 1, 2, 16, isize::MAX] {
        assert_eq!(sys_set_priority(prio), -1);
    }
}

#[test]
fn mmap_then_munmap_then_mmap_again() {
    let mut manager = started(1, 0);
    let len = 3 * PAGE_SIZE;
    assert_eq!(sys_mmap(&mut manager, BASE, len, RW), 0);
    assert_eq!(sys_munmap(&mut manager, BASE, len), 0);
    assert_eq!(sys_mmap(&mut manager, BASE, len, RW), 0);
    assert_eq!(sys_munmap(&mut manager, BASE, len), 0);
    assert_eq!(sys_munmap(&mut manager, BASE, len), -1);
}

#[test]
fn mmap_turns_down_a_misaligned_start() {
    let mut manager = started(1, 0);
    assert_eq!(sys_mmap(&mut manager, BASE + 1, PAGE_SIZE, RW), -1);
    assert_eq!(sys_mmap(&mut manager, BASE + PAGE_SIZE - 1, PAGE_SIZE, RW), -1);
    assert_eq!(sys_munmap(&mut manager, BASE, PAGE_SIZE), -1);
    assert_eq!(sys_munmap(&mut manager, BASE + PAGE_SIZE, PAGE_SIZE), -1);
    assert_eq!(sys_mmap(&mut manager, BASE, 2 * PAGE_SIZE, RW), 0);
}

#[test]
fn mmap_turns_down_a_zero_length() {
    let mut manager = started(1, 0);
    assert_eq!(sys_mmap(&mut manager, BASE, 0, RW), -1);
    assert_eq!(sys_mmap(&mut manager, BASE, PAGE_SIZE, RW), 0);
}

#[test]
fn mmap_turns_down_an_empty_port() {
    let mut manager = started(1, 0);
    assert_eq!(sys_mmap(&mut manager, BASE, PAGE_SIZE, 0), -1);
    assert_eq!(sys_munmap(&mut manager, BASE, PAGE_SIZE), -1);
    assert_eq!(sys_mmap(&mut manager, BASE, PAGE_SIZE, RW), 0);
}

#[test]
fn mmap_turns_down_port_bits_above_the_low_three() {
    let mut manager = started(1, 0);
    assert_eq!(sys_mmap(&mut manager, BASE, PAGE_SIZE, 0b1000), -1);
    assert_eq!(sys_mmap(&mut manager, BASE, PAGE_SIZE, 0b1011), -1);
    assert_eq!(sys_mmap(&mut manager, BASE, PAGE_SIZE, usize::MAX), -1);
    assert_eq!(sys_munmap(&mut manager, BASE, PAGE_SIZE), -1);
    assert_eq!(sys_mmap(&mut manager, BASE, PAGE_SIZE, 0b111), 0);
}

#[test]
fn a_bad_port_is_reported_before_a_bad_start_or_length() {
    let mut manager = started(1, 0);
    assert_eq!(sys_mmap(&mut manager, usize::MAX, usize::MAX, 0), -1);
    assert_eq!(sys_mmap(&mut manager, usize::MAX, 0, RW), -1);
    assert_eq!(sys_munmap(&mut manager, usize::MAX, usize::MAX), -1);
}

#[test]
fn mmap_turns_down_a_range_that_overlaps_a_mapping() {
    let mut manager = started(1, 0);
    assert_eq!(sys_mmap(&mut manager, BASE, 2 * PAGE_SIZE, RW), 0);
    assert_eq!(sys_mmap(&mut manager, BASE + PAGE_SIZE, PAGE_SIZE, RW), -1);
    assert_eq!(sys_mmap(&mut manager, BASE, PAGE_SIZE, RW), -1);
    assert_eq!(sys_mmap(&mut manager, BASE - PAGE_SIZE, PAGE_SIZE + 1, RW), -1);
    assert_eq!(sys_mmap(&mut manager, BASE - PAGE_SIZE, PAGE_SIZE, RW), 0);
    assert_eq!(sys_mmap(&mut manager, BASE + 2 * PAGE_SIZE, 1, RW), 0);
    assert_eq!(sys_munmap(&mut manager, BASE - PAGE_SIZE, 4 * PAGE_SIZE), 0);
}

#[test]
fn a_length_that_is_no_multiple_of_the_page_size_takes_the_whole_last_page() {
    let mut manager = started(1, 0);
    assert_eq!(sys_mmap(&mut manager, BASE, PAGE_SIZE + 1, RW), 0);
    assert_eq!(sys_mmap(&mut manager, BASE + PAGE_SIZE, PAGE_SIZE, RW), -1);
    assert_eq!(sys_mmap(&mut manager, BASE + 2 * PAGE_SIZE, PAGE_SIZE, RW), 0);
    assert_eq!(sys_munmap(&mut manager, BASE, 1), 0);
    assert_eq!(sys_munmap(&mut manager, BASE, 1), -1);
    assert_eq!(sys_munmap(&mut manager, BASE + PAGE_SIZE, 2 * PAGE_SIZE), 0);
}

#[test]
fn munmap_turns_down_what_is_not_wholly_mapped() {
    let mut manager = started(1, 0);
    assert_eq!(sys_munmap(&mut manager, BASE, PAGE_SIZE), -1);
    assert_eq!(sys_mmap(&mut manager, BASE, 2 * PAGE_SIZE, RW), 0);
    assert_eq!(sys_munmap(&mut manager, BASE, 3 * PAGE_SIZE), -1);
    assert_eq!(sys_munmap(&mut manager, BASE + 1, PAGE_SIZE), -1);
    assert_eq!(sys_munmap(&mut manager, BASE, 0), -1);
    assert_eq!(sys_munmap(&mut manager, BASE + PAGE_SIZE, PAGE_SIZE), 0);
    assert_eq!(sys_munmap(&mut manager, BASE, 2 * PAGE_SIZE), -1);
    assert_eq!(sys_munmap(&mut manager, BASE, PAGE_SIZE), 0);
}

#[test]
fn each_task_maps_in_its_own_address_space() {
    let mut manager = started(2, 0);
    assert_eq!(sys_mmap(&mut manager, BASE, PAGE_SIZE, RW), 0);
    assert_eq!(sys_yield(&mut manager), (0, Switch { from: 0, to: 1 }));
    assert_eq!(sys_munmap(&mut manager, BASE, PAGE_SIZE), -1);
    assert_eq!(sys_mmap(&mut manager, BASE, PAGE_SIZE, RW), 0);
    assert_eq!(sys_yield(&mut manager), (0, Switch { from: 1, to: 0 }));
    assert_eq!(sys_mmap(&mut manager, BASE, PAGE_SIZE, RW), -1);
    assert_eq!(sys_munmap(&mut manager, BASE, PAGE_SIZE), 0);
}

#[test]
fn three_yields_add_three_to_the_yield_counter_and_to_no_other() {
    let mut manager = started(1, 0);
    record_syscall(&mut manager, SYSCALL_GET_TIME);
    let before = get_syscall_record(&manager);
    for _ in 0..3 {
        record_syscall(&mut manager, SYSCALL_YIELD);
        assert_eq!(sys_yield(&mut manager), (0, Switch { from: 0, to: 0 }));
    }
    let (code, write) = sys_task_info(&manager, 0, 0x7000);
    assert_eq!(code, 0);
    let info = write.value;
    assert_eq!(info.syscall_times[SYSCALL_YIELD], before[SYSCALL_YIELD] + 3);
    assert_eq!(info.syscall_times[SYSCALL_YIELD], 3);
    for id in 0..MAX_SYSCALL_NUM {
        if id != SYSCALL_YIELD {
            assert_eq!(info.syscall_times[id], before[id]);
        }
    }
    assert_eq!(info.syscall_times[SYSCALL_GET_TIME], 1);
}

#[test]
fn yields_of_one_task_are_not_counted_for_another() {
    let mut manager = started(2, 0);
    for _ in 0..3 {
        record_syscall(&mut manager, SYSCALL_YIELD);
        assert_eq!(sys_yield(&mut manager).1, Switch { from: 0, to: 1 });
        record_syscall(&mut manager, SYSCALL_GET_TIME);
        record_syscall(&mut manager, SYSCALL_YIELD);
        assert_eq!(sys_yield(&mut manager).1, Switch { from: 1, to: 0 });
    }
    let first = sys_task_info(&manager, 0, 0).1.value;
    assert_eq!(first.syscall_times[SYSCALL_YIELD], 3);
    assert_eq!(first.syscall_times[SYSCALL_GET_TIME], 0);
    sys_yield(&mut manager);
    let second = sys_task_info(&manager, 0, 0).1.value;
    assert_eq!(second.syscall_times[SYSCALL_YIELD], 3);
    assert_eq!(second.syscall_times[SYSCALL_GET_TIME], 3);
}

#[test]
fn a_rejected_mmap_is_counted_like_any_other() {
    let mut manager = started(1, 0);
    record_syscall(&mut manager, SYSCALL_MMAP);
    assert_eq!(sys_mmap(&mut manager, BASE + 1, PAGE_SIZE, RW), -1);
    record_syscall(&mut manager, SYSCALL_MMAP);
    assert_eq!(sys_mmap(&mut manager, BASE, PAGE_SIZE, RW), 0);
    record_syscall(&mut manager, SYSCALL_MUNMAP);
    assert_eq!(sys_munmap(&mut manager, BASE, 0), -1);
    let record = get_syscall_record(&manager);
    assert_eq!((record[SYSCALL_MMAP], record[SYSCALL_MUNMAP]), (2, 1));
}

#[test]
fn task_info_reports_status_counters_and_elapsed_time() {
    let mut manager = started(2, 1_500);
    record_syscall(&mut manager, SYSCALL_TASK_INFO);
    let (code, write) = sys_task_info(&manager, 2_501_999, 0xdead_b000);
    assert_eq!(code, 0);
    assert_eq!(write.token, 10);
    assert_eq!(write.user_addr, 0xdead_b000);
    assert_eq!(write.value.status, TaskStatus::Running);
    assert_eq!(write.value.time, 2_500);
    assert_eq!(write.value.syscall_times.len(), MAX_SYSCALL_NUM);
    assert_eq!(write.value.syscall_times[SYSCALL_TASK_INFO], 1);
    assert_eq!(write.value.syscall_times.iter().map(|c| *c as usize).sum::<usize>(), 1);
    sys_yield(&mut manager);
    let (_, other) = sys_task_info(&manager, 2_502_000, 0x10);
    assert_eq!((other.token, other.user_addr, other.value.time), (11, 0x10, 2_501));
    assert_eq!(other.value.syscall_times, [0u32; MAX_SYSCALL_NUM]);
}

#[test]
fn successive_task_info_queries_report_non_decreasing_time() {
    let manager = started(1, 10_000);
    let mut last = 0;
    for now_us in [10_000usize, 10_400, 10_999, 11_000, 250_000, 250_000, 1_000_000] {
        let time = sys_task_info(&manager, now_us, 0).1.value.time;
        assert!(time >= last);
        last = time;
    }
    assert_eq!(last, 990);
}

#[test]
fn get_time_splits_microseconds_into_seconds_and_the_rest() {
    let mut manager = started(2, 0);
    let (code, write) = sys_get_time(&manager, 3_000_123, 0x4000, 0);
    assert_eq!(code, 0);
    assert_eq!(write.value, TimeVal { sec: 3, usec: 123 });
    assert_eq!((write.token, write.user_addr), (10, 0x4000));
    sys_yield(&mut manager);
    let (_, write) = sys_get_time(&manager, 999_999, 0x4008, 99);
    assert_eq!(write.value, TimeVal { sec: 0, usec: 999_999 });
    assert_eq!((write.token, write.user_addr), (11, 0x4008));
    assert_eq!(sys_get_time(&manager, 1_000_000, 0, 0).1.value, TimeVal { sec: 1, usec: 0 });
    assert_eq!(sys_get_time(&manager, 0, 0, 0).1.value, TimeVal { sec: 0, usec: 0 });
}

#[test]
fn exit_of_the_only_task_leaves_nothing_to_run() {
    let mut manager = started(1, 0);
    assert_eq!(sys_exit(&mut manager, 0), None);
    assert_eq!(manager.task_status(0), TaskStatus::Exited);
    assert_eq!(manager.find_next_task(), None);
}

#[test]
fn exit_hands_the_cpu_to_the_next_ready_task() {
    let mut manager = started(3, 0);
    assert_eq!(sys_exit(&mut manager, -1), Some(Switch { from: 0, to: 1 }));
    assert_eq!(sys_yield(&mut manager), (0, Switch { from: 1, to: 2 }));
    assert_eq!(sys_yield(&mut manager), (0, Switch { from: 2, to: 1 }));
    assert_eq!(sys_exit(&mut manager, 3), Some(Switch { from: 1, to: 2 }));
    assert_eq!(sys_yield(&mut manager), (0, Switch { from: 2, to: 2 }));
    assert_eq!(sys_exit(&mut manager, 0), None);
    assert_eq!(
        (manager.task_status(0), manager.task_status(1), manager.task_status(2)),
        (TaskStatus::Exited, TaskStatus::Exited, TaskStatus::Exited)
    );
}
