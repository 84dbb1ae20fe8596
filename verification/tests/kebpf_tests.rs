use schedhint::kebpf::{
    collect_syscall_count, sync_decision, syscall_list_fd, FastpathState, SYNC_PERIOD_TICKS,
};

#[test]
fn collects_count_in_native_order() {
    let mut counts = [0u32; 8];
    let r = collect_syscall_count(&mut counts, &5u32.to_ne_bytes(), &77u32.to_ne_bytes());
    assert_eq!(r, 0);
    assert_eq!(counts, [0, 0, 0, 0, 0, 77, 0, 0]);
}

#[test]
fn collect_ignores_out_of_table_syscall() {
    let mut counts = [1u32; 4];
    assert_eq!(collect_syscall_count(&mut counts, &4u32.to_ne_bytes(), &9u32.to_ne_bytes()), 0);
    assert_eq!(counts, [1; 4]);
}

#[test]
fn collect_ignores_malformed_entries() {
    let mut counts = [0u32; 4];
    assert_eq!(collect_syscall_count(&mut counts, &[1, 0, 0], &9u32.to_ne_bytes()), 0);
    assert_eq!(collect_syscall_count(&mut counts, &1u32.to_ne_bytes(), &[9, 0, 0, 0, 0]), 0);
    assert_eq!(collect_syscall_count(&mut counts, &1u64.to_ne_bytes(), &9u32.to_ne_bytes()), 0);
    assert_eq!(counts, [0; 4]);
}

#[test]
fn collect_overwrites_and_is_order_independent() {
    let entries = [(1u32, 10u32), (3, 30), (2, 20)];
    let mut a = [0u32; 4];
    for (k, v) in entries.iter() {
        collect_syscall_count(&mut a, &k.to_ne_bytes(), &v.to_ne_bytes());
    }
    let mut b = [0u32; 4];
    for (k, v) in entries.iter().rev() {
        collect_syscall_count(&mut b, &k.to_ne_bytes(), &v.to_ne_bytes());
    }
    assert_eq!(a, [0, 10, 20, 30]);
    assert_eq!(a, b);
    collect_syscall_count(&mut a, &1u32.to_ne_bytes(), &10u32.to_ne_bytes());
    assert_eq!(a, b);
}

#[test]
fn no_sync_without_map() {
    let mut s = FastpathState::new();
    for _ in 0..25 {
        assert_eq!(s.on_tick(), None);
    }
    assert_eq!(s.sync_ticks, 25);
}

#[test]
fn syncs_every_tenth_tick_once_map_exists() {
    let mut s = FastpathState::new();
    let ok: Result<isize, ()> = Ok(7);
    s.on_map_created(&String::from("SYSCALL_LIST"), &ok);
    assert_eq!(s.syscall_list_map_fd, 7);
    let mut synced = Vec::new();
    for i in 0..31u32 {
        if let Some(fd) = s.on_tick() {
            assert_eq!(fd, 7);
            synced.push(i);
        }
    }
    assert_eq!(synced, vec![0, 10, 20, 30]);
    assert_eq!(SYNC_PERIOD_TICKS, 10);
}

#[test]
fn other_maps_and_failures_are_not_remembered() {
    let mut s = FastpathState::new();
    let ok: Result<isize, i32> = Ok(3);
    let err: Result<isize, i32> = Err(-1);
    s.on_map_created(&String::from("SYSCALL_TOTAL"), &ok);
    assert_eq!(s.syscall_list_map_fd, 0);
    s.on_map_created(&String::from("SYSCALL_LIST"), &err);
    assert_eq!(s.syscall_list_map_fd, 0);
    s.on_map_created(&String::from("syscall_list"), &ok);
    assert_eq!(s.syscall_list_map_fd, 0);
    s.on_map_created(&String::from("SYSCALL_LIST"), &ok);
    assert_eq!(s.syscall_list_map_fd, 3);
    let later: Result<isize, i32> = Ok(9);
    s.on_map_created(&String::from("SYSCALL_LIST"), &later);
    assert_eq!(s.syscall_list_map_fd, 9);
}

#[test]
fn descriptor_is_truncated_to_32_bits() {
    let mut s = FastpathState::new();
    let big: Result<isize, ()> = Ok(0x1_0000_0005);
    s.on_map_created(&String::from("SYSCALL_LIST"), &big);
    assert_eq!(s.syscall_list_map_fd, 5);
}

#[test]
fn tick_counter_wraps() {
    let mut s = FastpathState { sync_ticks: u32::MAX, syscall_list_map_fd: 4 };
    assert_eq!(s.on_tick(), None);
    assert_eq!(s.sync_ticks, 0);
    assert_eq!(s.on_tick(), Some(4));
    assert_eq!(s.sync_ticks, 1);
}

#[test]
fn sync_decision_on_period_with_map() {
    assert_eq!(sync_decision(0, 5), Some(5));
    assert_eq!(sync_decision(20, 5), Some(5));
    assert_eq!(sync_decision(21, 5), None);
    assert_eq!(sync_decision(30, 0), None);
}

#[test]
fn syscall_list_fd_only_for_created_count_map() {
    let ok: Result<isize, i32> = Ok(12);
    let err: Result<isize, i32> = Err(3);
    assert_eq!(syscall_list_fd(&String::from("SYSCALL_LIST"), &ok), Some(12));
    assert_eq!(syscall_list_fd(&String::from("SYSCALL_LIST"), &err), None);
    assert_eq!(syscall_list_fd(&String::from("SYSCALL_TOTAL"), &ok), None);
}

#[test]
fn whole_map_snapshot_from_zero_table() {
    let entries = [(5u32, 50u32), (2, 20), (9, 90)];
    let mut counts = [0u32; 8];
    for (k, v) in entries.iter() {
        collect_syscall_count(&mut counts, &k.to_ne_bytes(), &v.to_ne_bytes());
    }
    assert_eq!(counts, [0, 0, 20, 0, 0, 50, 0, 0]);
}
