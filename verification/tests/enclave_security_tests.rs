use moyuan_kernel::enclave_scheduler::context_switch::{ContextSwitchManager, PreemptionControl};
use moyuan_kernel::enclave_scheduler::core_binding::{CoreBindingManager, CpuMask};
use moyuan_kernel::enclave_scheduler::monitoring::{DebugCommand, DebugInterface, DebugReport, PerformanceMonitorBuffer};
use moyuan_kernel::enclave_scheduler::queue::{EnclaveQueue, EnclaveQueuePriority, TimeSliceConfig};
use moyuan_kernel::enclave_scheduler::ring_buffer::LockFreeRingBuffer;
use moyuan_kernel::enclave_scheduler::{EnclaveScheduler, EnclaveType};
use moyuan_kernel::security;
use moyuan_kernel::security::file_perm::{create_default_permissions, FilePermissions, PERM_EXECUTE, PERM_READ, PERM_WRITE};
use moyuan_kernel::security::user_group::{SecurityError, UserGroupTable};

#[test]
fn enclaves_are_served_by_priority_then_arrival() {
    let mut s = EnclaveScheduler::new();
    s.init();
    assert!(!s.has_pending_enclaves());
    assert_eq!(s.select_next_enclave(), None);
    s.enqueue_enclave(EnclaveType::NetworkEnclave).unwrap();
    s.enqueue_enclave(EnclaveType::GraphicEnclave).unwrap();
    s.enqueue_enclave(EnclaveType::AIEnclave).unwrap();
    s.enqueue_enclave(EnclaveType::MediaEnclave).unwrap();
    s.enqueue_enclave(EnclaveType::AIEnclave).unwrap();
    assert!(s.has_pending_enclaves());
    assert_eq!(s.queue_status(EnclaveType::AIEnclave).length, 2);
    let order: Vec<_> = (0..5).map(|_| s.select_next_enclave().unwrap()).collect();
    assert_eq!(
        order,
        vec![
            EnclaveType::AIEnclave,
            EnclaveType::AIEnclave,
            EnclaveType::GraphicEnclave,
            EnclaveType::MediaEnclave,
            EnclaveType::NetworkEnclave
        ]
    );
    let stats = s.monitoring().get_schedule_stats();
    assert_eq!(
        (stats.total_schedules, stats.ai_schedules, stats.graphic_schedules, stats.media_schedules, stats.network_schedules),
        (5, 2, 1, 1, 1)
    );
    assert!(s.queue_status(EnclaveType::AIEnclave).is_empty);
}

#[test]
fn enclave_queue_holds_one_less_than_ring() {
    let mut s = EnclaveScheduler::new();
    for _ in 0..63 {
        assert_eq!(s.enqueue_enclave(EnclaveType::MediaEnclave), Ok(()));
    }
    assert_eq!(s.enqueue_enclave(EnclaveType::MediaEnclave), Err("Ring buffer is full"));
    assert_eq!(s.enqueue_enclave(EnclaveType::NetworkEnclave), Ok(()));
}

#[test]
fn enclave_current_and_debug_reports() {
    let mut s = EnclaveScheduler::new();
    let switches = ContextSwitchManager::new();
    s.set_current_enclave(Some(EnclaveType::GraphicEnclave));
    assert_eq!(s.current_enclave(), Some(EnclaveType::GraphicEnclave));
    match DebugInterface::execute_command(&mut s, &switches, DebugCommand::ShowStatus) {
        DebugReport::Status { current, stats } => {
            assert_eq!(current, Some(EnclaveType::GraphicEnclave));
            assert_eq!(stats.total_schedules, 0);
        }
        _ => panic!("status report expected"),
    }
    s.enqueue_enclave(EnclaveType::NetworkEnclave).unwrap();
    match DebugInterface::execute_command(&mut s, &switches, DebugCommand::ShowQueueStatus) {
        DebugReport::QueueStatus { queues } => {
            assert_eq!(queues.len(), 4);
            assert_eq!(queues[3].0, EnclaveType::NetworkEnclave);
            assert_eq!(queues[3].1.length, 1);
            assert_eq!(queues[3].1.total_enqueues, 1);
            assert_eq!(queues[3].1.total_dequeues, 0);
            assert!(!queues[3].1.is_full);
            assert!(queues[0].1.is_empty);
        }
        _ => panic!("queue report expected"),
    }
    match DebugInterface::execute_command(&mut s, &switches, DebugCommand::ShowCoreBinding) {
        DebugReport::CoreBinding { total_cores, exclusive, .. } => {
            assert_eq!(total_cores, 4);
            // cores 1, 2 and 3 are reserved for enclaves; core 0 is shared
            assert_eq!(exclusive.bits(), 0b1110);
        }
        _ => panic!("core report expected"),
    }
    assert!(matches!(DebugInterface::execute_command(&mut s, &switches, DebugCommand::ResetStats), DebugReport::ResetStats));
}

#[test]
fn enclave_queue_and_ring_buffer() {
    let mut q = EnclaveQueue::new(EnclaveType::AIEnclave);
    assert_eq!(q.enclave_type(), EnclaveType::AIEnclave);
    assert!(q.is_empty());
    q.enqueue(EnclaveType::AIEnclave).unwrap();
    assert_eq!(q.len(), 1);
    assert_eq!(q.dequeue(), Some(EnclaveType::AIEnclave));
    assert_eq!(q.dequeue(), None);
    let mut r = LockFreeRingBuffer::new();
    r.enqueue(EnclaveType::MediaEnclave).unwrap();
    r.enqueue(EnclaveType::NetworkEnclave).unwrap();
    assert_eq!(r.len(), 2);
    assert_eq!(r.dequeue(), Some(EnclaveType::MediaEnclave));
    assert_eq!(r.dequeue(), Some(EnclaveType::NetworkEnclave));
    assert!(r.is_empty());
    for _ in 0..63 {
        r.enqueue(EnclaveType::AIEnclave).unwrap();
    }
    assert!(r.is_full());
    assert!(r.enqueue(EnclaveType::AIEnclave).is_err());
}

#[test]
fn enclave_priorities_and_time_slices() {
    assert_eq!(EnclaveQueuePriority::from(EnclaveType::AIEnclave).level(), 3);
    assert_eq!(EnclaveQueuePriority::from(EnclaveType::NetworkEnclave).level(), 0);
    assert!(EnclaveQueuePriority::AI > EnclaveQueuePriority::Graphic);
    let slices = TimeSliceConfig::default();
    assert_eq!(slices.get_time_slice(EnclaveType::AIEnclave), 100_000);
    assert_eq!(slices.get_time_slice(EnclaveType::NetworkEnclave), 40_000);
}

#[test]
fn cpu_masks() {
    let mut m = CpuMask::from_bits_truncate(0x1_0005);
    assert_eq!(m.bits(), 0x1_0005);
    assert!(m.contains_core(0) && m.contains_core(2) && m.contains_core(16) && !m.contains_core(1));
    m.add_core(3);
    m.remove_core(0);
    m.remove_core(16);
    assert_eq!(m.bits(), 0b1100);
    assert_eq!(m.core_count(), 2);
    assert_eq!(m.first_core(), Some(2));
    assert_eq!(CpuMask::empty().first_core(), None);
    let a = CpuMask::from_bits_truncate(0b0011);
    let b = CpuMask::from_bits_truncate(0b0110);
    assert_eq!(a.union(&b).bits(), 0b0111);
    assert_eq!(a.intersection(&b).bits(), 0b0010);
    assert_eq!(a.complement().bits(), 0xFFFF_FFFF_FFFF_FFFC);
}

#[test]
fn core_binding_layout() {
    let mut c = CoreBindingManager::new();
    c.init();
    assert_eq!(c.total_cores(), 4);
    assert_eq!(c.get_enclave_cores(EnclaveType::AIEnclave).bits(), 0b1100);
    assert_eq!(c.get_binded_core(EnclaveType::AIEnclave), Some(2));
    assert_eq!(c.get_binded_core(EnclaveType::GraphicEnclave), Some(1));
    assert_eq!(c.get_normal_cores().bits(), 1);
    assert!(c.is_enclave_core(3));
    assert!(!c.is_enclave_core(0));
    assert_eq!(c.reallocate_cores(EnclaveType::MediaEnclave, CpuMask::from_bits_truncate(0b1000)), Ok(()));
    assert_eq!(c.get_binded_core(EnclaveType::MediaEnclave), Some(3));
    assert_eq!(c.set_cpu_affinity(EnclaveType::MediaEnclave), Ok(()));
}

#[test]
fn context_switch_statistics() {
    let mut m = ContextSwitchManager::new();
    assert_eq!(m.average_switch_time(), 0);
    m.record_switch(300);
    m.finish_switch(1000, 1100);
    let s = m.get_stats();
    assert_eq!((s.total_switches, s.total_switch_time_ns, s.min_switch_time_ns, s.max_switch_time_ns), (2, 400, 100, 300));
    assert_eq!(m.average_switch_time(), 200);
    m.reset_stats();
    assert_eq!(m.get_stats().min_switch_time_ns, u64::MAX);
    let mut p = PreemptionControl::new();
    assert!(p.should_preempt(1));
    p.set_current_priority(5);
    assert!(!p.should_preempt(5));
    assert!(p.should_preempt(6));
    p.set_preemption_enabled(false);
    assert!(!p.is_preemption_enabled());
    assert!(!p.should_preempt(9));
}

#[test]
fn switch_log_percentile() {
    let mut log = PerformanceMonitorBuffer::new();
    // all zeros: the percentile is zero
    assert_eq!(log.calculate_99th_latency(), 0);
    for t in 1..=1024u64 {
        log.record_switch_time(t);
    }
    // sorted times are 1..=1024; entry 1013 holds 1014
    assert_eq!(log.calculate_99th_latency(), 1014);
    assert_eq!(log.get_recent_switch_times(3), vec![1022, 1023, 1024]);
    log.record_switch_time(5000);
    assert_eq!(log.get_recent_switch_times(2), vec![1024, 5000]);
    assert_eq!(log.calculate_99th_latency(), 1015);
}

#[test]
fn file_permissions() {
    let mut groups = UserGroupTable::new();
    security::init(&mut groups);
    let gid = groups.create_group("staff").unwrap();
    assert_eq!(gid, 1);
    groups.add_user_to_group(7, gid).unwrap();
    assert!(groups.is_user_in_group(7, gid));
    assert!(!groups.is_user_in_group(8, gid));
    // owner bits 0o700, group bits 0o070, others 0o007
    let p = FilePermissions::new(0o210, 5, gid);
    assert!(p.can_write(&groups, 5, 0));
    assert!(!p.can_read(&groups, 5, 0));
    assert!(p.can_execute(&groups, 7, 0));
    assert!(!p.can_write(&groups, 7, 0));
    assert!(!p.can_execute(&groups, 9, 0));
    assert!(p.can_execute(&groups, 9, gid));
    assert!(p.can_read(&groups, 0, 0));
    assert!(security::check_file_access(&groups, &p, 5, 0, PERM_WRITE));
    assert!(!security::check_file_access(&groups, &p, 5, 0, 3));
    let d = create_default_permissions(5, gid, 0o022);
    assert_eq!(d.mode, 0o644);
    assert!(d.check_permission(&groups, 5, 0, PERM_READ));
    assert!(!d.check_permission(&groups, 5, 0, PERM_EXECUTE));
    let owner_only = FilePermissions::new(0o600, 1000, 100);
    assert!(owner_only.can_read(&groups, 1000, 100));
    assert!(owner_only.can_write(&groups, 1000, 100));
    assert!(!owner_only.can_read(&groups, 1001, 0));
    let others_only = FilePermissions::new(0o006, 1000, 100);
    assert!(!others_only.can_read(&groups, 1000, 100));
    assert!(others_only.can_read(&groups, 1001, 0));
    let mut s = FilePermissions::new(0o4000 | 0o1000, 1, 1);
    assert!(s.has_suid() && s.has_sticky() && !s.has_sgid());
    s.set_permission(0o2000);
    assert!(s.has_sgid());
}

#[test]
fn users_groups_and_process_permission() {
    let mut groups = UserGroupTable::new();
    security::init(&mut groups);
    assert_eq!(groups.get_user(0).unwrap().uid, 0);
    assert_eq!(&groups.get_user(0).unwrap().name[..5], b"root\0");
    assert_eq!(groups.get_group(0).unwrap().member_count, 1);
    assert!(groups.get_user(1).is_none());
    assert_eq!(groups.add_user_to_group(3, 9), Err(SecurityError::NotFound));
    let gid = groups.create_group("a-very-long-group-name-that-is-truncated").unwrap();
    assert_eq!(&groups.get_group(gid).unwrap().name[..31], &b"a-very-long-group-name-that-is-truncated"[..31]);
    assert_eq!(groups.get_group(gid).unwrap().name[31], 0);
    for uid in 0..32 {
        groups.add_user_to_group(100 + uid, gid).unwrap();
    }
    assert_eq!(groups.add_user_to_group(200, gid), Err(SecurityError::ResourceExhausted));
    assert!(security::check_process_permission(&groups, 0, 0, 5, 5, PERM_READ));
    assert!(security::check_process_permission(&groups, 5, 0, 5, 9, PERM_READ));
    assert!(security::check_process_permission(&groups, 100, 0, 5, gid, PERM_READ));
    assert!(security::check_process_permission(&groups, 6, gid, 5, gid, PERM_READ));
    assert!(!security::check_process_permission(&groups, 6, 0, 5, gid, PERM_READ));
}

#[test]
fn removing_a_core_undoes_adding_it() {
    let original = CpuMask::from_bits_truncate(0b1001);
    let mut m = original;
    m.add_core(5);
    assert!(m.contains_core(5));
    m.remove_core(5);
    assert_eq!(m, original);
    // the same holds of cores above the named sixteen
    m.add_core(20);
    assert!(m.contains_core(20));
    m.remove_core(20);
    assert_eq!(m, original);
    // ids from 64 on change nothing
    m.add_core(64);
    assert_eq!(m, original);
}

#[test]
fn full_enclave_queue_is_left_unchanged() {
    let mut s = EnclaveScheduler::new();
    for _ in 0..63 {
        s.enqueue_enclave(EnclaveType::MediaEnclave).unwrap();
    }
    s.enqueue_enclave(EnclaveType::AIEnclave).unwrap();
    let before = s.queue_status(EnclaveType::MediaEnclave);
    let ai_before = s.queue_status(EnclaveType::AIEnclave);
    assert_eq!(s.enqueue_enclave(EnclaveType::MediaEnclave), Err("Ring buffer is full"));
    let after = s.queue_status(EnclaveType::MediaEnclave);
    assert_eq!(after.length, before.length);
    assert_eq!(after.total_enqueues, before.total_enqueues);
    assert_eq!(after.total_dequeues, before.total_dequeues);
    assert!(after.is_full);
    let ai_after = s.queue_status(EnclaveType::AIEnclave);
    assert_eq!(ai_after.length, ai_before.length);
    assert_eq!(ai_after.total_enqueues, ai_before.total_enqueues);
}

#[test]
fn ring_buffer_gives_items_back_in_arrival_order() {
    let mut r = LockFreeRingBuffer::new();
    r.enqueue(EnclaveType::AIEnclave).unwrap();
    r.enqueue(EnclaveType::GraphicEnclave).unwrap();
    assert_eq!(r.dequeue(), Some(EnclaveType::AIEnclave));
    r.enqueue(EnclaveType::NetworkEnclave).unwrap();
    r.enqueue(EnclaveType::MediaEnclave).unwrap();
    assert_eq!(r.dequeue(), Some(EnclaveType::GraphicEnclave));
    assert_eq!(r.dequeue(), Some(EnclaveType::NetworkEnclave));
    assert_eq!(r.dequeue(), Some(EnclaveType::MediaEnclave));
    assert_eq!(r.dequeue(), None);
    assert!(r.is_empty());
    // wrap around the slots several times
    for round in 0..200usize {
        let t = if round % 2 == 0 { EnclaveType::MediaEnclave } else { EnclaveType::AIEnclave };
        r.enqueue(t).unwrap();
        assert_eq!(r.dequeue(), Some(t));
    }
}

#[test]
fn debug_reset_zeroes_the_schedule_counters() {
    let mut s = EnclaveScheduler::new();
    let mut switches = ContextSwitchManager::new();
    s.enqueue_enclave(EnclaveType::AIEnclave).unwrap();
    s.enqueue_enclave(EnclaveType::MediaEnclave).unwrap();
    assert_eq!(s.select_next_enclave(), Some(EnclaveType::AIEnclave));
    assert_eq!(s.monitoring().get_schedule_stats().total_schedules, 1);
    assert!(matches!(
        DebugInterface::execute_command(&mut s, &switches, DebugCommand::ResetStats),
        DebugReport::ResetStats
    ));
    let stats = s.monitoring().get_schedule_stats();
    assert_eq!(stats.total_schedules, 0);
    assert_eq!(stats.ai_schedules, 0);
    // the queues are left alone
    assert_eq!(s.queue_status(EnclaveType::MediaEnclave).length, 1);
    match DebugInterface::execute_command(&mut s, &switches, DebugCommand::ShowStatus) {
        DebugReport::Status { stats, .. } => assert_eq!(stats.total_schedules, 0),
        _ => panic!("status report expected"),
    }
    switches.finish_switch(100, 350);
    match DebugInterface::execute_command(&mut s, &switches, DebugCommand::ShowContextSwitchStats) {
        DebugReport::ContextSwitchStats { stats } => {
            assert_eq!(stats.total_switches, 1);
            assert_eq!(stats.total_switch_time_ns, 250);
            assert_eq!(stats.min_switch_time_ns, 250);
            assert_eq!(stats.max_switch_time_ns, 250);
        }
        _ => panic!("switch report expected"),
    }
}

#[test]
fn masks_hold_every_core_below_64() {
    let mut m = CpuMask::empty();
    m.add_core(20);
    m.add_core(63);
    m.add_core(64);
    assert!(m.contains_core(20));
    assert!(m.contains_core(63));
    assert!(!m.contains_core(64));
    assert_eq!(m.core_count(), 2);
    assert_eq!(m.first_core(), Some(20));
    m.remove_core(20);
    assert!(!m.contains_core(20));
    assert_eq!(m.first_core(), Some(63));
}
