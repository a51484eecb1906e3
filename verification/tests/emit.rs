use vllm_coldstart_probe::emit::{
    emit_enter, emit_exit, emit_uprobe, emit_uprobe_ret, Emission, SYS_EXIT_RET_OFFSET,
};
use vllm_coldstart_probe::event::SyscallEvent;
use vllm_coldstart_probe::probes::{CU_LAUNCH_KERNEL, OPENAT};

/// Process 12855, thread 12856.
const TASK: u64 = (12855 << 32) | 12856;

fn event_of(emission: Emission) -> SyscallEvent {
    assert_eq!(emission.status, 0);
    SyscallEvent::from_bytes(&emission.record.unwrap()).unwrap()
}

fn fields(event: SyscallEvent) -> (u64, u32, u32, u32, u8, i64) {
    (
        event.timestamp_ns,
        event.pid,
        event.tid,
        event.syscall_nr,
        event.kind,
        event.ret,
    )
}

#[test]
fn syscall_entry() {
    let event = event_of(emit_enter(TASK, 100, true, OPENAT));
    assert_eq!(fields(event), (100, 12855, 12856, 257, 0, 0));
}

#[test]
fn syscall_exit_with_its_return_value() {
    let event = event_of(emit_exit(TASK, 150, Some(-2), true, OPENAT));
    assert_eq!(fields(event), (150, 12855, 12856, 257, 1, -2));
}

#[test]
fn syscall_exit_with_an_unreadable_return_value() {
    let event = event_of(emit_exit(TASK, 150, None, true, OPENAT));
    assert_eq!(fields(event), (150, 12855, 12856, 257, 1, 0));
    assert_eq!(SYS_EXIT_RET_OFFSET, 16);
}

#[test]
fn library_call_and_return() {
    let enter = event_of(emit_uprobe(TASK, 1000, true, CU_LAUNCH_KERNEL));
    let exit = event_of(emit_uprobe_ret(TASK, 5200, true, CU_LAUNCH_KERNEL));
    assert_eq!(fields(enter), (1000, 12855, 12856, 1003, 0, 0));
    assert_eq!(fields(exit), (5200, 12855, 12856, 1003, 1, 0));
    assert_eq!(exit.timestamp_ns - enter.timestamp_ns, 4200);
}

#[test]
fn a_full_ring_buffer_loses_the_event() {
    for emission in [
        emit_enter(TASK, 1, false, OPENAT),
        emit_exit(TASK, 1, Some(3), false, OPENAT),
        emit_uprobe(TASK, 1, false, CU_LAUNCH_KERNEL),
        emit_uprobe_ret(TASK, 1, false, CU_LAUNCH_KERNEL),
    ] {
        assert!(emission.record.is_none());
        assert_eq!(emission.status, 0);
    }
}

#[test]
fn threads_and_probes_do_not_share_a_pairing_key() {
    let key = |emission| {
        let event = event_of(emission);
        (event.pid, event.tid, event.syscall_nr)
    };
    let entered = key(emit_enter(TASK, 1, true, OPENAT));
    assert_eq!(entered, key(emit_exit(TASK, 2, Some(3), true, OPENAT)));
    assert_ne!(entered, key(emit_exit(TASK + 1, 2, Some(3), true, OPENAT)));
    assert_ne!(entered, key(emit_exit(TASK + (1 << 32), 2, Some(3), true, OPENAT)));
    assert_ne!(entered, key(emit_exit(TASK, 2, Some(3), true, 0)));
}
