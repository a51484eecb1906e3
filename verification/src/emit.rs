//! The records that the kernel side puts on the ring buffer.
//!
//! A probe program reads the caller's ids and the clock, reserves a slot of the
//! ring buffer, and hands what it got to one of the functions here, which say
//! what goes into the slot.
use crate::event::{
    reading_gives_back_the_event, reads_as, SizeMismatch, SyscallEvent, EVENT_SIZE,
};
use vstd::prelude::*;

verus! {

/// Byte offset of the return value in the context of a `sys_exit_*` tracepoint on
/// x86_64: behind 8 bytes of common header and the 8 bytes of the syscall number.
pub const SYS_EXIT_RET_OFFSET: usize = 16;

/// The process id in the combined id of a task: its upper half.
pub open spec fn pid_of(pid_tgid: u64) -> u32 {
    (pid_tgid / 0x1_0000_0000) as u32
}

/// The thread id in the combined id of a task: its lower half.
pub open spec fn tid_of(pid_tgid: u64) -> u32 {
    (pid_tgid % 0x1_0000_0000) as u32
}

/// What the program of a probe does with its slot, and its status for the kernel.
#[derive(Clone, Copy, Debug)]
pub struct Emission {
    /// The record to store and submit; none where no slot could be reserved.
    pub record: Option<[u8; EVENT_SIZE]>,
    /// The return value of the program.
    pub status: u32,
}

/// Whether `emission` stores the record of `event` if there is a slot for it, and
/// nothing otherwise. The status is 0 either way.
pub open spec fn emits(emission: Emission, reserved: bool, event: SyscallEvent) -> bool {
    &&& emission.status == 0
    &&& emission.record is Some <==> reserved
    &&& emission.record matches Some(record) ==> record@ == event.wire()
}

/// The event of a call that the task `pid_tgid` enters.
pub open spec fn enter_event(pid_tgid: u64, timestamp_ns: u64, id: u32) -> SyscallEvent {
    SyscallEvent {
        timestamp_ns,
        pid: pid_of(pid_tgid),
        tid: tid_of(pid_tgid),
        syscall_nr: id,
        kind: SyscallEvent::KIND_ENTER,
        _pad: [0u8, 0u8, 0u8],
        ret: 0,
    }
}

/// The event of a call that the task `pid_tgid` leaves with the result `ret`.
pub open spec fn exit_event(pid_tgid: u64, timestamp_ns: u64, id: u32, ret: i64) -> SyscallEvent {
    SyscallEvent {
        timestamp_ns,
        pid: pid_of(pid_tgid),
        tid: tid_of(pid_tgid),
        syscall_nr: id,
        kind: SyscallEvent::KIND_EXIT,
        _pad: [0u8, 0u8, 0u8],
        ret,
    }
}

/// Splits the combined id of a task into process id and thread id.
fn split_pid_tgid(pid_tgid: u64) -> (ids: (u32, u32))
    ensures
        ids.0 == pid_of(pid_tgid),
        ids.1 == tid_of(pid_tgid),
{
    assert(pid_tgid >> 32 == pid_tgid / 0x1_0000_0000) by (bit_vector);
    assert((pid_tgid as u32) as u64 == pid_tgid % 0x1_0000_0000) by (bit_vector);
    ((pid_tgid >> 32) as u32, pid_tgid as u32)
}

/// The record for `event`, if a slot is reserved for it.
fn emit(reserved: bool, event: SyscallEvent) -> (emission: Emission)
    ensures
        emits(emission, reserved, event),
{
    if reserved {
        Emission { record: Some(event.to_bytes()), status: 0 }
    } else {
        Emission { record: None, status: 0 }
    }
}

/// What the tracepoint at the entry of the syscall `syscall_nr` emits.
///
/// `reserved` says whether the ring buffer had room for a record.
pub fn emit_enter(pid_tgid: u64, timestamp_ns: u64, reserved: bool, syscall_nr: u32) -> (emission:
    Emission)
    ensures
        emits(emission, reserved, enter_event(pid_tgid, timestamp_ns, syscall_nr)),
{
    let (pid, tid) = split_pid_tgid(pid_tgid);
    let event = SyscallEvent::new_enter(timestamp_ns, pid, tid, syscall_nr);
    emit(reserved, event)
}

/// What the tracepoint at the exit of the syscall `syscall_nr` emits.
///
/// `ret` is the return value as read from the context of the tracepoint, at
/// `SYS_EXIT_RET_OFFSET`; where it could not be read, the event holds 0.
pub fn emit_exit(
    pid_tgid: u64,
    timestamp_ns: u64,
    ret: Option<i64>,
    reserved: bool,
    syscall_nr: u32,
) -> (emission: Emission)
    ensures
        emits(
            emission,
            reserved,
            exit_event(
                pid_tgid,
                timestamp_ns,
                syscall_nr,
                match ret {
                    Some(value) => value,
                    None => 0,
                },
            ),
        ),
{
    let (pid, tid) = split_pid_tgid(pid_tgid);
    let ret: i64 = match ret {
        Some(value) => value,
        None => 0,
    };
    let event = SyscallEvent::new_exit(timestamp_ns, pid, tid, syscall_nr, ret);
    emit(reserved, event)
}

/// What the uprobe at the entry of the library function `event_id` emits.
pub fn emit_uprobe(pid_tgid: u64, timestamp_ns: u64, reserved: bool, event_id: u32) -> (emission:
    Emission)
    ensures
        emits(emission, reserved, enter_event(pid_tgid, timestamp_ns, event_id)),
{
    let (pid, tid) = split_pid_tgid(pid_tgid);
    let event = SyscallEvent::new_enter(timestamp_ns, pid, tid, event_id);
    emit(reserved, event)
}

/// What the uretprobe at the return of the library function `event_id` emits.
///
/// The result of the function is not captured, so the event holds 0 for it: it is
/// the duration of the call that matters.
pub fn emit_uprobe_ret(pid_tgid: u64, timestamp_ns: u64, reserved: bool, event_id: u32) -> (emission:
    Emission)
    ensures
        emits(emission, reserved, exit_event(pid_tgid, timestamp_ns, event_id, 0)),
{
    let (pid, tid) = split_pid_tgid(pid_tgid);
    let event = SyscallEvent::new_exit(timestamp_ns, pid, tid, event_id, 0);
    emit(reserved, event)
}

/// An event holds what its probe was given: the process id and the thread id of which
/// the combined id of the task is made up, the clock reading, the id of the probe, and,
/// on exit, the return value.
pub proof fn events_hold_what_the_probe_was_given(
    pid: u32,
    tid: u32,
    pid_tgid: u64,
    timestamp_ns: u64,
    id: u32,
    ret: i64,
)
    requires
        pid_tgid == pid * 0x1_0000_0000 + tid,
    ensures
        pid_of(pid_tgid) == pid,
        tid_of(pid_tgid) == tid,
        ({
            let enter = enter_event(pid_tgid, timestamp_ns, id);
            &&& enter.timestamp_ns == timestamp_ns
            &&& enter.pid == pid
            &&& enter.tid == tid
            &&& enter.syscall_nr == id
            &&& enter.kind == 0
            &&& enter.ret == 0
        }),
        ({
            let exit = exit_event(pid_tgid, timestamp_ns, id, ret);
            &&& exit.timestamp_ns == timestamp_ns
            &&& exit.pid == pid
            &&& exit.tid == tid
            &&& exit.syscall_nr == id
            &&& exit.kind == 1
            &&& exit.ret == ret
        }),
{
}

/// What the user side reads of the record of an entered call: the process, the thread,
/// the time and the probe of that call.
pub proof fn entered_calls_are_read_as_given(
    emission: Emission,
    pid: u32,
    tid: u32,
    pid_tgid: u64,
    timestamp_ns: u64,
    id: u32,
    result: Result<SyscallEvent, SizeMismatch>,
)
    requires
        pid_tgid == pid * 0x1_0000_0000 + tid,
        emits(emission, true, enter_event(pid_tgid, timestamp_ns, id)),
        reads_as(emission.record->0@, result),
    ensures
        emission.record is Some,
        emission.status == 0,
        result is Ok,
        ({
            let event = result->Ok_0;
            &&& event.timestamp_ns == timestamp_ns
            &&& event.pid == pid
            &&& event.tid == tid
            &&& event.syscall_nr == id
            &&& event.kind == 0
            &&& event.ret == 0
        }),
{
    events_hold_what_the_probe_was_given(pid, tid, pid_tgid, timestamp_ns, id, 0);
    emitted_events_are_read_back(
        emission,
        enter_event(pid_tgid, timestamp_ns, id),
        result,
    );
}

/// What the user side reads of the record of a call that was left: the process, the
/// thread, the time, the probe and the return value of that call.
pub proof fn left_calls_are_read_as_given(
    emission: Emission,
    pid: u32,
    tid: u32,
    pid_tgid: u64,
    timestamp_ns: u64,
    id: u32,
    ret: i64,
    result: Result<SyscallEvent, SizeMismatch>,
)
    requires
        pid_tgid == pid * 0x1_0000_0000 + tid,
        emits(emission, true, exit_event(pid_tgid, timestamp_ns, id, ret)),
        reads_as(emission.record->0@, result),
    ensures
        emission.record is Some,
        emission.status == 0,
        result is Ok,
        ({
            let event = result->Ok_0;
            &&& event.timestamp_ns == timestamp_ns
            &&& event.pid == pid
            &&& event.tid == tid
            &&& event.syscall_nr == id
            &&& event.kind == 1
            &&& event.ret == ret
        }),
{
    events_hold_what_the_probe_was_given(pid, tid, pid_tgid, timestamp_ns, id, ret);
    emitted_events_are_read_back(
        emission,
        exit_event(pid_tgid, timestamp_ns, id, ret),
        result,
    );
}

/// Without a slot nothing is stored, and the program succeeds all the same.
pub proof fn no_slot_no_record(emission: Emission, event: SyscallEvent)
    requires
        emits(emission, false, event),
    ensures
        emission.record is None,
        emission.status == 0,
{
}

/// What the two events of a call have in common: process, thread and probe.
pub open spec fn pairing_key(event: SyscallEvent) -> (u32, u32, u32) {
    (event.pid, event.tid, event.syscall_nr)
}

/// The time between the events of a call.
pub open spec fn duration_ns(enter: SyscallEvent, exit: SyscallEvent) -> int {
    exit.timestamp_ns - enter.timestamp_ns
}

/// The enter and the exit event of a call are told apart by their kind, share the
/// pairing key, and are as far apart as the clock readings at entry and exit. The
/// enter event holds no return value, the exit event holds that of the call.
pub proof fn events_of_a_call_pair(
    pid_tgid: u64,
    id: u32,
    entered_ns: u64,
    left_ns: u64,
    ret: i64,
)
    ensures
        ({
            let enter = enter_event(pid_tgid, entered_ns, id);
            let exit = exit_event(pid_tgid, left_ns, id, ret);
            &&& enter.kind == 0 && enter.ret == 0
            &&& exit.kind == 1 && exit.ret == ret
            &&& pairing_key(enter) == pairing_key(exit)
            &&& duration_ns(enter, exit) == left_ns - entered_ns
        }),
{
}

/// Events of different threads, or of different probes, never share the pairing key.
pub proof fn pairing_keys_separate(
    first_task: u64,
    first_id: u32,
    entered_ns: u64,
    second_task: u64,
    second_id: u32,
    left_ns: u64,
    ret: i64,
)
    ensures
        pairing_key(enter_event(first_task, entered_ns, first_id)) == pairing_key(
            exit_event(second_task, left_ns, second_id, ret),
        ) <==> first_task == second_task && first_id == second_id,
{
}

/// The user side reads from a stored record exactly the event that the kernel side
/// emitted.
pub proof fn emitted_events_are_read_back(
    emission: Emission,
    event: SyscallEvent,
    result: Result<SyscallEvent, SizeMismatch>,
)
    requires
        emits(emission, true, event),
    ensures
        reads_as(emission.record->0@, result) <==> result == Ok::<SyscallEvent, SizeMismatch>(
            event,
        ),
{
    reading_gives_back_the_event(event, result);
}

} // verus!
