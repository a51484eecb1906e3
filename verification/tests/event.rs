use vllm_coldstart_probe::event::{SizeMismatch, SyscallEvent, EVENT_SIZE};

#[test]
fn enter_events_hold_what_they_are_given() {
    let event = SyscallEvent::new_enter(8126029867356, 12855, 12856, 257);
    assert_eq!(event.timestamp_ns, 8126029867356);
    assert_eq!(event.pid, 12855);
    assert_eq!(event.tid, 12856);
    assert_eq!(event.syscall_nr, 257);
    assert_eq!(event.kind, 0);
    assert_eq!(event.kind, SyscallEvent::KIND_ENTER);
    assert_eq!(event.ret, 0);
}

#[test]
fn exit_events_hold_the_return_value() {
    let event = SyscallEvent::new_exit(7, 1, 2, 3, -2);
    assert_eq!(event.timestamp_ns, 7);
    assert_eq!((event.pid, event.tid, event.syscall_nr), (1, 2, 3));
    assert_eq!(event.kind, 1);
    assert_eq!(event.kind, SyscallEvent::KIND_EXIT);
    assert_eq!(event.ret, -2);
}

#[test]
fn records_have_the_layout_of_the_ring_buffer() {
    let event = SyscallEvent::new_exit(
        0x0102030405060708,
        0x11121314,
        0x21222324,
        0x31323334,
        -2,
    );
    let expected: [u8; 32] = [
        8, 7, 6, 5, 4, 3, 2, 1, 0x14, 0x13, 0x12, 0x11, 0x24, 0x23, 0x22, 0x21, 0x34, 0x33, 0x32,
        0x31, 1, 0, 0, 0, 0xfe, 0xff, 0xff, 0xff, 0xff, 0xff, 0xff, 0xff,
    ];
    assert_eq!(event.to_bytes(), expected);
}

#[test]
fn reading_a_record_gives_the_event_back() {
    for ret in [0, 1, -1, i64::MAX, i64::MIN] {
        let event = SyscallEvent::new_exit(u64::MAX, u32::MAX, 0, 9, ret);
        let back = SyscallEvent::from_bytes(&event.to_bytes()).unwrap();
        assert_eq!(back.timestamp_ns, u64::MAX);
        assert_eq!(back.pid, u32::MAX);
        assert_eq!(back.tid, 0);
        assert_eq!(back.syscall_nr, 9);
        assert_eq!(back.kind, 1);
        assert_eq!(back.ret, ret);
    }
}

#[test]
fn writing_what_was_read_gives_the_record_back() {
    let mut record = [0u8; EVENT_SIZE];
    for i in 0..EVENT_SIZE {
        record[i] = (i * 37 + 11) as u8;
    }
    let event = SyscallEvent::from_bytes(&record).unwrap();
    assert_eq!(event.kind, record[20]);
    assert_eq!(event.to_bytes(), record);
}

#[test]
fn records_of_another_size_are_no_events() {
    for len in [0, 1, 31, 33, 64] {
        let record = vec![0u8; len];
        assert_eq!(
            SyscallEvent::from_bytes(&record).unwrap_err(),
            SizeMismatch {
                got: len,
                expected: 32
            }
        );
    }
}
