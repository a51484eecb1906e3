use vllm_coldstart_probe::event::SyscallEvent;

#[test]
fn enter_event_in_the_documented_form() {
    let event = SyscallEvent::new_enter(8126029867356, 12855, 12855, 257);
    assert_eq!(
        event.to_json(),
        "{\"timestamp_ns\":8126029867356,\"pid\":12855,\"tid\":12855,\"syscall_nr\":257,\"kind\":0,\"ret\":0}"
    );
}

#[test]
fn extreme_values_in_full() {
    let event = SyscallEvent::new_exit(u64::MAX, u32::MAX, 0, 1003, i64::MIN);
    assert_eq!(
        event.to_json(),
        "{\"timestamp_ns\":18446744073709551615,\"pid\":4294967295,\"tid\":0,\"syscall_nr\":1003,\"kind\":1,\"ret\":-9223372036854775808}"
    );
}

#[test]
fn objects_parse_to_the_fields() {
    let event = SyscallEvent::new_exit(10, 20, 30, 0, -11);
    let value: serde_json::Value = serde_json::from_str(&event.to_json()).unwrap();
    let object = value.as_object().unwrap();
    assert_eq!(object.len(), 6);
    assert_eq!(object["timestamp_ns"].as_u64(), Some(10));
    assert_eq!(object["pid"].as_u64(), Some(20));
    assert_eq!(object["tid"].as_u64(), Some(30));
    assert_eq!(object["syscall_nr"].as_u64(), Some(0));
    assert_eq!(object["kind"].as_u64(), Some(1));
    assert_eq!(object["ret"].as_i64(), Some(-11));
}

#[test]
fn padding_is_no_part_of_the_object() {
    let mut record = SyscallEvent::new_enter(1, 2, 3, 4).to_bytes();
    let plain = SyscallEvent::from_bytes(&record).unwrap().to_json();
    record[21] = 1;
    record[22] = 2;
    record[23] = 3;
    assert_eq!(SyscallEvent::from_bytes(&record).unwrap().to_json(), plain);
}

#[test]
fn different_events_have_different_objects() {
    let one = SyscallEvent::new_enter(1, 11, 1, 1);
    let other = SyscallEvent::new_enter(11, 1, 1, 1);
    assert_ne!(one.to_json(), other.to_json());
    assert!(!one.to_json().contains('\n'));
}
