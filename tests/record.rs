use optimizer_server::record::{
    decode_event, init_event_flags, init_flags, mark_flags, mark_mask, parse_events,
    read_buffer_len, FanotifyEvent, EVENT_METADATA_LEN,
};

fn raw(event_len: u32, mask: u64, fd: i32, pid: i32) -> Vec<u8> {
    let mut b = Vec::new();
    b.extend_from_slice(&event_len.to_le_bytes());
    b.push(3);
    b.push(0);
    b.extend_from_slice(&24u16.to_le_bytes());
    b.extend_from_slice(&mask.to_le_bytes());
    b.extend_from_slice(&fd.to_le_bytes());
    b.extend_from_slice(&pid.to_le_bytes());
    b
}

#[test]
fn record_layout_is_24_bytes() {
    assert_eq!(EVENT_METADATA_LEN, 24);
    assert_eq!(raw(24, 1, 3, 4).len(), 24);
    assert_eq!(read_buffer_len(), 24 * 1024);
}

#[test]
fn decodes_one_record() {
    let b = raw(24, 0x20, 7, 1234);
    let e = decode_event(&b, 0);
    assert_eq!(
        e,
        FanotifyEvent {
            event_len: 24,
            vers: 3,
            reserved: 0,
            metadata_len: 24,
            mask: 0x20,
            fd: 7,
            pid: 1234,
        }
    );
}

#[test]
fn decodes_negative_and_wide_fields() {
    let b = raw(0xdead_beef, 0x0102_0304_0506_0708, -1, -100);
    let e = decode_event(&b, 0);
    assert_eq!(e.event_len, 0xdead_beef);
    assert_eq!(e.mask, 0x0102_0304_0506_0708);
    assert_eq!(e.fd, -1);
    assert_eq!(e.pid, -100);
}

#[test]
fn parses_whole_records_and_ignores_a_partial_tail() {
    let mut b = raw(24, 0x20, 5, 1);
    b.extend(raw(24, 0x1, 6, 2));
    b.extend(raw(24, 0x1000, 7, 3));
    b.extend_from_slice(&[1, 2, 3, 4, 5]);
    let es = parse_events(&b);
    assert_eq!(es.len(), 3);
    assert_eq!(es[0].fd, 5);
    assert_eq!(es[1].mask, 0x1);
    assert_eq!(es[2].fd, 7);
    assert_eq!(es[2].pid, 3);
    assert_eq!(es[2].mask, 0x1000);
}

#[test]
fn parses_empty_read() {
    assert!(parse_events(&[]).is_empty());
    assert!(parse_events(&[0u8; 23]).is_empty());
}

#[test]
fn watch_flags() {
    assert_eq!(init_flags(), 7);
    assert_eq!(init_event_flags(), 0);
    assert_eq!(mark_flags(), 0x11);
    assert_eq!(mark_mask(), 0x1021);
}
