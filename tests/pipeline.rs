use optimizer_server::pipeline::{EventError, EventInfo, EventPipeline, EventStep};
use optimizer_server::record::FanotifyEvent;

fn rec(fd: i32) -> FanotifyEvent {
    FanotifyEvent { event_len: 24, vers: 3, reserved: 0, metadata_len: 24, mask: 0x20, fd, pid: 1 }
}

fn paths(p: &EventPipeline) -> Vec<String> {
    p.entries().iter().map(|e| e.path.clone()).collect()
}

#[test]
fn same_path_many_descriptors_gives_one_entry() {
    let mut p = EventPipeline::new();
    for fd in 3..13 {
        let o = p.handle_event(&rec(fd), Ok("/data/x".to_string()));
        assert_eq!(o.close_fd, fd);
        if let EventStep::Fresh(path) = o.step {
            assert_eq!(p.record(path, Ok(10), fd as u128), Ok(true));
        } else {
            assert_eq!(o.step, EventStep::Repeat);
        }
    }
    assert_eq!(p.len(), 1);
    assert_eq!(p.entry(0).path, "/data/x");
    assert_eq!(p.entry(0).elapsed, 3);
}

#[test]
fn first_seen_order_is_kept() {
    let mut p = EventPipeline::new();
    let seq = ["/c", "/a", "/c", "/b", "/a", "/a", "/d", "/b"];
    for (i, s) in seq.iter().enumerate() {
        p.record(s.to_string(), Ok(i as u64), i as u128).unwrap();
    }
    assert_eq!(paths(&p), vec!["/c", "/a", "/b", "/d"]);
    assert_eq!(p.entry(1).size, 1);
    assert_eq!(p.entry(2).size, 3);
}

#[test]
fn repeat_access_does_not_refresh() {
    let mut p = EventPipeline::new();
    assert_eq!(p.record("/f".to_string(), Ok(1), 5), Ok(true));
    assert_eq!(p.record("/f".to_string(), Ok(99), 50), Ok(false));
    assert_eq!(p.entry(0).size, 1);
    assert_eq!(p.entry(0).elapsed, 5);
}

#[test]
fn unresolved_descriptor_is_still_closed() {
    let p = EventPipeline::new();
    let o = p.handle_event(&rec(9), Err(9));
    assert_eq!(o.close_fd, 9);
    assert_eq!(o.step, EventStep::Unresolved(9));
}

#[test]
fn metadata_failure_records_nothing() {
    let mut p = EventPipeline::new();
    assert_eq!(p.record("/gone".to_string(), Err(2), 1), Err(EventError::Metadata(2)));
    assert_eq!(p.len(), 0);
    assert!(!p.contains(&"/gone".to_string()));
}

#[test]
fn timestamps_never_decrease() {
    let mut p = EventPipeline::new();
    p.record("/a".to_string(), Ok(1), 100).unwrap();
    p.record("/b".to_string(), Ok(1), 40).unwrap();
    p.record("/c".to_string(), Ok(1), 120).unwrap();
    assert_eq!(p.entry(0).elapsed, 100);
    assert_eq!(p.entry(1).elapsed, 100);
    assert_eq!(p.entry(2).elapsed, 120);
}

#[test]
fn batch_closes_every_descriptor_once() {
    let mut p = EventPipeline::new();
    p.record("/seen".to_string(), Ok(1), 1).unwrap();
    let records = vec![rec(4), rec(5), rec(6), rec(7)];
    let resolved = vec![Ok("/new".to_string()), Err(9), Ok("/seen".to_string()), Err(2)];
    let out = p.handle_batch(&records, &resolved);
    let fds: Vec<i32> = out.iter().map(|o| o.close_fd).collect();
    assert_eq!(fds, vec![4, 5, 6, 7]);
    assert_eq!(out[0].step, EventStep::Fresh("/new".to_string()));
    assert_eq!(out[1].step, EventStep::Unresolved(9));
    assert_eq!(out[2].step, EventStep::Repeat);
    assert_eq!(out[3].step, EventStep::Unresolved(2));
}

#[test]
fn entries_are_equal_by_path() {
    let a = EventInfo { path: "/p".to_string(), size: 1, elapsed: 2 };
    let b = EventInfo { path: "/p".to_string(), size: 3, elapsed: 4 };
    let c = EventInfo { path: "/q".to_string(), size: 1, elapsed: 2 };
    assert!(a == b);
    assert!(a != c);
}
