use optimizer_server::startup::{join_namespace, SetnsError, StartStep, Startup};
use optimizer_server::text::NamespaceKind;

#[test]
fn joins_pid_then_mount_namespace() {
    let plan = join_namespace("42");
    assert_eq!(plan.len(), 2);
    assert_eq!(plan[0].path, "/proc/42/ns/pid");
    assert_eq!(plan[0].kind, NamespaceKind::Pid);
    assert_eq!(plan[1].path, "/proc/42/ns/mnt");
    assert_eq!(plan[1].kind, NamespaceKind::Mount);
}

#[test]
fn no_target_forks_at_once() {
    let mut s = Startup::new(None);
    assert!(matches!(s.advance(None), StartStep::Fork));
}

#[test]
fn successful_joins_then_fork() {
    let mut s = Startup::new(Some("7"));
    match s.advance(None) {
        StartStep::Join(j) => assert_eq!(j.path, "/proc/7/ns/pid"),
        other => panic!("unexpected {other:?}"),
    }
    match s.advance(Some(Ok(()))) {
        StartStep::Join(j) => assert_eq!(j.path, "/proc/7/ns/mnt"),
        other => panic!("unexpected {other:?}"),
    }
    assert!(matches!(s.advance(Some(Ok(()))), StartStep::Fork));
}

#[test]
fn invalid_target_aborts_without_forking() {
    let mut s = Startup::new(Some("no-such-process"));
    match s.advance(None) {
        StartStep::Join(j) => assert_eq!(j.path, "/proc/no-such-process/ns/pid"),
        other => panic!("unexpected {other:?}"),
    }
    assert!(matches!(s.advance(Some(Err(SetnsError::IO(2)))), StartStep::Abort(SetnsError::IO(2))));
    assert!(matches!(s.advance(Some(Ok(()))), StartStep::Abort(SetnsError::IO(2))));
    assert!(matches!(s.advance(None), StartStep::Abort(SetnsError::IO(2))));
}

#[test]
fn failed_mount_join_aborts() {
    let mut s = Startup::new(Some("7"));
    s.advance(None);
    s.advance(Some(Ok(())));
    assert!(matches!(s.advance(Some(Err(SetnsError::Nix(1)))), StartStep::Abort(SetnsError::Nix(1))));
}
