use optimizer_server::pipeline::EventInfo;
use optimizer_server::text::{
    decimal_string, fd_link_path, namespace_path, render_document, serialize_entries,
    NamespaceKind,
};

fn info(path: &str, size: u64, elapsed: u128) -> EventInfo {
    EventInfo { path: path.to_string(), size, elapsed }
}

#[test]
fn decimal_text() {
    assert_eq!(decimal_string(0), "0");
    assert_eq!(decimal_string(7), "7");
    assert_eq!(decimal_string(10), "10");
    assert_eq!(decimal_string(1024), "1024");
    assert_eq!(decimal_string(u128::MAX), u128::MAX.to_string());
}

#[test]
fn descriptor_link_path() {
    assert_eq!(fd_link_path(0), "/proc/self/fd/0");
    assert_eq!(fd_link_path(42), "/proc/self/fd/42");
    assert_eq!(fd_link_path(-1), "/proc/self/fd/-1");
    assert_eq!(fd_link_path(i32::MIN), "/proc/self/fd/-2147483648");
}

#[test]
fn namespace_files() {
    assert_eq!(namespace_path("1234", NamespaceKind::Pid), "/proc/1234/ns/pid");
    assert_eq!(namespace_path("1234", NamespaceKind::Mount), "/proc/1234/ns/mnt");
}

#[test]
fn empty_document() {
    assert_eq!(serialize_entries(&vec![]), "[]");
}

#[test]
fn document_lists_entries_in_order() {
    let d = serialize_entries(&vec![info("/data/a", 512, 3), info("/data/b", 1024, 9)]);
    assert_eq!(
        d,
        r#"[{"path":"/data/a","size":512,"elapsed":3},{"path":"/data/b","size":1024,"elapsed":9}]"#
    );
}

#[test]
fn document_escapes_paths() {
    let d = serialize_entries(&vec![info("/a \"b\"\\c\n", 1, 2)]);
    assert_eq!(d, r#"[{"path":"/a \"b\"\\c\n","size":1,"elapsed":2}]"#);
}

#[test]
fn document_is_valid_json() {
    let d = serialize_entries(&vec![info("/x\ty", 5, 6), info("/z", 0, 7)]);
    let v: serde_json::Value = serde_json::from_str(&d).unwrap();
    assert_eq!(v[0]["path"], "/x\ty");
    assert_eq!(v[0]["size"], 5);
    assert_eq!(v[1]["elapsed"], 7);
}

#[test]
fn render_with_given_quotes() {
    let d = render_document(&vec![info("/p", 1, 2)], &vec!["\"Q\"".to_string()]);
    assert_eq!(d, r#"[{"path":"Q","size":1,"elapsed":2}]"#);
}

#[test]
fn document_escapes_control_characters() {
    let d = serialize_entries(&vec![info("/\u{1}\u{8}\u{c}\r\u{1f}/é", 0, 0)]);
    assert_eq!(d, r#"[{"path":"/\u0001\b\f\r\u001f/é","size":0,"elapsed":0}]"#);
}
