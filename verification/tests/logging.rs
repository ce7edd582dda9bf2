use cleo::logging::{commit, file_line, message_type, module_name, pack, Level, MessageType};

#[test]
fn levels_map_to_message_kinds() {
    assert_eq!(message_type(Level::Error), MessageType::Error);
    assert_eq!(message_type(Level::Warn), MessageType::Warning);
    assert_eq!(message_type(Level::Info), MessageType::Normal);
    assert_eq!(message_type(Level::Debug), MessageType::Debug);
    assert_eq!(message_type(Level::Trace), MessageType::Debug);
}

#[test]
fn record_without_module_is_dropped() {
    assert_eq!(commit(Level::Info, None), None);
}

#[test]
fn network_library_records_are_dropped() {
    assert_eq!(commit(Level::Info, Some("mio::net::tcp")), None);
    assert_eq!(commit(Level::Error, Some("reqwest::blocking::client")), None);
    assert_eq!(commit(Level::Warn, Some("hyper_reqwest")), None);
}

#[test]
fn records_are_named_by_last_module_segment() {
    assert_eq!(
        commit(Level::Warn, Some("cleo::meta::language")),
        Some((MessageType::Warning, "language".to_string()))
    );
    assert_eq!(
        commit(Level::Debug, Some("cleo")),
        Some((MessageType::Debug, "cleo".to_string()))
    );
}

#[test]
fn module_name_edges() {
    assert_eq!(module_name("a::b::c"), "c");
    assert_eq!(module_name("abc"), "abc");
    assert_eq!(module_name("a::"), "");
    assert_eq!(module_name(""), "");
    assert_eq!(module_name("a:b"), "a:b");
}

#[test]
fn file_line_format() {
    assert_eq!(
        file_line("2023-01-02 03:04:05.006", "hook", MessageType::Warning, "slide is odd"),
        "[2023-01-02 03:04:05.006] [hook] [warning] slide is odd\n"
    );
    assert_eq!(file_line("t", "m", MessageType::Normal, "x"), "[t] [m] [info] x\n");
}

#[test]
fn pack_prefixes_length_plus_four() {
    assert_eq!(pack(&[1, 2, 3]), vec![7, 0, 0, 0, 1, 2, 3]);
    assert_eq!(pack(&[]), vec![4, 0, 0, 0]);
    let big = vec![9u8; 300];
    let framed = pack(&big);
    assert_eq!(&framed[..4], &[48, 1, 0, 0]);
    assert_eq!(framed.len(), 304);
}
