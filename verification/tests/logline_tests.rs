use pm2_monitor::logline::parse_log_line;

#[test]
fn parses_well_formed_line() {
    let line = b"timestamp=2023-01-02T03:04:05 app=myapp id=3 type=out message=hello world";
    let ev = parse_log_line(line).expect("line is well-formed");
    assert_eq!(ev.timestamp, b"2023-01-02 03:04:05".to_vec());
    assert_eq!(ev.app, b"myapp".to_vec());
    assert_eq!(ev.process_id, b"3".to_vec());
    assert_eq!(ev.log_type, b"out".to_vec());
    assert_eq!(ev.message, b"hello world".to_vec());
}

#[test]
fn parses_empty_values_and_empty_message() {
    let line = b"timestamp=2023-01-02T03:04:05 app= id= type= message=";
    let ev = parse_log_line(line).expect("empty values are allowed");
    assert_eq!(ev.app, Vec::<u8>::new());
    assert_eq!(ev.process_id, Vec::<u8>::new());
    assert_eq!(ev.log_type, Vec::<u8>::new());
    assert_eq!(ev.message, Vec::<u8>::new());
}

#[test]
fn message_may_contain_spaces_and_key_like_text() {
    let line = b"timestamp=2023-01-02T03:04:05 app=a id=1 type=err message=x=1 y=2 app=fake";
    let ev = parse_log_line(line).expect("message takes the rest of the line");
    assert_eq!(ev.message, b"x=1 y=2 app=fake".to_vec());
}

#[test]
fn rejects_line_without_timestamp_marker() {
    assert!(parse_log_line(b"some unstructured noise").is_none());
    assert!(parse_log_line(b"").is_none());
}

#[test]
fn rejects_line_with_marker_not_at_start() {
    assert!(parse_log_line(b"x timestamp=2023-01-02T03:04:05 app=a id=1 type=out message=m")
        .is_none());
}

#[test]
fn rejects_short_timestamp_value() {
    assert!(parse_log_line(b"timestamp=short app=a id=1 type=out message=m").is_none());
}

#[test]
fn rejects_missing_field_key() {
    assert!(parse_log_line(b"timestamp=2023-01-02T03:04:05 application=a id=1 type=out message=m")
        .is_none());
    assert!(parse_log_line(b"timestamp=2023-01-02T03:04:05 app=a pid=1 type=out message=m")
        .is_none());
    assert!(parse_log_line(b"timestamp=2023-01-02T03:04:05 app=a id=1 kind=out message=m")
        .is_none());
    assert!(parse_log_line(b"timestamp=2023-01-02T03:04:05 app=a id=1 type=out msg=m").is_none());
}

#[test]
fn rejects_truncated_line() {
    assert!(parse_log_line(b"timestamp=2023-01-02T03:04:05 app=a id=1").is_none());
    assert!(parse_log_line(b"timestamp=2023-01-02T03:04:05").is_none());
}
