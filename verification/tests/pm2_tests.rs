use pm2_monitor::pm2::{record_from_fields, PM2};

#[test]
fn parses_status_document_fields() {
    let doc = r#"[
        {
            "name": "web",
            "pm_id": 4,
            "pid": 1234,
            "pm2_env": {
                "pm_uptime": 1700000000000,
                "status": "online",
                "restart_time": 7,
                "username": "deploy"
            },
            "monit": { "cpu": 0.5, "memory": 1048576 }
        }
    ]"#;
    let records = PM2::parse_jlist(doc).expect("valid document");
    assert_eq!(records.len(), 1);
    let r = &records[0];
    assert_eq!(r.name, "web");
    assert_eq!(r.id, 4);
    assert_eq!(r.pid, 1234);
    assert_eq!(r.uptime, 1700000000000);
    assert_eq!(r.status, "online");
    assert_eq!(r.restart, 7);
    assert_eq!(r.user, "deploy");
    assert_eq!(r.cpu_text, "0.5");
    assert_eq!(r.mem, 1048576);
}

#[test]
fn missing_fields_default_to_zero_values() {
    let doc = r#"[ { "name": "bare" }, {} ]"#;
    let records = PM2::parse_jlist(doc).expect("valid document");
    assert_eq!(records.len(), 2);
    assert_eq!(records[0].name, "bare");
    assert_eq!(records[0].id, 0);
    assert_eq!(records[0].pid, 0);
    assert_eq!(records[0].uptime, 0);
    assert_eq!(records[0].status, "");
    assert_eq!(records[0].restart, 0);
    assert_eq!(records[0].user, "");
    assert_eq!(records[0].cpu_text, "0");
    assert_eq!(records[0].mem, 0);
    assert_eq!(records[1].name, "");
}

#[test]
fn wrong_field_types_default_too() {
    let doc = r#"[ { "name": 9, "pm_id": "four", "pm2_env": "flat", "monit": { "cpu": "busy" } } ]"#;
    let records = PM2::parse_jlist(doc).expect("valid document");
    assert_eq!(records.len(), 1);
    assert_eq!(records[0].name, "");
    assert_eq!(records[0].id, 0);
    assert_eq!(records[0].uptime, 0);
    assert_eq!(records[0].cpu_text, "0");
}

#[test]
fn malformed_document_yields_no_cycle() {
    assert!(PM2::parse_jlist("this is not json").is_none());
    assert!(PM2::parse_jlist("[ { unterminated").is_none());
    assert!(PM2::parse_jlist("").is_none());
}

#[test]
fn non_array_document_yields_empty_cycle() {
    let records = PM2::parse_jlist(r#"{ "unexpected": "object" }"#).expect("valid document");
    assert_eq!(records.len(), 0);
}

#[test]
fn integer_cpu_keeps_integer_text() {
    let doc = r#"[ { "monit": { "cpu": 12, "memory": 5 } } ]"#;
    let records = PM2::parse_jlist(doc).expect("valid document");
    assert_eq!(records[0].cpu_text, "12");
    assert_eq!(records[0].mem, 5);
}

#[test]
fn record_from_fields_applies_defaults_exactly() {
    let r = record_from_fields(None, None, None, None, None, None, None, None, None);
    assert_eq!(r.name, "");
    assert_eq!(r.id, 0);
    assert_eq!(r.pid, 0);
    assert_eq!(r.uptime, 0);
    assert_eq!(r.status, "");
    assert_eq!(r.restart, 0);
    assert_eq!(r.user, "");
    assert_eq!(r.cpu_text, "0");
    assert_eq!(r.mem, 0);

    let r = record_from_fields(
        Some("n".to_string()),
        Some(-1),
        Some(2),
        Some(3),
        Some("stopped".to_string()),
        Some(4),
        Some("u".to_string()),
        Some("7.25".to_string()),
        Some(-6),
    );
    assert_eq!(r.name, "n");
    assert_eq!(r.id, -1);
    assert_eq!(r.pid, 2);
    assert_eq!(r.uptime, 3);
    assert_eq!(r.status, "stopped");
    assert_eq!(r.restart, 4);
    assert_eq!(r.user, "u");
    assert_eq!(r.cpu_text, "7.25");
    assert_eq!(r.mem, -6);
}
