use glypheris::session::{ExportKind, ExportRequest, SessionEntry, SessionLog, MAX_SESSIONS};

fn entry(id: &str, schema: &str, binary: &[u8]) -> SessionEntry {
    SessionEntry::from_packet(
        id.to_string(),
        "2024-01-01 00:00:00".to_string(),
        schema.to_string(),
        "intent".to_string(),
        "{}".to_string(),
        binary,
        0,
        0,
    )
}

#[test]
fn entry_from_packet_keeps_hex_and_size() {
    let e = entry("a", "ExecutionPlan", &[0x0A, 0xFF]);
    assert_eq!(e.binary_hex, "0A FF");
    assert_eq!(e.byte_size, 2);
}

#[test]
fn log_keeps_the_newest_hundred() {
    let mut log = SessionLog::new();
    for i in 0..(MAX_SESSIONS + 5) {
        log.record(entry(&i.to_string(), "GestureCommand", &[i as u8]));
        assert!(log.len() <= MAX_SESSIONS);
    }
    assert_eq!(log.len(), 100);
    assert_eq!(log.entries()[0].id, "5");
    assert_eq!(log.entries()[99].id, "104");
}

#[test]
fn oversized_history_is_cut_on_next_record() {
    let loaded: Vec<SessionEntry> = (0..150).map(|i| entry(&i.to_string(), "GestureCommand", &[])).collect();
    let mut log = SessionLog::from_entries(loaded);
    assert_eq!(log.len(), 150);
    log.record(entry("new", "GestureCommand", &[]));
    assert_eq!(log.len(), 100);
    assert_eq!(log.entries()[0].id, "51");
    assert_eq!(log.entries()[99].id, "new");
}

#[test]
fn delete_removes_every_entry_with_the_id() {
    let mut log = SessionLog::new();
    log.record(entry("a", "GestureCommand", &[1]));
    log.record(entry("b", "GestureCommand", &[2]));
    log.record(entry("a", "GestureCommand", &[3]));
    log.delete("a");
    assert_eq!(log.len(), 1);
    assert_eq!(log.entries()[0].id, "b");
    assert_eq!(log.find("a"), None);
    log.clear();
    assert_eq!(log.len(), 0);
}

#[test]
fn find_returns_the_first_match() {
    let mut log = SessionLog::new();
    log.record(entry("x", "GestureCommand", &[1]));
    log.record(entry("y", "GestureCommand", &[2]));
    log.record(entry("y", "GestureCommand", &[3]));
    assert_eq!(log.find("y"), Some(1));
    assert_eq!(log.find("z"), None);
}

#[test]
fn plan_binary_reads_the_packet_back() {
    let mut log = SessionLog::new();
    log.record(entry("p", "ExecutionPlan", &[0x0A, 0x03, 0x61, 0x62, 0x63]));
    log.record(entry("g", "GestureCommand", &[0x08, 0x01]));
    assert_eq!(log.plan_binary("p"), Ok(vec![0x0A, 0x03, 0x61, 0x62, 0x63]));
    assert_eq!(log.plan_binary("g"), Err("Only ExecutionPlan sessions can be executed".to_string()));
    assert_eq!(log.plan_binary("none"), Err("Session not found".to_string()));
}

#[test]
fn export_job_dispatch() {
    let mut log = SessionLog::new();
    log.record(entry("first", "GestureCommand", &[0x08, 0x02]));
    log.record(entry("second", "InferencePacket", &[0x0A]));
    let req = |id: &str, kind: &str| ExportRequest { session_id: id.to_string(), export_type: kind.to_string() };
    let job = log.export_job(&req("second", "binary")).unwrap();
    assert_eq!(job.kind, ExportKind::Binary);
    assert_eq!(job.index, 1);
    assert_eq!(job.binary, vec![0x0A]);
    assert_eq!(log.export_job(&req("first", "json")).unwrap().kind, ExportKind::Json);
    assert_eq!(log.export_job(&req("first", "hex_report")).unwrap().kind, ExportKind::HexReport);
    assert_eq!(
        log.export_job(&req("first", "pdf")).err(),
        Some("Unknown export type: pdf".to_string())
    );
    assert_eq!(
        log.export_job(&req("missing", "pdf")).err(),
        Some("Session entry not found".to_string())
    );
}
