use um_device_tracker::import::{
    finish_message_text, prepare_import, run_to_end, screen_part, ImportAction, ImportRun,
    PendingImport,
};
use um_device_tracker::model::{
    Circuit, CircuitImportReport, DataSource, NotificationRepository, Reporter, ERROR_KIND,
    FINISH_KIND,
};
use um_device_tracker::reports::ReportLog;
use um_device_tracker::store::CircuitTable;
use um_device_tracker::rows::{decode_rows, DecodedRow};
use um_device_tracker::text::decimal_string;
use um_device_tracker::web::RequestResponse;

const HEADER: &str = "id,state,site_name,ckt_id,parent,link_type,provider,z_loc,rtr_name_z_loc,to_description,rtr_port_z_loc,interf_ip_z_loc,a_loc,rtr_name_a_loc,rtr_port,interf_ip_a_loc,bw_mbps,single_isp,ups_closet,router_ip";

fn row(id: &str, site: &str) -> String {
    format!("{id},active,{site},CKT1,P,fiber,ACME,Z,rz,desc,pz,10.0.0.1,A,ra,pa,10.0.0.2,100,no,yes,10.0.0.3")
}

/// Runs an upload to the end against the two stores, as the server does.
fn start(text: &str, log: &mut ReportLog, records: &mut CircuitTable) -> (RequestResponse<String>, String) {
    assert!(screen_part(true, Some("text/csv")).is_ok());
    let pending: PendingImport = match prepare_import(Ok(text.to_string()), Some("up.csv".to_string())) {
        Ok(p) => p,
        Err(_) => panic!("body refused"),
    };
    let begin = pending.begin_entry();
    let written = log.report(begin).map(|_| ()).map_err(|e| e.message());
    let begin_id = pending.begin_entry().id;
    let (reply, run) = pending.launch(written);
    let mut run = run.expect("run started");
    run_to_end(&mut run, records, log);
    assert!(run.finished());
    (reply, begin_id)
}

fn stored(id: &str, site: &str) -> Circuit {
    Circuit::from_fields(&row(id, site).split(',').map(String::from).collect()).unwrap()
}

fn errors_of(log: &ReportLog) -> Vec<CircuitImportReport> {
    log.get_all().unwrap().into_iter().filter(|r| r.kind == ERROR_KIND).collect()
}

#[test]
fn three_rows_blank_unknown_and_malformed() {
    let malformed = "X,active,site3,CKT3,P,fiber,ACME,Z,rz,desc,pz,10.0.0.1,A,ra,pa,10.0.0.2,100,no,yes";
    let text = format!("{HEADER}\n{}\n{}\n{malformed}\n", row("", "site1"), row("NOSUCH", "site2"));
    let mut log = ReportLog::new();
    let mut records = CircuitTable::new();
    let (reply, begin_id) = start(&text, &mut log, &mut records);
    match reply {
        RequestResponse::Success { data, code } => {
            assert_eq!(data, "Successfully started report");
            assert_eq!(code, 200);
        }
        RequestResponse::Error { .. } => panic!("expected success"),
    }
    let all_records = records.get_all().unwrap();
    assert_eq!(all_records.len(), 1);
    assert_eq!(all_records[0].id.len(), 26);
    assert_eq!(all_records[0].site_name, "site1");
    let errors = errors_of(&log);
    assert_eq!(errors.len(), 2);
    assert_eq!(errors[0].message, "no entry with that id");
    assert!(!errors[1].message.is_empty());
    assert!(errors.iter().all(|e| e.file_name.as_deref() == Some("up.csv")));
    let all = log.get_all().unwrap();
    assert_eq!(all.len(), 3);
    assert_eq!(all[0].id, begin_id);
    assert_eq!(all[0].kind, FINISH_KIND);
    assert_eq!(all[0].message, "Finished import with 2 errors");
}

#[test]
fn begin_write_failure_starts_nothing() {
    let text = format!("{HEADER}\n{}\n", row("", "site1"));
    let pending = match prepare_import(Ok(text), None) {
        Ok(p) => p,
        Err(_) => panic!("body refused"),
    };
    let (reply, run) = pending.launch(Err("report store unavailable".to_string()));
    assert!(run.is_none());
    match reply {
        RequestResponse::Error { message, code } => {
            assert_eq!(message, "report store unavailable");
            assert_eq!(code, 500);
        }
        RequestResponse::Success { .. } => panic!("expected a server error"),
    }
}

#[test]
fn rows_accounted_for() {
    let text = format!(
        "{HEADER}\n{}\n{}\n{}\nbad,row\n{}\n",
        row("", "a"),
        row("K1", "b"),
        row("K9", "c"),
        row("", "d")
    );
    let mut log = ReportLog::new();
    let mut records = CircuitTable::new();
    records.create(stored("K1", "old")).unwrap();
    start(&text, &mut log, &mut records);
    let errors = errors_of(&log);
    // K9 is unknown and the short line is malformed; the rest are applied.
    let all_records = records.get_all().unwrap();
    assert_eq!(all_records.len(), 3);
    assert_eq!(records.get("K1".to_string()).unwrap().site_name, "b");
    let applied = 3;
    assert_eq!(errors.len() + applied, 5);
    assert_eq!(log.get_all().unwrap()[0].message, "Finished import with 2 errors");
}

#[test]
fn blank_ids_create_and_others_update() {
    let rows = decode_rows(&format!("{HEADER}\n{}\n{}\n", row("", "a"), row("K1", "b")));
    let mut run = ImportRun::new("R".to_string(), None, rows);
    match run.next_action() {
        ImportAction::Create(c) => {
            assert_eq!(c.id.len(), 26);
            assert_eq!(c.site_name, "a");
        }
        _ => panic!("a blank id must be created"),
    }
    assert!(run.waits_for_outcome());
    assert!(run.record_outcome(Err("refused".to_string())).is_some());
    match run.next_action() {
        ImportAction::Update(c) => {
            assert_eq!(c.id, "K1");
            assert_eq!(c.site_name, "b");
        }
        _ => panic!("a set id must be updated"),
    }
    assert!(run.record_outcome(Ok(())).is_none());
    assert_eq!(run.error_count(), 1);
    assert_eq!(run.applied_count(), 1);
    match run.next_action() {
        ImportAction::Finish { id, message } => {
            assert_eq!(id, "R");
            assert_eq!(message, "Finished import with 1 errors");
        }
        _ => panic!("expected the summary"),
    }
    assert!(run.finished());
}

#[test]
fn malformed_row_does_not_stop_later_rows() {
    let rows = vec![
        DecodedRow::Malformed("broken".to_string()),
        DecodedRow::Decoded(stored("K1", "b")),
    ];
    let mut run = ImportRun::new("R".to_string(), Some("f.csv".to_string()), rows);
    match run.next_action() {
        ImportAction::Report(e) => {
            assert_eq!(e.kind, "error");
            assert_eq!(e.message, "broken");
            assert_eq!(e.file_name.as_deref(), Some("f.csv"));
            assert_eq!(e.id.len(), 26);
        }
        _ => panic!("a malformed row is reported"),
    }
    assert!(!run.waits_for_outcome());
    assert!(matches!(run.next_action(), ImportAction::Update(_)));
    assert!(run.record_outcome(Ok(())).is_none());
    match run.next_action() {
        ImportAction::Finish { message, .. } => assert_eq!(message, "Finished import with 1 errors"),
        _ => panic!("expected the summary"),
    }
}

#[test]
fn empty_upload_finishes_with_no_errors() {
    let mut run = ImportRun::new("R".to_string(), None, decode_rows(HEADER));
    match run.next_action() {
        ImportAction::Finish { id, message } => {
            assert_eq!(id, "R");
            assert_eq!(message, "Finished import with 0 errors");
        }
        _ => panic!("expected the summary"),
    }
}

#[test]
fn summary_and_numerals() {
    assert_eq!(finish_message_text(0), "Finished import with 0 errors");
    assert_eq!(finish_message_text(12), "Finished import with 12 errors");
    assert_eq!(decimal_string(7), "7");
    assert_eq!(decimal_string(10), "10");
    assert_eq!(decimal_string(90210), "90210");
    assert_eq!(decimal_string(usize::MAX), usize::MAX.to_string());
}

#[test]
fn upload_screening() {
    match screen_part(false, None) {
        Err(RequestResponse::Error { message, code }) => {
            assert_eq!(message, "Malformed request");
            assert_eq!(code, 400);
        }
        _ => panic!("expected a client error"),
    }
    match screen_part(true, Some("application/json")) {
        Err(RequestResponse::Error { message, code }) => {
            assert_eq!(message, "No data field");
            assert_eq!(code, 400);
        }
        _ => panic!("expected a client error"),
    }
    assert!(screen_part(true, None).is_err());
    assert!(screen_part(true, Some("text/csv")).is_ok());
}

#[test]
fn unreadable_body_and_opening_entry() {
    match prepare_import(Err("stream closed".to_string()), None) {
        Err(RequestResponse::Error { message, code }) => {
            assert_eq!(message, "stream closed");
            assert_eq!(code, 400);
        }
        _ => panic!("expected a client error"),
    }
    let pending = match prepare_import(Ok(HEADER.to_string()), Some("a.csv".to_string())) {
        Ok(p) => p,
        Err(_) => panic!("body refused"),
    };
    let begin = pending.begin_entry();
    assert_eq!(begin.kind, "finish");
    assert_eq!(begin.message, "In progress");
    assert_eq!(begin.id.len(), 26);
    assert_eq!(begin.file_name.as_deref(), Some("a.csv"));
}

#[test]
fn unknown_update_is_an_error_of_the_run() {
    let mut records = CircuitTable::new();
    let mut log = ReportLog::new();
    log.report(CircuitImportReport {
        kind: FINISH_KIND.to_string(),
        id: "R".to_string(),
        message: "In progress".to_string(),
        file_name: None,
    })
    .unwrap();
    let rows = decode_rows(&format!("{HEADER}\n{}\n{}\n", row("K1", "a"), row("", "b")));
    let mut run = ImportRun::new("R".to_string(), None, rows);
    run_to_end(&mut run, &mut records, &mut log);
    // K1 is unknown to an empty table, so its update fails; the blank one is created.
    assert_eq!(run.error_count(), 1);
    assert_eq!(run.applied_count(), 1);
    let new = log.get_new().unwrap();
    assert_eq!(new.len(), 1);
    assert_eq!(new[0].message, "Finished import with 1 errors");
}

#[test]
fn run_leaves_error_entries_in_row_order() {
    let mut records = CircuitTable::new();
    records.create(stored("K1", "old")).unwrap();
    let mut log = ReportLog::new();
    log.report(CircuitImportReport {
        kind: FINISH_KIND.to_string(),
        id: "R".to_string(),
        message: "In progress".to_string(),
        file_name: Some("f.csv".to_string()),
    })
    .unwrap();
    let text = format!("{HEADER}\nx,y\n{}\n{}\n{}\n", row("K7", "a"), row("K1", "new"), row("", "c"));
    let mut run = ImportRun::new("R".to_string(), Some("f.csv".to_string()), decode_rows(&text));
    run_to_end(&mut run, &mut records, &mut log);
    let all = log.get_all().unwrap();
    assert_eq!(all.len(), 3);
    assert_eq!(all[0].id, "R");
    assert_eq!(all[0].message, "Finished import with 2 errors");
    assert_eq!(all[1].kind, "error");
    assert!(all[1].message.contains("fields"));
    assert_eq!(all[2].message, "no entry with that id");
    assert!(all[1..].iter().all(|e| e.file_name.as_deref() == Some("f.csv")));
    let ids: Vec<String> = records.get_all().unwrap().into_iter().map(|c| c.id).collect();
    assert_eq!(ids.len(), 2);
    assert_eq!(ids[0], "K1");
    assert_eq!(records.get("K1".to_string()).unwrap().site_name, "new");
    assert_eq!(ids[1].len(), 26);
}
