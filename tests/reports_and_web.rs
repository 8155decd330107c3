use um_device_tracker::model::{
    Circuit, CircuitImportReport, DataSource, NotificationRepository, Reporter, StoreError,
};
use um_device_tracker::reports::ReportLog;
use um_device_tracker::store::CircuitTable;
use um_device_tracker::web::{
    auth_failure, bearer_token, logged_length, login_reply, remap_error_status, role_permitted,
    token_expiry, LoginResponse, RequestResponse, Role,
};

fn entry(kind: &str, id: &str, message: &str) -> CircuitImportReport {
    CircuitImportReport {
        kind: kind.to_string(),
        id: id.to_string(),
        message: message.to_string(),
        file_name: Some("f.csv".to_string()),
    }
}

#[test]
fn get_new_lists_only_unseen_finish_entries() {
    let mut log = ReportLog::new();
    log.report(entry("finish", "A", "Finished import with 0 errors")).unwrap();
    log.report(entry("error", "B", "bad row")).unwrap();
    log.report(entry("finish", "C", "In progress")).unwrap();
    let new: Vec<String> = log.get_new().unwrap().into_iter().map(|r| r.id).collect();
    assert_eq!(new, vec!["A", "C"]);
    log.acknowledge("A".to_string()).unwrap();
    let new: Vec<String> = log.get_new().unwrap().into_iter().map(|r| r.id).collect();
    assert_eq!(new, vec!["C"]);
    assert_eq!(log.get_all().unwrap().len(), 3);
}

#[test]
fn acknowledge_twice_is_harmless() {
    let mut log = ReportLog::new();
    log.report(entry("finish", "A", "done")).unwrap();
    assert_eq!(log.acknowledge("A".to_string()), Ok(()));
    assert_eq!(log.acknowledge("A".to_string()), Ok(()));
    assert!(log.get_new().unwrap().is_empty());
    assert_eq!(log.get_all().unwrap().len(), 1);
    assert_eq!(log.acknowledge("Z".to_string()), Err(StoreError::NotFound));
}

#[test]
fn report_refuses_duplicate_ids() {
    let mut log = ReportLog::new();
    let back = log.report(entry("error", "A", "x")).unwrap();
    assert_eq!(back.message, "x");
    assert!(matches!(log.report(entry("finish", "A", "y")), Err(StoreError::DuplicateId)));
    assert_eq!(log.get_all().unwrap().len(), 1);
    assert_eq!(StoreError::DuplicateId.message(), "id already exists");
    assert_eq!(StoreError::NotFound.message(), "no entry with that id");
}

#[test]
fn finish_replaces_the_message_in_place() {
    let mut log = ReportLog::new();
    log.report(entry("finish", "A", "In progress")).unwrap();
    log.report(entry("error", "B", "bad")).unwrap();
    assert_eq!(log.finish("A".to_string(), "Finished import with 1 errors".to_string()), Ok(()));
    let all = log.get_all().unwrap();
    assert_eq!(all.len(), 2);
    assert_eq!(all[0].id, "A");
    assert_eq!(all[0].message, "Finished import with 1 errors");
    assert_eq!(all[1].message, "bad");
    assert_eq!(log.finish("Q".to_string(), "m".to_string()), Err(StoreError::NotFound));
}

#[test]
fn replies_from_results() {
    match RequestResponse::from_result(Ok(5u8), (201, 500)) {
        RequestResponse::Success { data, code } => {
            assert_eq!(data, 5);
            assert_eq!(code, 201);
        }
        _ => panic!("expected success"),
    }
    let r = RequestResponse::<u8>::from_result(Err("boom".to_string()), (201, 500));
    assert_eq!(r.code(), 500);
    assert!(matches!(r, RequestResponse::Error { message, .. } if message == "boom"));
}

#[test]
fn framework_statuses_are_remapped() {
    for code in [400u16, 415, 422] {
        match remap_error_status(code) {
            Some(RequestResponse::Error { message, code }) => {
                assert_eq!(message, "Invalid request body");
                assert_eq!(code, 400);
            }
            _ => panic!("expected a remapped reply"),
        }
    }
    match remap_error_status(404) {
        Some(RequestResponse::Error { message, code }) => {
            assert_eq!(message, "Resource not found");
            assert_eq!(code, 404);
        }
        _ => panic!("expected a remapped reply"),
    }
    assert!(remap_error_status(200).is_none());
    assert!(remap_error_status(500).is_none());
}

#[test]
fn roles_by_name() {
    assert_eq!(Role::try_from("admin"), Ok(Role::Admin));
    assert_eq!(Role::try_from("user"), Ok(Role::User));
    assert_eq!(Role::try_from("root"), Err("Not a valid application role".to_string()));
    assert_eq!(String::from(Role::Admin), "admin");
    assert_eq!(String::from(Role::User), "user");
}

#[test]
fn route_roles() {
    assert!(role_permitted("admin", &["admin"]));
    assert!(role_permitted("user", &["admin", "user"]));
    assert!(!role_permitted("user", &["admin"]));
    assert!(!role_permitted("admin", &[]));
}

#[test]
fn bearer_tokens() {
    assert_eq!(bearer_token("Bearer abc.def"), Some("abc.def"));
    assert_eq!(bearer_token("Bearer "), Some(""));
    assert_eq!(bearer_token("Basic abc"), None);
    assert_eq!(bearer_token("Bearer"), None);
    assert_eq!(bearer_token("bearer abc"), None);
}

#[test]
fn login_replies() {
    match login_reply(Ok(Some(LoginResponse { token: "t".to_string() }))) {
        RequestResponse::Success { data, code } => {
            assert_eq!(data.token, "t");
            assert_eq!(code, 200);
        }
        _ => panic!("expected success"),
    }
    match login_reply(Ok(None)) {
        RequestResponse::Error { message, code } => {
            assert_eq!(message, "Invalid user");
            assert_eq!(code, 400);
        }
        _ => panic!("expected a client error"),
    }
    match login_reply(Err("db down".to_string())) {
        RequestResponse::Error { message, code } => {
            assert_eq!(message, "db down");
            assert_eq!(code, 500);
        }
        _ => panic!("expected a server error"),
    }
}

fn circuit(id: &str, site: &str) -> Circuit {
    let mut fields: Vec<String> = (0..20).map(|i| format!("v{i}")).collect();
    fields[0] = id.to_string();
    fields[2] = site.to_string();
    Circuit::from_fields(&fields).unwrap()
}

#[test]
fn circuit_table_create_get_update() {
    let mut table = CircuitTable::new();
    assert!(table.get_all().unwrap().is_empty());
    assert_eq!(table.create(circuit("A", "one")).unwrap().site_name, "one");
    assert_eq!(table.create(circuit("B", "two")).unwrap().id, "B");
    assert!(matches!(table.create(circuit("A", "dup")), Err(StoreError::DuplicateId)));
    assert_eq!(table.get("A".to_string()).unwrap().site_name, "one");
    assert_eq!(table.update(circuit("A", "uno")).unwrap().site_name, "uno");
    assert_eq!(table.get("A".to_string()).unwrap().site_name, "uno");
    assert!(matches!(table.update(circuit("Z", "x")), Err(StoreError::NotFound)));
    assert!(matches!(table.get("Z".to_string()), Err(StoreError::NotFound)));
    let ids: Vec<String> = table.get_all().unwrap().into_iter().map(|c| c.id).collect();
    assert_eq!(ids, vec!["A", "B"]);
}

#[test]
fn auth_failure_reply() {
    match auth_failure() {
        RequestResponse::Error { message, code } => {
            assert_eq!(message, "Invalid auth");
            assert_eq!(code, 401);
        }
        _ => panic!("expected an error"),
    }
}

#[test]
fn token_expiry_and_log_length() {
    assert_eq!(token_expiry(0), Some(86_400_000));
    assert_eq!(token_expiry(1_700_000_000_000), Some(1_700_086_400_000));
    assert_eq!(token_expiry(u64::MAX - 86_399_999), None);
    assert_eq!(token_expiry(u64::MAX - 86_400_000), Some(u64::MAX));
    assert_eq!(logged_length(0), 0);
    assert_eq!(logged_length(200), 200);
    assert_eq!(logged_length(201), 200);
    assert_eq!(logged_length(5000), 200);
}
