use arm_backend::request_history::{
    accepted_record, apply_update, key, read_view, request_state, reservation, terminal, update_record, Payload,
    RequestHistory, RequestMessage, RequestRecord, Reservation,
};

fn payload(fields: &[(&str, &str)]) -> Payload {
    let mut object = serde_json::Map::new();
    for (name, value) in fields {
        object.insert((*name).to_owned(), serde_json::Value::String((*value).to_owned()));
    }
    let get = |name: &str| fields.iter().find(|(n, _)| *n == name).map(|(_, v)| (*v).to_owned());
    Payload {
        state: get("state"),
        task_request_id: get("task_request_id"),
        task_state: get("task_state"),
        original_error: get("original_error"),
        text: serde_json::Value::Object(object).to_string(),
    }
}

/// A message `{"request_id": id, ..fields}`.
fn message(id: &str, fields: &[(&str, &str)]) -> RequestMessage {
    let mut all = vec![("request_id", id)];
    all.extend_from_slice(fields);
    RequestMessage {
        request_id: Some(id.to_owned()),
        task_request_id: None,
        original_error: fields.iter().find(|(n, _)| *n == "original_error").map(|(_, v)| (*v).to_owned()),
        nested: None,
        body: payload(&all),
    }
}

/// A message `{"request_id": id, "value": {..fields}}`.
fn message_with_value(id: &str, fields: &[(&str, &str)]) -> RequestMessage {
    RequestMessage {
        request_id: Some(id.to_owned()),
        task_request_id: None,
        original_error: None,
        nested: Some(payload(fields)),
        body: payload(&[("request_id", id)]),
    }
}

fn open_record(id: &str) -> RequestRecord {
    RequestRecord {
        schema_version: 1,
        request_id: id.to_owned(),
        session_id: "session".to_owned(),
        operation: "manipulation_request".to_owned(),
        state: None,
        terminal: false,
        value: None,
        original_error: None,
        updated_at_ms: 0,
    }
}

#[test]
fn completed_requests_leave_the_observation_set() {
    let mut history = RequestHistory::new();
    history.begin("motion_request", &message("a", &[]));
    let mut queued = 0;
    if history.observe("motion_status", &message("a", &[("state", "executing")])) {
        queued += 1;
    }
    assert!(history.contains("a"));
    if history.observe("motion_status", &message("a", &[("state", "succeeded")])) {
        queued += 1;
    }
    assert!(!history.contains("a"));
    if history.observe("motion_status", &message("a", &[("state", "succeeded")])) {
        queued += 1;
    }
    assert_eq!(queued, 2);
}

#[test]
fn acceptance_is_not_completion_and_terminal_is_not_overwritten() {
    let mut record = open_record("a");
    update_record(&mut record, "manipulation_request_result", &message_with_value("a", &[("state", "planning")]));
    assert!(!record.terminal);
    update_record(&mut record, "manipulation_state", &message("a", &[("state", "cancelled")]));
    update_record(&mut record, "manipulation_state", &message("a", &[("state", "executing")]));
    assert_eq!(record.state.as_deref(), Some("cancelled"));
}

#[test]
fn configuration_ack_does_not_inherit_another_tasks_error_state() {
    let mut record = open_record("a");
    update_record(
        &mut record,
        "perception_request_result",
        &message_with_value("a", &[("task_request_id", "old"), ("task_state", "executing")]),
    );
    assert_eq!(record.state.as_deref(), Some("succeeded"));
}

#[test]
fn a_task_state_counts_for_its_own_request() {
    let value = message_with_value("a", &[("task_request_id", "a"), ("task_state", "executing")]);
    assert_eq!(request_state("perception_state", &value, "a").as_deref(), Some("executing"));
    assert_eq!(request_state("perception_state", &message("a", &[]), "a"), None);
    assert_eq!(request_state("motion_request_result", &message("a", &[]), "a").as_deref(), Some("succeeded"));
}

#[test]
fn an_error_fails_the_request_and_is_kept() {
    let mut record = open_record("a");
    let failed = message("a", &[("original_error", "controller failure")]);
    assert_eq!(request_state("motion_request_result", &failed, "a").as_deref(), Some("failed"));
    assert!(update_record(&mut record, "motion_request_result", &failed));
    assert_eq!(record.state.as_deref(), Some("failed"));
    assert!(record.terminal);
    assert_eq!(record.original_error.as_deref(), Some("controller failure"));
    assert!(!update_record(&mut record, "motion_state", &message("a", &[("state", "executing")])));
}

#[test]
fn a_repeated_message_changes_nothing() {
    let mut record = open_record("a");
    let executing = message("a", &[("state", "executing")]);
    assert!(update_record(&mut record, "motion_status", &executing));
    assert!(!update_record(&mut record, "motion_status", &executing));
}

#[test]
fn updates_from_another_session_are_ignored() {
    let mut record = open_record("a");
    assert!(!apply_update(&mut record, "other", "motion_status", &message("a", &[("state", "executing")])));
    assert!(record.state.is_none());
    assert!(apply_update(&mut record, "session", "motion_status", &message("a", &[("state", "executing")])));
}

#[test]
fn reservations_need_an_id_except_for_assets() {
    assert!(matches!(reservation("model_asset_request", None), Reservation::NotRecorded));
    assert!(matches!(reservation("motion_request", Some("a")), Reservation::Record(id) if id == "a"));
    assert!(matches!(reservation("motion_request", Some("")), Reservation::MissingRequestId));
    assert!(matches!(reservation("motion_request", None), Reservation::MissingRequestId));
    let record = accepted_record(1, "a", "first", "motion_request", 5);
    assert_eq!(record.state.as_deref(), Some("accepted"));
    assert!(!record.terminal);
}

#[test]
fn unconfirmed_records_of_another_session_read_as_unknown() {
    let record = accepted_record(1, "a", "first", "motion_request", 5);
    let seen = read_view(record, "second");
    assert_eq!(seen.state.as_deref(), Some("unknown"));
    assert_eq!(
        seen.original_error.as_deref(),
        Some("服务已重启，未确认该请求的最终执行结果；不会自动重放")
    );
    let own = read_view(accepted_record(1, "a", "first", "motion_request", 5), "first");
    assert_eq!(own.state.as_deref(), Some("accepted"));
}

#[test]
fn keys_and_terminal_states() {
    assert_eq!(key("a"), "robot-arm:request:a");
    assert!(terminal("succeeded") && terminal("failed") && terminal("cancelled"));
    assert!(!terminal("executing") && !terminal("accepted"));
}

#[test]
fn snapshots_and_assets_are_not_observed() {
    let mut history = RequestHistory::new();
    history.begin("motion_snapshot", &message("s", &[]));
    history.begin("model_asset_request", &message("m", &[]));
    history.begin("motion_request", &message("", &[]));
    assert!(!history.contains("s"));
    assert!(!history.contains("m"));
    assert!(!history.contains(""));
}
