use lobby_notify::engine::{
    delete_record, handle_response, plan_send, record_for_lobby, select_stale, upsert_record,
    CycleOutcome, NotificationRecord, SendKind, StoreCommand,
};
use lobby_notify::webhook::WebhookResponse;

fn record(message_id: &str, lobby_id: &str, last_updated: u64) -> NotificationRecord {
    NotificationRecord {
        message_id: message_id.to_string(),
        lobby_id: lobby_id.to_string(),
        last_updated,
    }
}

#[test]
fn existing_record_means_update_not_create() {
    let existing = Some("msg-1".to_string());
    let kind = plan_send(&existing);
    assert_eq!(
        kind,
        SendKind::Update {
            message_id: "msg-1".to_string()
        }
    );
}

#[test]
fn no_record_means_create() {
    assert_eq!(plan_send(&None), SendKind::Create);
}

#[test]
fn success_commits_an_upsert_with_the_returned_id() {
    let lobby = "abc123".to_string();
    let response = WebhookResponse::Success {
        id: "msg-9".to_string(),
    };
    let outcome = handle_response(&lobby, &None, &response);
    assert_eq!(
        outcome,
        CycleOutcome::Committed {
            command: StoreCommand::UpsertRecord {
                message_id: "msg-9".to_string(),
                lobby_id: "abc123".to_string(),
            }
        }
    );
}

#[test]
fn ratelimit_retries_after_the_given_delay() {
    let lobby = "abc123".to_string();
    let existing = Some("msg-1".to_string());
    let response = WebhookResponse::Ratelimit {
        global: false,
        message: "rate limited".to_string(),
        retry_after_millis: 2500,
    };
    let outcome = handle_response(&lobby, &existing, &response);
    assert_eq!(outcome, CycleOutcome::RetryAfter { delay_millis: 2500 });
}

#[test]
fn unknown_message_error_deletes_the_stale_record() {
    let lobby = "abc123".to_string();
    let existing = Some("msg-1".to_string());
    let response = WebhookResponse::Error {
        message: "Unknown Message".to_string(),
        code: 10008,
    };
    let outcome = handle_response(&lobby, &existing, &response);
    assert_eq!(
        outcome,
        CycleOutcome::RecordVanished {
            command: StoreCommand::DeleteRecord {
                message_id: "msg-1".to_string()
            }
        }
    );
}

#[test]
fn unknown_message_error_without_record_is_abandoned() {
    let lobby = "abc123".to_string();
    let response = WebhookResponse::Error {
        message: "Unknown Message".to_string(),
        code: 10008,
    };
    assert_eq!(
        handle_response(&lobby, &None, &response),
        CycleOutcome::Abandoned
    );
}

#[test]
fn other_errors_are_abandoned_without_touching_records() {
    let lobby = "abc123".to_string();
    let existing = Some("msg-1".to_string());
    let response = WebhookResponse::Error {
        message: "Missing Permissions".to_string(),
        code: 50013,
    };
    assert_eq!(
        handle_response(&lobby, &existing, &response),
        CycleOutcome::Abandoned
    );
}

#[test]
fn upsert_appends_a_new_record() {
    let mut records = vec![record("m1", "a", 100)];
    upsert_record(&mut records, &"m2".to_string(), &"b".to_string(), 250);
    assert_eq!(records.len(), 2);
    assert_eq!(records[1], record("m2", "b", 250));
}

#[test]
fn upsert_refreshes_an_existing_record_keeping_its_lobby() {
    let mut records = vec![record("m1", "a", 100), record("m2", "b", 100)];
    upsert_record(&mut records, &"m2".to_string(), &"b".to_string(), 777);
    assert_eq!(records, vec![record("m1", "a", 100), record("m2", "b", 777)]);
}

#[test]
fn delete_removes_only_the_named_record() {
    let mut records = vec![record("m1", "a", 100), record("m2", "b", 200)];
    delete_record(&mut records, &"m1".to_string());
    assert_eq!(records, vec![record("m2", "b", 200)]);
    delete_record(&mut records, &"m3".to_string());
    assert_eq!(records, vec![record("m2", "b", 200)]);
}

#[test]
fn record_for_lobby_finds_the_records_lobby() {
    let records = vec![record("m1", "a", 100), record("m2", "b", 200)];
    let found = record_for_lobby(&records, &"b".to_string()).unwrap();
    assert_eq!(found.message_id, "m2");
    assert!(record_for_lobby(&records, &"c".to_string()).is_none());
}

#[test]
fn sweep_selects_a_record_fifteen_minutes_old_exactly_once() {
    let now: u64 = 100_000;
    let mut records = vec![
        record("stale", "a", now - 900),
        record("fresh", "b", now - 30),
    ];
    let stale = select_stale(&records, now);
    assert_eq!(stale, vec!["stale".to_string()]);
    // the record is removed whatever the remote delete call returned
    delete_record(&mut records, &stale[0]);
    assert_eq!(records, vec![record("fresh", "b", now - 30)]);
}

#[test]
fn sweep_threshold_is_ten_minutes() {
    let now: u64 = 100_000;
    let records = vec![
        record("at-limit", "a", now - 600),
        record("just-inside", "b", now - 599),
    ];
    assert_eq!(select_stale(&records, now), vec!["at-limit".to_string()]);
}
