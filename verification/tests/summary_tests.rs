use meetily_models::json::JsonValue;
use meetily_models::summary::commands::{
    cancel_summary_message, idle_summary_response, is_valid_inline_content,
    migrate_summary_document, panic_failure_message, process_started_response, resolve_meeting_id, row_outcome,
    sanitize_blocknote_block, sanitize_blocks, save_summary_reply, summary_job_settings,
    summary_response, DocumentMigration, MigrationCounts, RowOutcome,
};

fn s(t: &str) -> JsonValue {
    JsonValue::String(t.to_string())
}

fn obj(members: Vec<(&str, JsonValue)>) -> JsonValue {
    JsonValue::Object(members.into_iter().map(|(k, v)| (k.to_string(), v)).collect())
}

fn text_item(t: &str) -> JsonValue {
    obj(vec![("type", s("text")), ("text", s(t)), ("styles", obj(vec![]))])
}

fn paragraph(t: &str) -> JsonValue {
    obj(vec![("type", s("paragraph")), ("content", JsonValue::Array(vec![text_item(t)]))])
}

#[test]
fn valid_block_gains_empty_children() {
    let out = sanitize_blocknote_block(paragraph("hello")).unwrap();
    assert_eq!(
        out,
        obj(vec![
            ("type", s("paragraph")),
            ("content", JsonValue::Array(vec![text_item("hello")])),
            ("children", JsonValue::Array(vec![])),
        ])
    );
}

#[test]
fn legacy_string_content_is_dropped() {
    let block = obj(vec![("type", s("paragraph")), ("content", s("plain text"))]);
    assert_eq!(sanitize_blocknote_block(block), None);
}

#[test]
fn blocks_without_a_type_are_dropped() {
    assert_eq!(sanitize_blocknote_block(obj(vec![("content", JsonValue::Array(vec![]))])), None);
    assert_eq!(sanitize_blocknote_block(obj(vec![("type", s(""))])), None);
    assert_eq!(sanitize_blocknote_block(obj(vec![("type", JsonValue::Number("3".to_string()))])), None);
    assert_eq!(sanitize_blocknote_block(s("paragraph")), None);
}

#[test]
fn invalid_inline_content_drops_the_block() {
    let no_text = obj(vec![("type", s("text"))]);
    assert!(!is_valid_inline_content(&no_text));
    let bad_styles = obj(vec![("type", s("text")), ("text", s("x")), ("styles", s("bold"))]);
    assert!(!is_valid_inline_content(&bad_styles));
    let link = obj(vec![("type", s("link")), ("styles", JsonValue::Null)]);
    assert!(is_valid_inline_content(&link));
    assert!(!is_valid_inline_content(&s("text")));
    let block = obj(vec![("type", s("paragraph")), ("content", JsonValue::Array(vec![no_text]))]);
    assert_eq!(sanitize_blocknote_block(block), None);
}

#[test]
fn children_are_sanitised_recursively() {
    let bad_child = obj(vec![("type", s("paragraph")), ("content", s("legacy"))]);
    let block = obj(vec![
        ("type", s("bulletListItem")),
        ("children", JsonValue::Array(vec![paragraph("a"), bad_child, paragraph("b")])),
        ("props", obj(vec![])),
    ]);
    let out = sanitize_blocknote_block(block).unwrap();
    let expected_children = JsonValue::Array(vec![
        sanitize_blocknote_block(paragraph("a")).unwrap(),
        sanitize_blocknote_block(paragraph("b")).unwrap(),
    ]);
    assert_eq!(
        out,
        obj(vec![
            ("type", s("bulletListItem")),
            ("children", expected_children),
            ("props", obj(vec![])),
        ])
    );
}

#[test]
fn non_array_children_become_empty() {
    let block = obj(vec![("type", s("heading")), ("children", s("oops"))]);
    let out = sanitize_blocknote_block(block).unwrap();
    assert_eq!(out, obj(vec![("type", s("heading")), ("children", JsonValue::Array(vec![]))]));
}

#[test]
fn sanitize_blocks_keeps_order() {
    let out = sanitize_blocks(vec![paragraph("1"), s("junk"), paragraph("2")]);
    assert_eq!(out.len(), 2);
    assert_eq!(out[0], sanitize_blocknote_block(paragraph("1")).unwrap());
    assert_eq!(out[1], sanitize_blocknote_block(paragraph("2")).unwrap());
}

#[test]
fn migration_outcomes() {
    assert_eq!(migrate_summary_document(None), DocumentMigration::Unparsable);
    assert_eq!(migrate_summary_document(Some(s("x"))), DocumentMigration::Skipped);
    assert_eq!(
        migrate_summary_document(Some(obj(vec![("markdown", s("# hi"))]))),
        DocumentMigration::Skipped
    );
    assert_eq!(
        migrate_summary_document(Some(obj(vec![("summary_json", JsonValue::Array(vec![]))]))),
        DocumentMigration::Skipped
    );
    assert_eq!(
        migrate_summary_document(Some(obj(vec![("summary_json", s("[]"))]))),
        DocumentMigration::Skipped
    );
    assert_eq!(
        migrate_summary_document(Some(obj(vec![("summary_json", JsonValue::Array(vec![s("bad")]))]))),
        DocumentMigration::AllBlocksInvalid
    );
}

#[test]
fn migration_replaces_summary_json_in_place() {
    let doc = obj(vec![
        ("markdown", s("# Notes")),
        ("summary_json", JsonValue::Array(vec![paragraph("keep"), s("drop")])),
        ("other", JsonValue::Bool(true)),
    ]);
    let expected = obj(vec![
        ("markdown", s("# Notes")),
        ("summary_json", JsonValue::Array(vec![sanitize_blocknote_block(paragraph("keep")).unwrap()])),
        ("other", JsonValue::Bool(true)),
    ]);
    assert_eq!(migrate_summary_document(Some(doc)), DocumentMigration::Updated(expected));
}

#[test]
fn migration_counts_add_up() {
    let outcomes = [
        row_outcome(&DocumentMigration::Unparsable, None),
        row_outcome(&DocumentMigration::Skipped, None),
        row_outcome(&DocumentMigration::AllBlocksInvalid, None),
        row_outcome(&DocumentMigration::Updated(obj(vec![])), Some(true)),
        row_outcome(&DocumentMigration::Updated(obj(vec![])), Some(false)),
        row_outcome(&DocumentMigration::Updated(obj(vec![])), None),
    ];
    assert_eq!(
        outcomes,
        [
            RowOutcome::Error,
            RowOutcome::Skipped,
            RowOutcome::Error,
            RowOutcome::Migrated,
            RowOutcome::Error,
            RowOutcome::Error
        ]
    );
    let mut counts = MigrationCounts::new(outcomes.len());
    for o in outcomes {
        counts.record(o);
    }
    assert_eq!(counts, MigrationCounts { total: 6, migrated: 1, skipped: 1, errors: 4 });
    assert_eq!(counts.migrated + counts.skipped + counts.errors, counts.total);
}

#[test]
fn save_and_cancel_replies() {
    assert_eq!(save_summary_reply(Ok(true)), Ok("Meeting summary saved successfully".to_string()));
    assert_eq!(
        save_summary_reply(Ok(false)),
        Err("Meeting not found or can't convert the json".to_string())
    );
    assert_eq!(save_summary_reply(Err("db locked".to_string())), Err("db locked".to_string()));
    assert_eq!(cancel_summary_message(true), "Summary generation cancelled successfully");
    assert_eq!(cancel_summary_message(false), "No active summary generation to cancel");
}

#[test]
fn summary_responses() {
    let r = summary_response(
        "COMPLETED",
        Some("Standup".to_string()),
        "m1".to_string(),
        Some("2024-01-01T00:00:00+00:00".to_string()),
        None,
        Some(obj(vec![])),
        None,
    );
    assert_eq!(r.status, "completed");
    assert_eq!(r.meeting_name, Some("Standup".to_string()));
    assert_eq!(r.meeting_id, "m1");
    assert_eq!(r.data, Some(obj(vec![])));
    let idle = idle_summary_response(None, "m2".to_string());
    assert_eq!(idle.status, "idle");
    assert_eq!(idle.meeting_id, "m2");
    assert!(idle.start.is_none() && idle.end.is_none() && idle.data.is_none() && idle.error.is_none());
}

#[test]
fn summary_job_defaults() {
    let settings = summary_job_settings(None, None, None, None, None);
    assert!(settings.meeting_id.starts_with("meeting-"));
    assert_eq!(settings.meeting_id.len(), 44);
    assert_eq!(settings.prompt, "");
    assert_eq!(settings.template_id, "daily_standup");
    assert_eq!(settings.chunk_size, 40000);
    assert_eq!(settings.overlap, 1000);

    let given = summary_job_settings(
        Some("meeting-7".to_string()),
        Some(1000),
        Some(10),
        Some("Be brief".to_string()),
        Some("retro".to_string()),
    );
    assert_eq!(given.meeting_id, "meeting-7");
    assert_eq!(given.chunk_size, 1000);
    assert_eq!(given.overlap, 10);
    assert_eq!(given.prompt, "Be brief");
    assert_eq!(given.template_id, "retro");
}

#[test]
fn fresh_meeting_ids_differ() {
    let a = resolve_meeting_id(None);
    let b = resolve_meeting_id(None);
    assert_ne!(a, b);
    assert_eq!(resolve_meeting_id(Some("x".to_string())), "x");
}

#[test]
fn started_response() {
    let r = process_started_response("meeting-1".to_string());
    assert_eq!(r.message, "Summary generation started");
    assert_eq!(r.process_id, "meeting-1");
}

#[test]
fn sanitising_twice_changes_nothing() {
    let block = obj(vec![
        ("type", s("bulletListItem")),
        ("children", JsonValue::Array(vec![paragraph("a"), s("junk")])),
    ]);
    let once = sanitize_blocknote_block(block).unwrap();
    let twice = sanitize_blocknote_block(once.duplicate()).unwrap();
    assert_eq!(once, twice);
}

#[test]
fn migrating_twice_changes_nothing() {
    let doc = obj(vec![("summary_json", JsonValue::Array(vec![paragraph("x"), s("bad")]))]);
    let first = match migrate_summary_document(Some(doc)) {
        DocumentMigration::Updated(d) => d,
        other => panic!("unexpected {:?}", other),
    };
    assert_eq!(
        migrate_summary_document(Some(first.duplicate())),
        DocumentMigration::Updated(first)
    );
}

#[test]
fn duplicates_are_equal() {
    let v = obj(vec![("a", JsonValue::Array(vec![JsonValue::Null, JsonValue::Number("1.5".to_string())]))]);
    assert_eq!(v.duplicate(), v);
}

#[test]
fn panicked_jobs_record_their_message() {
    assert_eq!(panic_failure_message(Some("boom".to_string())), "Internal error: boom");
    assert_eq!(
        panic_failure_message(None),
        "Internal error: Unknown panic during summary generation"
    );
}

#[test]
fn generated_meeting_id_is_a_random_uuid() {
    for _ in 0..20 {
        let id = resolve_meeting_id(None);
        let uuid: Vec<char> = id["meeting-".len()..].chars().collect();
        assert_eq!(uuid.len(), 36);
        for (i, c) in uuid.iter().enumerate() {
            if i == 8 || i == 13 || i == 18 || i == 23 {
                assert_eq!(*c, '-');
            } else {
                assert!(c.is_ascii_hexdigit() && !c.is_ascii_uppercase());
            }
        }
        assert_eq!(uuid[14], '4');
        assert!(matches!(uuid[19], '8' | '9' | 'a' | 'b'));
    }
}
