use repopt::codec::{
    check_extra, decode_project, decode_ticket, encode_project, encode_ticket, extra_of,
    known_key, table_of, text_of,
};
use repopt::record::find_field;
use repopt::{
    Field, FieldValue, Project, ProjectId, ProjectStub, RecordKind, StoreError, Ticket, TicketId,
    TicketStatus, TicketType,
};

const TICKET_TEXT: &str = r#"id = "T0001"
title = "Test Ticket"
description = "Something is wrong"
status = "InProgress"
type = "Bug"

[project]
id = "P0001"
"#;

fn sample_ticket(extra: Vec<Field>) -> Ticket {
    Ticket::new(
        TicketId("T0001".to_string()),
        "Test Ticket".to_string(),
        "Something is wrong".to_string(),
        TicketStatus::InProgress,
        TicketType::Bug,
        ProjectStub { id: ProjectId("P0001".to_string()) },
        extra,
    )
}

fn other(key: &str, value: toml::Value) -> Field {
    Field { key: key.to_string(), value: FieldValue::Other(value) }
}

fn keys(fields: &[Field]) -> Vec<String> {
    fields.iter().map(|f| f.key.clone()).collect()
}

fn toml_of(value: &FieldValue) -> toml::Value {
    match value {
        FieldValue::Text(text) => toml::Value::String(text.clone()),
        FieldValue::Table(table) => toml::Value::Table(table.clone()),
        FieldValue::Other(value) => value.clone(),
    }
}

#[test]
fn ticket_is_decoded_from_its_record() {
    let ticket = decode_ticket(TICKET_TEXT).unwrap();
    assert_eq!(ticket.id().0, "T0001");
    assert_eq!(ticket.title(), "Test Ticket");
    assert_eq!(ticket.description(), "Something is wrong");
    assert_eq!(ticket.status(), TicketStatus::InProgress);
    assert_eq!(ticket.ticket_type(), TicketType::Bug);
    assert_eq!(ticket.get_project_id().0, "P0001");
    assert!(ticket.extra.is_empty());
}

#[test]
fn ticket_is_encoded_with_known_fields_first_and_in_fixed_order() {
    assert_eq!(encode_ticket(&sample_ticket(Vec::new())).unwrap(), TICKET_TEXT);
}

#[test]
fn project_is_encoded_and_decoded() {
    let project = Project::new(
        ProjectId("P0007".to_string()),
        "Tracker".to_string(),
        "The tracker itself".to_string(),
        Vec::new(),
    );
    let text = encode_project(&project).unwrap();
    assert_eq!(text, "id = \"P0007\"\nname = \"Tracker\"\ndescription = \"The tracker itself\"\n");
    let back = decode_project(&text).unwrap();
    assert_eq!(back.id().0, "P0007");
    assert_eq!(back.name(), "Tracker");
    assert_eq!(back.description(), "The tracker itself");
    assert!(back.extra.is_empty());
}

#[test]
fn extra_fields_survive_a_round_trip_through_text() {
    let mut nested = toml::Table::new();
    nested.insert("name".to_string(), toml::Value::String("Ada".to_string()));
    nested.insert("since".to_string(), toml::Value::Integer(1843));
    let extra = vec![
        other("priority", toml::Value::Integer(3)),
        Field { key: "assignee".to_string(), value: FieldValue::Text("ada".to_string()) },
        other("blocked", toml::Value::Boolean(false)),
        other("estimate", toml::Value::Float(2.5)),
        other(
            "labels",
            toml::Value::Array(vec![
                toml::Value::String("ui".to_string()),
                toml::Value::String("urgent".to_string()),
            ]),
        ),
        other("due", toml::Value::Datetime("2024-05-27T07:32:00Z".parse().unwrap())),
        Field { key: "reporter".to_string(), value: FieldValue::Table(nested) },
    ];
    let ticket = sample_ticket(extra);
    let text = encode_ticket(&ticket).unwrap();
    let back = decode_ticket(&text).unwrap();
    assert_eq!(back.id().0, "T0001");
    assert_eq!(back.title(), "Test Ticket");
    assert_eq!(back.description(), "Something is wrong");
    assert_eq!(back.status(), TicketStatus::InProgress);
    assert_eq!(back.ticket_type(), TicketType::Bug);
    assert_eq!(back.get_project_id().0, "P0001");
    assert_eq!(keys(&back.extra), keys(&ticket.extra));
    for (a, b) in back.extra.iter().zip(ticket.extra.iter()) {
        assert_eq!(toml_of(&a.value), toml_of(&b.value), "field {}", a.key);
    }
    assert!(matches!(back.extra[1].value, FieldValue::Text(_)));
    assert!(matches!(back.extra[6].value, FieldValue::Table(_)));
    assert!(matches!(back.extra[0].value, FieldValue::Other(_)));
    assert_eq!(encode_ticket(&back).unwrap(), text);
}

#[test]
fn extra_fields_of_a_record_are_kept_in_order() {
    let text = "zeta = 1\nid = \"P0001\"\nowner = \"ada\"\nname = \"n\"\ndescription = \"d\"\nalpha = [1, 2]\n";
    let project = decode_project(text).unwrap();
    assert_eq!(keys(&project.extra), vec!["zeta", "owner", "alpha"]);
    assert_eq!(toml_of(&project.extra[0].value), toml::Value::Integer(1));
    assert_eq!(toml_of(&project.extra[1].value), toml::Value::String("ada".to_string()));
    assert_eq!(
        encode_project(&project).unwrap(),
        "id = \"P0001\"\nname = \"n\"\ndescription = \"d\"\nzeta = 1\nowner = \"ada\"\nalpha = [1, 2]\n"
    );
}

#[test]
fn other_entries_of_the_project_table_are_not_kept() {
    let text = TICKET_TEXT.to_string() + "name = \"ignored\"\n";
    let ticket = decode_ticket(&text).unwrap();
    assert_eq!(ticket.get_project_id().0, "P0001");
    assert!(ticket.extra.is_empty());
    assert_eq!(encode_ticket(&ticket).unwrap(), TICKET_TEXT);
}

#[test]
fn malformed_records_are_refused() {
    let malformed = [
        "this is not toml",
        "id = \"T0001\"",
        &TICKET_TEXT.replace("title = \"Test Ticket\"\n", ""),
        &TICKET_TEXT.replace("description = \"Something is wrong\"\n", ""),
        &TICKET_TEXT.replace("\"InProgress\"", "\"Started\""),
        &TICKET_TEXT.replace("\"InProgress\"", "\"In Progress\""),
        &TICKET_TEXT.replace("\"InProgress\"", "3"),
        &TICKET_TEXT.replace("\"Bug\"", "\"Chore\""),
        &TICKET_TEXT.replace("\"T0001\"", "1"),
        &TICKET_TEXT.replace("[project]\nid = \"P0001\"\n", "project = \"P0001\"\n"),
        &TICKET_TEXT.replace("[project]\nid = \"P0001\"\n", "[project]\nname = \"P0001\"\n"),
        &TICKET_TEXT.replace("[project]\nid = \"P0001\"\n", "[project]\nid = 1\n"),
        &TICKET_TEXT.replace("[project]\nid = \"P0001\"\n", ""),
    ];
    for text in malformed {
        assert_eq!(decode_ticket(text).err(), Some(StoreError::MalformedRecord), "{text}");
    }
    assert_eq!(decode_project("id = \"P0001\"\nname = \"n\"\n").err(), Some(StoreError::MalformedRecord));
    assert_eq!(decode_project("id = \"P0001\"\nname = 1\ndescription = \"d\"\n").err(), Some(StoreError::MalformedRecord));
    assert_eq!(decode_project("id = ").err(), Some(StoreError::MalformedRecord));
}

#[test]
fn extra_fields_that_clash_are_refused_on_encoding() {
    let clash = sample_ticket(vec![other("status", toml::Value::Integer(1))]);
    assert_eq!(encode_ticket(&clash), Err(StoreError::MalformedRecord));
    let twice = sample_ticket(vec![
        other("priority", toml::Value::Integer(1)),
        other("priority", toml::Value::Integer(2)),
    ]);
    assert_eq!(encode_ticket(&twice), Err(StoreError::MalformedRecord));
    let project = Project::new(
        ProjectId("P0001".to_string()),
        "n".to_string(),
        "d".to_string(),
        vec![other("name", toml::Value::Integer(1))],
    );
    assert_eq!(encode_project(&project), Err(StoreError::MalformedRecord));
    let fine = Project::new(
        ProjectId("P0001".to_string()),
        "n".to_string(),
        "d".to_string(),
        vec![other("status", toml::Value::Integer(1))],
    );
    assert!(encode_project(&fine).is_ok());
}

#[test]
fn fields_are_found_by_name() {
    let mut inner = toml::Table::new();
    inner.insert("id".to_string(), toml::Value::String("P0001".to_string()));
    inner.insert("n".to_string(), toml::Value::Integer(1));
    let fields = vec![
        Field { key: "a".to_string(), value: FieldValue::Text("one".to_string()) },
        other("b", toml::Value::Integer(2)),
        Field { key: "project".to_string(), value: FieldValue::Table(inner) },
        Field { key: "a".to_string(), value: FieldValue::Text("again".to_string()) },
    ];
    assert_eq!(find_field(&fields, "a"), Some(0));
    assert_eq!(find_field(&fields, "project"), Some(2));
    assert_eq!(find_field(&fields, "c"), None);
    assert_eq!(text_of(&fields, "a"), Some("one".to_string()));
    assert_eq!(text_of(&fields, "b"), None);
    assert_eq!(text_of(&fields, "c"), None);
    assert!(table_of(&fields, "a").is_none());
    let entries = table_of(&fields, "project").unwrap();
    assert_eq!(keys(&entries), vec!["id", "n"]);
    assert_eq!(text_of(&entries, "id"), Some("P0001".to_string()));
    assert_eq!(text_of(&entries, "n"), None);
    assert_eq!(keys(&extra_of(&fields, RecordKind::Ticket)), vec!["a", "b", "a"]);
    assert!(!check_extra(&fields, RecordKind::Ticket));
    assert!(!check_extra(&fields, RecordKind::Project));
    assert!(check_extra(&fields[..2].to_vec(), RecordKind::Project));
    assert!(known_key(RecordKind::Ticket, "type"));
    assert!(known_key(RecordKind::Project, "name"));
    assert!(!known_key(RecordKind::Project, "type"));
    assert!(!known_key(RecordKind::Ticket, "name"));
}

#[test]
fn ticket_fields_are_written_and_read_back() {
    let ticket = sample_ticket(vec![other("priority", toml::Value::Integer(3))]);
    let fields = ticket.to_fields();
    assert_eq!(
        keys(&fields),
        vec!["id", "title", "description", "status", "type", "project", "priority"]
    );
    assert_eq!(text_of(&fields, "status"), Some("InProgress".to_string()));
    let back = Ticket::from_fields(&fields).unwrap();
    assert_eq!(back.id().0, "T0001");
    assert_eq!(back.get_project_id().0, "P0001");
    assert_eq!(keys(&back.extra), vec!["priority"]);
    let project = Project::new(ProjectId("P0001".to_string()), "n".into(), "d".into(), Vec::new());
    assert_eq!(keys(&project.to_fields()), vec!["id", "name", "description"]);
    assert_eq!(Project::from_fields(&fields).err(), Some(StoreError::MalformedRecord));
}
