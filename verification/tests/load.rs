use repopt::files::{is_record_file, record_file_name, verify_and_write, IRDBWritableObject};
use repopt::load::{collect_in_repo_db, collect_projects, collect_tickets};
use repopt::{
    Project, ProjectId, ProjectStub, RecordKind, StoreError, Ticket, TicketId, TicketStatus,
    TicketType,
};

const PROJECT: &str = "id = \"P0001\"\nname = \"First\"\ndescription = \"The first\"\n";

fn ticket_text(id: &str, project: &str) -> String {
    format!(
        "id = \"{id}\"\ntitle = \"Ticket {id}\"\ndescription = \"\"\nstatus = \"Backlog\"\ntype = \"Bug\"\n\n[project]\nid = \"{project}\"\n"
    )
}

#[test]
fn store_is_loaded_from_its_records() {
    let db = collect_in_repo_db(
        &vec![Ok(PROJECT.to_string())],
        &vec![Ok(ticket_text("T0002", "P0001")), Ok(ticket_text("T0001", "P0001"))],
    )
    .unwrap();
    let tickets = db.iter_tickets().collect();
    assert_eq!(tickets.len(), 2);
    assert_eq!(tickets[0].id().0, "T0001");
    assert_eq!(tickets[1].id().0, "T0002");
    assert_eq!(db.get_project(&ProjectId("P0001".to_string())).unwrap().name(), "First");
    assert_eq!(db.get_next_ticket_id(), Ok(Some(TicketId("T0003".to_string()))));
}

#[test]
fn tickets_of_a_project_in_a_loaded_store() {
    let db = collect_in_repo_db(
        &vec![Ok(PROJECT.to_string())],
        &vec![Ok(ticket_text("T0001", "P0001"))],
    )
    .unwrap();
    let own = db.iter_tickets().for_project(ProjectId("P0001".to_string())).collect();
    assert_eq!(own.len(), 1);
    assert_eq!(own[0].id().0, "T0001");
    assert!(db.iter_tickets().for_project(ProjectId("P0002".to_string())).collect().is_empty());
}

#[test]
fn an_empty_directory_loads_as_an_empty_store() {
    let db = collect_in_repo_db(&Vec::new(), &Vec::new()).unwrap();
    assert_eq!(db.iter_tickets().count(), 0);
    assert_eq!(db.iter_projects().count(), 0);
}

#[test]
fn the_first_failure_ends_the_load() {
    let bad = "id = 1".to_string();
    assert_eq!(
        collect_tickets(&vec![Ok(ticket_text("T0001", "P0001")), Ok(bad.clone()), Err(StoreError::Io)])
            .err(),
        Some(StoreError::MalformedRecord)
    );
    assert_eq!(
        collect_tickets(&vec![Ok(ticket_text("T0001", "P0001")), Err(StoreError::Io), Ok(bad.clone())])
            .err(),
        Some(StoreError::Io)
    );
    assert_eq!(
        collect_projects(&vec![Err(StoreError::Io), Ok(bad.clone())]).err(),
        Some(StoreError::Io)
    );
    assert_eq!(
        collect_projects(&vec![Ok(PROJECT.to_string()), Ok(bad.clone())]).err(),
        Some(StoreError::MalformedRecord)
    );
    assert_eq!(
        collect_in_repo_db(&vec![Ok(bad.clone())], &vec![Err(StoreError::Io)]).err(),
        Some(StoreError::MalformedRecord)
    );
    assert_eq!(
        collect_in_repo_db(&vec![Ok(PROJECT.to_string())], &vec![Err(StoreError::Io)]).err(),
        Some(StoreError::Io)
    );
    let loaded = collect_projects(&vec![Ok(PROJECT.to_string())]).unwrap();
    assert_eq!(loaded.len(), 1);
    assert_eq!(loaded[0].description(), "The first");
}

#[test]
fn a_saved_ticket_is_there_after_the_next_load() {
    let first = ticket_text("T0001", "P0001");
    let second = Ticket::new(
        TicketId("T0002".to_string()),
        "Second".to_string(),
        "More".to_string(),
        TicketStatus::InProgress,
        TicketType::Feature,
        ProjectStub { id: ProjectId("P0001".to_string()) },
        Vec::new(),
    );
    let file = verify_and_write(&second).unwrap();
    assert_eq!(file.kind, RecordKind::Ticket);
    assert_eq!(file.name, "T0002.toml");
    let db = collect_in_repo_db(&vec![Ok(PROJECT.to_string())], &vec![Ok(first), Ok(file.text)])
        .unwrap();
    let listed: Vec<String> =
        db.iter_tickets().collect().iter().map(|t| t.id().0.clone()).collect();
    assert_eq!(listed, vec!["T0001", "T0002"]);
    let loaded = db.get_ticket(&TicketId("T0002".to_string())).unwrap();
    assert_eq!(loaded.title(), "Second");
    assert_eq!(loaded.status(), TicketStatus::InProgress);
    assert_eq!(loaded.ticket_type(), TicketType::Feature);
}

#[test]
fn a_record_file_is_named_after_the_identifier() {
    let project = Project::new(ProjectId("P0042".to_string()), "n".into(), "d".into(), Vec::new());
    assert_eq!(project.fmt_stub(), "P0042");
    assert_eq!(project.select_path(), RecordKind::Project);
    let file = verify_and_write(&project).unwrap();
    assert_eq!(file.kind, RecordKind::Project);
    assert_eq!(file.name, "P0042.toml");
    assert_eq!(file.text, "id = \"P0042\"\nname = \"n\"\ndescription = \"d\"\n");
    assert_eq!(IRDBWritableObject::encode(&project), Ok(file.text));
    assert_eq!(record_file_name("T0001"), "T0001.toml");
    assert_eq!(RecordKind::Ticket.directory(), "tickets");
    assert_eq!(RecordKind::Project.directory(), "projects");
    let clash = Project::new(
        ProjectId("P0042".to_string()),
        "n".into(),
        "d".into(),
        vec![repopt::Field {
            key: "id".to_string(),
            value: repopt::FieldValue::Text("P0001".to_string()),
        }],
    );
    assert_eq!(verify_and_write(&clash).err(), Some(StoreError::MalformedRecord));
}

#[test]
fn record_files_end_in_the_record_extension() {
    for name in ["T0001.toml", "a.toml", "..toml", "notes.backup.toml", "é.toml"] {
        assert!(is_record_file(name), "{name}");
        assert_eq!(
            std::path::Path::new(name).extension().and_then(|e| e.to_str()),
            Some("toml")
        );
    }
    for name in ["", "toml", ".toml", "T0001", "T0001.toml.bak", "T0001.TOML", "T0001.tom", "T0001toml", "T0001.toml."] {
        assert!(!is_record_file(name), "{name}");
        assert!(std::path::Path::new(name).extension().and_then(|e| e.to_str()) != Some("toml"));
    }
}
