use repopt::actions::{
    add_new_project, add_new_ticket, close_ticket, get_closed_tickets, get_open_tickets,
    get_project_id, get_projects, get_ticket_status, get_ticket_type, init_new_repository,
    list_all_tickets, list_ticket_by_status, project_names, reopen_ticket, select_tickets,
    show_ticket, ticket_status_choices, ticket_titles, ticket_type_options, TicketStatusTypes,
};
use repopt::{
    InRepoDB, Project, ProjectId, ProjectStub, StoreError, Ticket, TicketId, TicketStatus,
    TicketType,
};

fn ticket(id: &str, title: &str, status: TicketStatus, kind: TicketType, project: &str) -> Ticket {
    Ticket::new(
        TicketId(id.to_string()),
        title.to_string(),
        String::new(),
        status,
        kind,
        ProjectStub { id: ProjectId(project.to_string()) },
        Vec::new(),
    )
}

fn project(id: &str, name: &str) -> Project {
    Project::new(ProjectId(id.to_string()), name.to_string(), String::new(), Vec::new())
}

fn sample() -> InRepoDB {
    InRepoDB::new(
        vec![project("P0002", "Second"), project("P0001", "First")],
        vec![
            ticket("T0001", "crash", TicketStatus::Backlog, TicketType::Bug, "P0001"),
            ticket("T0002", "button", TicketStatus::InProgress, TicketType::Feature, "P0001"),
            ticket("T0003", "typo", TicketStatus::Closed, TicketType::Bug, "P0002"),
            ticket("T0004", "crash", TicketStatus::InProgress, TicketType::Bug, "P0002"),
        ],
    )
}

fn ids(tickets: &[&Ticket]) -> Vec<String> {
    tickets.iter().map(|t| t.id().0.clone()).collect()
}

fn owned_ids(tickets: &[Ticket]) -> Vec<String> {
    tickets.iter().map(|t| t.id().0.clone()).collect()
}

#[test]
fn listing_applies_every_filter_given() {
    let db = sample();
    assert_eq!(ids(&list_all_tickets(&db, None, None, None)), vec!["T0001", "T0002", "T0003", "T0004"]);
    assert_eq!(
        ids(&list_all_tickets(&db, Some(TicketStatus::InProgress), None, None)),
        vec!["T0002", "T0004"]
    );
    assert_eq!(
        ids(&list_all_tickets(&db, None, Some(TicketType::Bug), None)),
        vec!["T0001", "T0003", "T0004"]
    );
    assert_eq!(
        ids(&list_all_tickets(&db, None, None, Some(ProjectId("P0002".to_string())))),
        vec!["T0003", "T0004"]
    );
    assert_eq!(
        ids(&list_all_tickets(
            &db,
            Some(TicketStatus::InProgress),
            Some(TicketType::Bug),
            Some(ProjectId("P0002".to_string()))
        )),
        vec!["T0004"]
    );
    assert!(list_all_tickets(
        &db,
        Some(TicketStatus::Closed),
        Some(TicketType::Feature),
        None
    )
    .is_empty());
}

#[test]
fn showing_a_ticket_that_is_absent_is_not_found() {
    let db = sample();
    assert_eq!(show_ticket(&db, "T0003".to_string()).unwrap().title(), "typo");
    assert_eq!(show_ticket(&db, "T9999".to_string()).err(), Some(StoreError::NotFound));
    assert_eq!(show_ticket(&db, "P0001".to_string()).err(), Some(StoreError::NotFound));
}

#[test]
fn a_store_that_loads_is_not_set_up_again() {
    assert_eq!(init_new_repository(&Ok(sample())), Err(StoreError::AlreadyInitialized));
    assert_eq!(init_new_repository(&Err(StoreError::WorkspaceNotFound)), Ok(()));
    assert_eq!(init_new_repository(&Err(StoreError::MalformedRecord)), Ok(()));
}

#[test]
fn new_ticket_takes_the_next_identifier() {
    let db = sample();
    let made = add_new_ticket(
        &db,
        ProjectStub { id: ProjectId("P0001".to_string()) },
        "new".to_string(),
        "text".to_string(),
        TicketStatus::Backlog,
        TicketType::Feature,
    )
    .unwrap();
    assert_eq!(made.id().0, "T0005");
    assert_eq!(made.title(), "new");
    assert_eq!(made.description(), "text");
    assert_eq!(made.status(), TicketStatus::Backlog);
    assert_eq!(made.ticket_type(), TicketType::Feature);
    assert_eq!(made.get_project_id().0, "P0001");
    assert!(made.extra.is_empty());
    let empty = InRepoDB::new(Vec::new(), Vec::new());
    let first = add_new_ticket(
        &empty,
        ProjectStub { id: ProjectId("P0001".to_string()) },
        "new".to_string(),
        "text".to_string(),
        TicketStatus::Backlog,
        TicketType::Feature,
    )
    .unwrap();
    assert_eq!(first.id().0, "T0001");
    let full = InRepoDB::new(
        Vec::new(),
        vec![ticket("T9999", "last", TicketStatus::Backlog, TicketType::Bug, "P0001")],
    );
    let refused = add_new_ticket(
        &full,
        ProjectStub { id: ProjectId("P0001".to_string()) },
        "new".to_string(),
        "text".to_string(),
        TicketStatus::Backlog,
        TicketType::Feature,
    );
    assert_eq!(refused.err(), Some(StoreError::IdentifierOverflow));
}

#[test]
fn new_project_takes_the_next_identifier() {
    let made = add_new_project(&sample(), "Third".to_string(), "more".to_string()).unwrap();
    assert_eq!(made.id().0, "P0003");
    assert_eq!(made.name(), "Third");
    assert_eq!(made.description(), "more");
    assert!(made.extra.is_empty());
    let empty = InRepoDB::new(Vec::new(), Vec::new());
    let first = add_new_project(&empty, "First".to_string(), String::new()).unwrap();
    assert_eq!(first.id().0, "P0001");
    let odd = InRepoDB::new(vec![project("main", "Main")], Vec::new());
    assert_eq!(
        add_new_project(&odd, "x".to_string(), String::new()).err(),
        Some(StoreError::IdentifierOverflow)
    );
}

#[test]
fn closing_and_reopening_set_the_status() {
    let open = ticket("T0001", "crash", TicketStatus::Backlog, TicketType::Bug, "P0001");
    let closed = close_ticket(open);
    assert_eq!(closed.status(), TicketStatus::Closed);
    assert_eq!(closed.id().0, "T0001");
    let again = close_ticket(closed);
    assert_eq!(again.status(), TicketStatus::Closed);
    let reopened = reopen_ticket(again, TicketStatus::Backlog);
    assert_eq!(reopened.status(), TicketStatus::Backlog);
    assert_eq!(reopen_ticket(reopened, TicketStatus::InProgress).status(), TicketStatus::InProgress);
}

#[test]
fn tickets_are_listed_by_status() {
    let db = sample();
    assert_eq!(
        owned_ids(&list_ticket_by_status(&db, vec![TicketStatus::Closed, TicketStatus::Backlog])),
        vec!["T0001", "T0003"]
    );
    assert!(list_ticket_by_status(&db, Vec::new()).is_empty());
    assert_eq!(owned_ids(&get_open_tickets(&db)), vec!["T0001", "T0002", "T0004"]);
    assert_eq!(owned_ids(&get_closed_tickets(&db)), vec!["T0003"]);
    let projects = get_projects(&db);
    assert_eq!(project_names(&projects), vec!["First", "Second"]);
}

#[test]
fn the_first_ticket_with_the_chosen_title_is_picked() {
    let db = sample();
    let open = get_open_tickets(&db);
    assert_eq!(ticket_titles(&open), vec!["crash", "button", "crash"]);
    assert_eq!(select_tickets(open, "crash").unwrap().id().0, "T0001");
    assert_eq!(select_tickets(get_open_tickets(&db), "button").unwrap().id().0, "T0002");
    assert_eq!(
        select_tickets(get_open_tickets(&db), "typo").err(),
        Some(StoreError::InvalidChoice)
    );
    assert_eq!(select_tickets(Vec::new(), "crash").err(), Some(StoreError::InvalidChoice));
}

#[test]
fn the_first_project_with_the_chosen_name_is_picked() {
    let projects = vec![project("P0001", "First"), project("P0002", "Second"), project("P0003", "First")];
    assert_eq!(get_project_id(projects, "First").unwrap().id.0, "P0001");
    let projects = vec![project("P0001", "First"), project("P0002", "Second")];
    assert_eq!(get_project_id(projects, "Second").unwrap().id.0, "P0002");
    let projects = vec![project("P0001", "First")];
    assert_eq!(get_project_id(projects, "Third").err(), Some(StoreError::InvalidChoice));
}

#[test]
fn answers_stand_for_types_and_statuses_on_offer() {
    assert_eq!(ticket_type_options(), vec!["Bug", "Feature"]);
    assert_eq!(get_ticket_type("Bug"), Ok(TicketType::Bug));
    assert_eq!(get_ticket_type("Feature"), Ok(TicketType::Feature));
    assert_eq!(get_ticket_type("Documentation"), Err(StoreError::InvalidChoice));
    assert_eq!(get_ticket_type("bug"), Err(StoreError::InvalidChoice));
    assert_eq!(
        ticket_status_choices(TicketStatusTypes::All),
        vec![TicketStatus::Backlog, TicketStatus::InProgress, TicketStatus::Closed]
    );
    assert_eq!(
        ticket_status_choices(TicketStatusTypes::OnlyOpen),
        vec![TicketStatus::Backlog, TicketStatus::InProgress]
    );
    assert_eq!(ticket_status_choices(TicketStatusTypes::OnlyClosed), vec![TicketStatus::Closed]);
    assert_eq!(get_ticket_status(TicketStatusTypes::All, "In Progress"), Ok(TicketStatus::InProgress));
    assert_eq!(get_ticket_status(TicketStatusTypes::All, "Closed"), Ok(TicketStatus::Closed));
    assert_eq!(get_ticket_status(TicketStatusTypes::OnlyOpen, "Backlog"), Ok(TicketStatus::Backlog));
    assert_eq!(
        get_ticket_status(TicketStatusTypes::OnlyOpen, "Closed"),
        Err(StoreError::InvalidChoice)
    );
    assert_eq!(
        get_ticket_status(TicketStatusTypes::OnlyClosed, "Backlog"),
        Err(StoreError::InvalidChoice)
    );
    assert_eq!(get_ticket_status(TicketStatusTypes::All, "InProgress"), Err(StoreError::InvalidChoice));
}

#[test]
fn errors_have_messages() {
    assert_eq!(StoreError::NotFound.message(), "Ticket not found.");
    assert_eq!(StoreError::AlreadyInitialized.message(), "Repository already exists.");
    assert_eq!(StoreError::WorkspaceNotFound.message(), "Git root not found");
    for error in [
        StoreError::Io,
        StoreError::MalformedRecord,
        StoreError::IdentifierOverflow,
        StoreError::InvalidChoice,
    ] {
        assert!(!error.message().is_empty());
    }
}
