use repopt::{
    InRepoDB, Project, ProjectId, ProjectStub, StoreError, Ticket, TicketId, TicketStatus,
    TicketType,
};

fn setup_in_repo_db_one() -> InRepoDB {
    let project_id = ProjectId("P0001".to_string());
    let project = Project::new(
        project_id.clone(),
        "Test Project".into(),
        "Test Description".into(),
        Vec::new(),
    );

    let ticket_id = TicketId("T0001".to_string());
    let ticket = Ticket::new(
        ticket_id.clone(),
        "Test Ticket".into(),
        String::new(),
        TicketStatus::Backlog,
        TicketType::Bug,
        ProjectStub::from(&project),
        Vec::new(),
    );

    InRepoDB::new(vec![project], vec![ticket])
}

#[test]
fn test_get_next_ticket_id() {
    let in_repo_db = setup_in_repo_db_one();
    let next_ticket_id = in_repo_db.get_next_ticket_id();
    assert_eq!(next_ticket_id, Ok(Some(TicketId("T0002".to_string()))));
}

#[test]
fn test_get_next_project_id() {
    let in_repo_db = setup_in_repo_db_one();
    let next_project_id = in_repo_db.get_next_project_id();
    assert_eq!(next_project_id, Ok(Some(ProjectId("P0002".to_string()))));
}

#[test]
fn test_get_project() {
    let in_repo_db = setup_in_repo_db_one();
    let project_id = ProjectId("P0001".to_string());
    let project = in_repo_db.get_project(&project_id);
    assert!(project.is_some());
}

#[test]
fn test_get_ticket() {
    let in_repo_db = setup_in_repo_db_one();
    let ticket_id = TicketId("T0001".to_string());
    let ticket = in_repo_db.get_ticket(&ticket_id);
    assert!(ticket.is_some());
}

#[test]
fn test_iter_projects() {
    let in_repo_db = setup_in_repo_db_one();
    let projects: Vec<&Project> = in_repo_db.iter_projects().collect();
    assert_eq!(projects.len(), 1);
}

#[test]
fn test_iter_tickets() {
    let in_repo_db = setup_in_repo_db_one();
    let tickets: Vec<&Ticket> = in_repo_db.iter_tickets().collect();
    assert_eq!(tickets.len(), 1);
}

#[test]
fn test_with_status() {
    let in_repo_db = setup_in_repo_db_one();
    let backlog_tickets: Vec<&Ticket> = in_repo_db
        .iter_tickets()
        .with_status(TicketStatus::Backlog.into())
        .collect();
    assert_eq!(backlog_tickets.len(), 1);
}

#[test]
fn test_with_type() {
    let in_repo_db = setup_in_repo_db_one();
    let bug_tickets: Vec<&Ticket> = in_repo_db
        .iter_tickets()
        .with_type(TicketType::Bug)
        .collect();
    assert_eq!(bug_tickets.len(), 1);
}

#[test]
fn get_ticket_returns_the_stored_ticket_and_nothing_for_an_absent_id() {
    let in_repo_db = setup_in_repo_db_one();
    let found = in_repo_db.get_ticket(&TicketId("T0001".to_string())).unwrap();
    assert_eq!(found.title(), "Test Ticket");
    assert_eq!(found.status(), TicketStatus::Backlog);
    assert!(in_repo_db.get_ticket(&TicketId("T9999".to_string())).is_none());
    let project = in_repo_db.get_project(&ProjectId("P0001".to_string())).unwrap();
    assert_eq!(project.name(), "Test Project");
    assert!(in_repo_db.get_project(&ProjectId("P0002".to_string())).is_none());
}

#[test]
fn next_id_of_an_empty_store_is_none() {
    let in_repo_db = InRepoDB::new(Vec::new(), Vec::new());
    assert_eq!(in_repo_db.get_next_ticket_id(), Ok(None));
    assert_eq!(in_repo_db.get_next_project_id(), Ok(None));
}

fn ticket(id: &str, status: TicketStatus, ticket_type: TicketType, project: &str) -> Ticket {
    Ticket::new(
        TicketId(id.to_string()),
        format!("Ticket {id}"),
        String::new(),
        status,
        ticket_type,
        ProjectStub { id: ProjectId(project.to_string()) },
        Vec::new(),
    )
}

fn ids(tickets: &[&Ticket]) -> Vec<String> {
    tickets.iter().map(|t| t.id().0.clone()).collect()
}

#[test]
fn next_id_follows_the_greatest_id_whatever_the_insertion_order() {
    let db = InRepoDB::new(
        Vec::new(),
        vec![
            ticket("T0007", TicketStatus::Backlog, TicketType::Bug, "P0001"),
            ticket("T0123", TicketStatus::Backlog, TicketType::Bug, "P0001"),
            ticket("T0002", TicketStatus::Backlog, TicketType::Bug, "P0001"),
        ],
    );
    assert_eq!(db.get_next_ticket_id(), Ok(Some(TicketId("T0124".to_string()))));
    assert!(db.get_ticket(&TicketId("T0124".to_string())).is_none());
}

#[test]
fn next_id_fails_when_the_last_id_has_no_successor() {
    let full = InRepoDB::new(
        Vec::new(),
        vec![ticket("T9999", TicketStatus::Backlog, TicketType::Bug, "P0001")],
    );
    assert_eq!(full.get_next_ticket_id(), Err(StoreError::IdentifierOverflow));
    let odd = InRepoDB::new(
        Vec::new(),
        vec![ticket("Tabcd", TicketStatus::Backlog, TicketType::Bug, "P0001")],
    );
    assert_eq!(odd.get_next_ticket_id(), Err(StoreError::IdentifierOverflow));
    let wide = InRepoDB::new(
        Vec::new(),
        vec![ticket("T00001", TicketStatus::Backlog, TicketType::Bug, "P0001")],
    );
    assert_eq!(wide.get_next_ticket_id(), Err(StoreError::IdentifierOverflow));
    let projects = InRepoDB::new(
        vec![Project::new(ProjectId("P9999".to_string()), "p".into(), "d".into(), Vec::new())],
        Vec::new(),
    );
    assert_eq!(projects.get_next_project_id(), Err(StoreError::IdentifierOverflow));
}

#[test]
fn store_lists_in_key_order_and_keeps_the_later_of_two_equal_ids() {
    let mut replaced = ticket("T0002", TicketStatus::Closed, TicketType::Other, "P0009");
    replaced.title = "second".to_string();
    let db = InRepoDB::new(
        Vec::new(),
        vec![
            ticket("T0003", TicketStatus::Backlog, TicketType::Bug, "P0001"),
            ticket("T0002", TicketStatus::Backlog, TicketType::Bug, "P0001"),
            ticket("T0001", TicketStatus::Backlog, TicketType::Bug, "P0001"),
            replaced,
        ],
    );
    let listed = db.iter_tickets().collect();
    assert_eq!(ids(&listed), vec!["T0001", "T0002", "T0003"]);
    assert_eq!(db.iter_tickets().count(), 3);
    let second = db.get_ticket(&TicketId("T0002".to_string())).unwrap();
    assert_eq!(second.title(), "second");
    assert_eq!(second.status(), TicketStatus::Closed);
}

#[test]
fn filters_keep_what_both_admit_in_either_order() {
    let db = InRepoDB::new(
        Vec::new(),
        vec![
            ticket("T0001", TicketStatus::Backlog, TicketType::Bug, "P0001"),
            ticket("T0002", TicketStatus::InProgress, TicketType::Feature, "P0001"),
            ticket("T0003", TicketStatus::Closed, TicketType::Bug, "P0002"),
            ticket("T0004", TicketStatus::InProgress, TicketType::Bug, "P0002"),
        ],
    );
    let open = vec![TicketStatus::Backlog, TicketStatus::InProgress];
    let one = db.iter_tickets().with_status(open.clone()).with_type(TicketType::Bug).collect();
    let other = db.iter_tickets().with_type(TicketType::Bug).with_status(open).collect();
    assert_eq!(ids(&one), vec!["T0001", "T0004"]);
    assert_eq!(ids(&other), vec!["T0001", "T0004"]);
    let none = db.iter_tickets().with_status(Vec::new()).collect();
    assert!(none.is_empty());
}

#[test]
fn tickets_of_a_project() {
    let project = Project::new(ProjectId("P0001".to_string()), "p".into(), "d".into(), Vec::new());
    let db = InRepoDB::new(
        vec![project],
        vec![ticket("T0001", TicketStatus::Backlog, TicketType::Bug, "P0001")],
    );
    let own = db.iter_tickets().for_project(ProjectId("P0001".to_string())).collect();
    assert_eq!(ids(&own), vec!["T0001"]);
    let foreign = db.iter_tickets().for_project(ProjectId("P0002".to_string())).collect();
    assert!(foreign.is_empty());
    assert_eq!(ids(&db.get_tickets_for_project("P0001")), vec!["T0001"]);
    assert!(db.get_tickets_for_project("P0002").is_empty());
}

#[test]
fn open_tickets_are_those_not_closed() {
    let db = InRepoDB::new(
        Vec::new(),
        vec![
            ticket("T0001", TicketStatus::Backlog, TicketType::Bug, "P0001"),
            ticket("T0002", TicketStatus::Closed, TicketType::Bug, "P0001"),
            ticket("T0003", TicketStatus::InProgress, TicketType::Bug, "P0001"),
        ],
    );
    assert_eq!(ids(&db.get_open_tickets()), vec!["T0001", "T0003"]);
}

#[test]
fn close_sets_closed_from_every_status() {
    for status in [TicketStatus::Backlog, TicketStatus::InProgress, TicketStatus::Closed] {
        let mut t = ticket("T0001", status, TicketType::Bug, "P0001");
        t.close();
        assert_eq!(t.status(), TicketStatus::Closed);
        assert!(!t.is_open());
        t.close();
        assert_eq!(t.status(), TicketStatus::Closed);
        assert_eq!(t.id().0, "T0001");
        assert_eq!(t.get_project_id().0, "P0001");
    }
}

#[test]
fn reopen_sets_the_given_status_or_in_progress() {
    let mut t = ticket("T0001", TicketStatus::Closed, TicketType::Bug, "P0001");
    t.reopen(None);
    assert_eq!(t.status(), TicketStatus::InProgress);
    assert!(t.is_open());
    t.reopen(Some(TicketStatus::Backlog));
    assert_eq!(t.status(), TicketStatus::Backlog);
    let mut open = ticket("T0002", TicketStatus::Backlog, TicketType::Bug, "P0001");
    open.reopen(None);
    assert_eq!(open.status(), TicketStatus::InProgress);
}

#[test]
fn display_texts() {
    let t = ticket("T0001", TicketStatus::InProgress, TicketType::Documentation, "P0003");
    assert_eq!(
        t.to_string(),
        "ID: T0001\nTitle: Ticket T0001\nStatus: In Progress\nType: Documentation\nProject ID: P0003"
    );
    let p = Project::new(ProjectId("P0003".to_string()), "Docs".into(), "All of it".into(), Vec::new());
    assert_eq!(p.to_string(), "Project ID: P0003\nName: Docs\nDescription: All of it");
    assert_eq!(p.description(), "All of it");
    assert_eq!(t.description(), "");
    assert_eq!(t.ticket_type(), TicketType::Documentation);
}

#[test]
fn status_and_type_words() {
    assert_eq!(TicketStatus::InProgress.name(), "InProgress");
    assert_eq!(TicketStatus::InProgress.label(), "In Progress");
    assert_eq!(TicketStatus::from_name("InProgress"), Some(TicketStatus::InProgress));
    assert_eq!(TicketStatus::from_name("In Progress"), None);
    assert_eq!(TicketStatus::from_label("In Progress"), Some(TicketStatus::InProgress));
    assert_eq!(TicketStatus::from_label("Backlog"), Some(TicketStatus::Backlog));
    assert_eq!(TicketStatus::from_name("Closed"), Some(TicketStatus::Closed));
    assert_eq!(TicketStatus::from_name("closed"), None);
    assert_eq!(TicketType::from_name("Documentation"), Some(TicketType::Documentation));
    assert_eq!(TicketType::from_name("Other"), Some(TicketType::Other));
    assert_eq!(TicketType::from_name("Chore"), None);
    assert_eq!(TicketType::Feature.name(), "Feature");
    assert!(TicketStatus::Backlog.is_open());
    assert!(!TicketStatus::Closed.is_open());
}
