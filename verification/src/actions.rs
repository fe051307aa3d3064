//! What the tracker's commands decide, once the store is loaded and the
//! user's answers are at hand: which tickets a listing shows, which record a
//! command makes or changes, and when a command fails.

use vstd::prelude::*;
use vstd::string::*;
use crate::error::StoreError;
use crate::ident::{ProjectId, RecordKind, TicketId};
use crate::project::{Project, ProjectView};
use crate::query::{
    admitting,
    kept,
    lemma_filter_all,
    lemma_filter_twice,
    project_views,
    targets,
    ticket_views,
    Criterion,
};
use crate::keyed::lemma_as_map_keys;
use crate::record::{same_text, views, FieldView};
use crate::store::{law_next_id_is_greatest_plus_one, next_id, InRepoDB};
use crate::ticket::{ProjectStub, Ticket, TicketStatus, TicketType, TicketView};

verus! {

/// Whether a listing with the given filters shows the ticket. A filter that
/// is not given lets every ticket pass.
pub open spec fn wanted(
    ticket: Ticket,
    status: Option<TicketStatus>,
    ticket_type: Option<TicketType>,
    project: Option<ProjectId>,
) -> bool {
    &&& status matches Some(s) ==> ticket.status == s
    &&& ticket_type matches Some(t) ==> ticket.ticket_type == t
    &&& project matches Some(p) ==> ticket.project.id@ == p@
}

/// The test that a listing with the given filters puts to a ticket.
pub open spec fn wanting(
    status: Option<TicketStatus>,
    ticket_type: Option<TicketType>,
    project: Option<ProjectId>,
) -> spec_fn(Ticket) -> bool {
    |ticket: Ticket| wanted(ticket, status, ticket_type, project)
}

/// Lists the tickets of the store that pass every filter given, in the
/// order of their identifiers.
pub fn list_all_tickets<'a>(
    db: &'a InRepoDB,
    filter_on_status: Option<TicketStatus>,
    filter_on_type: Option<TicketType>,
    for_project: Option<ProjectId>,
) -> (tickets: Vec<&'a Ticket>)
    ensures
        targets(tickets@) == db.tickets().filter(
            wanting(filter_on_status, filter_on_type, for_project),
        ),
{
    let ghost all = db.tickets();
    let ghost by_status = wanting(filter_on_status, None, None);
    let ghost by_type = wanting(filter_on_status, filter_on_type, None);
    let ghost by_project = wanting(filter_on_status, filter_on_type, for_project);
    let mut listing = db.iter_tickets();
    match filter_on_status {
        Some(status) => {
            let statuses = status.only();
            listing = listing.with_status(statuses);
            proof {
                assert(statuses@[0] == status);
                assert(admitting(Criterion::Status(statuses)) =~= by_status);
            }
        },
        None => {
            proof {
                lemma_filter_all(all, by_status);
            }
        },
    }
    assert(listing.items() == all.filter(by_status));
    match filter_on_type {
        Some(ticket_type) => {
            listing = listing.with_type(ticket_type);
            proof {
                lemma_filter_twice(
                    all,
                    by_status,
                    admitting(Criterion::Type(ticket_type)),
                    by_type,
                );
            }
        },
        None => {
            proof {
                assert(by_type =~= by_status);
            }
        },
    }
    assert(listing.items() == all.filter(by_type));
    match for_project {
        Some(project) => {
            listing = listing.for_project(project);
            proof {
                lemma_filter_twice(all, by_type, admitting(Criterion::Project(project)), by_project);
            }
        },
        None => {
            proof {
                assert(by_project =~= by_type);
            }
        },
    }
    listing.collect()
}

/// Finds the ticket to show. A ticket that the store does not have is
/// reported as not found.
pub fn show_ticket<'a>(db: &'a InRepoDB, id: String) -> (outcome: Result<&'a Ticket, StoreError>)
    ensures
        match outcome {
            Ok(ticket) => db.ticket_map().contains_key(id@) && *ticket == db.ticket_map()[id@],
            Err(error) => error == StoreError::NotFound && !db.ticket_map().contains_key(id@),
        },
{
    match db.get_ticket(&TicketId(id)) {
        Some(ticket) => Ok(ticket),
        None => Err(StoreError::NotFound),
    }
}

/// Decides whether a new store may be set up: only where loading the store
/// that is there fails.
pub fn init_new_repository(loaded: &Result<InRepoDB, StoreError>) -> (outcome: Result<
    (),
    StoreError,
>)
    ensures
        outcome == if loaded is Ok {
            Err::<(), StoreError>(StoreError::AlreadyInitialized)
        } else {
            Ok::<(), StoreError>(())
        },
{
    if loaded.is_ok() {
        Err(StoreError::AlreadyInitialized)
    } else {
        Ok(())
    }
}

/// The content of the ticket that `add_new_ticket` makes under the given
/// identifier.
pub open spec fn new_ticket_view(
    id: Seq<char>,
    project: Seq<char>,
    title: Seq<char>,
    description: Seq<char>,
    status: TicketStatus,
    ticket_type: TicketType,
) -> TicketView {
    TicketView {
        id,
        title,
        description,
        status,
        ticket_type,
        project,
        extra: Seq::<FieldView>::empty(),
    }
}

/// Makes the next ticket of the store: under the identifier after the
/// greatest one, or under `T0001` in a store without tickets, and without
/// extra fields. No ticket of the store has that identifier. Fails where
/// the greatest identifier has no successor.
pub fn add_new_ticket(
    db: &InRepoDB,
    project: ProjectStub,
    title: String,
    description: String,
    status: TicketStatus,
    ticket_type: TicketType,
) -> (outcome: Result<Ticket, StoreError>)
    ensures
        match next_id(db.tickets(), RecordKind::Ticket) {
            Ok(next) => outcome matches Ok(ticket) && ticket@ == new_ticket_view(
                match next {
                    Some(id) => id,
                    None => TicketId::first_spec(),
                },
                project.id@,
                title@,
                description@,
                status,
                ticket_type,
            ) && !db.ticket_map().contains_key(ticket.id@) && ticket@.wf(),
            Err(error) => outcome matches Err(found) && found == error,
        },
{
    proof {
        use_type_invariant(db);
        if db.tickets().len() > 0 && next_id(db.tickets(), RecordKind::Ticket) is Ok {
            law_next_id_is_greatest_plus_one(db.tickets(), RecordKind::Ticket);
        }
    }
    let id = match db.get_next_ticket_id() {
        Ok(Some(id)) => id,
        Ok(None) => TicketId::first(),
        Err(error) => {
            return Err(error);
        },
    };
    let ticket = Ticket::new(id, title, description, status, ticket_type, project, Vec::new());
    proof {
        assert(views(ticket.extra@) =~= Seq::<FieldView>::empty());
        lemma_as_map_keys(db.tickets(), ticket.id@);
    }
    Ok(ticket)
}

/// The content of the project that `add_new_project` makes under the given
/// identifier.
pub open spec fn new_project_view(id: Seq<char>, name: Seq<char>, description: Seq<char>) -> ProjectView {
    ProjectView { id, name, description, extra: Seq::<FieldView>::empty() }
}

/// Makes the next project of the store: under the identifier after the
/// greatest one, or under `P0001` in a store without projects, and without
/// extra fields. No project of the store has that identifier. Fails where
/// the greatest identifier has no successor.
pub fn add_new_project(db: &InRepoDB, name: String, description: String) -> (outcome: Result<
    Project,
    StoreError,
>)
    ensures
        match next_id(db.projects(), RecordKind::Project) {
            Ok(next) => outcome matches Ok(project) && project@ == new_project_view(
                match next {
                    Some(id) => id,
                    None => ProjectId::first_spec(),
                },
                name@,
                description@,
            ) && !db.project_map().contains_key(project.id@) && project@.wf(),
            Err(error) => outcome matches Err(found) && found == error,
        },
{
    proof {
        use_type_invariant(db);
        if db.projects().len() > 0 && next_id(db.projects(), RecordKind::Project) is Ok {
            law_next_id_is_greatest_plus_one(db.projects(), RecordKind::Project);
        }
    }
    let id = match db.get_next_project_id() {
        Ok(Some(id)) => id,
        Ok(None) => ProjectId::first(),
        Err(error) => {
            return Err(error);
        },
    };
    let project = Project::new(id, name, description, Vec::new());
    proof {
        assert(views(project.extra@) =~= Seq::<FieldView>::empty());
        lemma_as_map_keys(db.projects(), project.id@);
    }
    Ok(project)
}

/// Closes the chosen ticket.
pub fn close_ticket(ticket: Ticket) -> (closed: Ticket)
    ensures
        closed@ == ticket@.with_status(TicketStatus::Closed),
{
    let mut ticket = ticket;
    ticket.close();
    ticket
}

/// Reopens the chosen ticket with the chosen status.
pub fn reopen_ticket(ticket: Ticket, status: TicketStatus) -> (reopened: Ticket)
    ensures
        reopened@ == ticket@.with_status(status),
{
    let mut ticket = ticket;
    ticket.reopen(Some(status));
    ticket
}

/// Copies of the tickets whose status is one of `list_status`, in the order
/// of their identifiers.
pub fn list_ticket_by_status(db: &InRepoDB, list_status: Vec<TicketStatus>) -> (tickets: Vec<
    Ticket,
>)
    ensures
        ticket_views(tickets@) == ticket_views(
            kept(db.tickets(), Criterion::Status(list_status)),
        ),
{
    db.iter_tickets().with_status(list_status).cloned()
}

/// Copies of the tickets that are open: in the backlog or in progress.
pub fn get_open_tickets(db: &InRepoDB) -> (tickets: Vec<Ticket>)
    ensures
        ticket_views(tickets@) == ticket_views(
            db.tickets().filter(|ticket: Ticket| ticket@.is_open()),
        ),
{
    let mut open: Vec<TicketStatus> = Vec::new();
    open.push(TicketStatus::Backlog);
    open.push(TicketStatus::InProgress);
    proof {
        assert forall|ticket: Ticket| #[trigger]
            Criterion::Status(open).admits(ticket) == ticket@.is_open() by {
            assert(open@[0] == TicketStatus::Backlog && open@[1] == TicketStatus::InProgress);
        }
        assert(admitting(Criterion::Status(open)) =~= (|ticket: Ticket| ticket@.is_open()));
    }
    list_ticket_by_status(db, open)
}

/// Copies of the tickets that are closed.
pub fn get_closed_tickets(db: &InRepoDB) -> (tickets: Vec<Ticket>)
    ensures
        ticket_views(tickets@) == ticket_views(
            db.tickets().filter(|ticket: Ticket| !ticket@.is_open()),
        ),
{
    let closed = TicketStatus::Closed.only();
    proof {
        assert forall|ticket: Ticket| #[trigger]
            Criterion::Status(closed).admits(ticket) == !ticket@.is_open() by {
            assert(closed@[0] == TicketStatus::Closed);
        }
        assert(admitting(Criterion::Status(closed)) =~= (|ticket: Ticket| !ticket@.is_open()));
    }
    list_ticket_by_status(db, closed)
}

/// Copies of the projects of the store, in the order of their identifiers.
pub fn get_projects(db: &InRepoDB) -> (projects: Vec<Project>)
    ensures
        project_views(projects@) == project_views(db.projects()),
{
    db.iter_projects().cloned()
}

/// The first ticket with the given title, if there is one.
pub open spec fn first_titled(tickets: Seq<Ticket>, title: Seq<char>) -> Option<Ticket>
    decreases tickets.len(),
{
    if tickets.len() == 0 {
        None
    } else if tickets[0].title@ == title {
        Some(tickets[0])
    } else {
        first_titled(tickets.drop_first(), title)
    }
}

/// The first project with the given name, if there is one.
pub open spec fn first_named(projects: Seq<Project>, name: Seq<char>) -> Option<Project>
    decreases projects.len(),
{
    if projects.len() == 0 {
        None
    } else if projects[0].name@ == name {
        Some(projects[0])
    } else {
        first_named(projects.drop_first(), name)
    }
}

/// The titles of the tickets, in order: the choices put to the user.
pub fn ticket_titles(tickets: &Vec<Ticket>) -> (titles: Vec<String>)
    ensures
        titles.len() == tickets.len(),
        forall|i: int| 0 <= i < tickets.len() ==> titles[i]@ == tickets[i].title@,
{
    let mut titles: Vec<String> = Vec::new();
    let mut i: usize = 0;
    while i < tickets.len()
        invariant
            i <= tickets.len(),
            titles.len() == i,
            forall|j: int| 0 <= j < i ==> titles[j]@ == tickets[j].title@,
        decreases tickets.len() - i,
    {
        titles.push(tickets[i].title.clone());
        i += 1;
    }
    titles
}

/// The names of the projects, in order: the choices put to the user.
pub fn project_names(projects: &Vec<Project>) -> (names: Vec<String>)
    ensures
        names.len() == projects.len(),
        forall|i: int| 0 <= i < projects.len() ==> names[i]@ == projects[i].name@,
{
    let mut names: Vec<String> = Vec::new();
    let mut i: usize = 0;
    while i < projects.len()
        invariant
            i <= projects.len(),
            names.len() == i,
            forall|j: int| 0 <= j < i ==> names[j]@ == projects[j].name@,
        decreases projects.len() - i,
    {
        names.push(projects[i].name.clone());
        i += 1;
    }
    names
}

/// Picks the ticket that the user chose by its title: the first ticket with
/// that title. An answer that is no ticket's title is an invalid choice.
pub fn select_tickets(tickets: Vec<Ticket>, answer: &str) -> (outcome: Result<Ticket, StoreError>)
    ensures
        match first_titled(tickets@, answer@) {
            Some(ticket) => outcome matches Ok(chosen) && chosen == ticket,
            None => outcome matches Err(error) && error == StoreError::InvalidChoice,
        },
{
    let ghost all = tickets@;
    assert(all.skip(0) =~= all);
    for ticket in it: tickets
        invariant
            it.seq() == all,
            first_titled(all, answer@) == first_titled(all.skip(it.index() as int), answer@),
    {
        proof {
            let rest = all.skip(it.index() as int);
            assert(rest[0] == ticket);
            assert(rest.drop_first() =~= all.skip(it.index() + 1));
        }
        if same_text(ticket.title.as_str(), answer) {
            return Ok(ticket);
        }
    }
    Err(StoreError::InvalidChoice)
}

/// Picks the project that the user chose by its name, as a stub for a new
/// ticket: the first project with that name. An answer that is no project's
/// name is an invalid choice.
pub fn get_project_id(projects: Vec<Project>, answer: &str) -> (outcome: Result<
    ProjectStub,
    StoreError,
>)
    ensures
        match first_named(projects@, answer@) {
            Some(project) => outcome matches Ok(stub) && stub.id == project.id,
            None => outcome matches Err(error) && error == StoreError::InvalidChoice,
        },
{
    let ghost all = projects@;
    assert(all.skip(0) =~= all);
    for project in it: projects
        invariant
            it.seq() == all,
            first_named(all, answer@) == first_named(all.skip(it.index() as int), answer@),
    {
        proof {
            let rest = all.skip(it.index() as int);
            assert(rest[0] == project);
            assert(rest.drop_first() =~= all.skip(it.index() + 1));
        }
        if same_text(project.name.as_str(), answer) {
            return Ok(ProjectStub { id: project.id });
        }
    }
    Err(StoreError::InvalidChoice)
}

/// The ticket types put to the user when a ticket is made.
pub fn ticket_type_options() -> (options: Vec<&'static str>)
    ensures
        options.len() == 2,
        options[0]@ == TicketType::Bug.name_spec(),
        options[1]@ == TicketType::Feature.name_spec(),
{
    let mut options: Vec<&'static str> = Vec::new();
    options.push(TicketType::Bug.name());
    options.push(TicketType::Feature.name());
    options
}

/// The ticket type that the user's answer stands for. Only `Bug` and
/// `Feature` are on offer; any other answer is an invalid choice.
pub fn get_ticket_type(answer: &str) -> (outcome: Result<TicketType, StoreError>)
    ensures
        outcome == match TicketType::named(answer@) {
            Some(TicketType::Bug) => Ok::<TicketType, StoreError>(TicketType::Bug),
            Some(TicketType::Feature) => Ok::<TicketType, StoreError>(TicketType::Feature),
            _ => Err::<TicketType, StoreError>(StoreError::InvalidChoice),
        },
{
    match TicketType::from_name(answer) {
        Some(TicketType::Bug) => Ok(TicketType::Bug),
        Some(TicketType::Feature) => Ok(TicketType::Feature),
        _ => Err(StoreError::InvalidChoice),
    }
}

/// Which statuses are put to the user.
#[derive(Clone, Copy, Debug, PartialEq, Eq, Structural)]
pub enum TicketStatusTypes {
    All,
    OnlyOpen,
    OnlyClosed,
}

impl TicketStatusTypes {
    /// Whether the status is among those put to the user.
    pub open spec fn offers(self, status: TicketStatus) -> bool {
        match self {
            TicketStatusTypes::All => true,
            TicketStatusTypes::OnlyOpen => status.is_open_spec(),
            TicketStatusTypes::OnlyClosed => !status.is_open_spec(),
        }
    }

    /// The statuses put to the user, in the order shown.
    pub open spec fn offered(self) -> Seq<TicketStatus> {
        match self {
            TicketStatusTypes::All => seq![
                TicketStatus::Backlog,
                TicketStatus::InProgress,
                TicketStatus::Closed,
            ],
            TicketStatusTypes::OnlyOpen => seq![TicketStatus::Backlog, TicketStatus::InProgress],
            TicketStatusTypes::OnlyClosed => seq![TicketStatus::Closed],
        }
    }
}

/// The statuses put to the user, in the order shown.
pub fn ticket_status_choices(status_types: TicketStatusTypes) -> (choices: Vec<TicketStatus>)
    ensures
        choices@ == status_types.offered(),
        forall|status: TicketStatus| choices@.contains(status) <==> status_types.offers(status),
{
    let mut choices: Vec<TicketStatus> = Vec::new();
    match status_types {
        TicketStatusTypes::All => {
            choices.push(TicketStatus::Backlog);
            choices.push(TicketStatus::InProgress);
            choices.push(TicketStatus::Closed);
        },
        TicketStatusTypes::OnlyOpen => {
            choices.push(TicketStatus::Backlog);
            choices.push(TicketStatus::InProgress);
        },
        TicketStatusTypes::OnlyClosed => {
            choices.push(TicketStatus::Closed);
        },
    }
    assert(choices@ =~= status_types.offered());
    assert forall|status: TicketStatus| choices@.contains(status) <==> status_types.offers(
        status,
    ) by {
        if status_types.offers(status) {
            match status {
                TicketStatus::Backlog => {
                    assert(choices@[0] == status);
                },
                TicketStatus::InProgress => {
                    assert(choices@[1] == status);
                },
                TicketStatus::Closed => {
                    assert(choices@[choices@.len() - 1] == status);
                },
            }
        }
    }
    choices
}

/// The status that the user's answer stands for, among those on offer. An
/// answer that names no status on offer is an invalid choice.
pub fn get_ticket_status(status_types: TicketStatusTypes, answer: &str) -> (outcome: Result<
    TicketStatus,
    StoreError,
>)
    ensures
        outcome == match TicketStatus::labelled(answer@) {
            Some(status) => if status_types.offers(status) {
                Ok::<TicketStatus, StoreError>(status)
            } else {
                Err::<TicketStatus, StoreError>(StoreError::InvalidChoice)
            },
            None => Err::<TicketStatus, StoreError>(StoreError::InvalidChoice),
        },
{
    match TicketStatus::from_label(answer) {
        Some(status) => {
            let offered = match status_types {
                TicketStatusTypes::All => true,
                TicketStatusTypes::OnlyOpen => status.is_open(),
                TicketStatusTypes::OnlyClosed => !status.is_open(),
            };
            if offered {
                Ok(status)
            } else {
                Err(StoreError::InvalidChoice)
            }
        },
        None => Err(StoreError::InvalidChoice),
    }
}

/// Closing a ticket sets its status to `Closed` whatever it was, so closing
/// a closed ticket changes nothing.
pub proof fn law_close_is_idempotent(ticket: TicketView)
    ensures
        ticket.with_status(TicketStatus::Closed).status == TicketStatus::Closed,
        !ticket.with_status(TicketStatus::Closed).is_open(),
        ticket.with_status(TicketStatus::Closed).with_status(TicketStatus::Closed)
            == ticket.with_status(TicketStatus::Closed),
        ticket.status == TicketStatus::Closed ==> ticket.with_status(TicketStatus::Closed)
            == ticket,
{
}

} // verus!
