//! The record store: every project and every ticket, each filed under its
//! identifier and kept in the order of the identifiers.

use vstd::prelude::*;
use crate::error::StoreError;
use crate::ident::{
    is_serial,
    lemma_serial_order,
    lemma_successor_follows,
    next_serial,
    serial_number,
    successor,
    ProjectId,
    RecordKind,
    TicketId,
};
use crate::keyed::{
    as_map,
    ascending,
    find,
    has_key,
    index,
    lemma_as_map_keys,
    lemma_ascending_entries,
    lemma_ascending_last,
    Keyed,
};
use crate::project::Project;
use crate::query::{admitting, targets, Criterion, Listing};
use crate::text::{lemma_order_facts, lemma_precedes_transitive, precedes};
use crate::ticket::{Ticket, TicketStatus};

verus! {

/// The identifier after the greatest one of a collection in key order:
/// none for an empty collection, an error where the greatest identifier
/// has no successor.
pub open spec fn next_id<T: Keyed>(items: Seq<T>, kind: RecordKind) -> Result<
    Option<Seq<char>>,
    StoreError,
> {
    if items.len() == 0 {
        Ok(None)
    } else {
        match successor(items.last().key_spec(), kind.prefix()) {
            Ok(id) => Ok(Some(id)),
            Err(error) => Err(error),
        }
    }
}

/// The identifier handed out after the greatest one of a collection carries
/// the greatest serial number of the collection plus one, in the same
/// four-digit format, and no record of the collection has it yet.
pub proof fn law_next_id_is_greatest_plus_one<T: Keyed>(items: Seq<T>, kind: RecordKind)
    requires
        ascending(items),
        items.len() > 0,
        successor(items.last().key_spec(), kind.prefix()) is Ok,
    ensures
        next_id(items, kind) matches Ok(Some(id)) && {
            &&& is_serial(id, kind.prefix())
            &&& is_serial(items.last().key_spec(), kind.prefix())
            &&& serial_number(id) == serial_number(items.last().key_spec()) + 1
            &&& forall|i: int|
                0 <= i < items.len() && is_serial((#[trigger] items[i]).key_spec(), kind.prefix())
                    ==> serial_number(items[i].key_spec()) < serial_number(id)
            &&& !as_map(items).contains_key(id)
        },
{
    let greatest = items.last().key_spec();
    let id = successor(greatest, kind.prefix())->Ok_0;
    lemma_successor_follows(greatest, kind.prefix());
    assert forall|i: int|
        0 <= i < items.len() && is_serial(
            (#[trigger] items[i]).key_spec(),
            kind.prefix(),
        ) implies serial_number(items[i].key_spec()) < serial_number(id) by {
        lemma_ascending_last(items, i);
        lemma_serial_order(items[i].key_spec(), greatest, kind.prefix());
    }
    lemma_as_map_keys(items, id);
    if has_key(items, id) {
        let i = choose|i: int| 0 <= i < items.len() && (#[trigger] items[i]).key_spec() == id;
        lemma_ascending_last(items, i);
        lemma_order_facts(greatest, id);
        if precedes(id, greatest) {
            lemma_precedes_transitive(id, greatest, id);
        }
    }
}

/// The store of one tracker: its projects and its tickets.
#[derive(Debug)]
pub struct InRepoDB {
    projects: Vec<Project>,
    tickets: Vec<Ticket>,
}

impl InRepoDB {
    /// The projects of the store, in the order of their identifiers.
    pub closed spec fn projects(&self) -> Seq<Project> {
        self.projects@
    }

    /// The tickets of the store, in the order of their identifiers.
    pub closed spec fn tickets(&self) -> Seq<Ticket> {
        self.tickets@
    }

    /// The projects of the store, each under its identifier.
    pub open spec fn project_map(&self) -> Map<Seq<char>, Project> {
        as_map(self.projects())
    }

    /// The tickets of the store, each under its identifier.
    pub open spec fn ticket_map(&self) -> Map<Seq<char>, Ticket> {
        as_map(self.tickets())
    }

    /// A store is well formed when its projects and its tickets stand in
    /// strictly ascending order of their identifiers. Every store that this
    /// library makes is well formed.
    #[verifier::type_invariant]
    pub open spec fn wf(&self) -> bool {
        ascending(self.projects()) && ascending(self.tickets())
    }

    /// Makes a store of the given records. Where two records of one kind
    /// share an identifier, the later one stays and the earlier one is
    /// dropped.
    pub fn new(projects: Vec<Project>, tickets: Vec<Ticket>) -> (db: InRepoDB)
        ensures
            db.wf(),
            db.project_map() == as_map(projects@),
            db.ticket_map() == as_map(tickets@),
    {
        InRepoDB { projects: index(projects), tickets: index(tickets) }
    }

    /// The project with the given identifier, if the store has one.
    pub fn get_project(&self, id: &ProjectId) -> (found: Option<&Project>)
        ensures
            match found {
                Some(project) => self.project_map().contains_key(id@) && *project
                    == self.project_map()[id@],
                None => !self.project_map().contains_key(id@),
            },
    {
        proof {
            use_type_invariant(self);
            lemma_as_map_keys(self.projects@, id@);
        }
        match find(&self.projects, id.as_str()) {
            Some(i) => {
                proof {
                    lemma_ascending_entries(self.projects@, i as int);
                }
                Some(&self.projects[i])
            },
            None => None,
        }
    }

    /// Every project of the store, in the order of the identifiers.
    pub fn iter_projects(&self) -> (listing: Listing<'_, Project>)
        ensures
            listing.items() == self.projects(),
    {
        Listing::of(&self.projects)
    }

    /// The ticket with the given identifier, if the store has one.
    pub fn get_ticket(&self, id: &TicketId) -> (found: Option<&Ticket>)
        ensures
            match found {
                Some(ticket) => self.ticket_map().contains_key(id@) && *ticket
                    == self.ticket_map()[id@],
                None => !self.ticket_map().contains_key(id@),
            },
    {
        proof {
            use_type_invariant(self);
            lemma_as_map_keys(self.tickets@, id@);
        }
        match find(&self.tickets, id.as_str()) {
            Some(i) => {
                proof {
                    lemma_ascending_entries(self.tickets@, i as int);
                }
                Some(&self.tickets[i])
            },
            None => None,
        }
    }

    /// Every ticket of the store, in the order of the identifiers.
    pub fn iter_tickets(&self) -> (listing: Listing<'_, Ticket>)
        ensures
            listing.items() == self.tickets(),
    {
        Listing::of(&self.tickets)
    }

    /// The identifier for the next new ticket: the one after the greatest
    /// identifier in the store. There is none while the store has no ticket.
    /// Fails where the greatest identifier is not of the form `T` and four
    /// digits, or is `T9999`.
    pub fn get_next_ticket_id(&self) -> (next: Result<Option<TicketId>, StoreError>)
        ensures
            match next_id(self.tickets(), RecordKind::Ticket) {
                Ok(Some(id)) => next matches Ok(Some(found)) && found@ == id,
                Ok(None) => next matches Ok(None),
                Err(error) => next matches Err(found) && found == error,
            },
    {
        let n = self.tickets.len();
        if n == 0 {
            return Ok(None);
        }
        match next_serial(self.tickets[n - 1].id.as_str(), RecordKind::Ticket) {
            Ok(id) => Ok(Some(TicketId(id))),
            Err(error) => Err(error),
        }
    }

    /// The identifier for the next new project: the one after the greatest
    /// identifier in the store. There is none while the store has no
    /// project. Fails where the greatest identifier is not of the form `P`
    /// and four digits, or is `P9999`.
    pub fn get_next_project_id(&self) -> (next: Result<Option<ProjectId>, StoreError>)
        ensures
            match next_id(self.projects(), RecordKind::Project) {
                Ok(Some(id)) => next matches Ok(Some(found)) && found@ == id,
                Ok(None) => next matches Ok(None),
                Err(error) => next matches Err(found) && found == error,
            },
    {
        let n = self.projects.len();
        if n == 0 {
            return Ok(None);
        }
        match next_serial(self.projects[n - 1].id.as_str(), RecordKind::Project) {
            Ok(id) => Ok(Some(ProjectId(id))),
            Err(error) => Err(error),
        }
    }

    /// The tickets of the project with the given identifier, in the order
    /// of the ticket identifiers.
    pub fn get_tickets_for_project(&self, project_id: &str) -> (tickets: Vec<&Ticket>)
        ensures
            targets(tickets@) == self.tickets().filter(
                |ticket: Ticket| ticket.project.id@ == project_id@,
            ),
    {
        let project = ProjectId(project_id.to_owned());
        let tickets = self.iter_tickets().for_project(project).collect();
        assert(targets(tickets@) =~= self.tickets().filter(
            |ticket: Ticket| ticket.project.id@ == project_id@,
        )) by {
            assert(admitting(Criterion::Project(project)) =~= (|ticket: Ticket|
                ticket.project.id@ == project_id@));
        }
        tickets
    }

    /// The tickets that are not closed, in the order of their identifiers.
    pub fn get_open_tickets(&self) -> (tickets: Vec<&Ticket>)
        ensures
            targets(tickets@) == self.tickets().filter(|ticket: Ticket| ticket@.is_open()),
    {
        let mut open: Vec<TicketStatus> = Vec::new();
        open.push(TicketStatus::Backlog);
        open.push(TicketStatus::InProgress);
        let tickets = self.iter_tickets().with_status(open).collect();
        assert(targets(tickets@) =~= self.tickets().filter(|ticket: Ticket| ticket@.is_open())) by {
            assert forall|ticket: Ticket| #[trigger]
                Criterion::Status(open).admits(ticket) == ticket@.is_open() by {
                assert(open@[0] == TicketStatus::Backlog && open@[1] == TicketStatus::InProgress);
            }
            assert(admitting(Criterion::Status(open)) =~= (|ticket: Ticket| ticket@.is_open()));
        }
        tickets
    }
}

/// The identifier for the next ticket carries the greatest ticket number of
/// the store plus one, zero-padded to four digits behind `T`, and no ticket
/// of the store has it yet.
pub proof fn law_next_ticket_id(db: InRepoDB)
    requires
        db.wf(),
        db.tickets().len() > 0,
        successor(db.tickets().last().id@, 'T') is Ok,
    ensures
        next_id(db.tickets(), RecordKind::Ticket) matches Ok(Some(id)) && {
            &&& is_serial(id, 'T')
            &&& serial_number(id) == serial_number(db.tickets().last().id@) + 1
            &&& forall|i: int|
                0 <= i < db.tickets().len() && is_serial((#[trigger] db.tickets()[i]).id@, 'T')
                    ==> serial_number(db.tickets()[i].id@) < serial_number(id)
            &&& !db.ticket_map().contains_key(id)
        },
{
    law_next_id_is_greatest_plus_one(db.tickets(), RecordKind::Ticket);
    assert forall|i: int|
        0 <= i < db.tickets().len() && is_serial(
            (#[trigger] db.tickets()[i]).id@,
            'T',
        ) implies serial_number(db.tickets()[i].id@) < serial_number(
        successor(db.tickets().last().id@, 'T')->Ok_0,
    ) by {
        assert(db.tickets()[i].key_spec() == db.tickets()[i].id@);
    }
}

/// The identifier for the next project carries the greatest project number
/// of the store plus one, zero-padded to four digits behind `P`, and no
/// project of the store has it yet.
pub proof fn law_next_project_id(db: InRepoDB)
    requires
        db.wf(),
        db.projects().len() > 0,
        successor(db.projects().last().id@, 'P') is Ok,
    ensures
        next_id(db.projects(), RecordKind::Project) matches Ok(Some(id)) && {
            &&& is_serial(id, 'P')
            &&& serial_number(id) == serial_number(db.projects().last().id@) + 1
            &&& forall|i: int|
                0 <= i < db.projects().len() && is_serial((#[trigger] db.projects()[i]).id@, 'P')
                    ==> serial_number(db.projects()[i].id@) < serial_number(id)
            &&& !db.project_map().contains_key(id)
        },
{
    law_next_id_is_greatest_plus_one(db.projects(), RecordKind::Project);
    assert forall|i: int|
        0 <= i < db.projects().len() && is_serial(
            (#[trigger] db.projects()[i]).id@,
            'P',
        ) implies serial_number(db.projects()[i].id@) < serial_number(
        successor(db.projects().last().id@, 'P')->Ok_0,
    ) by {
        assert(db.projects()[i].key_spec() == db.projects()[i].id@);
    }
}

} // verus!
