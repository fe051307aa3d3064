//! Listings of records taken from a store, and the filters on tickets.
//!
//! A listing is finite and can be taken again from the store at any time. A
//! filter keeps the tickets that a criterion admits, in their order. Filters
//! are applied one after the other; the outcome does not depend on the order
//! in which they are applied.

use vstd::prelude::*;
use crate::ident::ProjectId;
use crate::project::{Project, ProjectView};
use crate::ticket::{Ticket, TicketStatus, TicketType, TicketView};

verus! {

/// What a filter asks of a ticket.
#[derive(Debug)]
pub enum Criterion {
    /// The ticket's status is one of these.
    Status(Vec<TicketStatus>),
    /// The ticket is of this type.
    Type(TicketType),
    /// The ticket belongs to the project with this identifier.
    Project(ProjectId),
}

impl Criterion {
    /// Whether the criterion admits the ticket.
    pub open spec fn admits(self, ticket: Ticket) -> bool {
        match self {
            Criterion::Status(statuses) => statuses@.contains(ticket.status),
            Criterion::Type(ticket_type) => ticket.ticket_type == ticket_type,
            Criterion::Project(project) => ticket.project.id@ == project@,
        }
    }

    /// Tests whether the criterion admits the ticket.
    pub fn test(&self, ticket: &Ticket) -> (admitted: bool)
        ensures
            admitted == self.admits(*ticket),
    {
        match self {
            Criterion::Status(statuses) => {
                let mut i: usize = 0;
                while i < statuses.len()
                    invariant
                        i <= statuses.len(),
                        self.admits(*ticket) == statuses@.contains(ticket.status),
                        forall|j: int| 0 <= j < i ==> statuses[j] != ticket.status,
                    decreases statuses.len() - i,
                {
                    if statuses[i] == ticket.status {
                        assert(statuses@[i as int] == ticket.status);
                        return true;
                    }
                    i += 1;
                }
                false
            },
            Criterion::Type(ticket_type) => ticket.ticket_type == *ticket_type,
            Criterion::Project(project) => ticket.project.id.same_as(project),
        }
    }
}

/// The test that a criterion puts to a ticket.
pub open spec fn admitting(criterion: Criterion) -> spec_fn(Ticket) -> bool {
    |ticket: Ticket| criterion.admits(ticket)
}

/// The tickets that a criterion admits, in their order.
pub open spec fn kept(tickets: Seq<Ticket>, criterion: Criterion) -> Seq<Ticket> {
    tickets.filter(admitting(criterion))
}

/// The tickets that two criteria both admit, in their order.
pub open spec fn kept_by_both(tickets: Seq<Ticket>, first: Criterion, second: Criterion) -> Seq<
    Ticket,
> {
    tickets.filter(|ticket: Ticket| first.admits(ticket) && second.admits(ticket))
}

/// How one more ticket at the end changes what a filter keeps.
pub proof fn lemma_kept_push(tickets: Seq<Ticket>, ticket: Ticket, criterion: Criterion)
    ensures
        kept(tickets.push(ticket), criterion) == if criterion.admits(ticket) {
            kept(tickets, criterion).push(ticket)
        } else {
            kept(tickets, criterion)
        },
        kept(Seq::<Ticket>::empty(), criterion) == Seq::<Ticket>::empty(),
{
    reveal(Seq::filter);
    assert(tickets.push(ticket).drop_last() =~= tickets);
}

/// How one more ticket at the end changes what two criteria both keep.
pub proof fn lemma_kept_by_both_push(
    tickets: Seq<Ticket>,
    ticket: Ticket,
    first: Criterion,
    second: Criterion,
)
    ensures
        kept_by_both(tickets.push(ticket), first, second) == if first.admits(ticket)
            && second.admits(ticket) {
            kept_by_both(tickets, first, second).push(ticket)
        } else {
            kept_by_both(tickets, first, second)
        },
        kept_by_both(Seq::<Ticket>::empty(), first, second) == Seq::<Ticket>::empty(),
{
    reveal(Seq::filter);
    assert(tickets.push(ticket).drop_last() =~= tickets);
}

/// Filters compose: one filter after another keeps exactly the tickets that
/// both criteria admit.
pub proof fn law_filters_compose(tickets: Seq<Ticket>, first: Criterion, second: Criterion)
    ensures
        kept(kept(tickets, first), second) == kept_by_both(tickets, first, second),
    decreases tickets.len(),
{
    if tickets.len() == 0 {
        lemma_kept_push(tickets, arbitrary(), first);
        lemma_kept_push(tickets, arbitrary(), second);
        lemma_kept_by_both_push(tickets, arbitrary(), first, second);
        assert(tickets =~= Seq::<Ticket>::empty());
    } else {
        let front = tickets.drop_last();
        let last = tickets.last();
        assert(tickets =~= front.push(last));
        law_filters_compose(front, first, second);
        lemma_kept_push(front, last, first);
        lemma_kept_by_both_push(front, last, first, second);
        if first.admits(last) {
            lemma_kept_push(kept(front, first), last, second);
        }
    }
}

/// Filters commute: the order in which two filters are applied does not
/// change what is kept.
pub proof fn law_filters_commute(tickets: Seq<Ticket>, first: Criterion, second: Criterion)
    ensures
        kept(kept(tickets, first), second) == kept(kept(tickets, second), first),
    decreases tickets.len(),
{
    if tickets.len() == 0 {
        lemma_kept_push(tickets, arbitrary(), first);
        lemma_kept_push(tickets, arbitrary(), second);
        assert(tickets =~= Seq::<Ticket>::empty());
    } else {
        let front = tickets.drop_last();
        let last = tickets.last();
        assert(tickets =~= front.push(last));
        law_filters_commute(front, first, second);
        lemma_kept_push(front, last, first);
        lemma_kept_push(front, last, second);
        if first.admits(last) {
            lemma_kept_push(kept(front, first), last, second);
        }
        if second.admits(last) {
            lemma_kept_push(kept(front, second), last, first);
        }
    }
}

/// The records that a sequence of references points to.
pub open spec fn targets<T>(refs: Seq<&T>) -> Seq<T> {
    Seq::new(refs.len(), |i: int| *refs[i])
}

/// A listing of records of a store, in the order of their keys.
pub struct Listing<'a, T> {
    items: Vec<&'a T>,
}

impl<'a, T> Listing<'a, T> {
    /// The records listed, in order.
    pub closed spec fn items(&self) -> Seq<T> {
        targets(self.items@)
    }

    /// Lists every record of a vector, in the vector's order.
    pub fn of(records: &'a Vec<T>) -> (listing: Listing<'a, T>)
        ensures
            listing.items() == records@,
    {
        let mut items: Vec<&'a T> = Vec::new();
        let mut i: usize = 0;
        while i < records.len()
            invariant
                i <= records.len(),
                targets(items@) == records@.take(i as int),
            decreases records.len() - i,
        {
            items.push(&records[i]);
            assert(targets(items@) =~= records@.take(i as int).push(records[i as int]));
            assert(records@.take(i + 1) =~= records@.take(i as int).push(records[i as int]));
            i += 1;
        }
        assert(records@.take(i as int) =~= records@);
        Listing { items }
    }

    /// Hands out the records listed.
    pub fn collect(self) -> (records: Vec<&'a T>)
        ensures
            targets(records@) == self.items(),
    {
        self.items
    }

    /// The number of records listed.
    pub fn count(&self) -> (n: usize)
        ensures
            n == self.items().len(),
    {
        self.items.len()
    }
}

impl<'a> Listing<'a, Ticket> {
    /// Keeps the tickets that the criterion admits.
    pub fn keep(self, criterion: &Criterion) -> (listing: Listing<'a, Ticket>)
        ensures
            listing.items() == kept(self.items(), *criterion),
    {
        let mut items: Vec<&'a Ticket> = Vec::new();
        let mut i: usize = 0;
        proof {
            lemma_kept_push(Seq::empty(), arbitrary(), *criterion);
            assert(self.items().take(0) =~= Seq::<Ticket>::empty());
        }
        while i < self.items.len()
            invariant
                i <= self.items.len(),
                targets(items@) == kept(self.items().take(i as int), *criterion),
            decreases self.items.len() - i,
        {
            let ticket: &'a Ticket = self.items[i];
            let ghost before = targets(items@);
            proof {
                lemma_kept_push(self.items().take(i as int), *ticket, *criterion);
                assert(self.items().take(i + 1) =~= self.items().take(i as int).push(*ticket));
            }
            if criterion.test(ticket) {
                items.push(ticket);
                assert(targets(items@) =~= before.push(*ticket));
            }
            i += 1;
        }
        assert(self.items().take(i as int) =~= self.items());
        Listing { items }
    }

    /// Keeps the tickets whose status is one of `statuses`.
    pub fn with_status(self, statuses: Vec<TicketStatus>) -> (listing: Listing<'a, Ticket>)
        ensures
            listing.items() == kept(self.items(), Criterion::Status(statuses)),
    {
        self.keep(&Criterion::Status(statuses))
    }

    /// Keeps the tickets of the given type.
    pub fn with_type(self, ticket_type: TicketType) -> (listing: Listing<'a, Ticket>)
        ensures
            listing.items() == kept(self.items(), Criterion::Type(ticket_type)),
    {
        self.keep(&Criterion::Type(ticket_type))
    }

    /// Keeps the tickets of the given project.
    pub fn for_project(self, project: ProjectId) -> (listing: Listing<'a, Ticket>)
        ensures
            listing.items() == kept(self.items(), Criterion::Project(project)),
    {
        self.keep(&Criterion::Project(project))
    }
}

/// The contents of a sequence of tickets.
pub open spec fn ticket_views(tickets: Seq<Ticket>) -> Seq<TicketView> {
    Seq::new(tickets.len(), |i: int| tickets[i]@)
}

/// The contents of a sequence of projects.
pub open spec fn project_views(projects: Seq<Project>) -> Seq<ProjectView> {
    Seq::new(projects.len(), |i: int| projects[i]@)
}

impl<'a> Listing<'a, Ticket> {
    /// Copies the tickets listed.
    pub fn cloned(self) -> (tickets: Vec<Ticket>)
        ensures
            ticket_views(tickets@) == ticket_views(self.items()),
    {
        let mut tickets: Vec<Ticket> = Vec::new();
        let mut i: usize = 0;
        while i < self.items.len()
            invariant
                i <= self.items.len(),
                ticket_views(tickets@) == ticket_views(self.items().take(i as int)),
            decreases self.items.len() - i,
        {
            let ghost before = ticket_views(tickets@);
            tickets.push(self.items[i].clone());
            assert(ticket_views(tickets@) =~= before.push(self.items()[i as int]@));
            assert(ticket_views(self.items().take(i + 1)) =~= before.push(self.items()[i as int]@));
            i += 1;
        }
        assert(self.items().take(i as int) =~= self.items());
        tickets
    }
}

impl<'a> Listing<'a, Project> {
    /// Copies the projects listed.
    pub fn cloned(self) -> (projects: Vec<Project>)
        ensures
            project_views(projects@) == project_views(self.items()),
    {
        let mut projects: Vec<Project> = Vec::new();
        let mut i: usize = 0;
        while i < self.items.len()
            invariant
                i <= self.items.len(),
                project_views(projects@) == project_views(self.items().take(i as int)),
            decreases self.items.len() - i,
        {
            let ghost before = project_views(projects@);
            projects.push(self.items[i].clone());
            assert(project_views(projects@) =~= before.push(self.items()[i as int]@));
            assert(project_views(self.items().take(i + 1)) =~= before.push(
                self.items()[i as int]@,
            ));
            i += 1;
        }
        assert(self.items().take(i as int) =~= self.items());
        projects
    }
}

/// Filtering twice keeps what passes both tests.
pub proof fn lemma_filter_twice<A>(
    items: Seq<A>,
    first: spec_fn(A) -> bool,
    second: spec_fn(A) -> bool,
    both: spec_fn(A) -> bool,
)
    requires
        forall|x: A| #[trigger] both(x) == (first(x) && second(x)),
    ensures
        items.filter(first).filter(second) == items.filter(both),
    decreases items.len(),
{
    reveal(Seq::filter);
    if items.len() > 0 {
        let front = items.drop_last();
        lemma_filter_twice(front, first, second, both);
        if first(items.last()) {
            assert(front.filter(first).push(items.last()).drop_last() =~= front.filter(first));
        }
    }
}

/// A test that everything passes keeps everything.
pub proof fn lemma_filter_all<A>(items: Seq<A>, test: spec_fn(A) -> bool)
    requires
        forall|x: A| #[trigger] test(x),
    ensures
        items.filter(test) == items,
    decreases items.len(),
{
    reveal(Seq::filter);
    if items.len() > 0 {
        lemma_filter_all(items.drop_last(), test);
        assert(items =~= items.drop_last().push(items.last()));
    }
}

} // verus!
