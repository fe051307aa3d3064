//! Loading a store from what was read of its record files.
//!
//! Each source is the outcome of reading one file: its text, or the error of
//! the read. Sources are taken in order, projects before tickets, and the
//! first one that was not read or does not decode ends the load with its
//! error: a store is loaded whole or not at all.

use vstd::prelude::*;
use crate::codec::{decode_project, decode_ticket, decoded_project, decoded_ticket};
use crate::error::StoreError;
use crate::keyed::as_map;
use crate::project::{Project, ProjectView};
use crate::store::InRepoDB;
use crate::ticket::{Ticket, TicketView};

verus! {

/// The ticket that a source gives, or the error that it ends the load with.
pub open spec fn ticket_of_source(source: Result<String, StoreError>) -> Result<
    TicketView,
    StoreError,
> {
    match source {
        Ok(text) => decoded_ticket(text@),
        Err(error) => Err(error),
    }
}

/// The project that a source gives, or the error that it ends the load
/// with.
pub open spec fn project_of_source(source: Result<String, StoreError>) -> Result<
    ProjectView,
    StoreError,
> {
    match source {
        Ok(text) => decoded_project(text@),
        Err(error) => Err(error),
    }
}

/// Whether `tickets` are what the sources give, one for one.
pub open spec fn tickets_loaded(sources: Seq<Result<String, StoreError>>, tickets: Seq<Ticket>) -> bool {
    &&& tickets.len() == sources.len()
    &&& forall|i: int|
        0 <= i < sources.len() ==> ticket_of_source(#[trigger] sources[i]) == Ok::<
            TicketView,
            StoreError,
        >(tickets[i]@)
}

/// Whether `projects` are what the sources give, one for one.
pub open spec fn projects_loaded(sources: Seq<Result<String, StoreError>>, projects: Seq<Project>) -> bool {
    &&& projects.len() == sources.len()
    &&& forall|i: int|
        0 <= i < sources.len() ==> project_of_source(#[trigger] sources[i]) == Ok::<
            ProjectView,
            StoreError,
        >(projects[i]@)
}

/// Whether `error` is the error of the first ticket source that fails.
pub open spec fn tickets_fail_with(sources: Seq<Result<String, StoreError>>, error: StoreError) -> bool {
    exists|i: int|
        0 <= i < sources.len() && ticket_of_source(#[trigger] sources[i]) == Err::<
            TicketView,
            StoreError,
        >(error) && forall|j: int| 0 <= j < i ==> ticket_of_source(#[trigger] sources[j]) is Ok
}

/// Whether `error` is the error of the first project source that fails.
pub open spec fn projects_fail_with(sources: Seq<Result<String, StoreError>>, error: StoreError) -> bool {
    exists|i: int|
        0 <= i < sources.len() && project_of_source(#[trigger] sources[i]) == Err::<
            ProjectView,
            StoreError,
        >(error) && forall|j: int| 0 <= j < i ==> project_of_source(#[trigger] sources[j]) is Ok
}

/// Decodes the tickets of a store, in the order of the sources. The first
/// source that fails ends the load with its error.
pub fn collect_tickets(sources: &Vec<Result<String, StoreError>>) -> (outcome: Result<
    Vec<Ticket>,
    StoreError,
>)
    ensures
        match outcome {
            Ok(tickets) => tickets_loaded(sources@, tickets@),
            Err(error) => tickets_fail_with(sources@, error),
        },
{
    let mut tickets: Vec<Ticket> = Vec::new();
    let mut i: usize = 0;
    while i < sources.len()
        invariant
            i <= sources.len(),
            tickets_loaded(sources@.take(i as int), tickets@),
        decreases sources.len() - i,
    {
        let decoded = match &sources[i] {
            Ok(text) => decode_ticket(text.as_str()),
            Err(error) => Err(*error),
        };
        match decoded {
            Ok(ticket) => {
                tickets.push(ticket);
            },
            Err(error) => {
                assert forall|j: int| 0 <= j < i implies ticket_of_source(
                    #[trigger] sources@[j],
                ) is Ok by {
                    assert(sources@.take(i as int)[j] == sources@[j]);
                }
                assert(ticket_of_source(sources@[i as int]) == Err::<TicketView, StoreError>(error));
                return Err(error);
            },
        }
        assert(tickets_loaded(sources@.take(i + 1), tickets@)) by {
            let seen = sources@.take(i as int);
            let next = sources@.take(i + 1);
            assert forall|j: int| 0 <= j < next.len() implies ticket_of_source(
                #[trigger] next[j],
            ) == Ok::<TicketView, StoreError>(tickets@[j]@) by {
                if j < i {
                    assert(seen[j] == next[j]);
                }
            }
        }
        i += 1;
    }
    assert(sources@.take(i as int) =~= sources@);
    Ok(tickets)
}

/// Decodes the projects of a store, in the order of the sources. The first
/// source that fails ends the load with its error.
pub fn collect_projects(sources: &Vec<Result<String, StoreError>>) -> (outcome: Result<
    Vec<Project>,
    StoreError,
>)
    ensures
        match outcome {
            Ok(projects) => projects_loaded(sources@, projects@),
            Err(error) => projects_fail_with(sources@, error),
        },
{
    let mut projects: Vec<Project> = Vec::new();
    let mut i: usize = 0;
    while i < sources.len()
        invariant
            i <= sources.len(),
            projects_loaded(sources@.take(i as int), projects@),
        decreases sources.len() - i,
    {
        let decoded = match &sources[i] {
            Ok(text) => decode_project(text.as_str()),
            Err(error) => Err(*error),
        };
        match decoded {
            Ok(project) => {
                projects.push(project);
            },
            Err(error) => {
                assert forall|j: int| 0 <= j < i implies project_of_source(
                    #[trigger] sources@[j],
                ) is Ok by {
                    assert(sources@.take(i as int)[j] == sources@[j]);
                }
                assert(project_of_source(sources@[i as int]) == Err::<ProjectView, StoreError>(
                    error,
                ));
                return Err(error);
            },
        }
        assert(projects_loaded(sources@.take(i + 1), projects@)) by {
            let seen = sources@.take(i as int);
            let next = sources@.take(i + 1);
            assert forall|j: int| 0 <= j < next.len() implies project_of_source(
                #[trigger] next[j],
            ) == Ok::<ProjectView, StoreError>(projects@[j]@) by {
                if j < i {
                    assert(seen[j] == next[j]);
                }
            }
        }
        i += 1;
    }
    assert(sources@.take(i as int) =~= sources@);
    Ok(projects)
}

/// Loads the store: decodes the projects, then the tickets, and files each
/// record under its identifier. Where two records of one kind carry one
/// identifier, the one from the later source stays. The first source that
/// fails, projects first, ends the load with its error.
pub fn collect_in_repo_db(
    project_sources: &Vec<Result<String, StoreError>>,
    ticket_sources: &Vec<Result<String, StoreError>>,
) -> (outcome: Result<InRepoDB, StoreError>)
    ensures
        match outcome {
            Ok(db) => {
                &&& db.wf()
                &&& exists|projects: Seq<Project>| #[trigger]
                    projects_loaded(project_sources@, projects) && db.project_map() == as_map(
                        projects,
                    )
                &&& exists|tickets: Seq<Ticket>| #[trigger]
                    tickets_loaded(ticket_sources@, tickets) && db.ticket_map() == as_map(tickets)
            },
            Err(error) => {
                ||| projects_fail_with(project_sources@, error)
                ||| (exists|projects: Seq<Project>| #[trigger]
                    projects_loaded(project_sources@, projects)) && tickets_fail_with(
                    ticket_sources@,
                    error,
                )
            },
        },
{
    let projects = match collect_projects(project_sources) {
        Ok(projects) => projects,
        Err(error) => {
            return Err(error);
        },
    };
    let tickets = match collect_tickets(ticket_sources) {
        Ok(tickets) => tickets,
        Err(error) => {
            return Err(error);
        },
    };
    let ghost loaded_projects = projects@;
    let ghost loaded_tickets = tickets@;
    let db = InRepoDB::new(projects, tickets);
    assert(projects_loaded(project_sources@, loaded_projects) && db.project_map() == as_map(
        loaded_projects,
    ));
    assert(tickets_loaded(ticket_sources@, loaded_tickets) && db.ticket_map() == as_map(
        loaded_tickets,
    ));
    Ok(db)
}

} // verus!
