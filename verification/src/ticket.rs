//! Tickets, their status and type, and the project they point to.

use vstd::prelude::*;
use vstd::string::*;
use crate::ident::{ProjectId, TicketId};
use crate::project::Project;
use crate::record::{distinct_keys, same_text, views, Field, FieldView};

verus! {

/// Where a ticket stands in its life.
#[derive(Clone, Copy, Debug, PartialEq, Eq, Structural)]
pub enum TicketStatus {
    Backlog,
    InProgress,
    Closed,
}

/// What kind of work a ticket asks for.
#[derive(Clone, Copy, Debug, PartialEq, Eq, Structural)]
pub enum TicketType {
    Bug,
    Feature,
    Documentation,
    Other,
}

impl TicketStatus {
    /// The word that stands for the status in a record.
    pub open spec fn name_spec(self) -> Seq<char> {
        match self {
            TicketStatus::Backlog => "Backlog"@,
            TicketStatus::InProgress => "InProgress"@,
            TicketStatus::Closed => "Closed"@,
        }
    }

    /// The words shown to the user for the status.
    pub open spec fn label_spec(self) -> Seq<char> {
        match self {
            TicketStatus::Backlog => "Backlog"@,
            TicketStatus::InProgress => "In Progress"@,
            TicketStatus::Closed => "Closed"@,
        }
    }

    /// The status that a record's word stands for, if it stands for one.
    pub open spec fn named(name: Seq<char>) -> Option<TicketStatus> {
        if name == "Backlog"@ {
            Some(TicketStatus::Backlog)
        } else if name == "InProgress"@ {
            Some(TicketStatus::InProgress)
        } else if name == "Closed"@ {
            Some(TicketStatus::Closed)
        } else {
            None
        }
    }

    /// The status that the words shown to the user stand for, if any.
    pub open spec fn labelled(label: Seq<char>) -> Option<TicketStatus> {
        if label == "Backlog"@ {
            Some(TicketStatus::Backlog)
        } else if label == "In Progress"@ {
            Some(TicketStatus::InProgress)
        } else if label == "Closed"@ {
            Some(TicketStatus::Closed)
        } else {
            None
        }
    }

    /// A status is open unless it is `Closed`.
    pub open spec fn is_open_spec(self) -> bool {
        self != TicketStatus::Closed
    }

    /// The word that stands for the status in a record.
    pub fn name(self) -> (name: &'static str)
        ensures
            name@ == self.name_spec(),
    {
        match self {
            TicketStatus::Backlog => "Backlog",
            TicketStatus::InProgress => "InProgress",
            TicketStatus::Closed => "Closed",
        }
    }

    /// The words shown to the user for the status.
    pub fn label(self) -> (label: &'static str)
        ensures
            label@ == self.label_spec(),
    {
        match self {
            TicketStatus::Backlog => "Backlog",
            TicketStatus::InProgress => "In Progress",
            TicketStatus::Closed => "Closed",
        }
    }

    /// Reads a status from the word that stands for it in a record.
    pub fn from_name(name: &str) -> (status: Option<TicketStatus>)
        ensures
            status == Self::named(name@),
    {
        if same_text(name, "Backlog") {
            Some(TicketStatus::Backlog)
        } else if same_text(name, "InProgress") {
            Some(TicketStatus::InProgress)
        } else if same_text(name, "Closed") {
            Some(TicketStatus::Closed)
        } else {
            None
        }
    }

    /// Reads a status from the words shown to the user.
    pub fn from_label(label: &str) -> (status: Option<TicketStatus>)
        ensures
            status == Self::labelled(label@),
    {
        if same_text(label, "Backlog") {
            Some(TicketStatus::Backlog)
        } else if same_text(label, "In Progress") {
            Some(TicketStatus::InProgress)
        } else if same_text(label, "Closed") {
            Some(TicketStatus::Closed)
        } else {
            None
        }
    }

    /// Whether work on a ticket with this status is still to be done.
    pub fn is_open(self) -> (open: bool)
        ensures
            open == self.is_open_spec(),
    {
        self != TicketStatus::Closed
    }

    /// The list that holds this status alone.
    pub fn only(self) -> (statuses: Vec<TicketStatus>)
        ensures
            statuses@ == seq![self],
    {
        let mut statuses: Vec<TicketStatus> = Vec::new();
        statuses.push(self);
        statuses
    }
}

impl From<TicketStatus> for Vec<TicketStatus> {
    /// The list that holds the status alone.
    fn from(status: TicketStatus) -> (statuses: Vec<TicketStatus>)
        ensures
            statuses@ == seq![status],
    {
        status.only()
    }
}

impl vstd::std_specs::convert::FromSpecImpl<TicketStatus> for Vec<TicketStatus> {
    /// What `from` returns is stated on `from` itself, through the list's
    /// view; no list is named here.
    open spec fn obeys_from_spec() -> bool {
        false
    }

    open spec fn from_spec(status: TicketStatus) -> Vec<TicketStatus> {
        arbitrary()
    }
}

/// Reading back the word of a status gives the status.
pub proof fn lemma_status_name_read_back(status: TicketStatus)
    ensures
        TicketStatus::named(status.name_spec()) == Some(status),
        TicketStatus::labelled(status.label_spec()) == Some(status),
{
    reveal_strlit("Backlog");
    reveal_strlit("InProgress");
    reveal_strlit("In Progress");
    reveal_strlit("Closed");
    assert("Backlog"@.len() == 7 && "InProgress"@.len() == 10);
    assert("In Progress"@.len() == 11 && "Closed"@.len() == 6);
}

impl TicketType {
    /// The word that stands for the type, in a record and on the screen.
    pub open spec fn name_spec(self) -> Seq<char> {
        match self {
            TicketType::Bug => "Bug"@,
            TicketType::Feature => "Feature"@,
            TicketType::Documentation => "Documentation"@,
            TicketType::Other => "Other"@,
        }
    }

    /// The type that a word stands for, if it stands for one.
    pub open spec fn named(name: Seq<char>) -> Option<TicketType> {
        if name == "Bug"@ {
            Some(TicketType::Bug)
        } else if name == "Feature"@ {
            Some(TicketType::Feature)
        } else if name == "Documentation"@ {
            Some(TicketType::Documentation)
        } else if name == "Other"@ {
            Some(TicketType::Other)
        } else {
            None
        }
    }

    /// The word that stands for the type, in a record and on the screen.
    pub fn name(self) -> (name: &'static str)
        ensures
            name@ == self.name_spec(),
    {
        match self {
            TicketType::Bug => "Bug",
            TicketType::Feature => "Feature",
            TicketType::Documentation => "Documentation",
            TicketType::Other => "Other",
        }
    }

    /// Reads a type from the word that stands for it.
    pub fn from_name(name: &str) -> (ticket_type: Option<TicketType>)
        ensures
            ticket_type == Self::named(name@),
    {
        if same_text(name, "Bug") {
            Some(TicketType::Bug)
        } else if same_text(name, "Feature") {
            Some(TicketType::Feature)
        } else if same_text(name, "Documentation") {
            Some(TicketType::Documentation)
        } else if same_text(name, "Other") {
            Some(TicketType::Other)
        } else {
            None
        }
    }
}

/// Reading back the word of a type gives the type.
pub proof fn lemma_type_name_read_back(ticket_type: TicketType)
    ensures
        TicketType::named(ticket_type.name_spec()) == Some(ticket_type),
{
    reveal_strlit("Bug");
    reveal_strlit("Feature");
    reveal_strlit("Documentation");
    reveal_strlit("Other");
    assert("Bug"@.len() == 3 && "Feature"@.len() == 7);
    assert("Documentation"@.len() == 13 && "Other"@.len() == 5);
}

/// A ticket's pointer to its project: the identifier and nothing more.
#[derive(Debug)]
pub struct ProjectStub {
    pub id: ProjectId,
}

impl Clone for ProjectStub {
    fn clone(&self) -> (copy: Self)
        ensures
            copy == *self,
    {
        ProjectStub { id: self.id.clone() }
    }
}

impl ProjectStub {
    /// The stub that points to `project`.
    pub fn from(project: &Project) -> (stub: ProjectStub)
        ensures
            stub.id == project.id,
    {
        ProjectStub { id: project.id.clone() }
    }
}

/// A ticket, with whatever fields its record held beyond the known ones.
#[derive(Debug)]
pub struct Ticket {
    pub id: TicketId,
    pub title: String,
    pub description: String,
    pub status: TicketStatus,
    pub ticket_type: TicketType,
    pub project: ProjectStub,
    /// Fields of the record that the tracker does not model, in their order.
    pub extra: Vec<Field>,
}

/// The mathematical content of a `Ticket`.
pub struct TicketView {
    pub id: Seq<char>,
    pub title: Seq<char>,
    pub description: Seq<char>,
    pub status: TicketStatus,
    pub ticket_type: TicketType,
    /// The identifier of the ticket's project.
    pub project: Seq<char>,
    pub extra: Seq<FieldView>,
}

/// Whether `key` names one of the fields that every ticket record has.
pub open spec fn is_ticket_key(key: Seq<char>) -> bool {
    key == "id"@ || key == "title"@ || key == "description"@ || key == "status"@ || key == "type"@
        || key == "project"@
}

impl TicketView {
    /// A ticket is well formed when its extra fields have distinct names,
    /// none of them the name of a known field.
    pub open spec fn wf(self) -> bool {
        &&& distinct_keys(self.extra)
        &&& forall|i: int| 0 <= i < self.extra.len() ==> !is_ticket_key(#[trigger] self.extra[i].key)
    }

    /// Whether the ticket is still to be worked on.
    pub open spec fn is_open(self) -> bool {
        self.status.is_open_spec()
    }

    /// The ticket with its status replaced.
    pub open spec fn with_status(self, status: TicketStatus) -> TicketView {
        TicketView { status, ..self }
    }

    /// The text shown for the ticket.
    pub open spec fn display(self) -> Seq<char> {
        "ID: "@ + self.id + "\nTitle: "@ + self.title + "\nStatus: "@ + self.status.label_spec()
            + "\nType: "@ + self.ticket_type.name_spec() + "\nProject ID: "@ + self.project
    }
}

impl View for Ticket {
    type V = TicketView;

    open spec fn view(&self) -> TicketView {
        TicketView {
            id: self.id@,
            title: self.title@,
            description: self.description@,
            status: self.status,
            ticket_type: self.ticket_type,
            project: self.project.id@,
            extra: views(self.extra@),
        }
    }
}

impl Clone for Ticket {
    fn clone(&self) -> (copy: Self)
        ensures
            copy@ == self@,
    {
        let extra = self.extra.clone();
        assert(views(extra@) =~= views(self.extra@));
        Ticket {
            id: self.id.clone(),
            title: self.title.clone(),
            description: self.description.clone(),
            status: self.status,
            ticket_type: self.ticket_type,
            project: self.project.clone(),
            extra,
        }
    }
}

impl Ticket {
    /// Makes a ticket from its parts.
    pub fn new(
        id: TicketId,
        title: String,
        description: String,
        status: TicketStatus,
        ticket_type: TicketType,
        project: ProjectStub,
        extra: Vec<Field>,
    ) -> (ticket: Ticket)
        ensures
            ticket.id == id,
            ticket.title == title,
            ticket.description == description,
            ticket.status == status,
            ticket.ticket_type == ticket_type,
            ticket.project == project,
            ticket.extra == extra,
    {
        Ticket { id, title, description, status, ticket_type, project, extra }
    }

    /// The ticket's identifier.
    pub fn id(&self) -> (id: &TicketId)
        ensures
            *id == self.id,
    {
        &self.id
    }

    /// The ticket's title.
    pub fn title(&self) -> (title: &String)
        ensures
            *title == self.title,
    {
        &self.title
    }

    /// The ticket's description.
    pub fn description(&self) -> (description: &String)
        ensures
            *description == self.description,
    {
        &self.description
    }

    /// The ticket's status.
    pub fn status(&self) -> (status: TicketStatus)
        ensures
            status == self.status,
    {
        self.status
    }

    /// The ticket's type.
    pub fn ticket_type(&self) -> (ticket_type: TicketType)
        ensures
            ticket_type == self.ticket_type,
    {
        self.ticket_type
    }

    /// Whether the ticket is still to be worked on: its status is not
    /// `Closed`.
    pub fn is_open(&self) -> (open: bool)
        ensures
            open == self@.is_open(),
    {
        self.status.is_open()
    }

    /// The identifier of the project the ticket belongs to.
    pub fn get_project_id(&self) -> (id: &ProjectId)
        ensures
            *id == self.project.id,
    {
        &self.project.id
    }

    /// Closes the ticket, whatever its status was.
    pub fn close(&mut self)
        ensures
            final(self)@ == old(self)@.with_status(TicketStatus::Closed),
            final(self).extra == old(self).extra,
    {
        self.status = TicketStatus::Closed;
    }

    /// Sets the status to the given one, or to `InProgress` when none is
    /// given, whatever the status was.
    pub fn reopen(&mut self, status: Option<TicketStatus>)
        ensures
            final(self)@ == old(self)@.with_status(
                match status {
                    Some(target) => target,
                    None => TicketStatus::InProgress,
                },
            ),
            final(self).extra == old(self).extra,
    {
        self.status = match status {
            Some(target) => target,
            None => TicketStatus::InProgress,
        };
    }

    /// The ticket as shown to the user: identifier, title, status, type and
    /// project, one per line.
    pub fn to_string(&self) -> (text: String)
        ensures
            text@ == self@.display(),
    {
        let mut text = String::from_str("ID: ");
        text.append(self.id.as_str());
        text.append("\nTitle: ");
        text.append(self.title.as_str());
        text.append("\nStatus: ");
        text.append(self.status.label());
        text.append("\nType: ");
        text.append(self.ticket_type.name());
        text.append("\nProject ID: ");
        text.append(self.project.id.as_str());
        text
    }
}

} // verus!
