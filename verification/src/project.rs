//! Projects: the things that tickets belong to.

use vstd::prelude::*;
use vstd::string::*;
use crate::ident::ProjectId;
use crate::record::{distinct_keys, views, Field, FieldView};

verus! {

/// A project, with whatever fields its record held beyond the known ones.
#[derive(Debug)]
pub struct Project {
    pub id: ProjectId,
    pub name: String,
    pub description: String,
    /// Fields of the record that the tracker does not model, in their order.
    pub extra: Vec<Field>,
}

/// The mathematical content of a `Project`.
pub struct ProjectView {
    pub id: Seq<char>,
    pub name: Seq<char>,
    pub description: Seq<char>,
    pub extra: Seq<FieldView>,
}

/// Whether `key` names one of the fields that every project record has.
pub open spec fn is_project_key(key: Seq<char>) -> bool {
    key == "id"@ || key == "name"@ || key == "description"@
}

impl ProjectView {
    /// A project is well formed when its extra fields have distinct names,
    /// none of them the name of a known field.
    pub open spec fn wf(self) -> bool {
        &&& distinct_keys(self.extra)
        &&& forall|i: int| 0 <= i < self.extra.len() ==> !is_project_key(#[trigger] self.extra[i].key)
    }

    /// The text shown for the project.
    pub open spec fn display(self) -> Seq<char> {
        "Project ID: "@ + self.id + "\nName: "@ + self.name + "\nDescription: "@
            + self.description
    }
}

impl View for Project {
    type V = ProjectView;

    open spec fn view(&self) -> ProjectView {
        ProjectView {
            id: self.id@,
            name: self.name@,
            description: self.description@,
            extra: views(self.extra@),
        }
    }
}

impl Clone for Project {
    fn clone(&self) -> (copy: Self)
        ensures
            copy@ == self@,
    {
        let extra = self.extra.clone();
        assert(views(extra@) =~= views(self.extra@));
        Project {
            id: self.id.clone(),
            name: self.name.clone(),
            description: self.description.clone(),
            extra,
        }
    }
}

impl Project {
    /// Makes a project from its parts.
    pub fn new(id: ProjectId, name: String, description: String, extra: Vec<Field>) -> (project:
        Project)
        ensures
            project.id == id,
            project.name == name,
            project.description == description,
            project.extra == extra,
    {
        Project { id, name, description, extra }
    }

    /// The project's identifier.
    pub fn id(&self) -> (id: &ProjectId)
        ensures
            *id == self.id,
    {
        &self.id
    }

    /// The project's name.
    pub fn name(&self) -> (name: &String)
        ensures
            *name == self.name,
    {
        &self.name
    }

    /// The project's description.
    pub fn description(&self) -> (description: &String)
        ensures
            *description == self.description,
    {
        &self.description
    }

    /// The project as shown to the user: identifier, name and description,
    /// one per line.
    pub fn to_string(&self) -> (text: String)
        ensures
            text@ == self@.display(),
    {
        let mut text = String::from_str("Project ID: ");
        text.append(self.id.as_str());
        text.append("\nName: ");
        text.append(self.name.as_str());
        text.append("\nDescription: ");
        text.append(self.description.as_str());
        text
    }
}

} // verus!
