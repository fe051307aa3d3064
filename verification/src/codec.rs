//! The record codec: tickets and projects to and from their fields, and to
//! and from the text of a record file.
//!
//! A record is read by taking the known fields out by name; every field that
//! is left goes, untouched and in order, into the entity's extra fields. A
//! record is written with the known fields first, in a fixed order, and the
//! extra fields after them.

use vstd::prelude::*;
use vstd::string::*;
use crate::error::StoreError;
use crate::ident::{ProjectId, RecordKind, TicketId};
use crate::project::{is_project_key, Project, ProjectView};
use crate::record::{
    distinct_keys,
    fields_of_table,
    find_field,
    lookup,
    parse_fields,
    render_fields,
    same_text,
    table_at,
    table_of_text,
    text_at,
    toml_parsed,
    toml_rendered,
    views,
    Field,
    FieldValue,
    FieldView,
    ValueView,
};
use crate::ticket::{
    is_ticket_key,
    lemma_status_name_read_back,
    lemma_type_name_read_back,
    ProjectStub,
    Ticket,
    TicketStatus,
    TicketType,
    TicketView,
};

verus! {

/// Whether `key` names a field that every record of the kind has.
pub open spec fn is_known_key(kind: RecordKind, key: Seq<char>) -> bool {
    match kind {
        RecordKind::Ticket => is_ticket_key(key),
        RecordKind::Project => is_project_key(key),
    }
}

/// The fields of a record that are not known fields of its kind, in order.
pub open spec fn unknown_fields(fields: Seq<FieldView>, kind: RecordKind) -> Seq<FieldView> {
    fields.filter(|field: FieldView| !is_known_key(kind, field.key))
}

/// Whether a list of extra fields can stand beside the known fields of a
/// record of the kind: no name twice, none of them a known name.
pub open spec fn extra_fits(extra: Seq<FieldView>, kind: RecordKind) -> bool {
    &&& distinct_keys(extra)
    &&& forall|i: int| 0 <= i < extra.len() ==> !is_known_key(kind, #[trigger] extra[i].key)
}

/// The field `key = text`.
pub open spec fn text_field(key: Seq<char>, text: Seq<char>) -> FieldView {
    FieldView { key, value: ValueView::Text(text) }
}

/// The fields of a ticket's record: identifier, title, description, status,
/// type and the project table, then the extra fields.
pub open spec fn ticket_fields(ticket: TicketView) -> Seq<FieldView> {
    seq![
        text_field("id"@, ticket.id),
        text_field("title"@, ticket.title),
        text_field("description"@, ticket.description),
        text_field("status"@, ticket.status.name_spec()),
        text_field("type"@, ticket.ticket_type.name_spec()),
        FieldView {
            key: "project"@,
            value: ValueView::Table(seq![text_field("id"@, ticket.project)]),
        },
    ] + ticket.extra
}

/// The ticket that a record's fields describe. The record is malformed when
/// a known field is missing or is no text, when the status or the type is
/// not one of the known words, or when `project` is no table with a text
/// `id`. Other entries of the `project` table are not kept.
pub open spec fn ticket_of_fields(fields: Seq<FieldView>) -> Result<TicketView, StoreError> {
    match (
        text_at(fields, "id"@),
        text_at(fields, "title"@),
        text_at(fields, "description"@),
        text_at(fields, "status"@),
        text_at(fields, "type"@),
        table_at(fields, "project"@),
    ) {
        (Some(id), Some(title), Some(description), Some(status), Some(kind), Some(project)) => {
            match (TicketStatus::named(status), TicketType::named(kind), text_at(project, "id"@)) {
                (Some(status), Some(ticket_type), Some(project)) => Ok(
                    TicketView {
                        id,
                        title,
                        description,
                        status,
                        ticket_type,
                        project,
                        extra: unknown_fields(fields, RecordKind::Ticket),
                    },
                ),
                _ => Err(StoreError::MalformedRecord),
            }
        },
        _ => Err(StoreError::MalformedRecord),
    }
}

/// The fields of a project's record: identifier, name and description, then
/// the extra fields.
pub open spec fn project_fields(project: ProjectView) -> Seq<FieldView> {
    seq![
        text_field("id"@, project.id),
        text_field("name"@, project.name),
        text_field("description"@, project.description),
    ] + project.extra
}

/// The project that a record's fields describe. The record is malformed
/// when a known field is missing or is no text.
pub open spec fn project_of_fields(fields: Seq<FieldView>) -> Result<ProjectView, StoreError> {
    match (text_at(fields, "id"@), text_at(fields, "name"@), text_at(fields, "description"@)) {
        (Some(id), Some(name), Some(description)) => Ok(
            ProjectView {
                id,
                name,
                description,
                extra: unknown_fields(fields, RecordKind::Project),
            },
        ),
        _ => Err(StoreError::MalformedRecord),
    }
}

/// The ticket that a record's text decodes to, or the failure.
pub open spec fn decoded_ticket(text: Seq<char>) -> Result<TicketView, StoreError> {
    match toml_parsed(text) {
        Some(fields) => ticket_of_fields(fields),
        None => Err(StoreError::MalformedRecord),
    }
}

/// The project that a record's text decodes to, or the failure.
pub open spec fn decoded_project(text: Seq<char>) -> Result<ProjectView, StoreError> {
    match toml_parsed(text) {
        Some(fields) => project_of_fields(fields),
        None => Err(StoreError::MalformedRecord),
    }
}

/// The record text of a ticket. An ill-formed ticket has none, nor one whose
/// fields the TOML writer declines.
pub open spec fn encoded_ticket(ticket: TicketView) -> Result<Seq<char>, StoreError> {
    if !ticket.wf() {
        Err(StoreError::MalformedRecord)
    } else {
        match toml_rendered(ticket_fields(ticket)) {
            Some(text) => Ok(text),
            None => Err(StoreError::MalformedRecord),
        }
    }
}

/// The record text of a project. An ill-formed project has none, nor one
/// whose fields the TOML writer declines.
pub open spec fn encoded_project(project: ProjectView) -> Result<Seq<char>, StoreError> {
    if !project.wf() {
        Err(StoreError::MalformedRecord)
    } else {
        match toml_rendered(project_fields(project)) {
            Some(text) => Ok(text),
            None => Err(StoreError::MalformedRecord),
        }
    }
}

/// Whether `key` names a field that every record of the kind has.
pub fn known_key(kind: RecordKind, key: &str) -> (known: bool)
    ensures
        known == is_known_key(kind, key@),
{
    match kind {
        RecordKind::Ticket => same_text(key, "id") || same_text(key, "title") || same_text(
            key,
            "description",
        ) || same_text(key, "status") || same_text(key, "type") || same_text(key, "project"),
        RecordKind::Project => same_text(key, "id") || same_text(key, "name") || same_text(
            key,
            "description",
        ),
    }
}

/// The text of the first field named `key`, if that field holds a text.
pub fn text_of(fields: &Vec<Field>, key: &str) -> (text: Option<String>)
    ensures
        match text_at(views(fields@), key@) {
            Some(expected) => text matches Some(found) && found@ == expected,
            None => text is None,
        },
{
    match find_field(fields, key) {
        Some(i) => match &fields[i].value {
            FieldValue::Text(text) => Some(text.clone()),
            _ => None,
        },
        None => None,
    }
}

/// The entries of the table that the first field named `key` holds, if that
/// field holds a table.
pub fn table_of(fields: &Vec<Field>, key: &str) -> (entries: Option<Vec<Field>>)
    ensures
        match table_at(views(fields@), key@) {
            Some(expected) => entries matches Some(found) && views(found@) == expected,
            None => entries is None,
        },
{
    match find_field(fields, key) {
        Some(i) => match &fields[i].value {
            FieldValue::Table(table) => Some(fields_of_table(table)),
            _ => None,
        },
        None => None,
    }
}

/// Copies out the fields that are not known fields of the kind, in order.
pub fn extra_of(fields: &Vec<Field>, kind: RecordKind) -> (extra: Vec<Field>)
    ensures
        views(extra@) == unknown_fields(views(fields@), kind),
{
    let mut extra: Vec<Field> = Vec::new();
    let mut i: usize = 0;
    assert(views(fields@).take(0) =~= Seq::<FieldView>::empty());
    while i < fields.len()
        invariant
            i <= fields.len(),
            views(extra@) == unknown_fields(views(fields@).take(i as int), kind),
        decreases fields.len() - i,
    {
        proof {
            let seen = views(fields@).take(i as int);
            let next = views(fields@).take(i + 1);
            assert(next.drop_last() =~= seen);
            assert(next.last() == fields[i as int]@);
            reveal(Seq::filter);
        }
        let ghost before = views(extra@);
        if !known_key(kind, fields[i].key.as_str()) {
            extra.push(fields[i].clone());
            assert(views(extra@) =~= before.push(fields[i as int]@));
        }
        i += 1;
    }
    assert(views(fields@).take(i as int) =~= views(fields@));
    extra
}

/// Whether a list of extra fields can stand beside the known fields of a
/// record of the kind.
pub fn check_extra(extra: &Vec<Field>, kind: RecordKind) -> (fits: bool)
    ensures
        fits == extra_fits(views(extra@), kind),
{
    let mut i: usize = 0;
    while i < extra.len()
        invariant
            i <= extra.len(),
            extra_fits(views(extra@).take(i as int), kind),
        decreases extra.len() - i,
    {
        if known_key(kind, extra[i].key.as_str()) {
            assert(views(extra@)[i as int].key == extra[i as int].key@);
            return false;
        }
        let mut j: usize = 0;
        while j < i
            invariant
                j <= i,
                i < extra.len(),
                forall|k: int| 0 <= k < j ==> extra[k].key@ != extra[i as int].key@,
            decreases i - j,
        {
            if same_text(extra[j].key.as_str(), extra[i].key.as_str()) {
                assert(views(extra@)[j as int].key == views(extra@)[i as int].key);
                return false;
            }
            j += 1;
        }
        assert(extra_fits(views(extra@).take(i + 1), kind)) by {
            let next = views(extra@).take(i + 1);
            let seen = views(extra@).take(i as int);
            assert forall|a: int, b: int| 0 <= a < b < next.len() implies (#[trigger] next[a]).key
                != (#[trigger] next[b]).key by {
                if b < i {
                    assert(seen[a] == next[a] && seen[b] == next[b]);
                }
            }
            assert forall|a: int| 0 <= a < next.len() implies !is_known_key(
                kind,
                #[trigger] next[a].key,
            ) by {
                if a < i {
                    assert(seen[a] == next[a]);
                }
            }
        }
        i += 1;
    }
    assert(views(extra@).take(i as int) =~= views(extra@));
    true
}

impl Ticket {
    /// Builds the ticket that a record's fields describe.
    pub fn from_fields(fields: &Vec<Field>) -> (outcome: Result<Ticket, StoreError>)
        ensures
            match ticket_of_fields(views(fields@)) {
                Ok(expected) => outcome matches Ok(ticket) && ticket@ == expected,
                Err(error) => outcome matches Err(found) && found == error,
            },
    {
        let id = text_of(fields, "id");
        let title = text_of(fields, "title");
        let description = text_of(fields, "description");
        let status = text_of(fields, "status");
        let kind = text_of(fields, "type");
        let project = table_of(fields, "project");
        match (id, title, description, status, kind, project) {
            (Some(id), Some(title), Some(description), Some(status), Some(kind), Some(project)) => {
                let status = TicketStatus::from_name(status.as_str());
                let ticket_type = TicketType::from_name(kind.as_str());
                let project = text_of(&project, "id");
                match (status, ticket_type, project) {
                    (Some(status), Some(ticket_type), Some(project)) => Ok(
                        Ticket {
                            id: TicketId(id),
                            title,
                            description,
                            status,
                            ticket_type,
                            project: ProjectStub { id: ProjectId(project) },
                            extra: extra_of(fields, RecordKind::Ticket),
                        },
                    ),
                    _ => Err(StoreError::MalformedRecord),
                }
            },
            _ => Err(StoreError::MalformedRecord),
        }
    }

    /// Lists the fields of the ticket's record.
    pub fn to_fields(&self) -> (fields: Vec<Field>)
        ensures
            views(fields@) == ticket_fields(self@),
    {
        let mut fields: Vec<Field> = Vec::new();
        fields.push(Field { key: String::from_str("id"), value: FieldValue::Text(self.id.0.clone()) });
        fields.push(
            Field { key: String::from_str("title"), value: FieldValue::Text(self.title.clone()) },
        );
        fields.push(
            Field {
                key: String::from_str("description"),
                value: FieldValue::Text(self.description.clone()),
            },
        );
        fields.push(
            Field {
                key: String::from_str("status"),
                value: FieldValue::Text(String::from_str(self.status.name())),
            },
        );
        fields.push(
            Field {
                key: String::from_str("type"),
                value: FieldValue::Text(String::from_str(self.ticket_type.name())),
            },
        );
        fields.push(
            Field {
                key: String::from_str("project"),
                value: FieldValue::Table(
                    table_of_text(String::from_str("id"), self.project.id.0.clone()),
                ),
            },
        );
        append_fields(&mut fields, &self.extra);
        assert(views(fields@) =~= ticket_fields(self@));
        fields
    }
}

impl Project {
    /// Builds the project that a record's fields describe.
    pub fn from_fields(fields: &Vec<Field>) -> (outcome: Result<Project, StoreError>)
        ensures
            match project_of_fields(views(fields@)) {
                Ok(expected) => outcome matches Ok(project) && project@ == expected,
                Err(error) => outcome matches Err(found) && found == error,
            },
    {
        let id = text_of(fields, "id");
        let name = text_of(fields, "name");
        let description = text_of(fields, "description");
        match (id, name, description) {
            (Some(id), Some(name), Some(description)) => Ok(
                Project {
                    id: ProjectId(id),
                    name,
                    description,
                    extra: extra_of(fields, RecordKind::Project),
                },
            ),
            _ => Err(StoreError::MalformedRecord),
        }
    }

    /// Lists the fields of the project's record.
    pub fn to_fields(&self) -> (fields: Vec<Field>)
        ensures
            views(fields@) == project_fields(self@),
    {
        let mut fields: Vec<Field> = Vec::new();
        fields.push(Field { key: String::from_str("id"), value: FieldValue::Text(self.id.0.clone()) });
        fields.push(
            Field { key: String::from_str("name"), value: FieldValue::Text(self.name.clone()) },
        );
        fields.push(
            Field {
                key: String::from_str("description"),
                value: FieldValue::Text(self.description.clone()),
            },
        );
        append_fields(&mut fields, &self.extra);
        assert(views(fields@) =~= project_fields(self@));
        fields
    }
}

/// Appends copies of `more` to `fields`, in order.
pub fn append_fields(fields: &mut Vec<Field>, more: &Vec<Field>)
    ensures
        final(fields)@ == old(fields)@ + more@,
{
    let mut i: usize = 0;
    while i < more.len()
        invariant
            i <= more.len(),
            fields@ == old(fields)@ + more@.take(i as int),
        decreases more.len() - i,
    {
        fields.push(more[i].clone());
        assert(more@.take(i + 1) =~= more@.take(i as int).push(more[i as int]));
        i += 1;
    }
    assert(more@.take(i as int) =~= more@);
}

/// Reads a ticket from the text of its record.
pub fn decode_ticket(text: &str) -> (outcome: Result<Ticket, StoreError>)
    ensures
        match decoded_ticket(text@) {
            Ok(expected) => outcome matches Ok(ticket) && ticket@ == expected,
            Err(error) => outcome matches Err(found) && found == error,
        },
        outcome matches Ok(ticket) ==> ticket@.wf(),
{
    match parse_fields(text) {
        Some(fields) => {
            proof {
                lemma_unknown_fields_fit(views(fields@), RecordKind::Ticket);
            }
            Ticket::from_fields(&fields)
        },
        None => Err(StoreError::MalformedRecord),
    }
}

/// Reads a project from the text of its record.
pub fn decode_project(text: &str) -> (outcome: Result<Project, StoreError>)
    ensures
        match decoded_project(text@) {
            Ok(expected) => outcome matches Ok(project) && project@ == expected,
            Err(error) => outcome matches Err(found) && found == error,
        },
        outcome matches Ok(project) ==> project@.wf(),
{
    match parse_fields(text) {
        Some(fields) => {
            proof {
                lemma_unknown_fields_fit(views(fields@), RecordKind::Project);
            }
            Project::from_fields(&fields)
        },
        None => Err(StoreError::MalformedRecord),
    }
}

/// Writes the text of a ticket's record.
pub fn encode_ticket(ticket: &Ticket) -> (outcome: Result<String, StoreError>)
    ensures
        match encoded_ticket(ticket@) {
            Ok(expected) => outcome matches Ok(text) && text@ == expected,
            Err(error) => outcome matches Err(found) && found == error,
        },
{
    if !check_extra(&ticket.extra, RecordKind::Ticket) {
        return Err(StoreError::MalformedRecord);
    }
    let fields = ticket.to_fields();
    match render_fields(&fields) {
        Some(text) => Ok(text),
        None => Err(StoreError::MalformedRecord),
    }
}

/// Writes the text of a project's record.
pub fn encode_project(project: &Project) -> (outcome: Result<String, StoreError>)
    ensures
        match encoded_project(project@) {
            Ok(expected) => outcome matches Ok(text) && text@ == expected,
            Err(error) => outcome matches Err(found) && found == error,
        },
{
    if !check_extra(&project.extra, RecordKind::Project) {
        return Err(StoreError::MalformedRecord);
    }
    let fields = project.to_fields();
    match render_fields(&fields) {
        Some(text) => Ok(text),
        None => Err(StoreError::MalformedRecord),
    }
}

/// What is left of fields with distinct names, once the known fields are
/// taken out, can stand as extra fields.
pub proof fn lemma_unknown_fields_fit(fields: Seq<FieldView>, kind: RecordKind)
    requires
        distinct_keys(fields),
    ensures
        extra_fits(unknown_fields(fields, kind), kind),
        forall|i: int|
            0 <= i < unknown_fields(fields, kind).len() ==> fields.contains(
                #[trigger] unknown_fields(fields, kind)[i],
            ),
    decreases fields.len(),
{
    reveal(Seq::filter);
    if fields.len() > 0 {
        let front = fields.drop_last();
        let last = fields.last();
        lemma_unknown_fields_fit(front, kind);
        let kept = unknown_fields(front, kind);
        let all = unknown_fields(fields, kind);
        assert forall|i: int| 0 <= i < all.len() implies fields.contains(#[trigger] all[i]) by {
            if i < kept.len() {
                assert(front.contains(kept[i]));
                let k = choose|k: int| 0 <= k < front.len() && front[k] == kept[i];
                assert(fields[k] == kept[i]);
            } else {
                assert(fields[fields.len() - 1] == last);
            }
        }
        assert forall|a: int, b: int| 0 <= a < b < all.len() implies (#[trigger] all[a]).key != (
        #[trigger] all[b]).key by {
            if b == kept.len() {
                assert(front.contains(kept[a]));
                let k = choose|k: int| 0 <= k < front.len() && front[k] == kept[a];
                assert(fields[k].key != fields[fields.len() - 1].key);
            }
        }
    }
}

/// A field is found by its name where no field before it carries the name.
pub proof fn lemma_lookup_at(fields: Seq<FieldView>, i: int, key: Seq<char>)
    requires
        0 <= i < fields.len(),
        fields[i].key == key,
        forall|j: int| 0 <= j < i ==> fields[j].key != key,
    ensures
        lookup(fields, key) == Some(fields[i].value),
    decreases i,
{
    if i > 0 {
        let rest = fields.drop_first();
        assert(rest[i - 1] == fields[i]);
        assert forall|j: int| 0 <= j < i - 1 implies rest[j].key != key by {
            assert(rest[j] == fields[j + 1]);
        }
        lemma_lookup_at(rest, i - 1, key);
    }
}

/// How one more field at the end changes what is left once the known
/// fields are taken out.
pub proof fn lemma_unknown_fields_push(fields: Seq<FieldView>, field: FieldView, kind: RecordKind)
    ensures
        unknown_fields(fields.push(field), kind) == if is_known_key(kind, field.key) {
            unknown_fields(fields, kind)
        } else {
            unknown_fields(fields, kind).push(field)
        },
{
    reveal(Seq::filter);
    assert(fields.push(field).drop_last() =~= fields);
}

/// Nothing is left of known fields once the known fields are taken out.
pub proof fn lemma_unknown_fields_of_known(known: Seq<FieldView>, kind: RecordKind)
    requires
        forall|i: int| 0 <= i < known.len() ==> is_known_key(kind, #[trigger] known[i].key),
    ensures
        unknown_fields(known, kind) == Seq::<FieldView>::empty(),
    decreases known.len(),
{
    if known.len() > 0 {
        let front = known.drop_last();
        let last = known.last();
        assert(is_known_key(kind, known[known.len() - 1].key));
        assert forall|i: int| 0 <= i < front.len() implies is_known_key(
            kind,
            #[trigger] front[i].key,
        ) by {
            assert(front[i] == known[i]);
        }
        lemma_unknown_fields_of_known(front, kind);
        lemma_unknown_fields_push(front, last, kind);
        assert(known =~= front.push(last));
    } else {
        reveal(Seq::filter);
    }
}

/// Taking the known fields out of a record that ends in extra fields leaves
/// those extra fields at the end.
pub proof fn lemma_unknown_fields_keep_extra(
    front: Seq<FieldView>,
    extra: Seq<FieldView>,
    kind: RecordKind,
)
    requires
        forall|i: int| 0 <= i < extra.len() ==> !is_known_key(kind, #[trigger] extra[i].key),
    ensures
        unknown_fields(front + extra, kind) == unknown_fields(front, kind) + extra,
    decreases extra.len(),
{
    if extra.len() > 0 {
        let most = extra.drop_last();
        let last = extra.last();
        assert(!is_known_key(kind, extra[extra.len() - 1].key));
        assert forall|i: int| 0 <= i < most.len() implies !is_known_key(
            kind,
            #[trigger] most[i].key,
        ) by {
            assert(most[i] == extra[i]);
        }
        lemma_unknown_fields_keep_extra(front, most, kind);
        lemma_unknown_fields_push(front + most, last, kind);
        assert(front + extra =~= (front + most).push(last));
        assert(unknown_fields(front, kind) + extra =~= (unknown_fields(front, kind) + most).push(
            last,
        ));
    } else {
        assert(front + extra =~= front);
        assert(unknown_fields(front, kind) + extra =~= unknown_fields(front, kind));
    }
}

/// Taking the known fields out of known fields followed by extra fields
/// leaves the extra fields.
pub proof fn lemma_unknown_fields_of_record(
    known: Seq<FieldView>,
    extra: Seq<FieldView>,
    kind: RecordKind,
)
    requires
        forall|i: int| 0 <= i < known.len() ==> is_known_key(kind, #[trigger] known[i].key),
        forall|i: int| 0 <= i < extra.len() ==> !is_known_key(kind, #[trigger] extra[i].key),
    ensures
        unknown_fields(known + extra, kind) == extra,
{
    lemma_unknown_fields_of_known(known, kind);
    lemma_unknown_fields_keep_extra(known, extra, kind);
    assert(Seq::<FieldView>::empty() + extra =~= extra);
}

/// The names of the known fields are six different texts.
pub proof fn lemma_known_keys_differ()
    ensures
        "id"@.len() == 2,
        "type"@.len() == 4,
        "name"@.len() == 4,
        "title"@.len() == 5,
        "status"@.len() == 6,
        "project"@.len() == 7,
        "description"@.len() == 11,
        "name"@ != "type"@,
{
    reveal_strlit("id");
    reveal_strlit("type");
    reveal_strlit("name");
    reveal_strlit("title");
    reveal_strlit("status");
    reveal_strlit("project");
    reveal_strlit("description");
    assert("name"@[0] == 'n' && "type"@[0] == 't');
}

/// Round trip of a ticket through its fields: reading the fields written for
/// a well-formed ticket gives back that ticket, every extra field included,
/// in its place and with its value.
pub proof fn law_ticket_round_trip(ticket: TicketView)
    requires
        ticket.wf(),
    ensures
        ticket_of_fields(ticket_fields(ticket)) == Ok::<TicketView, StoreError>(ticket),
{
    lemma_known_keys_differ();
    lemma_status_name_read_back(ticket.status);
    lemma_type_name_read_back(ticket.ticket_type);
    let stub = seq![text_field("id"@, ticket.project)];
    let known = seq![
        text_field("id"@, ticket.id),
        text_field("title"@, ticket.title),
        text_field("description"@, ticket.description),
        text_field("status"@, ticket.status.name_spec()),
        text_field("type"@, ticket.ticket_type.name_spec()),
        FieldView { key: "project"@, value: ValueView::Table(stub) },
    ];
    let fields = ticket_fields(ticket);
    assert(fields =~= known + ticket.extra);
    assert(fields[0] == known[0] && fields[1] == known[1] && fields[2] == known[2]);
    assert(fields[3] == known[3] && fields[4] == known[4] && fields[5] == known[5]);
    lemma_lookup_at(fields, 0, "id"@);
    lemma_lookup_at(fields, 1, "title"@);
    lemma_lookup_at(fields, 2, "description"@);
    lemma_lookup_at(fields, 3, "status"@);
    lemma_lookup_at(fields, 4, "type"@);
    lemma_lookup_at(fields, 5, "project"@);
    lemma_lookup_at(stub, 0, "id"@);
    lemma_unknown_fields_of_record(known, ticket.extra, RecordKind::Ticket);
}

/// Round trip of a project through its fields: reading the fields written
/// for a well-formed project gives back that project, every extra field
/// included, in its place and with its value.
pub proof fn law_project_round_trip(project: ProjectView)
    requires
        project.wf(),
    ensures
        project_of_fields(project_fields(project)) == Ok::<ProjectView, StoreError>(project),
{
    lemma_known_keys_differ();
    let known = seq![
        text_field("id"@, project.id),
        text_field("name"@, project.name),
        text_field("description"@, project.description),
    ];
    let fields = project_fields(project);
    assert(fields =~= known + project.extra);
    assert(fields[0] == known[0] && fields[1] == known[1] && fields[2] == known[2]);
    lemma_lookup_at(fields, 0, "id"@);
    lemma_lookup_at(fields, 1, "name"@);
    lemma_lookup_at(fields, 2, "description"@);
    lemma_unknown_fields_of_record(known, project.extra, RecordKind::Project);
}

/// Round trip of a ticket through its text, as far as it rests on this
/// library: where the TOML reader gives back the fields that the TOML writer
/// was handed, decoding the encoded text gives back the ticket.
pub proof fn law_ticket_text_round_trip(ticket: TicketView, text: Seq<char>)
    requires
        encoded_ticket(ticket) == Ok::<Seq<char>, StoreError>(text),
        toml_parsed(text) == Some(ticket_fields(ticket)),
    ensures
        decoded_ticket(text) == Ok::<TicketView, StoreError>(ticket),
{
    law_ticket_round_trip(ticket);
}

/// Round trip of a project through its text, as far as it rests on this
/// library: where the TOML reader gives back the fields that the TOML writer
/// was handed, decoding the encoded text gives back the project.
pub proof fn law_project_text_round_trip(project: ProjectView, text: Seq<char>)
    requires
        encoded_project(project) == Ok::<Seq<char>, StoreError>(text),
        toml_parsed(text) == Some(project_fields(project)),
    ensures
        decoded_project(text) == Ok::<ProjectView, StoreError>(project),
{
    law_project_round_trip(project);
}

} // verus!
