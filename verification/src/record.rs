//! Records as ordered lists of named fields, and their TOML text.
//!
//! A record file holds one TOML document. The tracker reads only two kinds
//! of value in it, texts and tables; every other value is carried through
//! untouched as the `toml` crate's own value. Turning text into fields and
//! fields into text is the work of the `toml` crate; what the tracker knows
//! of it is stated on the items marked `external_body` below.

use vstd::prelude::*;
use crate::text::{rank_text, Rank};

verus! {

/// The `toml` crate's table, an insertion-ordered map from keys to values.
#[verifier::external_type_specification]
#[verifier::external_body]
#[verifier::reject_recursive_types(K)]
#[verifier::reject_recursive_types(V)]
pub struct ExTomlMap<K, V>(toml::map::Map<K, V>);

/// The `toml` crate's value.
#[verifier::external_type_specification]
#[verifier::external_body]
pub struct ExTomlValue(toml::Value);

/// The `toml` crate's error for a document that cannot be read.
#[verifier::external_type_specification]
#[verifier::external_body]
pub struct ExTomlReadError(toml::de::Error);

/// The `toml` crate's error for a document that cannot be written.
#[verifier::external_type_specification]
#[verifier::external_body]
pub struct ExTomlWriteError(toml::ser::Error);

/// `Clone` of `toml::Value`, which the crate derives: the copy is the same
/// value.
pub assume_specification[ <toml::Value as Clone>::clone ](value: &toml::Value) -> (copy:
    toml::Value)
    ensures
        copy == *value,
;

/// `Clone` of `toml::map::Map`, which clones the map inside: the copy is the
/// same table.
pub assume_specification[ <toml::map::Map<String, toml::Value> as Clone>::clone ](
    table: &toml::map::Map<String, toml::Value>,
) -> (copy: toml::map::Map<String, toml::Value>)
    ensures
        copy == *table,
;

/// What a field of a record holds.
#[derive(Debug)]
pub enum FieldValue {
    /// A TOML string.
    Text(String),
    /// A TOML table.
    Table(toml::Table),
    /// Any other TOML value: a number, a boolean, a date, an array. Reading
    /// a document never puts a string or a table here; one placed here by
    /// hand is not read as a text or a table.
    Other(toml::Value),
}

/// One named entry of a record.
#[derive(Debug)]
pub struct Field {
    pub key: String,
    pub value: FieldValue,
}

/// The mathematical content of a `FieldValue`.
pub enum ValueView {
    Text(Seq<char>),
    Table(Seq<FieldView>),
    Other(toml::Value),
}

/// The mathematical content of a `Field`.
pub struct FieldView {
    pub key: Seq<char>,
    pub value: ValueView,
}

/// The entries of a `toml` table, in the table's own order: a string as
/// `Text`, a table as `Table` with its own entries, any other value as
/// `Other`.
pub uninterp spec fn table_entries(table: toml::map::Map<String, toml::Value>) -> Seq<FieldView>;

/// The entries of the TOML document that `text` holds, in the order in which
/// the text gives them; `None` when the text is no TOML document.
pub uninterp spec fn toml_parsed(text: Seq<char>) -> Option<Seq<FieldView>>;

/// The TOML text of the document with the given entries; `None` when the
/// `toml` crate declines to write it.
pub uninterp spec fn toml_rendered(fields: Seq<FieldView>) -> Option<Seq<char>>;

impl View for FieldValue {
    type V = ValueView;

    open spec fn view(&self) -> ValueView {
        match *self {
            FieldValue::Text(text) => ValueView::Text(text@),
            FieldValue::Table(table) => ValueView::Table(table_entries(table)),
            FieldValue::Other(value) => ValueView::Other(value),
        }
    }
}

impl View for Field {
    type V = FieldView;

    open spec fn view(&self) -> FieldView {
        FieldView { key: self.key@, value: self.value@ }
    }
}

impl Clone for FieldValue {
    fn clone(&self) -> (copy: Self)
        ensures
            copy == *self,
    {
        match self {
            FieldValue::Text(text) => FieldValue::Text(text.clone()),
            FieldValue::Table(table) => FieldValue::Table(table.clone()),
            FieldValue::Other(value) => FieldValue::Other(value.clone()),
        }
    }
}

impl Clone for Field {
    fn clone(&self) -> (copy: Self)
        ensures
            copy == *self,
    {
        Field { key: self.key.clone(), value: self.value.clone() }
    }
}

/// The contents of a list of fields.
pub open spec fn views(fields: Seq<Field>) -> Seq<FieldView> {
    Seq::new(fields.len(), |i: int| fields[i]@)
}

/// Whether no key occurs twice in a list of fields.
pub open spec fn distinct_keys(fields: Seq<FieldView>) -> bool {
    forall|i: int, j: int|
        0 <= i < j < fields.len() ==> (#[trigger] fields[i]).key != (#[trigger] fields[j]).key
}

/// The value of the first field named `key`, if there is one.
pub open spec fn lookup(fields: Seq<FieldView>, key: Seq<char>) -> Option<ValueView>
    decreases fields.len(),
{
    if fields.len() == 0 {
        None
    } else if fields[0].key == key {
        Some(fields[0].value)
    } else {
        lookup(fields.drop_first(), key)
    }
}

/// The text of the first field named `key`; `None` when there is no such
/// field or it holds something other than a text.
pub open spec fn text_at(fields: Seq<FieldView>, key: Seq<char>) -> Option<Seq<char>> {
    match lookup(fields, key) {
        Some(ValueView::Text(text)) => Some(text),
        _ => None,
    }
}

/// The entries of the table that the first field named `key` holds; `None`
/// when there is no such field or it holds something other than a table.
pub open spec fn table_at(fields: Seq<FieldView>, key: Seq<char>) -> Option<Seq<FieldView>> {
    match lookup(fields, key) {
        Some(ValueView::Table(entries)) => Some(entries),
        _ => None,
    }
}

/// Reads a TOML document, by `toml::from_str` for a `toml::Table`. Believed
/// of it: whether the text is accepted, and with what entries, is fixed by
/// the text alone.
#[verifier::external_body]
pub(crate) fn read_toml(text: &str) -> (read: Result<toml::Table, toml::de::Error>)
    ensures
        match read {
            Ok(table) => toml_parsed(text@) == Some(table_entries(table)),
            Err(_) => toml_parsed(text@) is None,
        },
{
    toml::from_str(text)
}

/// Lists the entries of a `toml` table, in the table's order, through the
/// `IntoIterator` of a copy of it. Each entry is moved over: a string
/// becomes `Text`, a table `Table`, anything else `Other`. Believed of it:
/// these are the table's entries, and no key occurs twice among them.
#[verifier::external_body]
pub(crate) fn fields_of_table(table: &toml::Table) -> (fields: Vec<Field>)
    ensures
        views(fields@) == table_entries(*table),
        distinct_keys(views(fields@)),
{
    table.clone().into_iter().map(
        |(key, value)|
            Field {
                key,
                value: match value {
                    toml::Value::String(text) => FieldValue::Text(text),
                    toml::Value::Table(inner) => FieldValue::Table(inner),
                    other => FieldValue::Other(other),
                },
            },
    ).collect()
}

/// Writes fields as a TOML document. Collects them into a `toml::Table`, in
/// their order, and calls `toml::to_string` on it. Believed of it: whether a
/// text comes out, and which, is fixed by the fields alone.
#[verifier::external_body]
pub(crate) fn write_toml(fields: &Vec<Field>) -> (written: Result<String, toml::ser::Error>)
    ensures
        match written {
            Ok(text) => toml_rendered(views(fields@)) == Some(text@),
            Err(_) => toml_rendered(views(fields@)) is None,
        },
{
    let table: toml::Table = fields.iter().map(
        |field|
            (
                field.key.clone(),
                match &field.value {
                    FieldValue::Text(text) => toml::Value::String(text.clone()),
                    FieldValue::Table(inner) => toml::Value::Table(inner.clone()),
                    FieldValue::Other(other) => other.clone(),
                },
            ),
    ).collect();
    toml::to_string(&table)
}

/// Makes the `toml` table with the single entry `key = text`, by
/// `Map::new` and `Map::insert`.
#[verifier::external_body]
pub(crate) fn table_of_text(key: String, text: String) -> (table: toml::Table)
    ensures
        table_entries(table) == seq![FieldView { key: key@, value: ValueView::Text(text@) }],
{
    let mut table = toml::Table::new();
    table.insert(key, toml::Value::String(text));
    table
}

/// Reads the fields of a TOML document, in the document's order; `None`
/// when the text is no TOML document.
pub fn parse_fields(text: &str) -> (parsed: Option<Vec<Field>>)
    ensures
        match toml_parsed(text@) {
            Some(fields) => parsed matches Some(found) && views(found@) == fields
                && distinct_keys(fields),
            None => parsed is None,
        },
{
    match read_toml(text) {
        Ok(table) => Some(fields_of_table(&table)),
        Err(_) => None,
    }
}

/// Writes fields as the text of a TOML document; `None` when the TOML
/// writer declines them.
pub fn render_fields(fields: &Vec<Field>) -> (rendered: Option<String>)
    ensures
        match toml_rendered(views(fields@)) {
            Some(text) => rendered matches Some(found) && found@ == text,
            None => rendered is None,
        },
{
    match write_toml(fields) {
        Ok(text) => Some(text),
        Err(_) => None,
    }
}

/// Whether two texts are the same.
pub fn same_text(a: &str, b: &str) -> (same: bool)
    ensures
        same == (a@ == b@),
{
    rank_text(a, b) == Rank::Same
}

/// The position of the first field named `key`, if there is one.
pub fn find_field(fields: &Vec<Field>, key: &str) -> (found: Option<usize>)
    ensures
        match found {
            Some(i) => i < fields.len() && fields[i as int].key@ == key@ && lookup(
                views(fields@),
                key@,
            ) == Some(fields[i as int].value@) && forall|j: int|
                0 <= j < i ==> fields[j].key@ != key@,
            None => lookup(views(fields@), key@) is None && forall|j: int|
                0 <= j < fields.len() ==> fields[j].key@ != key@,
        },
{
    let mut i: usize = 0;
    assert(views(fields@).skip(0) =~= views(fields@));
    while i < fields.len()
        invariant
            i <= fields.len(),
            lookup(views(fields@), key@) == lookup(views(fields@).skip(i as int), key@),
            forall|j: int| 0 <= j < i ==> fields[j].key@ != key@,
        decreases fields.len() - i,
    {
        proof {
            let rest = views(fields@).skip(i as int);
            assert(rest[0] == fields[i as int]@);
            assert(rest.drop_first() =~= views(fields@).skip(i + 1));
        }
        if same_text(fields[i].key.as_str(), key) {
            return Some(i);
        }
        i += 1;
    }
    assert(views(fields@).skip(i as int).len() == 0);
    None
}

} // verus!
