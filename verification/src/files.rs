//! Record files: one file per record, named after the record's identifier,
//! in the directory of the record's kind.

use vstd::prelude::*;
use vstd::string::*;
use crate::codec::{encode_project, encode_ticket, encoded_project, encoded_ticket};
use crate::error::StoreError;
use crate::ident::RecordKind;
use crate::project::Project;
use crate::text::chars_of;
use crate::ticket::Ticket;

verus! {

impl RecordKind {
    /// The name of the directory that holds the records of this kind.
    pub open spec fn directory_spec(self) -> Seq<char> {
        match self {
            RecordKind::Ticket => "tickets"@,
            RecordKind::Project => "projects"@,
        }
    }

    /// The name of the directory, under the base directory, that holds the
    /// records of this kind.
    pub fn directory(self) -> (name: &'static str)
        ensures
            name@ == self.directory_spec(),
    {
        match self {
            RecordKind::Ticket => "tickets",
            RecordKind::Project => "projects",
        }
    }
}

/// The name of the file of the record with the given identifier.
pub open spec fn file_name_of(stub: Seq<char>) -> Seq<char> {
    stub + ".toml"@
}

/// Whether a file of this name is read as a record: the name ends in
/// `.toml` and has at least one character before that.
pub open spec fn is_record_file_name(name: Seq<char>) -> bool {
    name.len() > 5 && name.subrange(name.len() - 5, name.len() as int) == ".toml"@
}

/// The name of the file of the record with the given identifier.
pub fn record_file_name(stub: &str) -> (name: String)
    ensures
        name@ == file_name_of(stub@),
{
    let mut name = String::from_str(stub);
    name.append(".toml");
    name
}

/// Whether a file of this name is read as a record.
pub fn is_record_file(name: &str) -> (is_record: bool)
    ensures
        is_record == is_record_file_name(name@),
{
    let chars = chars_of(name);
    let n = chars.len();
    proof {
        reveal_strlit(".toml");
    }
    if n <= 5 {
        return false;
    }
    let matches = chars[n - 5] == '.' && chars[n - 4] == 't' && chars[n - 3] == 'o' && chars[n
        - 2] == 'm' && chars[n - 1] == 'l';
    proof {
        let tail = name@.subrange(n - 5, n as int);
        assert(tail.len() == 5);
        assert(tail[0] == chars[n - 5] && tail[1] == chars[n - 4] && tail[2] == chars[n - 3]
            && tail[3] == chars[n - 2] && tail[4] == chars[n - 1]);
        if matches {
            assert(tail =~= ".toml"@);
        }
    }
    matches
}

/// A record file that is to be written: where, under what name, and with
/// what text. Writing it replaces whatever file of that name is there.
#[derive(Debug)]
pub struct RecordFile {
    /// The kind of the record, which names the directory.
    pub kind: RecordKind,
    /// The name of the file in that directory.
    pub name: String,
    /// The whole text of the file.
    pub text: String,
}

/// A record that can be written to the store.
pub trait IRDBWritableObject {
    /// The identifier that names the record's file.
    spec fn stub_spec(&self) -> Seq<char>;

    /// The kind of the record, which names its directory.
    spec fn kind_spec(&self) -> RecordKind;

    /// The text of the record's file, or why there is none.
    spec fn encoded_spec(&self) -> Result<Seq<char>, StoreError>;

    /// The identifier that names the record's file.
    fn fmt_stub(&self) -> (stub: String)
        ensures
            stub@ == self.stub_spec(),
    ;

    /// The kind of the record, which names its directory.
    fn select_path(&self) -> (kind: RecordKind)
        ensures
            kind == self.kind_spec(),
    ;

    /// Writes the text of the record's file.
    fn encode(&self) -> (outcome: Result<String, StoreError>)
        ensures
            match self.encoded_spec() {
                Ok(expected) => outcome matches Ok(text) && text@ == expected,
                Err(error) => outcome matches Err(found) && found == error,
            },
    ;
}

impl IRDBWritableObject for Ticket {
    open spec fn stub_spec(&self) -> Seq<char> {
        self.id@
    }

    open spec fn kind_spec(&self) -> RecordKind {
        RecordKind::Ticket
    }

    open spec fn encoded_spec(&self) -> Result<Seq<char>, StoreError> {
        encoded_ticket(self@)
    }

    fn fmt_stub(&self) -> (stub: String) {
        self.id.0.clone()
    }

    fn select_path(&self) -> (kind: RecordKind) {
        RecordKind::Ticket
    }

    fn encode(&self) -> (outcome: Result<String, StoreError>) {
        encode_ticket(self)
    }
}

impl IRDBWritableObject for Project {
    open spec fn stub_spec(&self) -> Seq<char> {
        self.id@
    }

    open spec fn kind_spec(&self) -> RecordKind {
        RecordKind::Project
    }

    open spec fn encoded_spec(&self) -> Result<Seq<char>, StoreError> {
        encoded_project(self@)
    }

    fn fmt_stub(&self) -> (stub: String) {
        self.id.0.clone()
    }

    fn select_path(&self) -> (kind: RecordKind) {
        RecordKind::Project
    }

    fn encode(&self) -> (outcome: Result<String, StoreError>) {
        encode_project(self)
    }
}

/// Prepares the file that saves a record: its text, its name after the
/// record's identifier, and its directory after the record's kind. Fails,
/// with nothing to write, where the record has no text.
pub fn verify_and_write<T: IRDBWritableObject>(item: &T) -> (outcome: Result<
    RecordFile,
    StoreError,
>)
    ensures
        match item.encoded_spec() {
            Ok(text) => outcome matches Ok(file) && file.kind == item.kind_spec() && file.name@
                == file_name_of(item.stub_spec()) && file.text@ == text,
            Err(error) => outcome matches Err(found) && found == error,
        },
{
    let text = match item.encode() {
        Ok(text) => text,
        Err(error) => {
            return Err(error);
        },
    };
    let stub = item.fmt_stub();
    Ok(RecordFile { kind: item.select_path(), name: record_file_name(stub.as_str()), text })
}

} // verus!
