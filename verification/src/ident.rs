//! Identifiers of tickets and projects, and the serial numbers they carry.
//!
//! An identifier is a text. The ones this tracker hands out are serial: one
//! prefix letter followed by exactly four decimal digits, `T0001` or `P0042`.
//! Among serial identifiers of one kind the lexicographic order of the texts
//! is the order of the numbers, which is what lets the greatest key of a
//! store name the next free identifier.

use vstd::arithmetic::div_mod::lemma_fundamental_div_mod_converse;
use vstd::prelude::*;
use vstd::string::*;
use crate::error::StoreError;
use crate::text::{chars_of, precedes};

verus! {

/// The two kinds of record, each with its own identifier prefix.
#[derive(Clone, Copy, Debug, PartialEq, Eq, Structural)]
pub enum RecordKind {
    Ticket,
    Project,
}

impl RecordKind {
    /// The letter that starts a serial identifier of this kind.
    pub open spec fn prefix(self) -> char {
        match self {
            RecordKind::Ticket => 'T',
            RecordKind::Project => 'P',
        }
    }

    /// The prefix letter as a one-character text.
    pub fn prefix_text(self) -> (text: &'static str)
        ensures
            text@ == seq![self.prefix()],
    {
        proof {
            reveal_strlit("T");
            reveal_strlit("P");
        }
        match self {
            RecordKind::Ticket => {
                assert("T"@ =~= seq!['T']);
                "T"
            },
            RecordKind::Project => {
                assert("P"@ =~= seq!['P']);
                "P"
            },
        }
    }

    /// The prefix letter.
    pub fn prefix_char(self) -> (c: char)
        ensures
            c == self.prefix(),
    {
        match self {
            RecordKind::Ticket => 'T',
            RecordKind::Project => 'P',
        }
    }
}

/// The greatest number a serial identifier can carry.
pub const MAX_SERIAL: u16 = 9999;

/// Whether `c` is a decimal digit.
pub open spec fn is_digit(c: char) -> bool {
    '0' <= c && c <= '9'
}

/// The value of the decimal digit `c`.
pub open spec fn digit_of(c: char) -> nat {
    (c as u32 - '0' as u32) as nat
}

/// The decimal digit whose value is `d`, for `d` below ten.
pub open spec fn digit_char(d: nat) -> char {
    seq!['0', '1', '2', '3', '4', '5', '6', '7', '8', '9'][d as int]
}

/// Whether `id` is a serial identifier with the given prefix: the prefix
/// letter and four decimal digits, nothing else.
pub open spec fn is_serial(id: Seq<char>, prefix: char) -> bool {
    &&& id.len() == 5
    &&& id[0] == prefix
    &&& is_digit(id[1])
    &&& is_digit(id[2])
    &&& is_digit(id[3])
    &&& is_digit(id[4])
}

/// The number that a serial identifier carries.
pub open spec fn serial_number(id: Seq<char>) -> nat {
    1000 * digit_of(id[1]) + 100 * digit_of(id[2]) + 10 * digit_of(id[3]) + digit_of(id[4])
}

/// The serial identifier with the given prefix and number, zero-padded to
/// four digits. Meant for numbers up to `MAX_SERIAL`.
pub open spec fn serial_id(prefix: char, n: nat) -> Seq<char> {
    seq![
        prefix,
        digit_char(n / 1000),
        digit_char((n / 100) % 10),
        digit_char((n / 10) % 10),
        digit_char(n % 10),
    ]
}

/// The identifier that follows `id`: the same prefix with the number one
/// higher. There is none when `id` is not serial or already carries the
/// greatest number; the format is never widened.
pub open spec fn successor(id: Seq<char>, prefix: char) -> Result<Seq<char>, StoreError> {
    if is_serial(id, prefix) && serial_number(id) < MAX_SERIAL {
        Ok(serial_id(prefix, serial_number(id) + 1))
    } else {
        Err(StoreError::IdentifierOverflow)
    }
}

/// A serial identifier built from a number carries that number.
pub proof fn lemma_serial_id_number(prefix: char, n: nat)
    requires
        n <= MAX_SERIAL,
    ensures
        is_serial(serial_id(prefix, n), prefix),
        serial_number(serial_id(prefix, n)) == n,
{
    let d3 = n / 1000;
    let d2 = (n / 100) % 10;
    let d1 = (n / 10) % 10;
    let d0 = n % 10;
    assert(d3 < 10 && d2 < 10 && d1 < 10 && d0 < 10);
    lemma_digit_char(d3);
    lemma_digit_char(d2);
    lemma_digit_char(d1);
    lemma_digit_char(d0);
    assert(n == 1000 * d3 + 100 * d2 + 10 * d1 + d0);
}

/// `digit_char` and `digit_of` undo each other below ten.
pub proof fn lemma_digit_char(d: nat)
    requires
        d < 10,
    ensures
        is_digit(digit_char(d)),
        digit_of(digit_char(d)) == d,
{
    let table = seq!['0', '1', '2', '3', '4', '5', '6', '7', '8', '9'];
    assert(table[0] == '0' && table[1] == '1' && table[2] == '2' && table[3] == '3' && table[4]
        == '4');
    assert(table[5] == '5' && table[6] == '6' && table[7] == '7' && table[8] == '8' && table[9]
        == '9');
}

/// Writing the number read from a serial identifier gives the identifier
/// back.
pub proof fn law_serial_id_round_trip(id: Seq<char>, prefix: char)
    requires
        is_serial(id, prefix),
    ensures
        serial_number(id) <= MAX_SERIAL,
        serial_id(prefix, serial_number(id)) == id,
{
    lemma_digit_of(id[1]);
    lemma_digit_of(id[2]);
    lemma_digit_of(id[3]);
    lemma_digit_of(id[4]);
    lemma_decimal_places(digit_of(id[1]), digit_of(id[2]), digit_of(id[3]), digit_of(id[4]));
    assert(serial_id(prefix, serial_number(id)) =~= id);
}

/// The four decimal places of a number written with four digits.
pub proof fn lemma_decimal_places(d3: nat, d2: nat, d1: nat, d0: nat)
    requires
        d3 < 10,
        d2 < 10,
        d1 < 10,
        d0 < 10,
    ensures
        1000 * d3 + 100 * d2 + 10 * d1 + d0 <= MAX_SERIAL,
        (1000 * d3 + 100 * d2 + 10 * d1 + d0) / 1000 == d3,
        ((1000 * d3 + 100 * d2 + 10 * d1 + d0) / 100) % 10 == d2,
        ((1000 * d3 + 100 * d2 + 10 * d1 + d0) / 10) % 10 == d1,
        (1000 * d3 + 100 * d2 + 10 * d1 + d0) % 10 == d0,
{
    let n = (1000 * d3 + 100 * d2 + 10 * d1 + d0) as int;
    lemma_fundamental_div_mod_converse(n, 1000, d3 as int, (100 * d2 + 10 * d1 + d0) as int);
    lemma_fundamental_div_mod_converse(n, 100, (10 * d3 + d2) as int, (10 * d1 + d0) as int);
    lemma_fundamental_div_mod_converse((10 * d3 + d2) as int, 10, d3 as int, d2 as int);
    lemma_fundamental_div_mod_converse(n, 10, (100 * d3 + 10 * d2 + d1) as int, d0 as int);
    lemma_fundamental_div_mod_converse(
        (100 * d3 + 10 * d2 + d1) as int,
        10,
        (10 * d3 + d2) as int,
        d1 as int,
    );
}

/// A digit's value is below ten and names the digit.
pub proof fn lemma_digit_of(c: char)
    requires
        is_digit(c),
    ensures
        digit_of(c) < 10,
        digit_char(digit_of(c)) == c,
{
    let table = seq!['0', '1', '2', '3', '4', '5', '6', '7', '8', '9'];
    assert(table[0] == '0' && table[1] == '1' && table[2] == '2' && table[3] == '3' && table[4]
        == '4');
    assert(table[5] == '5' && table[6] == '6' && table[7] == '7' && table[8] == '8' && table[9]
        == '9');
    assert(c == '0' || c == '1' || c == '2' || c == '3' || c == '4' || c == '5' || c == '6' || c
        == '7' || c == '8' || c == '9');
}

/// Among serial identifiers with one prefix, the order of the texts is the
/// order of the numbers.
pub proof fn lemma_serial_order(a: Seq<char>, b: Seq<char>, prefix: char)
    requires
        is_serial(a, prefix),
        is_serial(b, prefix),
    ensures
        precedes(a, b) <==> serial_number(a) < serial_number(b),
        a == b <==> serial_number(a) == serial_number(b),
{
    reveal_with_fuel(precedes, 6);
    let a1 = a.drop_first();
    let a2 = a1.drop_first();
    let a3 = a2.drop_first();
    let a4 = a3.drop_first();
    let b1 = b.drop_first();
    let b2 = b1.drop_first();
    let b3 = b2.drop_first();
    let b4 = b3.drop_first();
    assert(a1[0] == a[1] && a2[0] == a[2] && a3[0] == a[3] && a4[0] == a[4]);
    assert(b1[0] == b[1] && b2[0] == b[2] && b3[0] == b[3] && b4[0] == b[4]);
    assert(a4.drop_first().len() == 0 && b4.drop_first().len() == 0);
    lemma_digit_of(a[1]);
    lemma_digit_of(a[2]);
    lemma_digit_of(a[3]);
    lemma_digit_of(a[4]);
    lemma_digit_of(b[1]);
    lemma_digit_of(b[2]);
    lemma_digit_of(b[3]);
    lemma_digit_of(b[4]);
    assert(forall|x: char, y: char|
        is_digit(x) && is_digit(y) ==> ((x < y) <==> (#[trigger] digit_of(x) < #[trigger] digit_of(
            y,
        ))));
    if serial_number(a) == serial_number(b) {
        assert(a =~= b);
    }
}

/// The successor of an identifier is serial, carries the next number, and
/// comes after it in the order of the texts.
pub proof fn lemma_successor_follows(id: Seq<char>, prefix: char)
    requires
        successor(id, prefix) is Ok,
    ensures
        is_serial(successor(id, prefix)->Ok_0, prefix),
        serial_number(successor(id, prefix)->Ok_0) == serial_number(id) + 1,
        precedes(id, successor(id, prefix)->Ok_0),
{
    let next = successor(id, prefix)->Ok_0;
    lemma_serial_id_number(prefix, serial_number(id) + 1);
    lemma_serial_order(id, next, prefix);
}

/// The value of a character if it is a decimal digit.
pub fn digit_value(c: char) -> (value: Option<u16>)
    ensures
        value is Some <==> is_digit(c),
        value matches Some(d) ==> d == digit_of(c) && d < 10,
{
    if c >= '0' && c <= '9' {
        Some(((c as u32) - ('0' as u32)) as u16)
    } else {
        None
    }
}

/// The one-character text of a decimal digit.
pub fn digit_text(d: u16) -> (text: &'static str)
    requires
        d < 10,
    ensures
        text@ == seq![digit_char(d as nat)],
{
    proof {
        reveal_strlit("0");
        reveal_strlit("1");
        reveal_strlit("2");
        reveal_strlit("3");
        reveal_strlit("4");
        reveal_strlit("5");
        reveal_strlit("6");
        reveal_strlit("7");
        reveal_strlit("8");
        reveal_strlit("9");
        lemma_digit_char(d as nat);
    }
    let text = if d == 0 {
        "0"
    } else if d == 1 {
        "1"
    } else if d == 2 {
        "2"
    } else if d == 3 {
        "3"
    } else if d == 4 {
        "4"
    } else if d == 5 {
        "5"
    } else if d == 6 {
        "6"
    } else if d == 7 {
        "7"
    } else if d == 8 {
        "8"
    } else {
        "9"
    };
    assert(text@ =~= seq![digit_char(d as nat)]);
    text
}

/// Reads the number of a serial identifier; `None` for any other text.
pub fn parse_serial(id: &str, kind: RecordKind) -> (number: Option<u16>)
    ensures
        number is Some <==> is_serial(id@, kind.prefix()),
        number matches Some(n) ==> n == serial_number(id@) && n <= MAX_SERIAL,
{
    let chars = chars_of(id);
    if chars.len() != 5 || chars[0] != kind.prefix_char() {
        return None;
    }
    let d3 = digit_value(chars[1]);
    let d2 = digit_value(chars[2]);
    let d1 = digit_value(chars[3]);
    let d0 = digit_value(chars[4]);
    match (d3, d2, d1, d0) {
        (Some(d3), Some(d2), Some(d1), Some(d0)) => Some(1000 * d3 + 100 * d2 + 10 * d1 + d0),
        _ => None,
    }
}

/// Writes the serial identifier of a kind and a number.
pub fn format_serial(kind: RecordKind, number: u16) -> (id: String)
    requires
        number <= MAX_SERIAL,
    ensures
        id@ == serial_id(kind.prefix(), number as nat),
{
    let mut id = String::from_str(kind.prefix_text());
    id.append(digit_text(number / 1000));
    id.append(digit_text((number / 100) % 10));
    id.append(digit_text((number / 10) % 10));
    id.append(digit_text(number % 10));
    assert(id@ =~= serial_id(kind.prefix(), number as nat));
    id
}

/// Computes the identifier that follows `id`, or reports that there is none.
pub fn next_serial(id: &str, kind: RecordKind) -> (next: Result<String, StoreError>)
    ensures
        match successor(id@, kind.prefix()) {
            Ok(expected) => next matches Ok(text) && text@ == expected,
            Err(error) => next == Err::<String, StoreError>(error),
        },
{
    match parse_serial(id, kind) {
        Some(number) => {
            if number < MAX_SERIAL {
                Ok(format_serial(kind, number + 1))
            } else {
                Err(StoreError::IdentifierOverflow)
            }
        },
        None => Err(StoreError::IdentifierOverflow),
    }
}

/// The identifier of a ticket.
#[derive(Debug, PartialEq, Eq, PartialOrd, Ord, Hash)]
pub struct TicketId(pub String);

/// The identifier of a project.
#[derive(Debug, PartialEq, Eq, PartialOrd, Ord, Hash)]
pub struct ProjectId(pub String);

impl View for TicketId {
    type V = Seq<char>;

    open spec fn view(&self) -> Seq<char> {
        self.0@
    }
}

impl View for ProjectId {
    type V = Seq<char>;

    open spec fn view(&self) -> Seq<char> {
        self.0@
    }
}

impl Clone for TicketId {
    fn clone(&self) -> (copy: Self)
        ensures
            copy == *self,
    {
        TicketId(self.0.clone())
    }
}

impl Clone for ProjectId {
    fn clone(&self) -> (copy: Self)
        ensures
            copy == *self,
    {
        ProjectId(self.0.clone())
    }
}

impl TicketId {
    /// Takes a text as a ticket identifier. Every text is one, so this never
    /// fails.
    pub fn try_from(value: String) -> (outcome: Result<TicketId, StoreError>)
        ensures
            outcome matches Ok(id) && id.0 == value,
    {
        Ok(TicketId(value))
    }

    /// The identifier given to the first ticket of an empty store.
    pub open spec fn first_spec() -> Seq<char> {
        serial_id('T', 1)
    }

    /// The identifier given to the first ticket of an empty store, `T0001`.
    pub fn first() -> (id: TicketId)
        ensures
            id@ == Self::first_spec(),
    {
        TicketId(format_serial(RecordKind::Ticket, 1))
    }

    /// The identifier as a text.
    pub fn as_str(&self) -> (text: &str)
        ensures
            text@ == self@,
    {
        self.0.as_str()
    }

    /// Whether two identifiers are the same text.
    pub fn same_as(&self, other: &TicketId) -> (same: bool)
        ensures
            same == (self@ == other@),
    {
        self.0 == other.0
    }
}

impl ProjectId {
    /// The identifier given to the first project of an empty store.
    pub open spec fn first_spec() -> Seq<char> {
        serial_id('P', 1)
    }

    /// The identifier given to the first project of an empty store, `P0001`.
    pub fn first() -> (id: ProjectId)
        ensures
            id@ == Self::first_spec(),
    {
        ProjectId(format_serial(RecordKind::Project, 1))
    }

    /// The identifier as a text.
    pub fn as_str(&self) -> (text: &str)
        ensures
            text@ == self@,
    {
        self.0.as_str()
    }

    /// Whether two identifiers are the same text.
    pub fn same_as(&self, other: &ProjectId) -> (same: bool)
        ensures
            same == (self@ == other@),
    {
        self.0 == other.0
    }
}

} // verus!
