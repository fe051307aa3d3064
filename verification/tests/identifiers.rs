use repopt::ident::{format_serial, next_serial, parse_serial, RecordKind};
use repopt::error::StoreError;

#[test]
fn serial_identifier_is_zero_padded() {
    assert_eq!(format_serial(RecordKind::Ticket, 7), "T0007");
    assert_eq!(format_serial(RecordKind::Project, 9999), "P9999");
}

#[test]
fn serial_identifier_is_read_back() {
    assert_eq!(parse_serial("T0042", RecordKind::Ticket), Some(42));
    assert_eq!(parse_serial("P0042", RecordKind::Ticket), None);
    assert_eq!(parse_serial("T42", RecordKind::Ticket), None);
    assert_eq!(parse_serial("T00042", RecordKind::Ticket), None);
    assert_eq!(parse_serial("T+042", RecordKind::Ticket), None);
}

#[test]
fn successor_adds_one_and_stops_at_the_top() {
    assert_eq!(next_serial("T0001", RecordKind::Ticket), Ok("T0002".to_string()));
    assert_eq!(next_serial("T0999", RecordKind::Ticket), Ok("T1000".to_string()));
    assert_eq!(next_serial("T9999", RecordKind::Ticket), Err(StoreError::IdentifierOverflow));
    assert_eq!(next_serial("Tabcd", RecordKind::Ticket), Err(StoreError::IdentifierOverflow));
}
