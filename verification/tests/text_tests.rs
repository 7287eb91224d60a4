use iron_sendme::error::SendmeError;
use iron_sendme::text::decimal_string;

#[test]
fn decimal_string_matches_display() {
    for n in [0u64, 1, 9, 10, 11, 99, 100, 101, 12345, 1_000_000, u64::MAX - 1, u64::MAX] {
        assert_eq!(decimal_string(n), n.to_string());
    }
}

#[test]
fn error_messages() {
    assert_eq!(SendmeError::PathNotFound("/x/y".to_string()).message(), "Path does not exist: /x/y");
    assert_eq!(SendmeError::NoPaths.message(), "No paths provided");
    assert_eq!(SendmeError::NoFiles.message(), "No files provided");
    assert_eq!(
        SendmeError::DuplicateEntry("a/b".to_string()).message(),
        "Duplicate entry in collection: a/b"
    );
    assert_eq!(
        SendmeError::DuplicateFileName("a.txt".to_string()).message(),
        "Duplicate file name in selection: a.txt"
    );
    assert_eq!(SendmeError::InvalidTicket.message(), "Invalid ticket format");
}
