use gaia_engine::error::{Disposition, GDBError};
use gaia_engine::sub_traversal::JoinError;

#[test]
fn json_failure_keeps_its_payload() {
    let failure = serde_json::from_str::<serde_json::Value>("{").unwrap_err();
    let text = failure.to_string();
    match GDBError::from(failure) {
        GDBError::JsonError(inner) => assert_eq!(inner.to_string(), text),
        other => panic!("unexpected {:?}", other),
    }
}

#[test]
fn cbor_failure_keeps_its_payload() {
    let failure = serde_cbor::from_slice::<u8>(&[]).unwrap_err();
    let text = failure.to_string();
    match GDBError::from(failure) {
        GDBError::CborError(inner) => assert_eq!(inner.to_string(), text),
        other => panic!("unexpected {:?}", other),
    }
}

#[test]
fn bincode_failure_keeps_its_payload() {
    let failure = bincode::deserialize::<u32>(&[1u8]).unwrap_err();
    let text = failure.to_string();
    match GDBError::from(failure) {
        GDBError::BincodeError(inner) => assert_eq!(inner.to_string(), text),
        other => panic!("unexpected {:?}", other),
    }
}

#[test]
fn io_failure_keeps_its_payload() {
    let failure = std::io::Error::new(std::io::ErrorKind::NotFound, "gone");
    match GDBError::from(failure) {
        GDBError::IOError(inner) => {
            assert_eq!(inner.kind(), std::io::ErrorKind::NotFound);
            assert_eq!(inner.to_string(), "gone");
        }
        other => panic!("unexpected {:?}", other),
    }
}

#[test]
fn parse_failures_become_parse_error() {
    let int_failure = "x1".parse::<i32>().unwrap_err();
    assert!(matches!(GDBError::from(int_failure), GDBError::ParseError));
    let float_failure = "1.x".parse::<f64>().unwrap_err();
    assert!(matches!(GDBError::from(float_failure), GDBError::ParseError));
}

#[test]
fn unit_becomes_unknown_error() {
    assert!(matches!(GDBError::from(()), GDBError::UnknownError));
}

#[test]
fn storage_failure_keeps_its_message() {
    match GDBError::from_storage(String::from("IO error: lock held")) {
        GDBError::RocksError(message) => assert_eq!(message, "IO error: lock held"),
        other => panic!("unexpected {:?}", other),
    }
}

#[test]
fn join_failures_are_type_errors() {
    assert!(matches!(GDBError::from(JoinError::ParentNotElement), GDBError::InvalidTypeError));
    assert!(matches!(GDBError::from(JoinError::SubNotObject), GDBError::InvalidTypeError));
}

#[test]
fn cancelled_scope_is_a_failure_of_no_named_kind() {
    assert!(matches!(GDBError::from(JoinError::ScopeCancelled), GDBError::UnknownError));
    assert_eq!(
        GDBError::from(JoinError::ScopeCancelled).disposition(true),
        Disposition::AbortQuery
    );
}

#[test]
fn absence_drops_the_record() {
    for partial in [false, true] {
        assert_eq!(GDBError::VertexNotFoundError.disposition(partial), Disposition::DropRecord);
        assert_eq!(GDBError::EdgeNotFoundError.disposition(partial), Disposition::DropRecord);
        assert_eq!(GDBError::FieldNotExistError.disposition(partial), Disposition::DropRecord);
    }
}

#[test]
fn mismatch_aborts_the_record_only_with_partial_results() {
    let mismatches = [
        GDBError::BooleanExpressionError,
        GDBError::StringExpressionError,
        GDBError::NumberExpressionError,
        GDBError::InvalidTypeError,
        GDBError::CrossComparisonError,
        GDBError::ParseError,
    ];
    for e in mismatches.iter() {
        assert_eq!(e.disposition(true), Disposition::AbortRecord);
        assert_eq!(e.disposition(false), Disposition::AbortQuery);
    }
}

#[test]
fn everything_else_aborts_the_query() {
    let io = GDBError::from(std::io::Error::new(std::io::ErrorKind::Other, "x"));
    let json = GDBError::from(serde_json::from_str::<serde_json::Value>("[").unwrap_err());
    let others = [
        GDBError::ModifyReadOnlyError,
        GDBError::RocksError(String::from("corruption")),
        io,
        json,
        GDBError::DBNotFoundError,
        GDBError::LruZeroCapacity,
        GDBError::JsonObjectFieldError,
        GDBError::UnknownError,
        GDBError::OutOfBoundError,
        GDBError::InvalidFunctionCallError,
    ];
    for e in others.iter() {
        assert_eq!(e.disposition(true), Disposition::AbortQuery);
        assert_eq!(e.disposition(false), Disposition::AbortQuery);
    }
}
