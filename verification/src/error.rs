//! The closed set of failures that storage, codecs and evaluation can raise,
//! and what the engine does about each of them.

use vstd::prelude::*;
use vstd::std_specs::convert::FromSpecImpl;

verus! {

/// `serde_json::Error`, the failure of the JSON codec. Nothing is known of
/// what it holds; it is only carried.
#[verifier::external_type_specification]
#[verifier::external_body]
pub struct ExJsonError(serde_json::Error);

/// `serde_cbor::error::Error`, the failure of the CBOR codec. Nothing is known
/// of what it holds; it is only carried.
#[verifier::external_type_specification]
#[verifier::external_body]
pub struct ExCborError(serde_cbor::error::Error);

/// `bincode::ErrorKind`, the failure of the binary codec. Nothing is known of
/// what it holds; it is only carried.
#[verifier::external_type_specification]
#[verifier::external_body]
pub struct ExBincodeErrorKind(bincode::ErrorKind);

/// `std::io::Error`, the failure of an I/O operation. Nothing is known of
/// what it holds; it is only carried.
#[verifier::external_type_specification]
#[verifier::external_body]
pub struct ExIoError(std::io::Error);

/// `std::num::ParseIntError`, the failure to read an integer from text.
/// Nothing is known of what it holds.
#[verifier::external_type_specification]
#[verifier::external_body]
pub struct ExParseIntError(std::num::ParseIntError);

/// `std::num::ParseFloatError`, the failure to read a decimal fraction from
/// text. Nothing is known of what it holds.
#[verifier::external_type_specification]
#[verifier::external_body]
pub struct ExParseFloatError(std::num::ParseFloatError);

pub type GDBResult<T> = Result<T, GDBError>;

/// Everything that can go wrong below or inside the evaluation of a query.
///
/// Failures of the layers underneath keep what those layers reported; the
/// storage engine's failure is kept as the message it gave.
#[derive(Debug)]
pub enum GDBError {
    ModifyReadOnlyError,
    RocksError(String),
    BincodeError(std::boxed::Box<bincode::ErrorKind>),
    JsonError(serde_json::Error),
    CborError(serde_cbor::error::Error),
    IOError(std::io::Error),
    DBNotFoundError,
    LruZeroCapacity,
    JsonObjectFieldError,
    BooleanExpressionError,
    StringExpressionError,
    NumberExpressionError,
    EdgeNotFoundError,
    VertexNotFoundError,
    UnknownError,
    CrossComparisonError,
    OutOfBoundError,
    ParseError,
    InvalidFunctionCallError,
    InvalidTypeError,
    FieldNotExistError,
}

/// What the engine does with the record, and with the query, when a failure
/// is raised while one record is evaluated.
#[derive(Clone, Copy, Debug, PartialEq, Eq, Structural)]
pub enum Disposition {
    /// The record is dropped as a filter would drop it; the query goes on.
    DropRecord,
    /// Evaluation of this record is given up; the query goes on without it.
    AbortRecord,
    /// The whole query ends and reports the failure.
    AbortQuery,
}

impl GDBError {
    /// An element or a field that was looked up and is not there.
    pub open spec fn is_absence(self) -> bool {
        self is EdgeNotFoundError || self is VertexNotFoundError || self is FieldNotExistError
    }

    /// A value of the wrong type or shape, a comparison across kinds, or text
    /// that does not parse.
    pub open spec fn is_mismatch(self) -> bool {
        self is BooleanExpressionError || self is StringExpressionError
            || self is NumberExpressionError || self is InvalidTypeError
            || self is CrossComparisonError || self is ParseError
    }

    /// The rule behind [`GDBError::disposition`].
    pub open spec fn disposition_of(self, partial_results: bool) -> Disposition {
        if self.is_absence() {
            Disposition::DropRecord
        } else if self.is_mismatch() && partial_results {
            Disposition::AbortRecord
        } else {
            Disposition::AbortQuery
        }
    }

    /// Decides how far a failure reaches. An absent element or field only
    /// drops the record. A mismatch gives up the record where the operator may
    /// deliver partial results, and the query where it may not. Every other
    /// failure, those of storage, codecs and I/O among them, ends the query.
    pub fn disposition(&self, partial_results: bool) -> (d: Disposition)
        ensures
            d == self.disposition_of(partial_results),
    {
        match self {
            GDBError::EdgeNotFoundError
            | GDBError::VertexNotFoundError
            | GDBError::FieldNotExistError => Disposition::DropRecord,
            GDBError::BooleanExpressionError
            | GDBError::StringExpressionError
            | GDBError::NumberExpressionError
            | GDBError::InvalidTypeError
            | GDBError::CrossComparisonError
            | GDBError::ParseError => {
                if partial_results {
                    Disposition::AbortRecord
                } else {
                    Disposition::AbortQuery
                }
            },
            _ => Disposition::AbortQuery,
        }
    }

    /// The failure of the storage engine that reported `message`.
    pub fn from_storage(message: String) -> (e: GDBError)
        ensures
            e == GDBError::RocksError(message),
    {
        GDBError::RocksError(message)
    }
}

impl From<std::io::Error> for GDBError {
    fn from(error: std::io::Error) -> (e: GDBError) {
        GDBError::IOError(error)
    }
}

impl FromSpecImpl<std::io::Error> for GDBError {
    open spec fn obeys_from_spec() -> bool {
        true
    }

    open spec fn from_spec(error: std::io::Error) -> GDBError {
        GDBError::IOError(error)
    }
}

impl From<std::num::ParseIntError> for GDBError {
    fn from(_error: std::num::ParseIntError) -> (e: GDBError) {
        GDBError::ParseError
    }
}

impl FromSpecImpl<std::num::ParseIntError> for GDBError {
    open spec fn obeys_from_spec() -> bool {
        true
    }

    open spec fn from_spec(_error: std::num::ParseIntError) -> GDBError {
        GDBError::ParseError
    }
}

impl From<std::num::ParseFloatError> for GDBError {
    fn from(_error: std::num::ParseFloatError) -> (e: GDBError) {
        GDBError::ParseError
    }
}

impl FromSpecImpl<std::num::ParseFloatError> for GDBError {
    open spec fn obeys_from_spec() -> bool {
        true
    }

    open spec fn from_spec(_error: std::num::ParseFloatError) -> GDBError {
        GDBError::ParseError
    }
}

impl From<serde_json::Error> for GDBError {
    fn from(error: serde_json::Error) -> (e: GDBError) {
        GDBError::JsonError(error)
    }
}

impl FromSpecImpl<serde_json::Error> for GDBError {
    open spec fn obeys_from_spec() -> bool {
        true
    }

    open spec fn from_spec(error: serde_json::Error) -> GDBError {
        GDBError::JsonError(error)
    }
}

impl From<serde_cbor::error::Error> for GDBError {
    fn from(error: serde_cbor::error::Error) -> (e: GDBError) {
        GDBError::CborError(error)
    }
}

impl FromSpecImpl<serde_cbor::error::Error> for GDBError {
    open spec fn obeys_from_spec() -> bool {
        true
    }

    open spec fn from_spec(error: serde_cbor::error::Error) -> GDBError {
        GDBError::CborError(error)
    }
}

impl From<std::boxed::Box<bincode::ErrorKind>> for GDBError {
    fn from(error: std::boxed::Box<bincode::ErrorKind>) -> (e: GDBError) {
        GDBError::BincodeError(error)
    }
}

impl FromSpecImpl<std::boxed::Box<bincode::ErrorKind>> for GDBError {
    open spec fn obeys_from_spec() -> bool {
        true
    }

    open spec fn from_spec(error: std::boxed::Box<bincode::ErrorKind>) -> GDBError {
        GDBError::BincodeError(error)
    }
}

impl From<()> for GDBError {
    fn from(_error: ()) -> (e: GDBError) {
        GDBError::UnknownError
    }
}

impl FromSpecImpl<()> for GDBError {
    open spec fn obeys_from_spec() -> bool {
        true
    }

    open spec fn from_spec(_error: ()) -> GDBError {
        GDBError::UnknownError
    }
}

} // verus!
