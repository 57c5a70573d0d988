//! The values a traversal carries.

use crate::error::GDBError;
use crate::path::ResultPath;
use crate::property::ResultProperty;
use crate::sharing::share;
use crate::traverser::Traverser;
use std::sync::Arc;
use vstd::prelude::*;

verus! {

/// A number. A `Float` holds the IEEE 754 binary64 bit pattern of its value,
/// so that it can be stored, compared for identity and handed on unchanged.
#[derive(Clone, Copy, Debug, PartialEq, Eq, Structural)]
pub enum Primitives {
    Byte(u8),
    Integer(i32),
    Long(i64),
    Float(u64),
}

/// How one value stands to another in an order.
#[derive(Clone, Copy, Debug, PartialEq, Eq, Structural)]
pub enum Relation {
    Less,
    Equal,
    Greater,
}

/// How two integers stand to each other.
pub open spec fn order_of(a: int, b: int) -> Relation {
    if a < b {
        Relation::Less
    } else if a == b {
        Relation::Equal
    } else {
        Relation::Greater
    }
}

/// The place of a binary64 bit pattern in the IEEE 754 total order: negative
/// values below positive ones, and among negative values the larger magnitude
/// first. On numbers other than zero and NaN this is the numeric order.
pub open spec fn float_rank(bits: u64) -> int {
    if bits < 0x8000_0000_0000_0000 {
        bits + 0x8000_0000_0000_0000
    } else {
        0xFFFF_FFFF_FFFF_FFFF - bits
    }
}

fn rank_of_float(bits: u64) -> (r: u64)
    ensures
        r == float_rank(bits),
{
    if bits < 0x8000_0000_0000_0000 {
        bits + 0x8000_0000_0000_0000
    } else {
        0xFFFF_FFFF_FFFF_FFFF - bits
    }
}

impl Primitives {
    /// How `self` stands to `other`, where both are of one kind; `None` where
    /// the kinds differ, for no number is silently turned into another kind.
    pub open spec fn compared(self, other: Primitives) -> Option<Relation> {
        match (self, other) {
            (Primitives::Byte(a), Primitives::Byte(b)) => Some(order_of(a as int, b as int)),
            (Primitives::Integer(a), Primitives::Integer(b)) => Some(
                order_of(a as int, b as int),
            ),
            (Primitives::Long(a), Primitives::Long(b)) => Some(order_of(a as int, b as int)),
            (Primitives::Float(a), Primitives::Float(b)) => Some(
                order_of(float_rank(a), float_rank(b)),
            ),
            _ => None,
        }
    }

    /// Compares two numbers of one kind. Numbers of different kinds are not
    /// compared: that is a `CrossComparisonError`.
    pub fn compare(&self, other: &Primitives) -> (res: Result<Relation, GDBError>)
        ensures
            match res {
                Ok(o) => self.compared(*other) == Some(o),
                Err(e) => self.compared(*other) is None && e is CrossComparisonError,
            },
    {
        match (self, other) {
            (Primitives::Byte(a), Primitives::Byte(b)) => Ok(
                if *a < *b {
                    Relation::Less
                } else if *a == *b {
                    Relation::Equal
                } else {
                    Relation::Greater
                },
            ),
            (Primitives::Integer(a), Primitives::Integer(b)) => Ok(
                if *a < *b {
                    Relation::Less
                } else if *a == *b {
                    Relation::Equal
                } else {
                    Relation::Greater
                },
            ),
            (Primitives::Long(a), Primitives::Long(b)) => Ok(
                if *a < *b {
                    Relation::Less
                } else if *a == *b {
                    Relation::Equal
                } else {
                    Relation::Greater
                },
            ),
            (Primitives::Float(a), Primitives::Float(b)) => {
                let ra = rank_of_float(*a);
                let rb = rank_of_float(*b);
                Ok(
                    if ra < rb {
                        Relation::Less
                    } else if ra == rb {
                        Relation::Equal
                    } else {
                        Relation::Greater
                    },
                )
            },
            _ => Err(GDBError::CrossComparisonError),
        }
    }
}

/// Any value a traverser can carry or an element can hold.
///
/// Blobs and opaque payloads are shared, not copied, when an object is cloned.
#[derive(Debug, PartialEq)]
pub enum Object {
    Primitive(Primitives),
    String(String),
    Blob(Arc<Vec<u8>>),
    Opaque(Arc<Opaque>),
}

/// An engine-internal payload. What it is gets decided when it is built, so
/// nothing downstream has to inspect it to find out.
#[derive(Debug, PartialEq)]
pub enum Opaque {
    /// The path a traverser walked.
    Path(ResultPath),
    /// Properties picked out under tags.
    Properties(ResultProperty),
    /// The final state of a shared counter.
    Count(u64),
    /// One group of a grouped count: its key and how many fell into it.
    GroupCount(Traverser, u64),
    /// Anything else, kept as the text that describes it.
    Unrecognized(String),
}

impl Object {
    /// Wraps bytes as a blob.
    pub fn blob(bytes: Vec<u8>) -> (o: Object)
        ensures
            o matches Object::Blob(b) && *b == bytes,
    {
        Object::Blob(Arc::new(bytes))
    }

    /// Wraps an engine-internal payload.
    pub fn opaque(payload: Opaque) -> (o: Object)
        ensures
            o matches Object::Opaque(p) && *p == payload,
    {
        Object::Opaque(Arc::new(payload))
    }
}

impl Clone for Object {
    fn clone(&self) -> (res: Object)
        ensures
            res == *self,
    {
        match self {
            Object::Primitive(p) => Object::Primitive(*p),
            Object::String(s) => Object::String(s.clone()),
            Object::Blob(b) => Object::Blob(share(b)),
            Object::Opaque(o) => Object::Opaque(share(o)),
        }
    }
}

} // verus!
