//! Scalar payloads of literal nodes, evaluation cells, data types and the
//! two error categories of the algebra.

use vstd::prelude::*;

verus! {

/// A typed scalar wrapped by a literal leaf node.
///
/// Temporal values are carried in the canonical in-process representation:
/// a date is a count of days since the Unix epoch, a datetime a count of
/// microseconds since the Unix epoch.  A floating-point literal is carried
/// opaquely as its IEEE 754 bit pattern; the algebra never computes with it.
#[derive(PartialEq, Eq, Debug)]
pub enum Scalar {
    Int(i64),
    FloatBits(u64),
    Text(String),
    Bool(bool),
    Date(i32),
    DateTime(i64),
    Null,
}

/// One cell of a materialized column in the reference evaluation domain.
///
/// The reference engine evaluates the integral fragment of the algebra:
/// cells are null, 64-bit integers, or booleans.
#[derive(PartialEq, Eq, Structural, Clone, Copy, Debug)]
pub enum Value {
    Null,
    Int(i64),
    Bool(bool),
}

/// Target types a cast node may declare.
#[derive(PartialEq, Eq, Structural, Clone, Copy, Debug)]
pub enum DType {
    Integer,
    Float,
    Boolean,
    Text,
    Date,
    DateTime,
}

/// Eager, fatal errors raised while a node is being built.
/// A malformed node is never constructed.
#[derive(PartialEq, Eq, Structural, Clone, Copy, Debug)]
pub enum ConstructionError {
    /// The target type string of a cast is not recognized.
    UnknownCastType,
    /// The fill strategy string is not one of the supported strategies.
    UnknownFillStrategy,
    /// The peak kind string is neither a minimum nor a maximum request.
    UnknownPeakKind,
    /// A window was requested with size zero.
    WindowSizeZero,
    /// The weights given to a window do not have exactly one weight per slot.
    WeightsLengthMismatch,
    /// The minimum period count of a window exceeds the window size.
    MinPeriodsTooLarge,
}

/// Errors detected only when a tree is bound to concrete data.
#[derive(PartialEq, Eq, Structural, Clone, Copy, Debug)]
pub enum EvalError {
    /// A column leaf names a column the frame does not have.
    ColumnNotFound,
    /// An operand has cells of a type the operator does not accept.
    TypeMismatch,
    /// Two operand columns have incompatible lengths (neither equal nor
    /// broadcastable from length one).
    LengthMismatch,
    /// The node is outside the integral fragment the reference engine runs
    /// (floating-point, text or temporal computation).
    Unsupported,
}

} // verus!
