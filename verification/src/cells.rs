//! Cell-level semantics of the binary operators in the reference
//! evaluation domain.
//!
//! The domain is integral: a cell is null, an integer or a boolean.  Nulls
//! propagate through arithmetic and comparisons; the boolean connectives
//! use three-valued logic.  An arithmetic result that does not fit in a
//! 64-bit integer is null; comparisons of a boolean order false before
//! true; operands of mismatching non-null types are a type error.

use vstd::prelude::*;
use crate::value::{Value, EvalError};
use crate::expr::BinaryOp;

verus! {

/// The integer standing for a cell in comparisons: a boolean counts as
/// zero or one.
pub open spec fn cell_key(v: Value) -> int {
    match v {
        Value::Int(x) => x as int,
        Value::Bool(b) => if b {
            1
        } else {
            0
        },
        Value::Null => 0,
    }
}

/// An integer clamped into a cell: the value itself when it fits in a
/// 64-bit integer, else null.
pub open spec fn fit_i64(x: int) -> Value {
    if i64::MIN <= x <= i64::MAX {
        Value::Int(x as i64)
    } else {
        Value::Null
    }
}

/// Whether a comparison operator holds of two integers.
pub open spec fn cmp_holds(op: BinaryOp, x: int, y: int) -> bool {
    match op {
        BinaryOp::Eq => x == y,
        BinaryOp::Neq => x != y,
        BinaryOp::Gt => x > y,
        BinaryOp::GtEq => x >= y,
        BinaryOp::Lt => x < y,
        BinaryOp::LtEq => x <= y,
        _ => false,
    }
}

/// Comparison of two cells: null if either side is null, a type error on
/// mismatching non-null types, else the comparison of the cell keys.
pub open spec fn cmp_cell(op: BinaryOp, a: Value, b: Value) -> Result<Value, EvalError> {
    if a is Null || b is Null {
        Ok(Value::Null)
    } else if (a is Int && b is Int) || (a is Bool && b is Bool) {
        Ok(Value::Bool(cmp_holds(op, cell_key(a), cell_key(b))))
    } else {
        Err(EvalError::TypeMismatch)
    }
}

/// Three-valued conjunction: an integer operand is a type error; a false
/// side decides the result, a null side otherwise makes it null.
pub open spec fn and_cell(a: Value, b: Value) -> Result<Value, EvalError> {
    if a is Int || b is Int {
        Err(EvalError::TypeMismatch)
    } else if a == Value::Bool(false) || b == Value::Bool(false) {
        Ok(Value::Bool(false))
    } else if a is Null || b is Null {
        Ok(Value::Null)
    } else {
        Ok(Value::Bool(true))
    }
}

/// Three-valued disjunction, dual to `and_cell`.
pub open spec fn or_cell(a: Value, b: Value) -> Result<Value, EvalError> {
    if a is Int || b is Int {
        Err(EvalError::TypeMismatch)
    } else if a == Value::Bool(true) || b == Value::Bool(true) {
        Ok(Value::Bool(true))
    } else if a is Null || b is Null {
        Ok(Value::Null)
    } else {
        Ok(Value::Bool(false))
    }
}

/// The longest power chain of `b` starting from one that stays inside the
/// 64-bit range: none as soon as an intermediate power overflows.
pub open spec fn pow_partial(b: i64, e: u64) -> Option<i64>
    decreases e,
{
    if e == 0 {
        Some(1i64)
    } else {
        match pow_partial(b, (e - 1) as u64) {
            Some(p) => p.checked_mul(b),
            None => None,
        }
    }
}

pub proof fn lemma_pow_partial_none(b: i64, i: u64, e: u64)
    requires
        i <= e,
        pow_partial(b, i) is None,
    ensures
        pow_partial(b, e) is None,
    decreases e - i,
{
    if e > i {
        lemma_pow_partial_none(b, i, (e - 1) as u64);
    }
}

/// Arithmetic on two integer cells.  Division truncates toward zero and a
/// zero divisor is null (the domain's own behavior, distinct from the
/// explicit quotient guard); any result outside the 64-bit range is null;
/// a negative exponent is null.
pub open spec fn arith_int(op: BinaryOp, x: i64, y: i64) -> Value {
    match op {
        BinaryOp::Add => match x.checked_add(y) {
            Some(v) => Value::Int(v),
            None => Value::Null,
        },
        BinaryOp::Subtract => match x.checked_sub(y) {
            Some(v) => Value::Int(v),
            None => Value::Null,
        },
        BinaryOp::Multiply => match x.checked_mul(y) {
            Some(v) => Value::Int(v),
            None => Value::Null,
        },
        BinaryOp::Divide => match x.checked_div(y) {
            Some(v) => Value::Int(v),
            None => Value::Null,
        },
        BinaryOp::Pow => if y < 0 {
            Value::Null
        } else {
            match pow_partial(x, y as u64) {
                Some(v) => Value::Int(v),
                None => Value::Null,
            }
        },
        _ => Value::Null,
    }
}

/// Arithmetic on two cells: null propagates, boolean operands are a type
/// error.
pub open spec fn arith_cell(op: BinaryOp, a: Value, b: Value) -> Result<Value, EvalError> {
    match (a, b) {
        (Value::Null, _) => Ok(Value::Null),
        (_, Value::Null) => Ok(Value::Null),
        (Value::Int(x), Value::Int(y)) => Ok(arith_int(op, x, y)),
        _ => Err(EvalError::TypeMismatch),
    }
}

/// The result of one binary operator on one pair of cells.
pub open spec fn bin_cell(op: BinaryOp, a: Value, b: Value) -> Result<Value, EvalError> {
    match op {
        BinaryOp::And => and_cell(a, b),
        BinaryOp::Or => or_cell(a, b),
        BinaryOp::Eq | BinaryOp::Neq | BinaryOp::Gt | BinaryOp::GtEq | BinaryOp::Lt
            | BinaryOp::LtEq => cmp_cell(op, a, b),
        BinaryOp::Add | BinaryOp::Subtract | BinaryOp::Multiply | BinaryOp::Divide
            | BinaryOp::Pow => arith_cell(op, a, b),
    }
}

/// A failed cell operation is always a type mismatch.
pub proof fn lemma_bin_cell_err(op: BinaryOp, a: Value, b: Value)
    ensures
        bin_cell(op, a, b) is Err ==> bin_cell(op, a, b) == Err::<Value, EvalError>(
            EvalError::TypeMismatch,
        ),
{
}

fn pow_exec(b: i64, e: u64) -> (r: Option<i64>)
    ensures
        r == pow_partial(b, e),
{
    let mut acc: i64 = 1;
    let mut i: u64 = 0;
    while i < e
        invariant
            i <= e,
            pow_partial(b, i) == Some(acc),
        decreases e - i,
    {
        match acc.checked_mul(b) {
            Some(v) => {
                acc = v;
                i = i + 1;
            },
            None => {
                proof {
                    assert(pow_partial(b, (i + 1) as u64) is None);
                    lemma_pow_partial_none(b, (i + 1) as u64, e);
                }
                return None;
            },
        }
    }
    Some(acc)
}

/// Runs one binary operator on one pair of cells.
pub fn bin_cell_exec(op: BinaryOp, a: Value, b: Value) -> (r: Result<Value, EvalError>)
    ensures
        r == bin_cell(op, a, b),
{
    match op {
        BinaryOp::And => match (a, b) {
            (Value::Int(_), _) | (_, Value::Int(_)) => Err(EvalError::TypeMismatch),
            (Value::Bool(false), _) | (_, Value::Bool(false)) => Ok(Value::Bool(false)),
            (Value::Null, _) | (_, Value::Null) => Ok(Value::Null),
            _ => Ok(Value::Bool(true)),
        },
        BinaryOp::Or => match (a, b) {
            (Value::Int(_), _) | (_, Value::Int(_)) => Err(EvalError::TypeMismatch),
            (Value::Bool(true), _) | (_, Value::Bool(true)) => Ok(Value::Bool(true)),
            (Value::Null, _) | (_, Value::Null) => Ok(Value::Null),
            _ => Ok(Value::Bool(false)),
        },
        BinaryOp::Eq | BinaryOp::Neq | BinaryOp::Gt | BinaryOp::GtEq | BinaryOp::Lt
            | BinaryOp::LtEq => match (a, b) {
            (Value::Null, _) | (_, Value::Null) => Ok(Value::Null),
            (Value::Int(x), Value::Int(y)) => Ok(Value::Bool(cmp_exec(op, x, y))),
            (Value::Bool(x), Value::Bool(y)) => Ok(
                Value::Bool(cmp_exec(op, if x { 1 } else { 0 }, if y { 1 } else { 0 })),
            ),
            _ => Err(EvalError::TypeMismatch),
        },
        BinaryOp::Add | BinaryOp::Subtract | BinaryOp::Multiply | BinaryOp::Divide
            | BinaryOp::Pow => match (a, b) {
            (Value::Null, _) | (_, Value::Null) => Ok(Value::Null),
            (Value::Int(x), Value::Int(y)) => Ok(arith_int_exec(op, x, y)),
            _ => Err(EvalError::TypeMismatch),
        },
    }
}

fn cmp_exec(op: BinaryOp, x: i64, y: i64) -> (r: bool)
    requires
        op matches BinaryOp::Eq || op matches BinaryOp::Neq || op matches BinaryOp::Gt
            || op matches BinaryOp::GtEq || op matches BinaryOp::Lt || op matches BinaryOp::LtEq,
    ensures
        r == cmp_holds(op, x as int, y as int),
{
    match op {
        BinaryOp::Eq => x == y,
        BinaryOp::Neq => x != y,
        BinaryOp::Gt => x > y,
        BinaryOp::GtEq => x >= y,
        BinaryOp::Lt => x < y,
        _ => x <= y,
    }
}

fn arith_int_exec(op: BinaryOp, x: i64, y: i64) -> (r: Value)
    requires
        op matches BinaryOp::Add || op matches BinaryOp::Subtract || op
            matches BinaryOp::Multiply || op matches BinaryOp::Divide || op matches BinaryOp::Pow,
    ensures
        r == arith_int(op, x, y),
{
    match op {
        BinaryOp::Add => match x.checked_add(y) {
            Some(v) => Value::Int(v),
            None => Value::Null,
        },
        BinaryOp::Subtract => match x.checked_sub(y) {
            Some(v) => Value::Int(v),
            None => Value::Null,
        },
        BinaryOp::Multiply => match x.checked_mul(y) {
            Some(v) => Value::Int(v),
            None => Value::Null,
        },
        BinaryOp::Divide => match x.checked_div(y) {
            Some(v) => Value::Int(v),
            None => Value::Null,
        },
        _ => {
            if y < 0 {
                Value::Null
            } else {
                match pow_exec(x, y as u64) {
                    Some(v) => Value::Int(v),
                    None => Value::Null,
                }
            }
        },
    }
}

} // verus!
