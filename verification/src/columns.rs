//! Column-level semantics of the reference engine: element-wise maps with
//! broadcasting, directional fills, cumulative scans, aggregations,
//! sorting, deduplication, rolling windows and shape operations.
//!
//! Every executable operation is proved equal to a specification function
//! over sequences of cells; the evaluator composes these.

use vstd::prelude::*;
use crate::value::{Value, EvalError};
use crate::expr::{BinaryOp, AggOp};
use crate::cells::{bin_cell, bin_cell_exec, fit_i64, cell_key, lemma_bin_cell_err};

verus! {

/// The magnitude bound of the 64-bit integer range.
pub open spec fn i64_mag() -> int {
    0x8000000000000000
}

// ---------------------------------------------------------------------------
// Type predicates.
// ---------------------------------------------------------------------------

/// Every cell is an integer or null.
pub open spec fn all_int_or_null(s: Seq<Value>) -> bool {
    forall|i: int| 0 <= i < s.len() ==> !((#[trigger] s[i]) is Bool)
}

/// Every cell is a boolean or null.
pub open spec fn all_bool_or_null(s: Seq<Value>) -> bool {
    forall|i: int| 0 <= i < s.len() ==> !((#[trigger] s[i]) is Int)
}

/// The column is typed: all integers or all booleans, with nulls.
pub open spec fn homogeneous(s: Seq<Value>) -> bool {
    all_int_or_null(s) || all_bool_or_null(s)
}

pub fn all_int_or_null_exec(v: &Vec<Value>) -> (r: bool)
    ensures
        r == all_int_or_null(v@),
{
    let mut j: usize = 0;
    while j < v.len()
        invariant
            j <= v.len(),
            forall|k: int| 0 <= k < j ==> !((#[trigger] v@[k]) is Bool),
        decreases v.len() - j,
    {
        if matches!(v[j], Value::Bool(_)) {
            return false;
        }
        j = j + 1;
    }
    true
}

pub fn all_bool_or_null_exec(v: &Vec<Value>) -> (r: bool)
    ensures
        r == all_bool_or_null(v@),
{
    let mut j: usize = 0;
    while j < v.len()
        invariant
            j <= v.len(),
            forall|k: int| 0 <= k < j ==> !((#[trigger] v@[k]) is Int),
        decreases v.len() - j,
    {
        if matches!(v[j], Value::Int(_)) {
            return false;
        }
        j = j + 1;
    }
    true
}

// ---------------------------------------------------------------------------
// Reversal and shape.
// ---------------------------------------------------------------------------

/// The column in reverse order.
pub open spec fn rev_col(s: Seq<Value>) -> Seq<Value> {
    Seq::new(s.len(), |i: int| s[s.len() - 1 - i])
}

pub fn rev_col_exec(v: &Vec<Value>) -> (r: Vec<Value>)
    ensures
        r@ == rev_col(v@),
{
    let mut out: Vec<Value> = Vec::new();
    let mut j: usize = 0;
    while j < v.len()
        invariant
            j <= v.len(),
            out@.len() == j,
            forall|k: int| 0 <= k < j ==> out@[k] == v@[v@.len() - 1 - k],
        decreases v.len() - j,
    {
        out.push(v[v.len() - 1 - j]);
        j = j + 1;
    }
    proof {
        assert(out@ =~= rev_col(v@));
    }
    out
}

/// The cells from `start` (inclusive) to `end` (exclusive).
pub fn subrange_exec(v: &Vec<Value>, start: usize, end: usize) -> (r: Vec<Value>)
    requires
        start <= end <= v@.len(),
    ensures
        r@ == v@.subrange(start as int, end as int),
{
    let mut out: Vec<Value> = Vec::new();
    let mut j: usize = start;
    while j < end
        invariant
            start <= j <= end <= v@.len(),
            out@.len() == j - start,
            forall|k: int| 0 <= k < j - start ==> out@[k] == v@[start + k],
        decreases end - j,
    {
        out.push(v[j]);
        j = j + 1;
    }
    proof {
        assert(out@ =~= v@.subrange(start as int, end as int));
    }
    out
}

// ---------------------------------------------------------------------------
// Element-wise binary operations with broadcasting.
// ---------------------------------------------------------------------------

/// The cell of `s` used at position `i` when `s` may be a broadcast
/// length-one column.
pub open spec fn bcast(s: Seq<Value>, i: int) -> Value {
    if s.len() == 1 {
        s[0]
    } else {
        s[i]
    }
}

/// Two lengths are compatible when equal or either is one.
pub open spec fn bin_len_ok(a: Seq<Value>, b: Seq<Value>) -> bool {
    a.len() == b.len() || a.len() == 1 || b.len() == 1
}

/// The length of the element-wise result.
pub open spec fn bin_out_len(a: Seq<Value>, b: Seq<Value>) -> nat {
    if a.len() == 1 {
        b.len()
    } else {
        a.len()
    }
}

/// The element-wise result of a binary operator over two columns: a length
/// error on incompatible lengths, a type error as soon as any cell pair
/// fails, else the map of the cell operation.
pub open spec fn bin_col(op: BinaryOp, a: Seq<Value>, b: Seq<Value>) -> Result<
    Seq<Value>,
    EvalError,
> {
    if !bin_len_ok(a, b) {
        Err(EvalError::LengthMismatch)
    } else if exists|i: int|
        0 <= i < bin_out_len(a, b) && (#[trigger] bin_cell(op, bcast(a, i), bcast(b, i))) is Err {
        Err(EvalError::TypeMismatch)
    } else {
        Ok(Seq::new(bin_out_len(a, b), |i: int| bin_cell(op, bcast(a, i), bcast(b, i)) ->Ok_0))
    }
}

pub fn bin_col_exec(op: BinaryOp, a: &Vec<Value>, b: &Vec<Value>) -> (r: Result<
    Vec<Value>,
    EvalError,
>)
    ensures
        match r {
            Ok(v) => bin_col(op, a@, b@) == Ok::<Seq<Value>, EvalError>(v@),
            Err(e) => bin_col(op, a@, b@) == Err::<Seq<Value>, EvalError>(e),
        },
{
    if !(a.len() == b.len() || a.len() == 1 || b.len() == 1) {
        return Err(EvalError::LengthMismatch);
    }
    let n: usize = if a.len() == 1 {
        b.len()
    } else {
        a.len()
    };
    let mut out: Vec<Value> = Vec::new();
    let mut j: usize = 0;
    while j < n
        invariant
            bin_len_ok(a@, b@),
            n == bin_out_len(a@, b@),
            j <= n,
            a@.len() == 1 || n == a@.len(),
            b@.len() == 1 || n == b@.len(),
            out@.len() == j,
            forall|k: int|
                0 <= k < j ==> (#[trigger] bin_cell(op, bcast(a@, k), bcast(b@, k))) is Ok
                    && out@[k] == bin_cell(op, bcast(a@, k), bcast(b@, k))->Ok_0,
        decreases n - j,
    {
        let av: Value = if a.len() == 1 {
            a[0]
        } else {
            a[j]
        };
        let bv: Value = if b.len() == 1 {
            b[0]
        } else {
            b[j]
        };
        match bin_cell_exec(op, av, bv) {
            Ok(c) => {
                out.push(c);
                j = j + 1;
            },
            Err(e) => {
                proof {
                    lemma_bin_cell_err(op, bcast(a@, j as int), bcast(b@, j as int));
                    assert(bin_cell(op, bcast(a@, j as int), bcast(b@, j as int)) is Err);
                }
                return Err(e);
            },
        }
    }
    proof {
        assert(out@ =~= Seq::new(
            bin_out_len(a@, b@),
            |i: int| bin_cell(op, bcast(a@, i), bcast(b@, i))->Ok_0,
        ));
    }
    Ok(out)
}

// ---------------------------------------------------------------------------
// Null tests and directional fills.
// ---------------------------------------------------------------------------

/// The boolean mask of null (or non-null) positions.
pub open spec fn null_mask(s: Seq<Value>, not: bool) -> Seq<Value> {
    Seq::new(s.len(), |i: int| Value::Bool((s[i] is Null) != not))
}

pub fn null_mask_exec(v: &Vec<Value>, not: bool) -> (r: Vec<Value>)
    ensures
        r@ == null_mask(v@, not),
{
    let mut out: Vec<Value> = Vec::new();
    let mut j: usize = 0;
    while j < v.len()
        invariant
            j <= v.len(),
            out@.len() == j,
            forall|k: int| 0 <= k < j ==> out@[k] == Value::Bool(((#[trigger] v@[k]) is Null) != not),
        decreases v.len() - j,
    {
        let is_null = matches!(v[j], Value::Null);
        out.push(Value::Bool(is_null != not));
        j = j + 1;
    }
    proof {
        assert(out@ =~= null_mask(v@, not));
    }
    out
}

/// The cell at `i` after a forward fill: the nearest non-null cell at or
/// before `i`, or null if there is none.
pub open spec fn ffill_at(s: Seq<Value>, i: int) -> Value
    decreases i,
{
    if !(s[i] is Null) {
        s[i]
    } else if i <= 0 {
        Value::Null
    } else {
        ffill_at(s, i - 1)
    }
}

/// The forward-filled column.
pub open spec fn ffill_col(s: Seq<Value>) -> Seq<Value> {
    Seq::new(s.len(), |i: int| ffill_at(s, i))
}

/// The backward-filled column: the forward fill of the reverse, reversed.
pub open spec fn bfill_col(s: Seq<Value>) -> Seq<Value> {
    rev_col(ffill_col(rev_col(s)))
}

pub fn ffill_exec(v: &Vec<Value>) -> (r: Vec<Value>)
    ensures
        r@ == ffill_col(v@),
{
    let mut out: Vec<Value> = Vec::new();
    let mut cur: Value = Value::Null;
    let mut j: usize = 0;
    while j < v.len()
        invariant
            j <= v.len(),
            out@.len() == j,
            j == 0 ==> cur == Value::Null,
            j > 0 ==> cur == ffill_at(v@, j - 1),
            forall|k: int| 0 <= k < j ==> out@[k] == ffill_at(v@, k),
        decreases v.len() - j,
    {
        if !matches!(v[j], Value::Null) {
            cur = v[j];
        }
        out.push(cur);
        j = j + 1;
    }
    proof {
        assert(out@ =~= ffill_col(v@));
    }
    out
}

pub fn bfill_exec(v: &Vec<Value>) -> (r: Vec<Value>)
    ensures
        r@ == bfill_col(v@),
{
    let rv = rev_col_exec(v);
    let filled = ffill_exec(&rv);
    rev_col_exec(&filled)
}

// ---------------------------------------------------------------------------
// Cumulative scans.
// ---------------------------------------------------------------------------

/// The exact running sum of the non-null cells at positions up to `i`.
pub open spec fn cumsum_prefix(s: Seq<Value>, i: int) -> int
    decreases i,
{
    let here = match s[i] {
        Value::Int(x) => x as int,
        _ => 0,
    };
    if i <= 0 {
        here
    } else {
        cumsum_prefix(s, i - 1) + here
    }
}

/// The running minimum (or maximum) of the non-null cells up to `i`.
pub open spec fn cummin_prefix(s: Seq<Value>, i: int, is_min: bool) -> Option<i64>
    decreases i,
{
    let prev: Option<i64> = if i <= 0 {
        None
    } else {
        cummin_prefix(s, i - 1, is_min)
    };
    match s[i] {
        Value::Int(x) => match prev {
            None => Some(x),
            Some(m) => if (is_min && x < m) || (!is_min && x > m) {
                Some(x)
            } else {
                Some(m)
            },
        },
        _ => prev,
    }
}

/// The cumulative-sum column: null cells stay null and do not disturb the
/// running sum; a running sum outside the 64-bit range is null.
pub open spec fn cumsum_col(s: Seq<Value>) -> Seq<Value> {
    Seq::new(
        s.len(),
        |i: int|
            if s[i] is Null {
                Value::Null
            } else {
                fit_i64(cumsum_prefix(s, i))
            },
    )
}

/// The cumulative-minimum or -maximum column.
pub open spec fn cummin_col(s: Seq<Value>, is_min: bool) -> Seq<Value> {
    Seq::new(
        s.len(),
        |i: int|
            if s[i] is Null {
                Value::Null
            } else {
                match cummin_prefix(s, i, is_min) {
                    Some(m) => Value::Int(m),
                    None => Value::Null,
                }
            },
    )
}

pub proof fn lemma_cumsum_bound(s: Seq<Value>, i: int)
    requires
        0 <= i < s.len(),
    ensures
        -(i + 1) * i64_mag() <= cumsum_prefix(s, i) <= (i + 1) * i64_mag(),
    decreases i,
{
    if i > 0 {
        lemma_cumsum_bound(s, i - 1);
        assert((i + 1) * i64_mag() == i * i64_mag() + i64_mag()) by (nonlinear_arith);
        assert(-(i + 1) * i64_mag() == -i * i64_mag() - i64_mag()) by (nonlinear_arith);
    }
}

fn fit_exec(x: i128) -> (r: Value)
    ensures
        r == fit_i64(x as int),
{
    if x >= i64::MIN as i128 && x <= i64::MAX as i128 {
        Value::Int(x as i64)
    } else {
        Value::Null
    }
}

fn cumsum_fwd_exec(v: &Vec<Value>) -> (r: Vec<Value>)
    ensures
        r@ == cumsum_col(v@),
{
    let mut out: Vec<Value> = Vec::new();
    let mut acc: i128 = 0;
    let mut j: usize = 0;
    while j < v.len()
        invariant
            j <= v.len(),
            out@.len() == j,
            j == 0 ==> acc == 0,
            j > 0 ==> acc == cumsum_prefix(v@, j - 1),
            j > 0 ==> -(j as int) * i64_mag() <= acc <= (j as int) * i64_mag(),
            forall|k: int| 0 <= k < j ==> out@[k] == cumsum_col(v@)[k],
        decreases v.len() - j,
    {
        proof {
            if j > 0 {
                lemma_cumsum_bound(v@, j - 1);
            }
            assert((v@.len() as int) * i64_mag() <= 0xffffffffffffffff * i64_mag()) by (
            nonlinear_arith)
                requires
                    v@.len() <= 0xffffffffffffffff,
            ;
        }
        match v[j] {
            Value::Null => {
                out.push(Value::Null);
            },
            Value::Int(x) => {
                acc = acc + (x as i128);
                out.push(fit_exec(acc));
            },
            Value::Bool(_) => {
                acc = acc;
                out.push(fit_exec(acc));
            },
        }
        proof {
            if v@[j as int] is Bool {
                assert(cumsum_prefix(v@, j as int) == if j == 0 {
                    0int
                } else {
                    cumsum_prefix(v@, j as int - 1)
                });
                assert(fit_i64(acc as int) == cumsum_col(v@)[j as int]);
            }
        }
        j = j + 1;
    }
    proof {
        assert(out@ =~= cumsum_col(v@));
    }
    out
}

fn cummin_fwd_exec(v: &Vec<Value>, is_min: bool) -> (r: Vec<Value>)
    ensures
        r@ == cummin_col(v@, is_min),
{
    let mut out: Vec<Value> = Vec::new();
    let mut acc: Option<i64> = None;
    let mut j: usize = 0;
    while j < v.len()
        invariant
            j <= v.len(),
            out@.len() == j,
            j == 0 ==> acc is None,
            j > 0 ==> acc == cummin_prefix(v@, j - 1, is_min),
            forall|k: int| 0 <= k < j ==> out@[k] == cummin_col(v@, is_min)[k],
        decreases v.len() - j,
    {
        match v[j] {
            Value::Int(x) => {
                acc = match acc {
                    None => Some(x),
                    Some(m) => if (is_min && x < m) || (!is_min && x > m) {
                        Some(x)
                    } else {
                        Some(m)
                    },
                };
                match acc {
                    Some(m) => out.push(Value::Int(m)),
                    None => out.push(Value::Null),
                }
            },
            Value::Null => {
                out.push(Value::Null);
            },
            Value::Bool(_) => {
                match acc {
                    Some(m) => out.push(Value::Int(m)),
                    None => out.push(Value::Null),
                }
            },
        }
        j = j + 1;
    }
    proof {
        assert(out@ =~= cummin_col(v@, is_min));
    }
    out
}

/// A cumulative scan, possibly run from the back.
pub open spec fn cum_col(s: Seq<Value>, op: crate::expr::CumOp, reverse: bool) -> Seq<Value> {
    let base = if reverse {
        rev_col(s)
    } else {
        s
    };
    let scanned = match op {
        crate::expr::CumOp::CumSum => cumsum_col(base),
        crate::expr::CumOp::CumMin => cummin_col(base, true),
        crate::expr::CumOp::CumMax => cummin_col(base, false),
    };
    if reverse {
        rev_col(scanned)
    } else {
        scanned
    }
}

pub fn cum_col_exec(v: &Vec<Value>, op: crate::expr::CumOp, reverse: bool) -> (r: Vec<Value>)
    ensures
        r@ == cum_col(v@, op, reverse),
{
    let base: Vec<Value> = if reverse {
        rev_col_exec(v)
    } else {
        subrange_exec(v, 0, v.len())
    };
    proof {
        if !reverse {
            assert(base@ =~= v@);
        }
    }
    let scanned: Vec<Value> = match op {
        crate::expr::CumOp::CumSum => cumsum_fwd_exec(&base),
        crate::expr::CumOp::CumMin => cummin_fwd_exec(&base, true),
        crate::expr::CumOp::CumMax => cummin_fwd_exec(&base, false),
    };
    if reverse {
        rev_col_exec(&scanned)
    } else {
        scanned
    }
}

// ---------------------------------------------------------------------------
// Aggregations.
// ---------------------------------------------------------------------------

/// How many cells are non-null.
pub open spec fn count_nonnull(s: Seq<Value>) -> int
    decreases s.len(),
{
    if s.len() == 0 {
        0
    } else {
        count_nonnull(s.drop_last()) + if s.last() is Null {
            0int
        } else {
            1int
        }
    }
}

/// The exact sum of the integer cells.
pub open spec fn sum_ints(s: Seq<Value>) -> int
    decreases s.len(),
{
    if s.len() == 0 {
        0
    } else {
        sum_ints(s.drop_last()) + match s.last() {
            Value::Int(x) => x as int,
            _ => 0int,
        }
    }
}

/// The minimum (or maximum) of the integer cells, if any.
pub open spec fn min_opt(s: Seq<Value>, is_min: bool) -> Option<i64>
    decreases s.len(),
{
    if s.len() == 0 {
        None
    } else {
        let prev = min_opt(s.drop_last(), is_min);
        match s.last() {
            Value::Int(x) => match prev {
                None => Some(x),
                Some(m) => if (is_min && x < m) || (!is_min && x > m) {
                    Some(x)
                } else {
                    Some(m)
                },
            },
            _ => prev,
        }
    }
}

/// The distinct cells in first-occurrence order.
pub open spec fn dedup_stable(s: Seq<Value>) -> Seq<Value>
    decreases s.len(),
{
    if s.len() == 0 {
        Seq::empty()
    } else {
        let d = dedup_stable(s.drop_last());
        if s.drop_last().contains(s.last()) {
            d
        } else {
            d.push(s.last())
        }
    }
}

pub proof fn lemma_push_contains(t: Seq<Value>, x: Value)
    ensures
        forall|v: Value| #[trigger] t.push(x).contains(v) <==> t.contains(v) || v == x,
{
    assert forall|v: Value| #[trigger] t.push(x).contains(v) implies t.contains(v) || v == x by {
        let i = choose|i: int| 0 <= i < t.push(x).len() && t.push(x)[i] == v;
        if i < t.len() {
            assert(t[i] == v);
        }
    }
    assert forall|v: Value| t.contains(v) || v == x implies #[trigger] t.push(x).contains(v) by {
        if t.contains(v) {
            let i = choose|i: int| 0 <= i < t.len() && t[i] == v;
            assert(t.push(x)[i] == v);
        } else {
            assert(t.push(x)[t.len() as int] == v);
        }
    }
}

/// The deduplicated column holds exactly the values of the column.
pub proof fn lemma_dedup_contains(s: Seq<Value>)
    ensures
        forall|v: Value| #[trigger] dedup_stable(s).contains(v) <==> s.contains(v),
    decreases s.len(),
{
    if s.len() > 0 {
        let t = s.drop_last();
        let x = s.last();
        lemma_dedup_contains(t);
        lemma_push_contains(t, x);
        lemma_push_contains(dedup_stable(t), x);
        assert(s =~= t.push(x));
    }
}

/// The deduplicated column has no repeated cell.
#[verifier::rlimit(50)]
pub proof fn lemma_dedup_distinct(s: Seq<Value>)
    ensures
        forall|i: int, j: int|
            0 <= i < j < dedup_stable(s).len() ==> dedup_stable(s)[i] != dedup_stable(s)[j],
    decreases s.len(),
{
    if s.len() > 0 {
        let t = s.drop_last();
        let x = s.last();
        lemma_dedup_distinct(t);
        lemma_dedup_contains(t);
        if t.contains(x) {
            assert(dedup_stable(s) == dedup_stable(t));
            assert forall|i: int, j: int|
                0 <= i < j < dedup_stable(s).len() implies dedup_stable(s)[i] != dedup_stable(
                s,
            )[j] by {
                assert(dedup_stable(t)[i] != dedup_stable(t)[j]);
            }
        } else {
            let d = dedup_stable(t);
            assert forall|i: int, j: int|
                0 <= i < j < dedup_stable(s).len() implies dedup_stable(s)[i] != dedup_stable(
                s,
            )[j] by {
                assert(dedup_stable(s) == d.push(x));
                if j < d.len() {
                    assert(dedup_stable(s)[i] == d[i]);
                    assert(dedup_stable(s)[j] == d[j]);
                } else {
                    assert(j == d.len());
                    assert(dedup_stable(s)[j] == x);
                    assert(dedup_stable(s)[i] == d[i]);
                    assert(d.contains(d[i]));
                    assert(t.contains(d[i]));
                    assert(d[i] != x);
                }
            }
        }
    }
}


/// The position of the first occurrence of `v` in `s`.
pub open spec fn first_idx(s: Seq<Value>, v: Value) -> int
    decreases s.len(),
{
    if s.len() == 0 {
        0
    } else if s[0] == v {
        0
    } else {
        1 + first_idx(s.drop_first(), v)
    }
}

pub proof fn lemma_first_idx_in_range(s: Seq<Value>, v: Value)
    requires
        s.contains(v),
    ensures
        0 <= first_idx(s, v) < s.len(),
        s[first_idx(s, v)] == v,
    decreases s.len(),
{
    if s.len() > 0 && s[0] != v {
        let t = s.drop_first();
        assert(t.contains(v)) by {
            let i = choose|i: int| 0 <= i < s.len() && s[i] == v;
            assert(t[i - 1] == v);
        }
        lemma_first_idx_in_range(t, v);
    }
}

pub proof fn lemma_first_idx_push(t: Seq<Value>, x: Value, v: Value)
    ensures
        t.contains(v) ==> first_idx(t.push(x), v) == first_idx(t, v),
        !t.contains(v) && v == x ==> first_idx(t.push(x), v) == t.len(),
    decreases t.len(),
{
    let s = t.push(x);
    if t.len() == 0 {
        assert(s.len() == 1 && s[0] == x);
        if t.contains(v) {
            let i = choose|i: int| 0 <= i < t.len() && t[i] == v;
            assert(false);
        }
    } else {
        if s[0] == v {
            if t.contains(v) || v == x {
                assert(t[0] == s[0]);
            }
        } else {
            assert(s.drop_first() =~= t.drop_first().push(x));
            lemma_first_idx_push(t.drop_first(), x, v);
            if t.contains(v) {
                assert(t[0] != v);
                assert(t.drop_first().contains(v)) by {
                    let i = choose|i: int| 0 <= i < t.len() && t[i] == v;
                    assert(t.drop_first()[i - 1] == v);
                }
            } else {
                assert(!t.drop_first().contains(v)) by {
                    if t.drop_first().contains(v) {
                        let i = choose|i: int|
                            0 <= i < t.drop_first().len() && t.drop_first()[i] == v;
                        assert(t[i + 1] == v);
                    }
                }
            }
        }
    }
}

/// The deduplicated column lists the distinct values in the order of
/// their first occurrence.
pub proof fn lemma_dedup_first_occurrence(s: Seq<Value>)
    ensures
        forall|i: int, j: int|
            0 <= i < j < dedup_stable(s).len() ==> first_idx(s, dedup_stable(s)[i]) < first_idx(
                s,
                dedup_stable(s)[j],
            ),
    decreases s.len(),
{
    if s.len() > 0 {
        let t = s.drop_last();
        let x = s.last();
        lemma_dedup_first_occurrence(t);
        lemma_dedup_contains(t);
        assert(s =~= t.push(x));
        let d = dedup_stable(s);
        let dt = dedup_stable(t);
        assert forall|i: int, j: int|
            0 <= i < j < d.len() implies first_idx(s, d[i]) < first_idx(s, d[j]) by {
            if t.contains(x) {
                assert(d == dt);
                assert(dt.contains(dt[i]) && dt.contains(dt[j]));
                assert(t.contains(d[i]) && t.contains(d[j]));
                lemma_first_idx_push(t, x, d[i]);
                lemma_first_idx_push(t, x, d[j]);
            } else {
                assert(d == dt.push(x));
                if j < dt.len() {
                    assert(d[i] == dt[i] && d[j] == dt[j]);
                    assert(dt.contains(dt[i]) && dt.contains(dt[j]));
                    assert(t.contains(d[i]) && t.contains(d[j]));
                    lemma_first_idx_push(t, x, d[i]);
                    lemma_first_idx_push(t, x, d[j]);
                } else {
                    assert(d[j] == x);
                    assert(d[i] == dt[i]);
                    assert(dt.contains(dt[i]));
                    assert(t.contains(d[i]));
                    lemma_first_idx_push(t, x, d[i]);
                    lemma_first_idx_push(t, x, x);
                    lemma_first_idx_in_range(t, d[i]);
                    assert(first_idx(s, d[j]) == t.len());
                }
            }
        }
    }
}

/// Truncating integer division (toward zero), for a positive divisor.
pub open spec fn trunc_div(a: int, b: int) -> int {
    if a >= 0 {
        a / b
    } else {
        -((-a) / b)
    }
}

/// The all-reduction of a boolean column: a type error if any cell is an
/// integer; false if any cell is false; else null if any cell is null;
/// else true.
pub open spec fn all_cell(s: Seq<Value>) -> Result<Value, EvalError> {
    if exists|i: int| 0 <= i < s.len() && (#[trigger] s[i]) is Int {
        Err(EvalError::TypeMismatch)
    } else if exists|i: int| 0 <= i < s.len() && (#[trigger] s[i]) == Value::Bool(false) {
        Ok(Value::Bool(false))
    } else if exists|i: int| 0 <= i < s.len() && (#[trigger] s[i]) is Null {
        Ok(Value::Null)
    } else {
        Ok(Value::Bool(true))
    }
}

/// The single cell an aggregation reduces a column to.
///
/// Numeric aggregations demand an integer column.  The sum of no values is
/// zero; the minimum, maximum and mean of no values are null; `count`
/// counts non-null cells; `n_distinct` counts distinct cells, null
/// included; `first` and `last` of an empty column are null.  Median,
/// variance, standard deviation and quantile need fractional arithmetic,
/// which the integral reference domain does not carry.
pub open spec fn agg_cell(op: AggOp, s: Seq<Value>) -> Result<Value, EvalError> {
    match op {
        AggOp::Sum | AggOp::Min | AggOp::Max | AggOp::Mean => if !all_int_or_null(s) {
            Err(EvalError::TypeMismatch)
        } else {
            Ok(
                match op {
                    AggOp::Sum => fit_i64(sum_ints(s)),
                    AggOp::Min => match min_opt(s, true) {
                        Some(m) => Value::Int(m),
                        None => Value::Null,
                    },
                    AggOp::Max => match min_opt(s, false) {
                        Some(m) => Value::Int(m),
                        None => Value::Null,
                    },
                    _ => if count_nonnull(s) == 0 {
                        Value::Null
                    } else {
                        fit_i64(trunc_div(sum_ints(s), count_nonnull(s)))
                    },
                },
            )
        },
        AggOp::Count => Ok(fit_i64(count_nonnull(s))),
        AggOp::NDistinct => Ok(fit_i64(dedup_stable(s).len() as int)),
        AggOp::First => Ok(
            if s.len() == 0 {
                Value::Null
            } else {
                s[0]
            },
        ),
        AggOp::Last => Ok(
            if s.len() == 0 {
                Value::Null
            } else {
                s.last()
            },
        ),
        AggOp::All => all_cell(s),
        AggOp::Median | AggOp::Var | AggOp::Std | AggOp::Quantile(_) => Err(
            EvalError::Unsupported,
        ),
    }
}

/// An aggregation as a column operation: a single-cell column.
pub open spec fn agg_col(op: AggOp, s: Seq<Value>) -> Result<Seq<Value>, EvalError> {
    match agg_cell(op, s) {
        Ok(c) => Ok(seq![c]),
        Err(e) => Err(e),
    }
}

pub proof fn lemma_sum_count_bounds(s: Seq<Value>)
    ensures
        0 <= count_nonnull(s) <= s.len(),
        -(s.len() as int) * i64_mag() <= sum_ints(s) <= (s.len() as int) * i64_mag(),
    decreases s.len(),
{
    if s.len() > 0 {
        lemma_sum_count_bounds(s.drop_last());
        let n = s.len() as int;
        assert(n * i64_mag() == (n - 1) * i64_mag() + i64_mag()) by (nonlinear_arith);
        assert(-n * i64_mag() == -(n - 1) * i64_mag() - i64_mag()) by (nonlinear_arith);
    }
}

fn sum_count_exec(v: &Vec<Value>) -> (r: (i128, usize))
    ensures
        r.0 == sum_ints(v@),
        r.1 == count_nonnull(v@),
{
    let mut total: i128 = 0;
    let mut cnt: usize = 0;
    let mut j: usize = 0;
    while j < v.len()
        invariant
            j <= v.len(),
            total == sum_ints(v@.subrange(0, j as int)),
            cnt == count_nonnull(v@.subrange(0, j as int)),
            cnt <= j,
        decreases v.len() - j,
    {
        proof {
            lemma_sum_count_bounds(v@.subrange(0, j as int));
            lemma_sum_count_bounds(v@.subrange(0, j as int + 1));
            assert((j as int) * i64_mag() <= 0xffffffffffffffff * i64_mag()) by (nonlinear_arith)
                requires
                    0 <= j <= 0xffffffffffffffff,
            ;
            assert((j as int + 1) * i64_mag() <= 0x10000000000000000 * i64_mag()) by (
            nonlinear_arith)
                requires
                    0 <= j + 1 <= 0x10000000000000000,
            ;
            assert(v@.subrange(0, j as int + 1).drop_last() =~= v@.subrange(0, j as int));
            assert(v@.subrange(0, j as int + 1).last() == v@[j as int]);
        }
        match v[j] {
            Value::Int(x) => {
                total = total + (x as i128);
                cnt = cnt + 1;
            },
            Value::Bool(_) => {
                cnt = cnt + 1;
            },
            Value::Null => {
            },
        }
        j = j + 1;
    }
    proof {
        assert(v@.subrange(0, v@.len() as int) =~= v@);
    }
    (total, cnt)
}

fn min_opt_exec(v: &Vec<Value>, is_min: bool) -> (r: Option<i64>)
    ensures
        r == min_opt(v@, is_min),
{
    let mut acc: Option<i64> = None;
    let mut j: usize = 0;
    while j < v.len()
        invariant
            j <= v.len(),
            acc == min_opt(v@.subrange(0, j as int), is_min),
        decreases v.len() - j,
    {
        proof {
            assert(v@.subrange(0, j as int + 1).drop_last() =~= v@.subrange(0, j as int));
            assert(v@.subrange(0, j as int + 1).last() == v@[j as int]);
        }
        match v[j] {
            Value::Int(x) => {
                acc = match acc {
                    None => Some(x),
                    Some(m) => if (is_min && x < m) || (!is_min && x > m) {
                        Some(x)
                    } else {
                        Some(m)
                    },
                };
            },
            _ => {
            },
        }
        j = j + 1;
    }
    proof {
        assert(v@.subrange(0, v@.len() as int) =~= v@);
    }
    acc
}

/// Whether the column already holds this cell.
pub fn contains_exec(v: &Vec<Value>, x: Value) -> (r: bool)
    ensures
        r == v@.contains(x),
{
    let mut j: usize = 0;
    while j < v.len()
        invariant
            j <= v.len(),
            forall|k: int| 0 <= k < j ==> v@[k] != x,
        decreases v.len() - j,
    {
        if v[j] == x {
            proof {
                assert(v@[j as int] == x);
            }
            return true;
        }
        j = j + 1;
    }
    proof {
        if v@.contains(x) {
            let i = choose|i: int| 0 <= i < v@.len() && v@[i] == x;
            assert(false);
        }
    }
    false
}

/// The distinct cells in first-occurrence order.
pub fn dedup_exec(v: &Vec<Value>) -> (r: Vec<Value>)
    ensures
        r@ == dedup_stable(v@),
{
    let mut out: Vec<Value> = Vec::new();
    let mut j: usize = 0;
    while j < v.len()
        invariant
            j <= v.len(),
            out@ == dedup_stable(v@.subrange(0, j as int)),
        decreases v.len() - j,
    {
        proof {
            assert(v@.subrange(0, j as int + 1).drop_last() =~= v@.subrange(0, j as int));
            assert(v@.subrange(0, j as int + 1).last() == v@[j as int]);
            lemma_dedup_contains(v@.subrange(0, j as int));
        }
        if !contains_exec(&out, v[j]) {
            out.push(v[j]);
        }
        j = j + 1;
    }
    proof {
        assert(v@.subrange(0, v@.len() as int) =~= v@);
    }
    out
}

fn all_exec(v: &Vec<Value>) -> (r: Result<Value, EvalError>)
    ensures
        r == all_cell(v@),
{
    let mut has_int: bool = false;
    let mut has_false: bool = false;
    let mut has_null: bool = false;
    let mut j: usize = 0;
    while j < v.len()
        invariant
            j <= v.len(),
            has_int == exists|k: int| 0 <= k < j && (#[trigger] v@[k]) is Int,
            has_false == exists|k: int| 0 <= k < j && (#[trigger] v@[k]) == Value::Bool(false),
            has_null == exists|k: int| 0 <= k < j && (#[trigger] v@[k]) is Null,
        decreases v.len() - j,
    {
        match v[j] {
            Value::Int(_) => {
                proof {
                    assert(v@[j as int] is Int);
                }
                has_int = true;
            },
            Value::Bool(b) => {
                if !b {
                    proof {
                        assert(v@[j as int] == Value::Bool(false));
                    }
                    has_false = true;
                }
            },
            Value::Null => {
                proof {
                    assert(v@[j as int] is Null);
                }
                has_null = true;
            },
        }
        j = j + 1;
    }
    if has_int {
        Err(EvalError::TypeMismatch)
    } else if has_false {
        Ok(Value::Bool(false))
    } else if has_null {
        Ok(Value::Null)
    } else {
        Ok(Value::Bool(true))
    }
}

/// Truncating division of the column sum by the non-null count, matching
/// `trunc_div` exactly.
fn mean_exec(total: i128, cnt: usize, len_bound: Ghost<int>) -> (r: Value)
    requires
        cnt >= 1,
        -(len_bound@) * i64_mag() <= total <= (len_bound@) * i64_mag(),
        0 <= len_bound@ <= 0xffffffffffffffff,
    ensures
        r == fit_i64(trunc_div(total as int, cnt as int)),
{
    proof {
        assert((len_bound@) * i64_mag() <= 0xffffffffffffffff * i64_mag()) by (nonlinear_arith)
            requires
                0 <= len_bound@ <= 0xffffffffffffffff,
        ;
    }
    let neg: bool = total < 0;
    let um: u128 = if neg {
        (-total) as u128
    } else {
        total as u128
    };
    let q: u128 = um / (cnt as u128);
    proof {
        assert(q <= um) by (nonlinear_arith)
            requires
                cnt >= 1,
                q == um as int / cnt as int,
                um >= 0,
        ;
    }
    let qi: i128 = if neg {
        -(q as i128)
    } else {
        q as i128
    };
    proof {
        if neg {
            assert(trunc_div(total as int, cnt as int) == -((-(total as int)) / (cnt as int)));
            assert(qi == trunc_div(total as int, cnt as int));
        } else {
            assert(trunc_div(total as int, cnt as int) == (total as int) / (cnt as int));
        }
    }
    fit_exec(qi)
}

/// Runs an aggregation, producing a single-cell column.
pub fn agg_col_exec(op: AggOp, v: &Vec<Value>) -> (r: Result<Vec<Value>, EvalError>)
    ensures
        match r {
            Ok(out) => agg_col(op, v@) == Ok::<Seq<Value>, EvalError>(out@),
            Err(e) => agg_col(op, v@) == Err::<Seq<Value>, EvalError>(e),
        },
{
    let cell: Value = match op {
        AggOp::Sum | AggOp::Min | AggOp::Max | AggOp::Mean => {
            if !all_int_or_null_exec(v) {
                return Err(EvalError::TypeMismatch);
            }
            match op {
                AggOp::Sum => {
                    let (total, _) = sum_count_exec(v);
                    proof {
                        lemma_sum_count_bounds(v@);
                    }
                    fit_exec(total)
                },
                AggOp::Min => match min_opt_exec(v, true) {
                    Some(m) => Value::Int(m),
                    None => Value::Null,
                },
                AggOp::Max => match min_opt_exec(v, false) {
                    Some(m) => Value::Int(m),
                    None => Value::Null,
                },
                _ => {
                    let (total, cnt) = sum_count_exec(v);
                    proof {
                        lemma_sum_count_bounds(v@);
                    }
                    let n = v.len();
                    if cnt == 0 {
                        Value::Null
                    } else {
                        mean_exec(total, cnt, Ghost(n as int))
                    }
                },
            }
        },
        AggOp::Count => {
            let (_, cnt) = sum_count_exec(v);
            proof {
                lemma_sum_count_bounds(v@);
            }
            if (cnt as u128) <= i64::MAX as u128 {
                Value::Int(cnt as i64)
            } else {
                Value::Null
            }
        },
        AggOp::NDistinct => {
            let d = dedup_exec(v);
            if (d.len() as u128) <= i64::MAX as u128 {
                Value::Int(d.len() as i64)
            } else {
                Value::Null
            }
        },
        AggOp::First => {
            if v.len() == 0 {
                Value::Null
            } else {
                v[0]
            }
        },
        AggOp::Last => {
            if v.len() == 0 {
                Value::Null
            } else {
                v[v.len() - 1]
            }
        },
        AggOp::All => {
            match all_exec(v) {
                Ok(c) => c,
                Err(e) => {
                    return Err(e);
                },
            }
        },
        AggOp::Median | AggOp::Var | AggOp::Std | AggOp::Quantile(_) => {
            return Err(EvalError::Unsupported);
        },
    };
    let mut out: Vec<Value> = Vec::new();
    out.push(cell);
    proof {
        assert(out@ =~= seq![cell]);
    }
    Ok(out)
}

// ---------------------------------------------------------------------------
// Sorting.
// ---------------------------------------------------------------------------

/// Whether the cell `a` may come at or before `b` in the requested order:
/// values by their key, ascending or descending, and nulls all first or
/// all last.
pub open spec fn vle(a: Value, b: Value, desc: bool, nulls_last: bool) -> bool {
    match (a, b) {
        (Value::Null, Value::Null) => true,
        (Value::Null, _) => !nulls_last,
        (_, Value::Null) => nulls_last,
        _ => if desc {
            cell_key(a) >= cell_key(b)
        } else {
            cell_key(a) <= cell_key(b)
        },
    }
}

fn vle_exec(a: Value, b: Value, desc: bool, nulls_last: bool) -> (r: bool)
    ensures
        r == vle(a, b, desc, nulls_last),
{
    match (a, b) {
        (Value::Null, Value::Null) => true,
        (Value::Null, _) => !nulls_last,
        (_, Value::Null) => nulls_last,
        _ => {
            let ka: i64 = match a {
                Value::Int(x) => x,
                Value::Bool(bb) => if bb {
                    1
                } else {
                    0
                },
                Value::Null => 0,
            };
            let kb: i64 = match b {
                Value::Int(x) => x,
                Value::Bool(bb) => if bb {
                    1
                } else {
                    0
                },
                Value::Null => 0,
            };
            if desc {
                ka >= kb
            } else {
                ka <= kb
            }
        },
    }
}

/// How many leading entries of the order sort at or before index `j`:
/// the stable insertion point for `j`.
pub open spec fn prefix_le_len(
    ord: Seq<usize>,
    s: Seq<Value>,
    j: usize,
    desc: bool,
    nulls_last: bool,
) -> int
    decreases ord.len(),
{
    if ord.len() == 0 {
        0
    } else if vle(s[ord[0] as int], s[j as int], desc, nulls_last) {
        1 + prefix_le_len(ord.drop_first(), s, j, desc, nulls_last)
    } else {
        0
    }
}

pub proof fn lemma_prefix_le_len_char(
    ord: Seq<usize>,
    s: Seq<Value>,
    j: usize,
    desc: bool,
    nulls_last: bool,
    p: int,
)
    requires
        0 <= p <= ord.len(),
        forall|k: int| 0 <= k < p ==> vle(s[#[trigger] ord[k] as int], s[j as int], desc, nulls_last),
        p < ord.len() ==> !vle(s[ord[p] as int], s[j as int], desc, nulls_last),
    ensures
        p == prefix_le_len(ord, s, j, desc, nulls_last),
    decreases ord.len(),
{
    if ord.len() > 0 {
        if vle(s[ord[0] as int], s[j as int], desc, nulls_last) {
            assert(p >= 1);
            let tail = ord.drop_first();
            assert(forall|k: int| 0 <= k < p - 1 ==> #[trigger] tail[k] == ord[k + 1]);
            lemma_prefix_le_len_char(tail, s, j, desc, nulls_last, p - 1);
        } else {
            assert(p == 0) by {
                if p >= 1 {
                    assert(vle(s[ord[0] as int], s[j as int], desc, nulls_last));
                }
            }
        }
    }
}

/// The stable-insertion order of the first `m` indices of the column.
pub open spec fn arg_order_upto(
    s: Seq<Value>,
    m: int,
    desc: bool,
    nulls_last: bool,
) -> Seq<usize>
    decreases m,
{
    if m <= 0 {
        Seq::empty()
    } else {
        let prev = arg_order_upto(s, m - 1, desc, nulls_last);
        prev.insert(
            prefix_le_len(prev, s, (m - 1) as usize, desc, nulls_last),
            (m - 1) as usize,
        )
    }
}

/// The index permutation of a stable sort of the column.
pub open spec fn arg_order(s: Seq<Value>, desc: bool, nulls_last: bool) -> Seq<usize> {
    arg_order_upto(s, s.len() as int, desc, nulls_last)
}

pub proof fn lemma_arg_order_upto_props(s: Seq<Value>, m: int, desc: bool, nulls_last: bool)
    requires
        0 <= m,
    ensures
        arg_order_upto(s, m, desc, nulls_last).len() == m,
        forall|k: int|
            0 <= k < m ==> (#[trigger] arg_order_upto(s, m, desc, nulls_last)[k]) < m,
    decreases m,
{
    if m > 0 {
        lemma_arg_order_upto_props(s, m - 1, desc, nulls_last);
        let prev = arg_order_upto(s, m - 1, desc, nulls_last);
        let p = prefix_le_len(prev, s, (m - 1) as usize, desc, nulls_last);
        lemma_prefix_le_len_bounds(prev, s, (m - 1) as usize, desc, nulls_last);
        let cur = prev.insert(p, (m - 1) as usize);
        assert forall|k: int| 0 <= k < m implies (#[trigger] cur[k]) < m by {
            if k < p {
                assert(cur[k] == prev[k]);
            } else if k == p {
                assert(cur[k] == (m - 1) as usize);
            } else {
                assert(cur[k] == prev[k - 1]);
            }
        }
    }
}

pub proof fn lemma_prefix_le_len_bounds(
    ord: Seq<usize>,
    s: Seq<Value>,
    j: usize,
    desc: bool,
    nulls_last: bool,
)
    ensures
        0 <= prefix_le_len(ord, s, j, desc, nulls_last) <= ord.len(),
    decreases ord.len(),
{
    if ord.len() > 0 {
        lemma_prefix_le_len_bounds(ord.drop_first(), s, j, desc, nulls_last);
    }
}

/// The stable sorting permutation of the column, computed by insertion.
pub fn arg_order_exec(v: &Vec<Value>, desc: bool, nulls_last: bool) -> (ord: Vec<usize>)
    ensures
        ord@ == arg_order(v@, desc, nulls_last),
        ord@.len() == v@.len(),
        forall|k: int| 0 <= k < ord@.len() ==> (#[trigger] ord@[k]) < v@.len(),
{
    let mut ord: Vec<usize> = Vec::new();
    let mut j: usize = 0;
    while j < v.len()
        invariant
            j <= v.len(),
            ord@ == arg_order_upto(v@, j as int, desc, nulls_last),
            ord@.len() == j,
            forall|k: int| 0 <= k < j ==> (#[trigger] ord@[k]) < j,
        decreases v.len() - j,
    {
        let mut p: usize = 0;
        let mut stop: bool = false;
        while p < ord.len() && !stop
            invariant
                p <= ord.len(),
                ord@.len() == j,
                j < v@.len(),
                forall|k: int| 0 <= k < j ==> (#[trigger] ord@[k]) < j,
                forall|k: int|
                    0 <= k < p ==> vle(
                        v@[#[trigger] ord@[k] as int],
                        v@[j as int],
                        desc,
                        nulls_last,
                    ),
                stop ==> p < ord@.len() && !vle(
                    v@[ord@[p as int] as int],
                    v@[j as int],
                    desc,
                    nulls_last,
                ),
            decreases ord.len() - p, 1int + if stop {
                0int
            } else {
                1int
            },
    
        {
            if vle_exec(v[ord[p]], v[j], desc, nulls_last) {
                p = p + 1;
            } else {
                stop = true;
            }
        }
        proof {
            lemma_prefix_le_len_char(ord@, v@, j, desc, nulls_last, p as int);
        }
        ord.insert(p, j);
        j = j + 1;
        proof {
            lemma_arg_order_upto_props(v@, j as int, desc, nulls_last);
        }
    }
    ord
}


pub proof fn lemma_vle_total(a: Value, b: Value, desc: bool, nulls_last: bool)
    ensures
        vle(a, b, desc, nulls_last) || vle(b, a, desc, nulls_last),
        vle(a, a, desc, nulls_last),
{
}

pub proof fn lemma_vle_trans(a: Value, b: Value, c: Value, desc: bool, nulls_last: bool)
    requires
        vle(a, b, desc, nulls_last),
        vle(b, c, desc, nulls_last),
    ensures
        vle(a, c, desc, nulls_last),
{
}

proof fn lemma_prefix_le_len_props(
    ord: Seq<usize>,
    s: Seq<Value>,
    j: usize,
    desc: bool,
    nulls_last: bool,
)
    ensures
        forall|k: int|
            0 <= k < prefix_le_len(ord, s, j, desc, nulls_last) ==> vle(
                s[#[trigger] ord[k] as int],
                s[j as int],
                desc,
                nulls_last,
            ),
        prefix_le_len(ord, s, j, desc, nulls_last) < ord.len() ==> !vle(
            s[ord[prefix_le_len(ord, s, j, desc, nulls_last)] as int],
            s[j as int],
            desc,
            nulls_last,
        ),
    decreases ord.len(),
{
    lemma_prefix_le_len_bounds(ord, s, j, desc, nulls_last);
    if ord.len() > 0 {
        let tail = ord.drop_first();
        lemma_prefix_le_len_props(tail, s, j, desc, nulls_last);
        lemma_prefix_le_len_bounds(tail, s, j, desc, nulls_last);
        assert(forall|k: int| 0 <= k < ord.len() - 1 ==> (#[trigger] tail[k]) == ord[k + 1]);
        let p = prefix_le_len(ord, s, j, desc, nulls_last);
        if vle(s[ord[0] as int], s[j as int], desc, nulls_last) {
            let pt = prefix_le_len(tail, s, j, desc, nulls_last);
            assert(p == 1 + pt);
            assert forall|k: int| 0 <= k < p implies vle(
                s[#[trigger] ord[k] as int],
                s[j as int],
                desc,
                nulls_last,
            ) by {
                if k > 0 {
                    assert(tail[k - 1] == ord[k]);
                    assert(vle(s[tail[k - 1] as int], s[j as int], desc, nulls_last));
                }
            }
            if p < ord.len() {
                assert(tail[pt] == ord[p]);
            }
        } else {
            assert(p == 0);
        }
    }
}

/// The stable sorting permutation visits each position exactly once.
pub proof fn lemma_arg_order_distinct(s: Seq<Value>, m: int, desc: bool, nulls_last: bool)
    requires
        0 <= m <= usize::MAX + 1,
    ensures
        forall|k1: int, k2: int|
            0 <= k1 < k2 < m ==> arg_order_upto(s, m, desc, nulls_last)[k1] != arg_order_upto(
                s,
                m,
                desc,
                nulls_last,
            )[k2],
    decreases m,
{
    if m > 0 {
        lemma_arg_order_distinct(s, m - 1, desc, nulls_last);
        lemma_arg_order_upto_props(s, m - 1, desc, nulls_last);
        let prev = arg_order_upto(s, m - 1, desc, nulls_last);
        let jn: usize = (m - 1) as usize;
        let p = prefix_le_len(prev, s, jn, desc, nulls_last);
        lemma_prefix_le_len_bounds(prev, s, jn, desc, nulls_last);
        prev.insert_ensures(p, jn);
        let cur = arg_order_upto(s, m, desc, nulls_last);
        assert(cur == prev.insert(p, jn));
        assert forall|k1: int, k2: int| 0 <= k1 < k2 < m implies cur[k1] != cur[k2] by {
            let a: usize = if k1 < p {
                prev[k1]
            } else if k1 == p {
                jn
            } else {
                prev[k1 - 1]
            };
            assert(cur[k1] == a);
            let b: usize = if k2 < p {
                prev[k2]
            } else if k2 == p {
                jn
            } else {
                prev[k2 - 1]
            };
            assert(cur[k2] == b);
        }
    }
}

/// The stable sorting permutation lists the cells in order.
#[verifier::rlimit(100)]
pub proof fn lemma_arg_order_sorted(s: Seq<Value>, m: int, desc: bool, nulls_last: bool)
    requires
        0 <= m <= s.len(),
        m <= usize::MAX + 1,
    ensures
        forall|k1: int, k2: int|
            0 <= k1 < k2 < m ==> vle(
                s[#[trigger] arg_order_upto(s, m, desc, nulls_last)[k1] as int],
                s[#[trigger] arg_order_upto(s, m, desc, nulls_last)[k2] as int],
                desc,
                nulls_last,
            ),
    decreases m,
{
    if m > 0 {
        lemma_arg_order_sorted(s, m - 1, desc, nulls_last);
        lemma_arg_order_upto_props(s, m - 1, desc, nulls_last);
        let prev = arg_order_upto(s, m - 1, desc, nulls_last);
        let jn: usize = (m - 1) as usize;
        let p = prefix_le_len(prev, s, jn, desc, nulls_last);
        lemma_prefix_le_len_bounds(prev, s, jn, desc, nulls_last);
        lemma_prefix_le_len_props(prev, s, jn, desc, nulls_last);
        prev.insert_ensures(p, jn);
        let cur = arg_order_upto(s, m, desc, nulls_last);
        assert(cur == prev.insert(p, jn));
        assert forall|k1: int, k2: int| 0 <= k1 < k2 < m implies vle(
            s[#[trigger] cur[k1] as int],
            s[#[trigger] cur[k2] as int],
            desc,
            nulls_last,
        ) by {
            let a: usize = if k1 < p {
                prev[k1]
            } else if k1 == p {
                jn
            } else {
                prev[k1 - 1]
            };
            assert(cur[k1] == a);
            let b: usize = if k2 < p {
                prev[k2]
            } else if k2 == p {
                jn
            } else {
                prev[k2 - 1]
            };
            assert(cur[k2] == b);
            if k1 < p && k2 == p {
            } else if k1 == p && k2 > p {
                assert(!vle(s[prev[p] as int], s[jn as int], desc, nulls_last));
                lemma_vle_total(s[prev[p] as int], s[jn as int], desc, nulls_last);
                assert(vle(s[jn as int], s[prev[p] as int], desc, nulls_last));
                if k2 - 1 > p {
                    lemma_vle_trans(
                        s[jn as int],
                        s[prev[p] as int],
                        s[prev[k2 - 1] as int],
                        desc,
                        nulls_last,
                    );
                }
            } else if k1 < p && k2 > p {
            }
        }
    }
}

/// The cells of `s` picked out by an index order.
pub open spec fn gather_idx(s: Seq<Value>, ord: Seq<usize>) -> Seq<Value> {
    Seq::new(ord.len(), |i: int| s[ord[i] as int])
}

pub fn gather_exec(v: &Vec<Value>, ord: &Vec<usize>) -> (r: Vec<Value>)
    requires
        forall|k: int| 0 <= k < ord@.len() ==> (#[trigger] ord@[k]) < v@.len(),
    ensures
        r@ == gather_idx(v@, ord@),
{
    let mut out: Vec<Value> = Vec::new();
    let mut j: usize = 0;
    while j < ord.len()
        invariant
            j <= ord@.len(),
            forall|k: int| 0 <= k < ord@.len() ==> (#[trigger] ord@[k]) < v@.len(),
            out@.len() == j,
            forall|k: int| 0 <= k < j ==> out@[k] == v@[#[trigger] ord@[k] as int],
        decreases ord.len() - j,
    {
        out.push(v[ord[j]]);
        j = j + 1;
    }
    proof {
        assert(out@ =~= gather_idx(v@, ord@));
    }
    out
}

/// The sorted column: the cells gathered through the stable sorting
/// permutation, with nulls last.
pub open spec fn sort_vals(s: Seq<Value>, desc: bool) -> Seq<Value> {
    gather_idx(s, arg_order(s, desc, true))
}

/// The argsort column: the stable sorting permutation itself, with nulls
/// first, as integer cells.
pub open spec fn argsort_vals(s: Seq<Value>, desc: bool) -> Seq<Value> {
    Seq::new(s.len(), |i: int| fit_i64(arg_order(s, desc, false)[i] as int))
}

/// Sorting demands a typed column.
pub open spec fn sort_col(s: Seq<Value>, desc: bool) -> Result<Seq<Value>, EvalError> {
    if !homogeneous(s) {
        Err(EvalError::TypeMismatch)
    } else {
        Ok(sort_vals(s, desc))
    }
}

pub open spec fn argsort_col(s: Seq<Value>, desc: bool) -> Result<Seq<Value>, EvalError> {
    if !homogeneous(s) {
        Err(EvalError::TypeMismatch)
    } else {
        Ok(argsort_vals(s, desc))
    }
}

pub fn sort_col_exec(v: &Vec<Value>, desc: bool) -> (r: Result<Vec<Value>, EvalError>)
    ensures
        match r {
            Ok(out) => sort_col(v@, desc) == Ok::<Seq<Value>, EvalError>(out@),
            Err(e) => sort_col(v@, desc) == Err::<Seq<Value>, EvalError>(e),
        },
{
    if !all_int_or_null_exec(v) && !all_bool_or_null_exec(v) {
        return Err(EvalError::TypeMismatch);
    }
    let ord = arg_order_exec(v, desc, true);
    Ok(gather_exec(v, &ord))
}

pub fn argsort_col_exec(v: &Vec<Value>, desc: bool) -> (r: Result<Vec<Value>, EvalError>)
    ensures
        match r {
            Ok(out) => argsort_col(v@, desc) == Ok::<Seq<Value>, EvalError>(out@),
            Err(e) => argsort_col(v@, desc) == Err::<Seq<Value>, EvalError>(e),
        },
{
    if !all_int_or_null_exec(v) && !all_bool_or_null_exec(v) {
        return Err(EvalError::TypeMismatch);
    }
    let ord = arg_order_exec(v, desc, false);
    let mut out: Vec<Value> = Vec::new();
    let mut j: usize = 0;
    while j < ord.len()
        invariant
            j <= ord@.len(),
            ord@ == arg_order(v@, desc, false),
            ord@.len() == v@.len(),
            out@.len() == j,
            forall|k: int| 0 <= k < j ==> out@[k] == fit_i64(#[trigger] ord@[k] as int),
        decreases ord.len() - j,
    {
        let idx = ord[j];
        if (idx as u128) <= i64::MAX as u128 {
            out.push(Value::Int(idx as i64));
        } else {
            out.push(Value::Null);
        }
        j = j + 1;
    }
    proof {
        assert(out@ =~= argsort_vals(v@, desc));
    }
    Ok(out)
}

// ---------------------------------------------------------------------------
// Rolling windows.
// ---------------------------------------------------------------------------

/// How far a window's trailing edge is shifted forward when it is
/// centered on the current index.
pub open spec fn win_shift(size: usize, center: bool) -> int {
    if center {
        (size / 2) as int
    } else {
        0
    }
}

/// First index of the window at `i` (clamped to the column).
pub open spec fn win_lo(i: int, size: usize, center: bool) -> int {
    let raw = i + win_shift(size, center) - (size as int) + 1;
    if raw < 0 {
        0
    } else {
        raw
    }
}

/// Last index of the window at `i` (clamped to the column).
pub open spec fn win_hi(i: int, n: int, size: usize, center: bool) -> int {
    let raw = i + win_shift(size, center);
    if raw > n - 1 {
        n - 1
    } else {
        raw
    }
}

/// Non-null count over the inclusive index range.
pub open spec fn range_count(s: Seq<Value>, lo: int, hi: int) -> int
    decreases hi - lo + 1,
{
    if hi < lo {
        0
    } else {
        range_count(s, lo, hi - 1) + if s[hi] is Null {
            0int
        } else {
            1int
        }
    }
}

/// Sum of the integer cells over the inclusive index range.
pub open spec fn range_sum(s: Seq<Value>, lo: int, hi: int) -> int
    decreases hi - lo + 1,
{
    if hi < lo {
        0
    } else {
        range_sum(s, lo, hi - 1) + match s[hi] {
            Value::Int(x) => x as int,
            _ => 0int,
        }
    }
}

/// Minimum (or maximum) of the integer cells over the inclusive range.
pub open spec fn range_minmax(s: Seq<Value>, lo: int, hi: int, is_min: bool) -> Option<i64>
    decreases hi - lo + 1,
{
    if hi < lo {
        None
    } else {
        let prev = range_minmax(s, lo, hi - 1, is_min);
        match s[hi] {
            Value::Int(x) => match prev {
                None => Some(x),
                Some(m) => if (is_min && x < m) || (!is_min && x > m) {
                    Some(x)
                } else {
                    Some(m)
                },
            },
            _ => prev,
        }
    }
}

/// The cell a rolling reduction produces at index `i`: null when fewer
/// than `min_periods` non-null values fall in the window, else the
/// reduction over the window's non-null values.
pub open spec fn win_cell(
    op: crate::expr::WindowOp,
    s: Seq<Value>,
    i: int,
    size: usize,
    min_periods: usize,
    center: bool,
) -> Value {
    let lo = win_lo(i, size, center);
    let hi = win_hi(i, s.len() as int, size, center);
    let c = range_count(s, lo, hi);
    if c < min_periods {
        Value::Null
    } else {
        match op {
            crate::expr::WindowOp::WinSum => fit_i64(range_sum(s, lo, hi)),
            crate::expr::WindowOp::WinMean => if c == 0 {
                Value::Null
            } else {
                fit_i64(trunc_div(range_sum(s, lo, hi), c))
            },
            crate::expr::WindowOp::WinMin => match range_minmax(s, lo, hi, true) {
                Some(m) => Value::Int(m),
                None => Value::Null,
            },
            crate::expr::WindowOp::WinMax => match range_minmax(s, lo, hi, false) {
                Some(m) => Value::Int(m),
                None => Value::Null,
            },
        }
    }
}

/// A rolling reduction over the whole column; demands an integer column.
pub open spec fn win_col(
    op: crate::expr::WindowOp,
    s: Seq<Value>,
    size: usize,
    min_periods: usize,
    center: bool,
) -> Result<Seq<Value>, EvalError> {
    if !all_int_or_null(s) {
        Err(EvalError::TypeMismatch)
    } else {
        Ok(Seq::new(s.len(), |i: int| win_cell(op, s, i, size, min_periods, center)))
    }
}

pub proof fn lemma_range_bounds(s: Seq<Value>, lo: int, hi: int)
    requires
        0 <= lo,
        hi < s.len(),
    ensures
        0 <= range_count(s, lo, hi) <= if hi < lo {
            0int
        } else {
            hi - lo + 1
        },
        -(if hi < lo {
            0int
        } else {
            hi - lo + 1
        }) * i64_mag() <= range_sum(s, lo, hi) <= (if hi < lo {
            0int
        } else {
            hi - lo + 1
        }) * i64_mag(),
    decreases hi - lo + 1,
{
    if hi >= lo {
        lemma_range_bounds(s, lo, hi - 1);
        let w = hi - lo + 1;
        assert(w * i64_mag() == (w - 1) * i64_mag() + i64_mag()) by (nonlinear_arith);
        assert(-w * i64_mag() == -(w - 1) * i64_mag() - i64_mag()) by (nonlinear_arith);
    }
}

fn win_range_exec(v: &Vec<Value>, lo: usize, hi_plus_one: usize) -> (r: (i128, usize, Option<
    i64,
>, Option<i64>))
    requires
        hi_plus_one <= v@.len(),
    ensures
        r.0 == range_sum(v@, lo as int, hi_plus_one as int - 1),
        r.1 == range_count(v@, lo as int, hi_plus_one as int - 1),
        r.2 == range_minmax(v@, lo as int, hi_plus_one as int - 1, true),
        r.3 == range_minmax(v@, lo as int, hi_plus_one as int - 1, false),
{
    let mut total: i128 = 0;
    let mut cnt: usize = 0;
    let mut mn: Option<i64> = None;
    let mut mx: Option<i64> = None;
    let mut j: usize = lo;
    if lo >= hi_plus_one {
        return (total, cnt, mn, mx);
    }
    while j < hi_plus_one
        invariant
            lo <= j <= hi_plus_one <= v@.len(),
            total == range_sum(v@, lo as int, j as int - 1),
            cnt == range_count(v@, lo as int, j as int - 1),
            mn == range_minmax(v@, lo as int, j as int - 1, true),
            mx == range_minmax(v@, lo as int, j as int - 1, false),
            cnt <= j - lo,
        decreases hi_plus_one - j,
    {
        proof {
            lemma_range_bounds(v@, lo as int, j as int - 1);
            lemma_range_bounds(v@, lo as int, j as int);
            assert((j as int - lo as int + 1) * i64_mag() <= 0x10000000000000000 * i64_mag()) by (
            nonlinear_arith)
                requires
                    0 <= j as int - lo as int + 1 <= 0x10000000000000000,
            ;
        }
        match v[j] {
            Value::Int(x) => {
                total = total + (x as i128);
                cnt = cnt + 1;
                mn = match mn {
                    None => Some(x),
                    Some(m) => if x < m {
                        Some(x)
                    } else {
                        Some(m)
                    },
                };
                mx = match mx {
                    None => Some(x),
                    Some(m) => if x > m {
                        Some(x)
                    } else {
                        Some(m)
                    },
                };
            },
            Value::Bool(_) => {
                cnt = cnt + 1;
            },
            Value::Null => {
            },
        }
        j = j + 1;
    }
    (total, cnt, mn, mx)
}

/// Runs a rolling reduction over the column.
pub fn win_col_exec(
    op: crate::expr::WindowOp,
    v: &Vec<Value>,
    size: usize,
    min_periods: usize,
    center: bool,
) -> (r: Result<Vec<Value>, EvalError>)
    ensures
        match r {
            Ok(out) => win_col(op, v@, size, min_periods, center) == Ok::<Seq<Value>, EvalError>(
                out@,
            ),
            Err(e) => win_col(op, v@, size, min_periods, center) == Err::<Seq<Value>, EvalError>(
                e,
            ),
        },
{
    if !all_int_or_null_exec(v) {
        return Err(EvalError::TypeMismatch);
    }
    let n: usize = v.len();
    let shift: usize = if center {
        size / 2
    } else {
        0
    };
    let mut out: Vec<Value> = Vec::new();
    let mut i: usize = 0;
    while i < n
        invariant
            i <= n,
            n == v@.len(),
            shift as int == win_shift(size, center),
            out@.len() == i,
            forall|k: int|
                0 <= k < i ==> out@[k] == win_cell(op, v@, k, size, min_periods, center),
        decreases n - i,
    {
        let hi_raw: i128 = i as i128 + shift as i128;
        let hi: usize = if hi_raw > (n - 1) as i128 {
            n - 1
        } else {
            hi_raw as usize
        };
        let lo_raw: i128 = i as i128 + shift as i128 - size as i128 + 1;
        let lo: usize = if lo_raw < 0 {
            0
        } else if lo_raw > n as i128 {
            n
        } else {
            lo_raw as usize
        };
        proof {
            assert(lo as int == win_lo(i as int, size, center) || (win_lo(
                i as int,
                size,
                center,
            ) > n && lo == n));
            assert(hi as int == win_hi(i as int, n as int, size, center));
        }
        let hi_plus_one: usize = if lo > hi {
            lo
        } else {
            hi + 1
        };
        let (total, cnt, mn, mx) = win_range_exec(v, lo, hi_plus_one);
        proof {
            let slo = win_lo(i as int, size, center);
            let shi = win_hi(i as int, n as int, size, center);
            if lo > hi {
                assert(shi < slo);
                assert(range_count(v@, slo, shi) == 0);
                assert(range_sum(v@, slo, shi) == 0);
                assert(range_minmax(v@, slo, shi, true) is None);
                assert(range_minmax(v@, slo, shi, false) is None);
                assert(range_count(v@, lo as int, hi_plus_one as int - 1) == 0);
                assert(range_sum(v@, lo as int, hi_plus_one as int - 1) == 0);
            }
            lemma_range_bounds(v@, lo as int, hi_plus_one as int - 1);
        }
        let cell: Value = if cnt < min_periods {
            Value::Null
        } else {
            match op {
                crate::expr::WindowOp::WinSum => fit_exec(total),
                crate::expr::WindowOp::WinMean => {
                    if cnt == 0 {
                        Value::Null
                    } else {
                        mean_exec(total, cnt, Ghost(hi_plus_one as int - lo as int))
                    }
                },
                crate::expr::WindowOp::WinMin => match mn {
                    Some(m) => Value::Int(m),
                    None => Value::Null,
                },
                crate::expr::WindowOp::WinMax => match mx {
                    Some(m) => Value::Int(m),
                    None => Value::Null,
                },
            }
        };
        out.push(cell);
        i = i + 1;
    }
    proof {
        assert(out@ =~= Seq::new(
            v@.len(),
            |k: int| win_cell(op, v@, k, size, min_periods, center),
        ));
    }
    Ok(out)
}

// ---------------------------------------------------------------------------
// Conditional selection.
// ---------------------------------------------------------------------------

/// The length of a three-way conditional's result.
pub open spec fn cond_out_len(p: Seq<Value>, t: Seq<Value>, o: Seq<Value>) -> nat {
    if p.len() != 1 {
        p.len()
    } else if t.len() != 1 {
        t.len()
    } else {
        o.len()
    }
}

/// Three lengths are compatible when each equals the output length or is
/// one.
pub open spec fn cond_len_ok(p: Seq<Value>, t: Seq<Value>, o: Seq<Value>) -> bool {
    let n = cond_out_len(p, t, o);
    &&& (p.len() == n || p.len() == 1)
    &&& (t.len() == n || t.len() == 1)
    &&& (o.len() == n || o.len() == 1)
}

/// The cell a conditional selects at `i`: the `then` cell under a true
/// predicate, the `otherwise` cell under a false one, null under a null
/// one.
pub open spec fn cond_cell(pc: Value, tc: Value, oc: Value) -> Value {
    match pc {
        Value::Bool(true) => tc,
        Value::Bool(false) => oc,
        _ => Value::Null,
    }
}

/// The three-way conditional over columns: a length error on incompatible
/// lengths, a type error if any predicate cell is an integer.
pub open spec fn cond_col(p: Seq<Value>, t: Seq<Value>, o: Seq<Value>) -> Result<
    Seq<Value>,
    EvalError,
> {
    if !cond_len_ok(p, t, o) {
        Err(EvalError::LengthMismatch)
    } else if exists|i: int| 0 <= i < cond_out_len(p, t, o) && (#[trigger] bcast(p, i)) is Int {
        Err(EvalError::TypeMismatch)
    } else {
        Ok(
            Seq::new(
                cond_out_len(p, t, o),
                |i: int| cond_cell(bcast(p, i), bcast(t, i), bcast(o, i)),
            ),
        )
    }
}

pub fn cond_col_exec(p: &Vec<Value>, t: &Vec<Value>, o: &Vec<Value>) -> (r: Result<
    Vec<Value>,
    EvalError,
>)
    ensures
        match r {
            Ok(out) => cond_col(p@, t@, o@) == Ok::<Seq<Value>, EvalError>(out@),
            Err(e) => cond_col(p@, t@, o@) == Err::<Seq<Value>, EvalError>(e),
        },
{
    let n: usize = if p.len() != 1 {
        p.len()
    } else if t.len() != 1 {
        t.len()
    } else {
        o.len()
    };
    if !((p.len() == n || p.len() == 1) && (t.len() == n || t.len() == 1) && (o.len() == n
        || o.len() == 1)) {
        return Err(EvalError::LengthMismatch);
    }
    let mut out: Vec<Value> = Vec::new();
    let mut j: usize = 0;
    while j < n
        invariant
            j <= n,
            n == cond_out_len(p@, t@, o@),
            cond_len_ok(p@, t@, o@),
            p@.len() == 1 || n == p@.len(),
            t@.len() == 1 || n == t@.len(),
            o@.len() == 1 || n == o@.len(),
            out@.len() == j,
            forall|k: int|
                0 <= k < j ==> !((#[trigger] bcast(p@, k)) is Int) && out@[k] == cond_cell(
                    bcast(p@, k),
                    bcast(t@, k),
                    bcast(o@, k),
                ),
        decreases n - j,
    {
        let pc: Value = if p.len() == 1 {
            p[0]
        } else {
            p[j]
        };
        let tc: Value = if t.len() == 1 {
            t[0]
        } else {
            t[j]
        };
        let oc: Value = if o.len() == 1 {
            o[0]
        } else {
            o[j]
        };
        match pc {
            Value::Int(_) => {
                proof {
                    assert(bcast(p@, j as int) is Int);
                }
                return Err(EvalError::TypeMismatch);
            },
            Value::Bool(b) => {
                out.push(if b {
                    tc
                } else {
                    oc
                });
            },
            Value::Null => {
                out.push(Value::Null);
            },
        }
        j = j + 1;
    }
    proof {
        assert(out@ =~= Seq::new(
            cond_out_len(p@, t@, o@),
            |i: int| cond_cell(bcast(p@, i), bcast(t@, i), bcast(o@, i)),
        ));
    }
    Ok(out)
}

// ---------------------------------------------------------------------------
// Casts and shape.
// ---------------------------------------------------------------------------

/// A cast of one cell to the integer type: booleans become zero or one.
pub open spec fn cast_int_cell(v: Value) -> Value {
    match v {
        Value::Bool(b) => Value::Int(
            if b {
                1
            } else {
                0
            },
        ),
        _ => v,
    }
}

/// A cast of one cell to the boolean type: a non-zero integer is true.
pub open spec fn cast_bool_cell(v: Value) -> Value {
    match v {
        Value::Int(x) => Value::Bool(x != 0),
        _ => v,
    }
}

/// A cast over a column.  The integral reference domain carries integer
/// and boolean targets; fractional, textual and temporal targets are
/// outside it.
pub open spec fn cast_col(dt: crate::value::DType, s: Seq<Value>) -> Result<
    Seq<Value>,
    EvalError,
> {
    match dt {
        crate::value::DType::Integer => Ok(Seq::new(s.len(), |i: int| cast_int_cell(s[i]))),
        crate::value::DType::Boolean => Ok(Seq::new(s.len(), |i: int| cast_bool_cell(s[i]))),
        _ => Err(EvalError::Unsupported),
    }
}

pub fn cast_col_exec(dt: crate::value::DType, v: &Vec<Value>) -> (r: Result<
    Vec<Value>,
    EvalError,
>)
    ensures
        match r {
            Ok(out) => cast_col(dt, v@) == Ok::<Seq<Value>, EvalError>(out@),
            Err(e) => cast_col(dt, v@) == Err::<Seq<Value>, EvalError>(e),
        },
{
    let to_int: bool = match dt {
        crate::value::DType::Integer => true,
        crate::value::DType::Boolean => false,
        _ => {
            return Err(EvalError::Unsupported);
        },
    };
    let mut out: Vec<Value> = Vec::new();
    let mut j: usize = 0;
    while j < v.len()
        invariant
            j <= v.len(),
            out@.len() == j,
            forall|k: int|
                0 <= k < j ==> out@[k] == if to_int {
                    cast_int_cell(#[trigger] v@[k])
                } else {
                    cast_bool_cell(v@[k])
                },
        decreases v.len() - j,
    {
        let c: Value = match v[j] {
            Value::Int(x) => if to_int {
                Value::Int(x)
            } else {
                Value::Bool(x != 0)
            },
            Value::Bool(b) => if to_int {
                Value::Int(
                    if b {
                        1
                    } else {
                        0
                    },
                )
            } else {
                Value::Bool(b)
            },
            Value::Null => Value::Null,
        };
        out.push(c);
        j = j + 1;
    }
    proof {
        if to_int {
            assert(out@ =~= Seq::new(v@.len(), |i: int| cast_int_cell(v@[i])));
        } else {
            assert(out@ =~= Seq::new(v@.len(), |i: int| cast_bool_cell(v@[i])));
        }
    }
    Ok(out)
}

/// The starting index of a slice: a non-negative offset clamped to the
/// length, a negative one counted from the end and clamped to zero.
pub open spec fn slice_start(n: int, offset: i64) -> int {
    if offset >= 0 {
        if offset > n {
            n
        } else {
            offset as int
        }
    } else {
        if n + offset < 0 {
            0
        } else {
            n + offset
        }
    }
}

/// At most `length` cells of the column starting at the slice start.
pub open spec fn slice_col(s: Seq<Value>, offset: i64, length: u32) -> Seq<Value> {
    let start = slice_start(s.len() as int, offset);
    let take = if length > s.len() - start {
        s.len() - start
    } else {
        length as int
    };
    s.subrange(start, start + take)
}

/// The first `length` cells, or all of them.
pub open spec fn head_col(s: Seq<Value>, length: usize) -> Seq<Value> {
    if length >= s.len() {
        s
    } else {
        s.subrange(0, length as int)
    }
}

/// The last `length` cells, or all of them.
pub open spec fn tail_col(s: Seq<Value>, length: usize) -> Seq<Value> {
    if length >= s.len() {
        s
    } else {
        s.subrange(s.len() - length, s.len() as int)
    }
}

pub fn slice_col_exec(v: &Vec<Value>, offset: i64, length: u32) -> (r: Vec<Value>)
    ensures
        r@ == slice_col(v@, offset, length),
{
    let n: usize = v.len();
    let start_i: i128 = if offset >= 0 {
        if (offset as i128) > (n as i128) {
            n as i128
        } else {
            offset as i128
        }
    } else {
        if (n as i128) + (offset as i128) < 0 {
            0
        } else {
            n as i128 + offset as i128
        }
    };
    let start: usize = start_i as usize;
    let avail: usize = n - start;
    let take: usize = if (length as i128) > (avail as i128) {
        avail
    } else {
        length as usize
    };
    subrange_exec(v, start, start + take)
}

pub fn head_col_exec(v: &Vec<Value>, length: usize) -> (r: Vec<Value>)
    ensures
        r@ == head_col(v@, length),
{
    let k: usize = if length >= v.len() {
        v.len()
    } else {
        length
    };
    let out = subrange_exec(v, 0, k);
    proof {
        if length >= v@.len() {
            assert(v@.subrange(0, v@.len() as int) =~= v@);
        }
    }
    out
}

pub fn tail_col_exec(v: &Vec<Value>, length: usize) -> (r: Vec<Value>)
    ensures
        r@ == tail_col(v@, length),
{
    let k: usize = if length >= v.len() {
        v.len()
    } else {
        length
    };
    let out = subrange_exec(v, v.len() - k, v.len());
    proof {
        if length >= v@.len() {
            assert(v@.subrange(0, v@.len() as int) =~= v@);
        }
    }
    out
}

} // verus!
