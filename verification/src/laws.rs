//! The algebra's cross-operator laws, stated against the reference
//! semantics and proved for every tree and frame.

use vstd::prelude::*;
use crate::value::{Scalar, Value, EvalError};
use crate::expr::{
    ExprNode, BinaryOp, UnaryOp, WindowOp, WindowParams, binary_node, quotient_node,
    remainder_node, coalesce_node, zero_guard_node, unary_node,
};
use crate::eval::{sem, spec_label, lit_col};
use crate::columns::{
    all_int_or_null, bin_col, bcast, cond_col, cond_out_len, dedup_stable,
    lemma_dedup_contains, lemma_dedup_distinct, lemma_dedup_first_occurrence, first_idx,
    null_mask, sort_col, argsort_col, sort_vals, argsort_vals, arg_order, arg_order_upto,
    gather_idx, prefix_le_len, vle, homogeneous, lemma_arg_order_upto_props,
    lemma_arg_order_distinct, lemma_arg_order_sorted, win_col, win_cell, range_count,
    range_sum,
};
use crate::cells::{bin_cell, fit_i64};

verus! {

/// Renaming a node changes its output label to the new name and nothing
/// about its computed values.
pub proof fn lemma_alias_keeps_values(
    e: ExprNode,
    name: String,
    cols: Seq<(Seq<char>, Seq<Value>)>,
    n: nat,
)
    ensures
        sem(ExprNode::Alias(Box::new(e), name), cols, n) == sem(e, cols, n),
        spec_label(ExprNode::Alias(Box::new(e), name)) == name@,
{
}

/// Wherever its first operand is non-null, a coalesce yields that
/// operand's cell; everywhere else it yields the second operand's cell.
pub proof fn lemma_coalesce(
    l: ExprNode,
    r: ExprNode,
    cols: Seq<(Seq<char>, Seq<Value>)>,
    n: nat,
)
    requires
        sem(l, cols, n) is Ok,
        sem(r, cols, n) is Ok,
        (sem(l, cols, n)->Ok_0).len() == (sem(r, cols, n)->Ok_0).len(),
    ensures
        sem(coalesce_node(l, r), cols, n) is Ok,
        ({
            let a = sem(l, cols, n)->Ok_0;
            let b = sem(r, cols, n)->Ok_0;
            let c = sem(coalesce_node(l, r), cols, n)->Ok_0;
            &&& c.len() == a.len()
            &&& forall|i: int|
                0 <= i < a.len() ==> #[trigger] c[i] == if a[i] is Null {
                    b[i]
                } else {
                    a[i]
                }
        }),
{
    let a = sem(l, cols, n)->Ok_0;
    let b = sem(r, cols, n)->Ok_0;
    let p = null_mask(a, true);
    assert(sem(unary_node(UnaryOp::IsNotNull, l), cols, n) == Ok::<Seq<Value>, EvalError>(p));
    assert(cond_out_len(p, a, b) == a.len());
    assert(forall|i: int| 0 <= i < a.len() ==> !((#[trigger] bcast(p, i)) is Int));
    let c = sem(coalesce_node(l, r), cols, n)->Ok_0;
    assert forall|i: int| 0 <= i < a.len() implies #[trigger] c[i] == if a[i] is Null {
        b[i]
    } else {
        a[i]
    } by {
        assert(bcast(p, i) == p[i]);
        if a.len() == 1 {
            assert(bcast(a, i) == a[0]);
        }
    }
}

proof fn lemma_div_product_range(x: i64, y: i64)
    requires
        y != 0,
        !(x == i64::MIN && y == -1),
    ensures
        x.checked_div(y) is Some,
        ({
            let q = x.checked_div(y)->0 as int;
            let p = (y as int) * q;
            &&& (0 <= x ==> 0 <= p <= x)
            &&& (x < 0 ==> x <= p <= 0)
            &&& i64::MIN <= (y as int) * q <= i64::MAX
            &&& i64::MIN <= x - (y as int) * q <= i64::MAX
        }),
{
    let xi = x as int;
    let yi = y as int;
    let am: int = if xi >= 0 {
        xi
    } else {
        -xi
    };
    let bm: int = if yi >= 0 {
        yi
    } else {
        -yi
    };
    let qm: int = am / bm;
    vstd::arithmetic::div_mod::lemma_fundamental_div_mod(am, bm);
    let rm = am % bm;
    assert(0 <= rm < bm) by (nonlinear_arith)
        requires
            bm > 0,
            am >= 0,
            rm == am % bm,
    ;
    assert(qm >= 0) by (nonlinear_arith)
        requires
            am >= 0,
            bm > 0,
            qm == am / bm,
    ;
    assert(am == bm * qm + rm);
    assert(0 <= bm * qm <= am);
    let q = x.checked_div(y)->0 as int;
    if xi == 0 {
        assert(x.checked_div(y) is Some);
        assert((y as int) * (x.checked_div(y)->0 as int) == 0) by (nonlinear_arith)
            requires
                x.checked_div(y)->0 as int == 0,
        ;
    } else if xi > 0 && yi > 0 {
        assert(qm <= am) by (nonlinear_arith)
            requires
                am == bm * qm + rm,
                bm >= 1,
                qm >= 0,
                rm >= 0,
        ;
        assert(x.checked_div(y) is Some);
        assert((y as int) * q == bm * qm);
    } else if xi > 0 && yi < 0 {
        assert(qm <= am) by (nonlinear_arith)
            requires
                am == bm * qm + rm,
                bm >= 1,
                qm >= 0,
                rm >= 0,
        ;
        assert(x.checked_div(y) is Some);
        assert(q == -qm);
        assert((y as int) * q == bm * qm) by (nonlinear_arith)
            requires
                (y as int) == -bm,
                q == -qm,
        ;
    } else if xi < 0 && yi > 0 {
        assert(qm <= am) by (nonlinear_arith)
            requires
                am == bm * qm + rm,
                bm >= 1,
                qm >= 0,
                rm >= 0,
        ;
        assert(x.checked_div(y) is Some);
        assert(q == -qm);
        assert((y as int) * q == -(bm * qm)) by (nonlinear_arith)
            requires
                (y as int) == bm,
                q == -qm,
        ;
    } else {
        assert(xi < 0 && yi < 0);
        assert(qm <= am) by (nonlinear_arith)
            requires
                am == bm * qm + rm,
                bm >= 1,
                qm >= 0,
                rm >= 0,
        ;
        assert(!(x == i64::MIN && y == -1));
        if qm > i64::MAX {
            assert(qm == am) by (nonlinear_arith)
                requires
                    qm <= am,
                    am <= 0x8000000000000000,
                    qm > 0x7fffffffffffffff,
                    am == bm * qm + rm,
                    bm >= 1,
                    rm >= 0,
                    qm >= 0,
            ;
            assert(bm == 1) by (nonlinear_arith)
                requires
                    am == bm * qm + rm,
                    qm == am,
                    am > 0,
                    bm >= 1,
                    rm >= 0,
            ;
            assert(false);
        }
        assert(x.checked_div(y) is Some);
        assert(q == qm);
        assert((y as int) * q == -(bm * qm)) by (nonlinear_arith)
            requires
                (y as int) == -bm,
                q == qm,
        ;
    }
}

/// Quotient substitutes null exactly where the divisor is null or zero
/// (or the dividend is null); remainder is null at exactly the same
/// positions, and elsewhere equals the dividend minus the divisor times
/// the quotient.
///
/// The one pair of cell values left out is dividend `i64::MIN` with
/// divisor `-1`, whose true quotient does not fit in the value domain.
pub proof fn lemma_quotient_remainder(
    l: ExprNode,
    r: ExprNode,
    cols: Seq<(Seq<char>, Seq<Value>)>,
    n: nat,
)
    requires
        sem(l, cols, n) is Ok,
        sem(r, cols, n) is Ok,
        (sem(l, cols, n)->Ok_0).len() == n,
        (sem(r, cols, n)->Ok_0).len() == n,
        all_int_or_null(sem(l, cols, n)->Ok_0),
        all_int_or_null(sem(r, cols, n)->Ok_0),
        forall|i: int|
            0 <= i < n ==> !((sem(l, cols, n)->Ok_0)[i] == Value::Int(i64::MIN) && (#[trigger] (
            sem(r, cols, n)->Ok_0)[i]) == Value::Int(-1i64)),
    ensures
        sem(quotient_node(l, r), cols, n) is Ok,
        sem(remainder_node(l, r), cols, n) is Ok,
        ({
            let a = sem(l, cols, n)->Ok_0;
            let b = sem(r, cols, n)->Ok_0;
            let q = sem(quotient_node(l, r), cols, n)->Ok_0;
            let m = sem(remainder_node(l, r), cols, n)->Ok_0;
            &&& q.len() == n
            &&& m.len() == n
            &&& forall|i: int|
                0 <= i < n ==> ((#[trigger] q[i]) is Null <==> (a[i] is Null || b[i] is Null
                    || b[i] == Value::Int(0)))
            &&& forall|i: int| 0 <= i < n ==> ((#[trigger] m[i]) is Null <==> q[i] is Null)
            &&& forall|i: int|
                0 <= i < n ==> !((#[trigger] q[i]) is Null) ==> (q[i] matches Value::Int(qv)
                    && m[i] matches Value::Int(mv) && a[i] matches Value::Int(av)
                    && b[i] matches Value::Int(bv) && mv == av - (bv as int) * (qv as int))
        }),
{
    let a = sem(l, cols, n)->Ok_0;
    let b = sem(r, cols, n)->Ok_0;
    let zeros = lit_col(Scalar::Int(0), n)->Ok_0;
    let nulls = lit_col(Scalar::Null, n)->Ok_0;
    // The zero test of the divisor.
    let eqr = bin_col(BinaryOp::Eq, b, zeros);
    assert forall|i: int| 0 <= i < n implies (#[trigger] bin_cell(
        BinaryOp::Eq,
        bcast(b, i),
        bcast(zeros, i),
    )) is Ok by {
        assert(!(b[i] is Bool));
    }
    assert(eqr is Ok);
    let eqc = eqr->Ok_0;
    assert(sem(ExprNode::Literal(Scalar::Int(0)), cols, n) == Ok::<Seq<Value>, EvalError>(
        zeros,
    ));
    assert(sem(binary_node(BinaryOp::Eq, r, ExprNode::Literal(Scalar::Int(0))), cols, n)
        == eqr);
    // The guarded divisor.
    let gr = cond_col(eqc, nulls, b);
    assert(cond_out_len(eqc, nulls, b) == n);
    assert forall|i: int| 0 <= i < n implies !((#[trigger] bcast(eqc, i)) is Int) by {
        assert(eqc[i] == bin_cell(BinaryOp::Eq, bcast(b, i), bcast(zeros, i))->Ok_0);
    }
    assert(gr is Ok);
    let g = gr->Ok_0;
    assert(sem(ExprNode::Literal(Scalar::Null), cols, n) == Ok::<Seq<Value>, EvalError>(nulls));
    assert(sem(zero_guard_node(r), cols, n) == cond_col(eqc, nulls, b));
    assert(sem(zero_guard_node(r), cols, n) == gr);
    assert forall|i: int| 0 <= i < n implies (#[trigger] g[i]) == (if b[i] is Null
        || b[i] == Value::Int(0) {
        Value::Null
    } else {
        b[i]
    }) by {
        assert(g[i] == crate::columns::cond_cell(bcast(eqc, i), bcast(nulls, i), bcast(b, i)));
        assert(eqc[i] == bin_cell(BinaryOp::Eq, bcast(b, i), bcast(zeros, i))->Ok_0);
        assert(!(b[i] is Bool));
    }
    // The quotient column.
    let qr = bin_col(BinaryOp::Divide, a, g);
    assert forall|i: int| 0 <= i < n implies (#[trigger] bin_cell(
        BinaryOp::Divide,
        bcast(a, i),
        bcast(g, i),
    )) is Ok by {
        assert(!(a[i] is Bool));
        assert(!(g[i] is Bool));
    }
    assert(qr is Ok);
    let q = qr->Ok_0;
    assert(sem(quotient_node(l, r), cols, n) == qr);
    assert forall|i: int| 0 <= i < n implies ((#[trigger] q[i]) is Null <==> (a[i] is Null
        || b[i] is Null || b[i] == Value::Int(0))) && (!(q[i] is Null) ==> (
    a[i] matches Value::Int(av) && b[i] matches Value::Int(bv) && q[i] == Value::Int(
        av.checked_div(bv)->0,
    ))) by {
        assert(q[i] == bin_cell(BinaryOp::Divide, bcast(a, i), bcast(g, i))->Ok_0);
        if !(a[i] is Null) && !(g[i] is Null) {
            let av = a[i]->Int_0;
            let bv = b[i]->Int_0;
            lemma_div_product_range(av, bv);
        }
    }
    // The product and remainder columns.
    let pr = bin_col(BinaryOp::Multiply, b, q);
    assert forall|i: int| 0 <= i < n implies (#[trigger] bin_cell(
        BinaryOp::Multiply,
        bcast(b, i),
        bcast(q, i),
    )) is Ok by {
        assert(!(b[i] is Bool));
        assert(!(q[i] is Bool));
    }
    assert(pr is Ok);
    let p = pr->Ok_0;
    assert(sem(binary_node(BinaryOp::Multiply, r, quotient_node(l, r)), cols, n) == pr);
    let mr = bin_col(BinaryOp::Subtract, a, p);
    assert forall|i: int| 0 <= i < n implies (#[trigger] bin_cell(
        BinaryOp::Subtract,
        bcast(a, i),
        bcast(p, i),
    )) is Ok by {
        assert(!(a[i] is Bool));
        assert(!(p[i] is Bool) || p[i] == bin_cell(
            BinaryOp::Multiply,
            bcast(b, i),
            bcast(q, i),
        )->Ok_0);
        assert(!(p[i] is Bool));
    }
    assert(mr is Ok);
    let m = mr->Ok_0;
    assert(sem(remainder_node(l, r), cols, n) == mr);
    assert forall|i: int| 0 <= i < n implies ((#[trigger] m[i]) is Null <==> q[i] is Null) && (!(
    q[i] is Null) ==> (q[i] matches Value::Int(qv) && m[i] matches Value::Int(mv)
        && a[i] matches Value::Int(av) && b[i] matches Value::Int(bv) && mv == av - (bv as int)
        * (qv as int))) by {
        assert(p[i] == bin_cell(BinaryOp::Multiply, bcast(b, i), bcast(q, i))->Ok_0);
        assert(m[i] == bin_cell(BinaryOp::Subtract, bcast(a, i), bcast(p, i))->Ok_0);
        if !(q[i] is Null) {
            let av = a[i]->Int_0;
            let bv = b[i]->Int_0;
            let qv = q[i]->Int_0;
            lemma_div_product_range(av, bv);
            assert(qv == av.checked_div(bv)->0);
            assert(p[i] == Value::Int(((bv as int) * (qv as int)) as i64));
            assert(m[i] == Value::Int((av - (bv as int) * (qv as int)) as i64));
        }
    }
}

/// Stable distinct yields the first-occurrence deduplication; unordered
/// distinct yields the same cells as a set, with no repeated cell in
/// either.
pub proof fn lemma_distinct(e: ExprNode, cols: Seq<(Seq<char>, Seq<Value>)>, n: nat)
    requires
        sem(e, cols, n) is Ok,
    ensures
        ({
            let c = sem(e, cols, n)->Ok_0;
            let st = sem(ExprNode::Distinct(Box::new(e), true), cols, n);
            let un = sem(ExprNode::Distinct(Box::new(e), false), cols, n);
            &&& st == Ok::<Seq<Value>, EvalError>(dedup_stable(c))
            &&& un == st
            &&& forall|v: Value| #[trigger] (st->Ok_0).contains(v) <==> c.contains(v)
            &&& forall|i: int, j: int|
                0 <= i < j < (st->Ok_0).len() ==> (st->Ok_0)[i] != (st->Ok_0)[j]
        }),
{
    let c = sem(e, cols, n)->Ok_0;
    lemma_dedup_contains(c);
    lemma_dedup_distinct(c);
}

proof fn lemma_prefix_nulls_irrelevant(
    ord: Seq<usize>,
    s: Seq<Value>,
    j: usize,
    desc: bool,
)
    requires
        forall|k: int| 0 <= k < ord.len() ==> (#[trigger] ord[k]) < s.len(),
        (j as int) < s.len(),
        forall|i: int| 0 <= i < s.len() ==> !((#[trigger] s[i]) is Null),
    ensures
        prefix_le_len(ord, s, j, desc, false) == prefix_le_len(ord, s, j, desc, true),
    decreases ord.len(),
{
    if ord.len() > 0 {
        assert(!(s[ord[0] as int] is Null));
        assert(!(s[j as int] is Null));
        assert(forall|k: int|
            0 <= k < ord.len() - 1 ==> (#[trigger] ord.drop_first()[k]) == ord[k + 1]);
        lemma_prefix_nulls_irrelevant(ord.drop_first(), s, j, desc);
    }
}

proof fn lemma_arg_order_nulls_irrelevant(s: Seq<Value>, m: int, desc: bool)
    requires
        0 <= m <= s.len(),
        forall|i: int| 0 <= i < s.len() ==> !((#[trigger] s[i]) is Null),
    ensures
        arg_order_upto(s, m, desc, false) == arg_order_upto(s, m, desc, true),
    decreases m,
{
    if m > 0 {
        lemma_arg_order_nulls_irrelevant(s, m - 1, desc);
        lemma_arg_order_upto_props(s, m - 1, desc, false);
        let prev = arg_order_upto(s, m - 1, desc, false);
        assert(forall|k: int| 0 <= k < prev.len() ==> (#[trigger] prev[k]) < s.len());
        lemma_prefix_nulls_irrelevant(prev, s, (m - 1) as usize, desc);
    }
}

/// On a null-free column, sorting and argsorting are consistent: the
/// sorted output is exactly the input gathered through argsort's
/// permutation.
///
/// With nulls present the two disagree by design: sort places nulls last
/// while argsort places them first.
pub proof fn lemma_sort_argsort_consistent(
    e: ExprNode,
    desc: bool,
    cols: Seq<(Seq<char>, Seq<Value>)>,
    n: nat,
)
    requires
        sem(e, cols, n) is Ok,
        homogeneous(sem(e, cols, n)->Ok_0),
        forall|i: int|
            0 <= i < (sem(e, cols, n)->Ok_0).len() ==> !((#[trigger] (sem(e, cols, n)->Ok_0)[i])
                is Null),
        (sem(e, cols, n)->Ok_0).len() <= i64::MAX,
    ensures
        sem(ExprNode::Sort(Box::new(e), desc), cols, n) is Ok,
        sem(ExprNode::ArgSort(Box::new(e), desc), cols, n) is Ok,
        ({
            let c = sem(e, cols, n)->Ok_0;
            let sorted = sem(ExprNode::Sort(Box::new(e), desc), cols, n)->Ok_0;
            let perm = sem(ExprNode::ArgSort(Box::new(e), desc), cols, n)->Ok_0;
            &&& perm.len() == c.len()
            &&& sorted.len() == c.len()
            &&& forall|i: int|
                0 <= i < c.len() ==> (#[trigger] perm[i]) == Value::Int(
                    arg_order(c, desc, false)[i] as i64,
                )
            &&& sorted == gather_idx(c, arg_order(c, desc, false))
        }),
{
    let c = sem(e, cols, n)->Ok_0;
    lemma_arg_order_nulls_irrelevant(c, c.len() as int, desc);
    lemma_arg_order_upto_props(c, c.len() as int, desc, false);
    assert(sort_col(c, desc) == Ok::<Seq<Value>, EvalError>(sort_vals(c, desc)));
    assert(argsort_col(c, desc) == Ok::<Seq<Value>, EvalError>(argsort_vals(c, desc)));
    let perm = argsort_vals(c, desc);
    assert forall|i: int| 0 <= i < c.len() implies (#[trigger] perm[i]) == Value::Int(
        arg_order(c, desc, false)[i] as i64,
    ) by {
        assert(arg_order(c, desc, false)[i] < c.len());
        assert(perm[i] == fit_i64(arg_order(c, desc, false)[i] as int));
    }
    assert(sort_vals(c, desc) == gather_idx(c, arg_order(c, desc, false)));
}


/// Sorting yields an ordered rearrangement: the output is the input
/// gathered through a permutation (each position used exactly once), and
/// the output cells are in the requested order with nulls last.
pub proof fn lemma_sort_is_ordered_permutation(
    e: ExprNode,
    desc: bool,
    cols: Seq<(Seq<char>, Seq<Value>)>,
    n: nat,
)
    requires
        sem(e, cols, n) is Ok,
        homogeneous(sem(e, cols, n)->Ok_0),
        (sem(e, cols, n)->Ok_0).len() <= usize::MAX,
    ensures
        sem(ExprNode::Sort(Box::new(e), desc), cols, n) is Ok,
        ({
            let c = sem(e, cols, n)->Ok_0;
            let out = sem(ExprNode::Sort(Box::new(e), desc), cols, n)->Ok_0;
            let ord = arg_order(c, desc, true);
            &&& out == gather_idx(c, ord)
            &&& ord.len() == c.len()
            &&& forall|k: int| 0 <= k < c.len() ==> (#[trigger] ord[k]) < c.len()
            &&& forall|k1: int, k2: int| 0 <= k1 < k2 < c.len() ==> ord[k1] != ord[k2]
            &&& forall|i: int, j: int|
                0 <= i < j < c.len() ==> vle(#[trigger] out[i], #[trigger] out[j], desc, true)
        }),
{
    let c = sem(e, cols, n)->Ok_0;
    let m = c.len() as int;
    lemma_arg_order_upto_props(c, m, desc, true);
    lemma_arg_order_distinct(c, m, desc, true);
    lemma_arg_order_sorted(c, m, desc, true);
    let ord = arg_order(c, desc, true);
    let out = sort_vals(c, desc);
    assert(sort_col(c, desc) == Ok::<Seq<Value>, EvalError>(out));
    assert forall|i: int, j: int| 0 <= i < j < c.len() implies vle(
        #[trigger] out[i],
        #[trigger] out[j],
        desc,
        true,
    ) by {
        assert(out[i] == c[ord[i] as int]);
        assert(out[j] == c[ord[j] as int]);
        assert(vle(c[ord[i] as int], c[ord[j] as int], desc, true));
    }
}

/// Stable distinct preserves the input's first-occurrence order: cells
/// earlier in the output first occur earlier in the input.
pub proof fn lemma_distinct_first_occurrence_order(
    e: ExprNode,
    cols: Seq<(Seq<char>, Seq<Value>)>,
    n: nat,
)
    requires
        sem(e, cols, n) is Ok,
    ensures
        ({
            let c = sem(e, cols, n)->Ok_0;
            let d = sem(ExprNode::Distinct(Box::new(e), true), cols, n)->Ok_0;
            forall|i: int, j: int|
                0 <= i < j < d.len() ==> first_idx(c, d[i]) < first_idx(c, d[j])
        }),
{
    let c = sem(e, cols, n)->Ok_0;
    lemma_dedup_first_occurrence(c);
}

/// A rolling sum over windows of size one, with no weights, the default
/// minimum period count and no centering, returns the column unchanged.
pub proof fn lemma_window_sum_identity(e: ExprNode, cols: Seq<(Seq<char>, Seq<Value>)>, n: nat)
    requires
        sem(e, cols, n) is Ok,
        all_int_or_null(sem(e, cols, n)->Ok_0),
    ensures
        sem(
            ExprNode::Window(
                WindowOp::WinSum,
                Box::new(e),
                WindowParams { size: 1, weights: None, min_periods: None, center: false },
            ),
            cols,
            n,
        ) == sem(e, cols, n),
{
    let c = sem(e, cols, n)->Ok_0;
    let w = win_col(WindowOp::WinSum, c, 1, 1, false);
    assert forall|i: int| 0 <= i < c.len() implies #[trigger] win_cell(
        WindowOp::WinSum,
        c,
        i,
        1,
        1,
        false,
    ) == c[i] by {
        assert(range_count(c, i, i) == range_count(c, i, i - 1) + if c[i] is Null {
            0int
        } else {
            1int
        });
        assert(range_sum(c, i, i) == range_sum(c, i, i - 1) + match c[i] {
            Value::Int(x) => x as int,
            _ => 0int,
        });
        assert(!(c[i] is Bool));
    }
    assert(w->Ok_0 =~= c);
    assert(w == sem(e, cols, n));
}

} // verus!
