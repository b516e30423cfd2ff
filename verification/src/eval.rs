//! The evaluation boundary: binding an expression tree to a frame of
//! concrete columns and producing a labeled column of values.
//!
//! `sem` is the reference semantics: a specification function giving the
//! meaning of every tree over a frame.  `evaluate` is the verified engine,
//! proved to return exactly what `sem` says for every tree and frame.

use vstd::prelude::*;
use crate::value::{Scalar, Value, EvalError};
use crate::expr::{ExprNode, UnaryOp, WindowParams};
use crate::columns::{
    all_int_or_null, all_int_or_null_exec, agg_col, agg_col_exec, argsort_col, argsort_col_exec,
    bfill_exec, bfill_col, bin_col, bin_col_exec, cast_col, cast_col_exec, cond_col,
    cond_col_exec, cum_col, cum_col_exec, dedup_exec, dedup_stable, ffill_col, ffill_exec,
    head_col, head_col_exec, null_mask, null_mask_exec, rev_col, rev_col_exec, slice_col,
    slice_col_exec, sort_col, sort_col_exec, subrange_exec, tail_col, tail_col_exec, win_col,
    win_col_exec,
};

verus! {

/// A named column of a frame.
#[derive(Debug)]
pub struct Column {
    pub name: String,
    pub cells: Vec<Value>,
}

/// Concrete tabular input: columns of cells, all of one height.
#[derive(Debug)]
pub struct Frame {
    pub height: usize,
    pub cols: Vec<Column>,
}

/// A labeled column of output values.
#[derive(Debug)]
pub struct Series {
    pub name: String,
    pub cells: Vec<Value>,
}

impl Frame {
    /// The columns as named cell sequences.
    pub open spec fn cols_view(&self) -> Seq<(Seq<char>, Seq<Value>)> {
        Seq::new(self.cols@.len(), |i: int| (self.cols@[i].name@, self.cols@[i].cells@))
    }

    /// All columns have the frame's height.
    pub open spec fn wf(&self) -> bool {
        forall|i: int|
            0 <= i < self.cols@.len() ==> (#[trigger] self.cols@[i]).cells@.len()
                == self.height
    }

    /// An empty frame of the given height.
    pub fn new(height: usize) -> (f: Frame)
        ensures
            f.height == height,
            f.cols@.len() == 0,
            f.wf(),
    {
        Frame { height, cols: Vec::new() }
    }

    /// The frame extended by one column, which must have the frame's
    /// height; a column of any other length is rejected.
    pub fn with_column(self, name: &str, cells: Vec<Value>) -> (r: Result<Frame, EvalError>)
        ensures
            match r {
                Ok(f) => cells@.len() == self.height && f.height == self.height && f.cols_view()
                    =~= self.cols_view().push((name@, cells@)) && (self.wf() ==> f.wf()),
                Err(e) => cells@.len() != self.height && e == EvalError::LengthMismatch,
            },
    {
        if cells.len() != self.height {
            return Err(EvalError::LengthMismatch);
        }
        let mut cols = self.cols;
        let ghost old_cols = cols@;
        cols.push(Column { name: name.to_owned(), cells });
        let f = Frame { height: self.height, cols };
        proof {
            assert(f.cols_view() =~= Seq::new(
                old_cols.len(),
                |i: int| (old_cols[i].name@, old_cols[i].cells@),
            ).push((name@, cells@)));
        }
        Ok(f)
    }
}

/// The column a name resolves to: the first column of that name.
pub open spec fn lookup_col(cols: Seq<(Seq<char>, Seq<Value>)>, name: Seq<char>) -> Option<
    Seq<Value>,
>
    decreases cols.len(),
{
    if cols.len() == 0 {
        None
    } else if cols[0].0 == name {
        Some(cols[0].1)
    } else {
        lookup_col(cols.drop_first(), name)
    }
}

/// The column a literal broadcasts to: one cell per row.  Fractional,
/// textual and temporal literals are outside the integral reference
/// domain.
pub open spec fn lit_col(s: Scalar, n: nat) -> Result<Seq<Value>, EvalError> {
    match s {
        Scalar::Int(x) => Ok(Seq::new(n, |i: int| Value::Int(x))),
        Scalar::Bool(b) => Ok(Seq::new(n, |i: int| Value::Bool(b))),
        Scalar::Null => Ok(Seq::new(n, |i: int| Value::Null)),
        _ => Err(EvalError::Unsupported),
    }
}

/// A window's effective minimum period count: the window size when none
/// was given.
pub open spec fn effective_min_periods(p: WindowParams) -> usize {
    match p.min_periods {
        Some(m) => m,
        None => p.size,
    }
}

/// The reference semantics: the column of values a tree denotes over the
/// given columns and height, or the evaluation error it raises.
/// Operands are evaluated left to right and the first error surfaces.
pub open spec fn sem(e: ExprNode, cols: Seq<(Seq<char>, Seq<Value>)>, n: nat) -> Result<
    Seq<Value>,
    EvalError,
>
    decreases e,
{
    match e {
        ExprNode::Literal(s) => lit_col(s, n),
        ExprNode::Column(name) => match lookup_col(cols, name@) {
            Some(c) => Ok(c),
            None => Err(EvalError::ColumnNotFound),
        },
        ExprNode::Unary(op, a) => match sem(*a, cols, n) {
            Ok(c) => match op {
                UnaryOp::IsNull => Ok(null_mask(c, false)),
                UnaryOp::IsNotNull => Ok(null_mask(c, true)),
                UnaryOp::Reverse => Ok(rev_col(c)),
                UnaryOp::ForwardFill => Ok(ffill_col(c)),
                UnaryOp::BackwardFill => Ok(bfill_col(c)),
            },
            Err(er) => Err(er),
        },
        ExprNode::Binary(op, a, b) => match sem(*a, cols, n) {
            Ok(ca) => match sem(*b, cols, n) {
                Ok(cb) => bin_col(op, ca, cb),
                Err(er) => Err(er),
            },
            Err(er) => Err(er),
        },
        ExprNode::Conditional(p, t, o) => match sem(*p, cols, n) {
            Ok(cp) => match sem(*t, cols, n) {
                Ok(ct) => match sem(*o, cols, n) {
                    Ok(co) => cond_col(cp, ct, co),
                    Err(er) => Err(er),
                },
                Err(er) => Err(er),
            },
            Err(er) => Err(er),
        },
        ExprNode::Aggregate(op, a) => match sem(*a, cols, n) {
            Ok(c) => agg_col(op, c),
            Err(er) => Err(er),
        },
        ExprNode::Window(op, a, params) => match sem(*a, cols, n) {
            Ok(c) => if params.weights is Some {
                Err(EvalError::Unsupported)
            } else {
                win_col(op, c, params.size, effective_min_periods(params), params.center)
            },
            Err(er) => Err(er),
        },
        ExprNode::Cumulative(op, a, rev) => match sem(*a, cols, n) {
            Ok(c) => if !all_int_or_null(c) {
                Err(EvalError::TypeMismatch)
            } else {
                Ok(cum_col(c, op, rev))
            },
            Err(er) => Err(er),
        },
        ExprNode::Sort(a, desc) => match sem(*a, cols, n) {
            Ok(c) => sort_col(c, desc),
            Err(er) => Err(er),
        },
        ExprNode::ArgSort(a, desc) => match sem(*a, cols, n) {
            Ok(c) => argsort_col(c, desc),
            Err(er) => Err(er),
        },
        ExprNode::Distinct(a, _stable) => match sem(*a, cols, n) {
            Ok(c) => Ok(dedup_stable(c)),
            Err(er) => Err(er),
        },
        ExprNode::Cast(a, dt) => match sem(*a, cols, n) {
            Ok(c) => cast_col(dt, c),
            Err(er) => Err(er),
        },
        ExprNode::Alias(a, _name) => sem(*a, cols, n),
        ExprNode::Slice(a, offset, length) => match sem(*a, cols, n) {
            Ok(c) => Ok(slice_col(c, offset, length)),
            Err(er) => Err(er),
        },
        ExprNode::Head(a, length) => match sem(*a, cols, n) {
            Ok(c) => Ok(head_col(c, length)),
            Err(er) => Err(er),
        },
        ExprNode::Tail(a, length) => match sem(*a, cols, n) {
            Ok(c) => Ok(tail_col(c, length)),
            Err(er) => Err(er),
        },
    }
}

/// The output label of a tree: a column's name, an alias's name, the
/// fixed literal label, and otherwise the label of the first operand
/// (the selected branch of a conditional).
pub open spec fn spec_label(e: ExprNode) -> Seq<char>
    decreases e,
{
    match e {
        ExprNode::Literal(_) => "literal"@,
        ExprNode::Column(name) => name@,
        ExprNode::Alias(_, name) => name@,
        ExprNode::Unary(_, a) => spec_label(*a),
        ExprNode::Binary(_, a, _) => spec_label(*a),
        ExprNode::Conditional(_, t, _) => spec_label(*t),
        ExprNode::Aggregate(_, a) => spec_label(*a),
        ExprNode::Window(_, a, _) => spec_label(*a),
        ExprNode::Cumulative(_, a, _) => spec_label(*a),
        ExprNode::Sort(a, _) => spec_label(*a),
        ExprNode::ArgSort(a, _) => spec_label(*a),
        ExprNode::Distinct(a, _) => spec_label(*a),
        ExprNode::Cast(a, _) => spec_label(*a),
        ExprNode::Slice(a, _, _) => spec_label(*a),
        ExprNode::Head(a, _) => spec_label(*a),
        ExprNode::Tail(a, _) => spec_label(*a),
    }
}

/// The output label of a tree.
pub fn label_of(e: &ExprNode) -> (r: String)
    ensures
        r@ == spec_label(*e),
    decreases e,
{
    match e {
        ExprNode::Literal(_) => String::from_str("literal"),
        ExprNode::Column(name) => name.clone(),
        ExprNode::Alias(_, name) => name.clone(),
        ExprNode::Unary(_, a) => label_of(a),
        ExprNode::Binary(_, a, _) => label_of(a),
        ExprNode::Conditional(_, t, _) => label_of(t),
        ExprNode::Aggregate(_, a) => label_of(a),
        ExprNode::Window(_, a, _) => label_of(a),
        ExprNode::Cumulative(_, a, _) => label_of(a),
        ExprNode::Sort(a, _) => label_of(a),
        ExprNode::ArgSort(a, _) => label_of(a),
        ExprNode::Distinct(a, _) => label_of(a),
        ExprNode::Cast(a, _) => label_of(a),
        ExprNode::Slice(a, _, _) => label_of(a),
        ExprNode::Head(a, _) => label_of(a),
        ExprNode::Tail(a, _) => label_of(a),
    }
}

proof fn lemma_lookup_step(cols: Seq<(Seq<char>, Seq<Value>)>, name: Seq<char>, j: int)
    requires
        0 <= j < cols.len(),
        cols.skip(j)[0].0 != name,
    ensures
        lookup_col(cols.skip(j), name) == lookup_col(cols.skip(j + 1), name),
{
    assert(cols.skip(j).drop_first() =~= cols.skip(j + 1));
}

fn lookup_exec(f: &Frame, name: &String) -> (r: Option<Vec<Value>>)
    ensures
        match r {
            Some(c) => lookup_col(f.cols_view(), name@) == Some(c@),
            None => lookup_col(f.cols_view(), name@) is None,
        },
{
    let ghost cols = f.cols_view();
    proof {
        assert(cols.skip(0) =~= cols);
    }
    let mut j: usize = 0;
    while j < f.cols.len()
        invariant
            j <= f.cols@.len(),
            cols == f.cols_view(),
            cols.len() == f.cols@.len(),
            lookup_col(cols, name@) == lookup_col(cols.skip(j as int), name@),
        decreases f.cols@.len() - j,
    {
        if f.cols[j].name == *name {
            let cells = subrange_exec(&f.cols[j].cells, 0, f.cols[j].cells.len());
            proof {
                assert(cols.skip(j as int)[0] == cols[j as int]);
                assert(cols[j as int].0 == f.cols@[j as int].name@);
                assert(cols[j as int].1 == f.cols@[j as int].cells@);
                assert(lookup_col(cols.skip(j as int), name@) == Some(cols[j as int].1));
                assert(cells@ =~= f.cols@[j as int].cells@);
            }
            return Some(cells);
        }
        proof {
            assert(cols.skip(j as int)[0] == cols[j as int]);
            assert(cols[j as int].0 == f.cols@[j as int].name@);
            lemma_lookup_step(cols, name@, j as int);
        }
        j = j + 1;
    }
    proof {
        assert(cols.skip(f.cols@.len() as int) =~= Seq::<(Seq<char>, Seq<Value>)>::empty());
    }
    None
}

fn lit_col_exec(s: &Scalar, n: usize) -> (r: Result<Vec<Value>, EvalError>)
    ensures
        match r {
            Ok(v) => lit_col(*s, n as nat) == Ok::<Seq<Value>, EvalError>(v@),
            Err(e) => lit_col(*s, n as nat) == Err::<Seq<Value>, EvalError>(e),
        },
{
    let cell: Value = match s {
        Scalar::Int(x) => Value::Int(*x),
        Scalar::Bool(b) => Value::Bool(*b),
        Scalar::Null => Value::Null,
        _ => {
            return Err(EvalError::Unsupported);
        },
    };
    let mut out: Vec<Value> = Vec::new();
    let mut j: usize = 0;
    while j < n
        invariant
            j <= n,
            out@.len() == j,
            forall|k: int| 0 <= k < j ==> out@[k] == cell,
        decreases n - j,
    {
        out.push(cell);
        j = j + 1;
    }
    proof {
        assert(out@ =~= Seq::new(n as nat, |i: int| cell));
    }
    Ok(out)
}

/// The verified engine on columns: exactly the reference semantics.
fn eval_cols(f: &Frame, e: &ExprNode) -> (r: Result<Vec<Value>, EvalError>)
    ensures
        match r {
            Ok(v) => sem(*e, f.cols_view(), f.height as nat) == Ok::<Seq<Value>, EvalError>(v@),
            Err(er) => sem(*e, f.cols_view(), f.height as nat) == Err::<Seq<Value>, EvalError>(
                er,
            ),
        },
    decreases e,
{
    match e {
        ExprNode::Literal(s) => lit_col_exec(s, f.height),
        ExprNode::Column(name) => match lookup_exec(f, name) {
            Some(c) => Ok(c),
            None => Err(EvalError::ColumnNotFound),
        },
        ExprNode::Unary(op, a) => {
            let c = eval_cols(f, a)?;
            match op {
                UnaryOp::IsNull => Ok(null_mask_exec(&c, false)),
                UnaryOp::IsNotNull => Ok(null_mask_exec(&c, true)),
                UnaryOp::Reverse => Ok(rev_col_exec(&c)),
                UnaryOp::ForwardFill => Ok(ffill_exec(&c)),
                UnaryOp::BackwardFill => Ok(bfill_exec(&c)),
            }
        },
        ExprNode::Binary(op, a, b) => {
            let ca = eval_cols(f, a)?;
            let cb = eval_cols(f, b)?;
            bin_col_exec(*op, &ca, &cb)
        },
        ExprNode::Conditional(p, t, o) => {
            let cp = eval_cols(f, p)?;
            let ct = eval_cols(f, t)?;
            let co = eval_cols(f, o)?;
            cond_col_exec(&cp, &ct, &co)
        },
        ExprNode::Aggregate(op, a) => {
            let c = eval_cols(f, a)?;
            agg_col_exec(*op, &c)
        },
        ExprNode::Window(op, a, params) => {
            let c = eval_cols(f, a)?;
            if params.weights.is_some() {
                return Err(EvalError::Unsupported);
            }
            let mp: usize = match &params.min_periods {
                Some(m) => *m,
                None => params.size,
            };
            win_col_exec(*op, &c, params.size, mp, params.center)
        },
        ExprNode::Cumulative(op, a, rev) => {
            let c = eval_cols(f, a)?;
            if !all_int_or_null_exec(&c) {
                return Err(EvalError::TypeMismatch);
            }
            Ok(cum_col_exec(&c, *op, *rev))
        },
        ExprNode::Sort(a, desc) => {
            let c = eval_cols(f, a)?;
            sort_col_exec(&c, *desc)
        },
        ExprNode::ArgSort(a, desc) => {
            let c = eval_cols(f, a)?;
            argsort_col_exec(&c, *desc)
        },
        ExprNode::Distinct(a, _stable) => {
            let c = eval_cols(f, a)?;
            Ok(dedup_exec(&c))
        },
        ExprNode::Cast(a, dt) => {
            let c = eval_cols(f, a)?;
            cast_col_exec(*dt, &c)
        },
        ExprNode::Alias(a, _name) => eval_cols(f, a),
        ExprNode::Slice(a, offset, length) => {
            let c = eval_cols(f, a)?;
            Ok(slice_col_exec(&c, *offset, *length))
        },
        ExprNode::Head(a, length) => {
            let c = eval_cols(f, a)?;
            Ok(head_col_exec(&c, *length))
        },
        ExprNode::Tail(a, length) => {
            let c = eval_cols(f, a)?;
            Ok(tail_col_exec(&c, *length))
        },
    }
}

/// Binds a tree to a frame and produces its output values under the
/// reference semantics, labeled by the tree's output label.
pub fn evaluate(frame: &Frame, expr: &ExprNode) -> (r: Result<Series, EvalError>)
    ensures
        match r {
            Ok(s) => sem(*expr, frame.cols_view(), frame.height as nat) == Ok::<
                Seq<Value>,
                EvalError,
            >(s.cells@) && s.name@ == spec_label(*expr),
            Err(e) => sem(*expr, frame.cols_view(), frame.height as nat) == Err::<
                Seq<Value>,
                EvalError,
            >(e),
        },
{
    match eval_cols(frame, expr) {
        Ok(cells) => Ok(Series { name: label_of(expr), cells }),
        Err(e) => Err(e),
    }
}

} // verus!
