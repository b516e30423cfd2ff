//! The immutable expression node model and every factory that builds nodes:
//! leaf builders, combinators, null-handling operators, aggregations,
//! rolling windows, ordering and shape operators.
//!
//! A node is created once and never mutated; combinators only wrap
//! already-built nodes, so every tree is finite and acyclic.  Parameter
//! validation is eager: a factory that can reject its inputs returns a
//! `ConstructionError` and never builds a malformed node.

use vstd::prelude::*;
use crate::value::{Scalar, DType, ConstructionError};

verus! {

/// Unary operators: null tests, order reversal and directional null fills.
#[derive(PartialEq, Eq, Structural, Clone, Copy, Debug)]
pub enum UnaryOp {
    IsNull,
    IsNotNull,
    Reverse,
    /// Replace each null with the nearest preceding non-null value.
    ForwardFill,
    /// Replace each null with the nearest following non-null value.
    BackwardFill,
}

/// Binary operators: comparisons, boolean connectives and arithmetic.
#[derive(PartialEq, Eq, Structural, Clone, Copy, Debug)]
pub enum BinaryOp {
    Eq,
    Neq,
    Gt,
    GtEq,
    Lt,
    LtEq,
    And,
    Or,
    Add,
    Subtract,
    Multiply,
    Divide,
    Pow,
}

/// Aggregation kinds, each reducing a column to a single scalar.
///
/// `Var` and `Std` always use the sample adjustment (ddof = 1); `Quantile`
/// always uses nearest-value interpolation and carries the requested
/// quantile as an IEEE 754 bit pattern.
#[derive(PartialEq, Eq, Structural, Clone, Copy, Debug)]
pub enum AggOp {
    Sum,
    Min,
    Max,
    Mean,
    Median,
    Var,
    Std,
    Quantile(u64),
    Count,
    NDistinct,
    First,
    Last,
    /// True exactly when every element of a boolean column is true.
    All,
}

/// Cumulative (running) reduction kinds.
#[derive(PartialEq, Eq, Structural, Clone, Copy, Debug)]
pub enum CumOp {
    CumMin,
    CumMax,
    CumSum,
}

/// Rolling window reduction kinds.
#[derive(PartialEq, Eq, Structural, Clone, Copy, Debug)]
pub enum WindowOp {
    WinMin,
    WinMax,
    WinSum,
    WinMean,
}

/// Strategies for `expr_fill_missing`.
#[derive(PartialEq, Eq, Structural, Clone, Copy, Debug)]
pub enum FillStrategy {
    Backward,
    Forward,
    MinValue,
    MaxValue,
    MeanValue,
}

/// Element weights of a window, one per slot, carried as IEEE 754 bit
/// patterns; the algebra itself never computes with them.
#[derive(PartialEq, Eq, Debug)]
pub enum Weights {
    Nil,
    Cons(u64, Box<Weights>),
}

/// The number of weights in the list.
pub open spec fn weights_len(w: Weights) -> nat
    decreases w,
{
    match w {
        Weights::Nil => 0,
        Weights::Cons(_, rest) => 1 + weights_len(*rest),
    }
}

/// The weight list holding the entries of `s`, in order.
pub open spec fn weights_of(s: Seq<u64>) -> Weights
    decreases s.len(),
{
    if s.len() == 0 {
        Weights::Nil
    } else {
        Weights::Cons(s[0], Box::new(weights_of(s.drop_first())))
    }
}

/// The stored form of an optional weights vector.
pub open spec fn opt_weights_of(o: Option<Vec<u64>>) -> Option<Weights> {
    match o {
        Some(v) => Some(weights_of(v@)),
        None => None,
    }
}

pub proof fn lemma_weights_of_len(s: Seq<u64>)
    ensures
        weights_len(weights_of(s)) == s.len(),
    decreases s.len(),
{
    if s.len() > 0 {
        lemma_weights_of_len(s.drop_first());
    }
}

/// Parameters of a rolling window node.  `min_periods` defaults to the
/// window size when absent.
#[derive(PartialEq, Eq, Debug)]
pub struct WindowParams {
    pub size: usize,
    pub weights: Option<Weights>,
    pub min_periods: Option<usize>,
    pub center: bool,
}

/// An immutable node of a deferred column computation.
#[derive(PartialEq, Eq, Debug)]
pub enum ExprNode {
    Literal(Scalar),
    Column(String),
    Unary(UnaryOp, Box<ExprNode>),
    Binary(BinaryOp, Box<ExprNode>, Box<ExprNode>),
    /// `Conditional(predicate, then, otherwise)`: backs coalesce, fills by
    /// value or reduction, and the zero guard of quotient and remainder.
    Conditional(Box<ExprNode>, Box<ExprNode>, Box<ExprNode>),
    Aggregate(AggOp, Box<ExprNode>),
    Window(WindowOp, Box<ExprNode>, WindowParams),
    Cumulative(CumOp, Box<ExprNode>, bool),
    /// `Sort(operand, descending)`; nulls sort last whatever the direction.
    Sort(Box<ExprNode>, bool),
    /// `ArgSort(operand, descending)`; nulls are placed first, a policy
    /// fixed independently of `Sort`'s.
    ArgSort(Box<ExprNode>, bool),
    /// `Distinct(operand, stable)`: `stable` keeps first-occurrence order.
    Distinct(Box<ExprNode>, bool),
    Cast(Box<ExprNode>, DType),
    Alias(Box<ExprNode>, String),
    Slice(Box<ExprNode>, i64, u32),
    Head(Box<ExprNode>, usize),
    Tail(Box<ExprNode>, usize),
}

impl ExprNode {
    /// Deep structural copy.  Combinators take their operands by value, so
    /// a caller that wants one node under two parents copies it; the copy
    /// is indistinguishable from the original.
    pub fn duplicate(&self) -> (r: ExprNode)
        ensures
            r == *self,
        decreases self,
    {
        match self {
            ExprNode::Literal(s) => ExprNode::Literal(dup_scalar(s)),
            ExprNode::Column(n) => ExprNode::Column(n.clone()),
            ExprNode::Unary(op, e) => ExprNode::Unary(*op, Box::new(e.duplicate())),
            ExprNode::Binary(op, l, r2) => ExprNode::Binary(
                *op,
                Box::new(l.duplicate()),
                Box::new(r2.duplicate()),
            ),
            ExprNode::Conditional(p, t, o) => ExprNode::Conditional(
                Box::new(p.duplicate()),
                Box::new(t.duplicate()),
                Box::new(o.duplicate()),
            ),
            ExprNode::Aggregate(op, e) => ExprNode::Aggregate(*op, Box::new(e.duplicate())),
            ExprNode::Window(op, e, p) => ExprNode::Window(
                *op,
                Box::new(e.duplicate()),
                dup_window_params(p),
            ),
            ExprNode::Cumulative(op, e, rev) => ExprNode::Cumulative(
                *op,
                Box::new(e.duplicate()),
                *rev,
            ),
            ExprNode::Sort(e, d) => ExprNode::Sort(Box::new(e.duplicate()), *d),
            ExprNode::ArgSort(e, d) => ExprNode::ArgSort(Box::new(e.duplicate()), *d),
            ExprNode::Distinct(e, st) => ExprNode::Distinct(Box::new(e.duplicate()), *st),
            ExprNode::Cast(e, dt) => ExprNode::Cast(Box::new(e.duplicate()), *dt),
            ExprNode::Alias(e, n) => ExprNode::Alias(Box::new(e.duplicate()), n.clone()),
            ExprNode::Slice(e, off, len) => ExprNode::Slice(Box::new(e.duplicate()), *off, *len),
            ExprNode::Head(e, len) => ExprNode::Head(Box::new(e.duplicate()), *len),
            ExprNode::Tail(e, len) => ExprNode::Tail(Box::new(e.duplicate()), *len),
        }
    }
}

fn dup_scalar(s: &Scalar) -> (r: Scalar)
    ensures
        r == *s,
{
    match s {
        Scalar::Int(v) => Scalar::Int(*v),
        Scalar::FloatBits(b) => Scalar::FloatBits(*b),
        Scalar::Text(t) => Scalar::Text(t.clone()),
        Scalar::Bool(b) => Scalar::Bool(*b),
        Scalar::Date(d) => Scalar::Date(*d),
        Scalar::DateTime(us) => Scalar::DateTime(*us),
        Scalar::Null => Scalar::Null,
    }
}

fn dup_weights(w: &Weights) -> (r: Weights)
    ensures
        r == *w,
    decreases w,
{
    match w {
        Weights::Nil => Weights::Nil,
        Weights::Cons(b, rest) => Weights::Cons(*b, Box::new(dup_weights(rest))),
    }
}

fn dup_window_params(p: &WindowParams) -> (r: WindowParams)
    ensures
        r == *p,
{
    let weights: Option<Weights> = match &p.weights {
        Some(w) => Some(dup_weights(w)),
        None => None,
    };
    WindowParams { size: p.size, weights, min_periods: p.min_periods, center: p.center }
}

/// Builds the stored weight list from a weights vector.
fn weights_from_vec(v: &Vec<u64>) -> (r: Weights)
    ensures
        r == weights_of(v@),
{
    let mut acc = Weights::Nil;
    let mut i: usize = v.len();
    while i > 0
        invariant
            i <= v.len(),
            acc == weights_of(v@.subrange(i as int, v@.len() as int)),
        decreases i,
    {
        i = i - 1;
        acc = Weights::Cons(v[i], Box::new(acc));
        proof {
            let s = v@.subrange(i as int, v@.len() as int);
            assert(s.len() > 0);
            assert(s[0] == v@[i as int]);
            assert(s.drop_first() =~= v@.subrange(i as int + 1, v@.len() as int));
        }
    }
    proof {
        assert(v@.subrange(0, v@.len() as int) =~= v@);
    }
    acc
}

/// Exact string equality of two string slices.
fn str_eq(a: &str, b: &str) -> (r: bool)
    ensures
        r == (a@ == b@),
{
    let ao: String = a.to_owned();
    let bo: String = b.to_owned();
    ao == bo
}

// ---------------------------------------------------------------------------
// Spec-level node shapes.  Each factory's contract pins its result to one of
// these, so a caller knows the built tree exactly.
// ---------------------------------------------------------------------------

pub open spec fn unary_node(op: UnaryOp, e: ExprNode) -> ExprNode {
    ExprNode::Unary(op, Box::new(e))
}

pub open spec fn binary_node(op: BinaryOp, l: ExprNode, r: ExprNode) -> ExprNode {
    ExprNode::Binary(op, Box::new(l), Box::new(r))
}

pub open spec fn conditional_node(p: ExprNode, t: ExprNode, o: ExprNode) -> ExprNode {
    ExprNode::Conditional(Box::new(p), Box::new(t), Box::new(o))
}

pub open spec fn agg_node(op: AggOp, e: ExprNode) -> ExprNode {
    ExprNode::Aggregate(op, Box::new(e))
}

/// The divisor of quotient and remainder: `r` guarded to null where `r == 0`.
pub open spec fn zero_guard_node(r: ExprNode) -> ExprNode {
    conditional_node(
        binary_node(BinaryOp::Eq, r, ExprNode::Literal(Scalar::Int(0))),
        ExprNode::Literal(Scalar::Null),
        r,
    )
}

/// `quotient(l, r) = l / (null where r == 0, else r)`.
pub open spec fn quotient_node(l: ExprNode, r: ExprNode) -> ExprNode {
    binary_node(BinaryOp::Divide, l, zero_guard_node(r))
}

/// `remainder(l, r) = l - r * quotient(l, r)`.
pub open spec fn remainder_node(l: ExprNode, r: ExprNode) -> ExprNode {
    binary_node(
        BinaryOp::Subtract,
        l,
        binary_node(BinaryOp::Multiply, r, quotient_node(l, r)),
    )
}

/// `coalesce(l, r)`: `l` wherever `l` is non-null, else `r`.
pub open spec fn coalesce_node(l: ExprNode, r: ExprNode) -> ExprNode {
    conditional_node(unary_node(UnaryOp::IsNotNull, l), l, r)
}

/// The tree a fill strategy desugars to: directional fills are primitive
/// unary nodes; value fills substitute the full-column reduction at null
/// positions.
pub open spec fn fill_node(st: FillStrategy, e: ExprNode) -> ExprNode {
    match st {
        FillStrategy::Backward => unary_node(UnaryOp::BackwardFill, e),
        FillStrategy::Forward => unary_node(UnaryOp::ForwardFill, e),
        FillStrategy::MinValue => coalesce_node(e, agg_node(AggOp::Min, e)),
        FillStrategy::MaxValue => coalesce_node(e, agg_node(AggOp::Max, e)),
        FillStrategy::MeanValue => coalesce_node(e, agg_node(AggOp::Mean, e)),
    }
}

/// Which strategy a fill strategy string denotes, if any.
pub open spec fn parse_fill_strategy(s: Seq<char>) -> Option<FillStrategy> {
    if s == "backward"@ {
        Some(FillStrategy::Backward)
    } else if s == "forward"@ {
        Some(FillStrategy::Forward)
    } else if s == "min"@ {
        Some(FillStrategy::MinValue)
    } else if s == "max"@ {
        Some(FillStrategy::MaxValue)
    } else if s == "mean"@ {
        Some(FillStrategy::MeanValue)
    } else {
        None
    }
}

/// Which data type a cast target string denotes, if any.
pub open spec fn parse_dtype(s: Seq<char>) -> Option<DType> {
    if s == "integer"@ {
        Some(DType::Integer)
    } else if s == "float"@ {
        Some(DType::Float)
    } else if s == "boolean"@ {
        Some(DType::Boolean)
    } else if s == "string"@ {
        Some(DType::Text)
    } else if s == "date"@ {
        Some(DType::Date)
    } else if s == "datetime"@ {
        Some(DType::DateTime)
    } else {
        None
    }
}

/// Whether the parameters of a rolling window are valid: size at least one,
/// exactly one weight per slot when weights are given, and a minimum period
/// count that does not exceed the size.
pub open spec fn window_params_ok(
    size: usize,
    weights: Option<Weights>,
    min_periods: Option<usize>,
) -> bool {
    &&& size >= 1
    &&& (weights matches Some(w) ==> weights_len(w) == size)
    &&& (min_periods matches Some(mp) ==> mp <= size)
}

/// The construction error reported for invalid window parameters, checked
/// in order: size, then weights, then minimum periods.
pub open spec fn window_params_err(size: usize, weights: Option<Weights>) -> ConstructionError {
    if size < 1 {
        ConstructionError::WindowSizeZero
    } else if weights matches Some(w) && weights_len(w) != size {
        ConstructionError::WeightsLengthMismatch
    } else {
        ConstructionError::MinPeriodsTooLarge
    }
}

// ---------------------------------------------------------------------------
// Leaf builders.
// ---------------------------------------------------------------------------

/// Wraps an integer as a typed literal leaf.
pub fn expr_integer(number: i64) -> (r: ExprNode)
    ensures
        r == ExprNode::Literal(Scalar::Int(number)),
{
    ExprNode::Literal(Scalar::Int(number))
}

/// Wraps a floating-point value, given as its IEEE 754 bit pattern, as a
/// typed literal leaf.  The algebra carries the bits opaquely.
pub fn expr_float(bits: u64) -> (r: ExprNode)
    ensures
        r == ExprNode::Literal(Scalar::FloatBits(bits)),
{
    ExprNode::Literal(Scalar::FloatBits(bits))
}

/// Wraps a string as a typed literal leaf.
pub fn expr_string(string: String) -> (r: ExprNode)
    ensures
        r == ExprNode::Literal(Scalar::Text(string)),
{
    ExprNode::Literal(Scalar::Text(string))
}

/// Wraps a boolean as a typed literal leaf.
pub fn expr_boolean(boolean: bool) -> (r: ExprNode)
    ensures
        r == ExprNode::Literal(Scalar::Bool(boolean)),
{
    ExprNode::Literal(Scalar::Bool(boolean))
}

/// Wraps a date, in the canonical representation of days since the Unix
/// epoch, as a typed literal leaf.
pub fn expr_date(days: i32) -> (r: ExprNode)
    ensures
        r == ExprNode::Literal(Scalar::Date(days)),
{
    ExprNode::Literal(Scalar::Date(days))
}

/// Wraps a datetime, in the canonical representation of microseconds since
/// the Unix epoch, as a typed literal leaf.
pub fn expr_datetime(microseconds: i64) -> (r: ExprNode)
    ensures
        r == ExprNode::Literal(Scalar::DateTime(microseconds)),
{
    ExprNode::Literal(Scalar::DateTime(microseconds))
}

/// A null literal leaf.
pub fn expr_null() -> (r: ExprNode)
    ensures
        r == ExprNode::Literal(Scalar::Null),
{
    ExprNode::Literal(Scalar::Null)
}

/// A leaf that defers column-name resolution to evaluation time; an absent
/// name is an evaluation error, not a construction failure.
pub fn expr_column(name: &str) -> (r: ExprNode)
    ensures
        r matches ExprNode::Column(n) && n@ == name@,
{
    ExprNode::Column(name.to_owned())
}

// ---------------------------------------------------------------------------
// Comparison and logical combinators.
// ---------------------------------------------------------------------------

/// Element-wise equality test.
pub fn expr_eq(left: ExprNode, right: ExprNode) -> (r: ExprNode)
    ensures
        r == binary_node(BinaryOp::Eq, left, right),
{
    ExprNode::Binary(BinaryOp::Eq, Box::new(left), Box::new(right))
}

/// Element-wise inequality test.
pub fn expr_neq(left: ExprNode, right: ExprNode) -> (r: ExprNode)
    ensures
        r == binary_node(BinaryOp::Neq, left, right),
{
    ExprNode::Binary(BinaryOp::Neq, Box::new(left), Box::new(right))
}

/// Element-wise strictly-greater test.
pub fn expr_gt(left: ExprNode, right: ExprNode) -> (r: ExprNode)
    ensures
        r == binary_node(BinaryOp::Gt, left, right),
{
    ExprNode::Binary(BinaryOp::Gt, Box::new(left), Box::new(right))
}

/// Element-wise greater-or-equal test.
pub fn expr_gt_eq(left: ExprNode, right: ExprNode) -> (r: ExprNode)
    ensures
        r == binary_node(BinaryOp::GtEq, left, right),
{
    ExprNode::Binary(BinaryOp::GtEq, Box::new(left), Box::new(right))
}

/// Element-wise strictly-less test.
pub fn expr_lt(left: ExprNode, right: ExprNode) -> (r: ExprNode)
    ensures
        r == binary_node(BinaryOp::Lt, left, right),
{
    ExprNode::Binary(BinaryOp::Lt, Box::new(left), Box::new(right))
}

/// Element-wise less-or-equal test.
pub fn expr_lt_eq(left: ExprNode, right: ExprNode) -> (r: ExprNode)
    ensures
        r == binary_node(BinaryOp::LtEq, left, right),
{
    ExprNode::Binary(BinaryOp::LtEq, Box::new(left), Box::new(right))
}

/// Element-wise conjunction; operands must be boolean-typed, which is
/// checked at evaluation, not at construction.
pub fn expr_binary_and(left: ExprNode, right: ExprNode) -> (r: ExprNode)
    ensures
        r == binary_node(BinaryOp::And, left, right),
{
    ExprNode::Binary(BinaryOp::And, Box::new(left), Box::new(right))
}

/// Element-wise disjunction; operands must be boolean-typed, which is
/// checked at evaluation, not at construction.
pub fn expr_binary_or(left: ExprNode, right: ExprNode) -> (r: ExprNode)
    ensures
        r == binary_node(BinaryOp::Or, left, right),
{
    ExprNode::Binary(BinaryOp::Or, Box::new(left), Box::new(right))
}

/// Element-wise null test.
pub fn expr_is_nil(expr: ExprNode) -> (r: ExprNode)
    ensures
        r == unary_node(UnaryOp::IsNull, expr),
{
    ExprNode::Unary(UnaryOp::IsNull, Box::new(expr))
}

/// Element-wise non-null test.
pub fn expr_is_not_nil(expr: ExprNode) -> (r: ExprNode)
    ensures
        r == unary_node(UnaryOp::IsNotNull, expr),
{
    ExprNode::Unary(UnaryOp::IsNotNull, Box::new(expr))
}

/// A single boolean stating whether every paired element of the two
/// operands is equal: the all-reduction of the element-wise equality.
pub fn expr_all_equal(left: ExprNode, right: ExprNode) -> (r: ExprNode)
    ensures
        r == agg_node(AggOp::All, binary_node(BinaryOp::Eq, left, right)),
{
    ExprNode::Aggregate(
        AggOp::All,
        Box::new(ExprNode::Binary(BinaryOp::Eq, Box::new(left), Box::new(right))),
    )
}

// ---------------------------------------------------------------------------
// Arithmetic combinators.
// ---------------------------------------------------------------------------

/// Element-wise addition.
pub fn expr_add(left: ExprNode, right: ExprNode) -> (r: ExprNode)
    ensures
        r == binary_node(BinaryOp::Add, left, right),
{
    ExprNode::Binary(BinaryOp::Add, Box::new(left), Box::new(right))
}

/// Element-wise subtraction.
pub fn expr_subtract(left: ExprNode, right: ExprNode) -> (r: ExprNode)
    ensures
        r == binary_node(BinaryOp::Subtract, left, right),
{
    ExprNode::Binary(BinaryOp::Subtract, Box::new(left), Box::new(right))
}

/// Element-wise multiplication.
pub fn expr_multiply(left: ExprNode, right: ExprNode) -> (r: ExprNode)
    ensures
        r == binary_node(BinaryOp::Multiply, left, right),
{
    ExprNode::Binary(BinaryOp::Multiply, Box::new(left), Box::new(right))
}

/// Element-wise division, with no explicit zero guard: a zero divisor
/// behaves as the value domain dictates.
pub fn expr_divide(left: ExprNode, right: ExprNode) -> (r: ExprNode)
    ensures
        r == binary_node(BinaryOp::Divide, left, right),
{
    ExprNode::Binary(BinaryOp::Divide, Box::new(left), Box::new(right))
}

/// Element-wise exponentiation.
pub fn expr_pow(left: ExprNode, right: ExprNode) -> (r: ExprNode)
    ensures
        r == binary_node(BinaryOp::Pow, left, right),
{
    ExprNode::Binary(BinaryOp::Pow, Box::new(left), Box::new(right))
}

/// Division that substitutes null wherever the divisor is zero, by an
/// explicit guard rather than any domain behavior.
pub fn expr_quotient(left: ExprNode, right: ExprNode) -> (r: ExprNode)
    ensures
        r == quotient_node(left, right),
{
    let guard = ExprNode::Conditional(
        Box::new(ExprNode::Binary(
            BinaryOp::Eq,
            Box::new(right.duplicate()),
            Box::new(ExprNode::Literal(Scalar::Int(0))),
        )),
        Box::new(ExprNode::Literal(Scalar::Null)),
        Box::new(right),
    );
    ExprNode::Binary(BinaryOp::Divide, Box::new(left), Box::new(guard))
}

/// `remainder(l, r) = l - r * quotient(l, r)`: reuses the same zero guard,
/// so quotient and remainder are null at exactly the same positions.
pub fn expr_remainder(left: ExprNode, right: ExprNode) -> (r: ExprNode)
    ensures
        r == remainder_node(left, right),
{
    let quotient = expr_quotient(left.duplicate(), right.duplicate());
    let mult = ExprNode::Binary(BinaryOp::Multiply, Box::new(right), Box::new(quotient));
    ExprNode::Binary(BinaryOp::Subtract, Box::new(left), Box::new(mult))
}

// ---------------------------------------------------------------------------
// Null handling.
// ---------------------------------------------------------------------------

/// Fills null positions by the named strategy: `"backward"` and
/// `"forward"` propagate the nearest non-null value in that direction;
/// `"min"`, `"max"` and `"mean"` substitute the single full-column
/// reduction.  Any other strategy string is a construction error.
pub fn expr_fill_missing(data: ExprNode, strategy: &str) -> (r: Result<
    ExprNode,
    ConstructionError,
>)
    ensures
        match r {
            Ok(node) => parse_fill_strategy(strategy@) matches Some(st) && node == fill_node(
                st,
                data,
            ),
            Err(e) => parse_fill_strategy(strategy@) is None && e
                == ConstructionError::UnknownFillStrategy,
        },
{
    if str_eq(strategy, "backward") {
        Ok(ExprNode::Unary(UnaryOp::BackwardFill, Box::new(data)))
    } else if str_eq(strategy, "forward") {
        Ok(ExprNode::Unary(UnaryOp::ForwardFill, Box::new(data)))
    } else if str_eq(strategy, "min") {
        Ok(fill_with_agg(data, AggOp::Min))
    } else if str_eq(strategy, "max") {
        Ok(fill_with_agg(data, AggOp::Max))
    } else if str_eq(strategy, "mean") {
        Ok(fill_with_agg(data, AggOp::Mean))
    } else {
        Err(ConstructionError::UnknownFillStrategy)
    }
}

fn fill_with_agg(data: ExprNode, op: AggOp) -> (r: ExprNode)
    ensures
        r == coalesce_node(data, agg_node(op, data)),
{
    let reduction = ExprNode::Aggregate(op, Box::new(data.duplicate()));
    expr_fill_missing_with_value(data, reduction)
}

/// Substitutes an arbitrary expression-valued default at null positions of
/// `data`.
pub fn expr_fill_missing_with_value(data: ExprNode, value: ExprNode) -> (r: ExprNode)
    ensures
        r == coalesce_node(data, value),
{
    let predicate = ExprNode::Unary(UnaryOp::IsNotNull, Box::new(data.duplicate()));
    ExprNode::Conditional(Box::new(predicate), Box::new(data), Box::new(value))
}

/// `coalesce(l, r)`: `l` wherever `l` is non-null, else `r`.  Both sides
/// are pre-built expressions and both are evaluated.
pub fn expr_coalesce(left: ExprNode, right: ExprNode) -> (r: ExprNode)
    ensures
        r == coalesce_node(left, right),
{
    expr_fill_missing_with_value(left, right)
}

// ---------------------------------------------------------------------------
// Aggregates.
// ---------------------------------------------------------------------------

/// Sum reduction.
pub fn expr_sum(expr: ExprNode) -> (r: ExprNode)
    ensures
        r == agg_node(AggOp::Sum, expr),
{
    ExprNode::Aggregate(AggOp::Sum, Box::new(expr))
}

/// Minimum reduction.
pub fn expr_min(expr: ExprNode) -> (r: ExprNode)
    ensures
        r == agg_node(AggOp::Min, expr),
{
    ExprNode::Aggregate(AggOp::Min, Box::new(expr))
}

/// Maximum reduction.
pub fn expr_max(expr: ExprNode) -> (r: ExprNode)
    ensures
        r == agg_node(AggOp::Max, expr),
{
    ExprNode::Aggregate(AggOp::Max, Box::new(expr))
}

/// Mean reduction.
pub fn expr_mean(expr: ExprNode) -> (r: ExprNode)
    ensures
        r == agg_node(AggOp::Mean, expr),
{
    ExprNode::Aggregate(AggOp::Mean, Box::new(expr))
}

/// Median reduction.
pub fn expr_median(expr: ExprNode) -> (r: ExprNode)
    ensures
        r == agg_node(AggOp::Median, expr),
{
    ExprNode::Aggregate(AggOp::Median, Box::new(expr))
}

/// Sample variance reduction (ddof = 1, always).
pub fn expr_var(expr: ExprNode) -> (r: ExprNode)
    ensures
        r == agg_node(AggOp::Var, expr),
{
    ExprNode::Aggregate(AggOp::Var, Box::new(expr))
}

/// Sample standard deviation reduction (ddof = 1, always).
pub fn expr_std(expr: ExprNode) -> (r: ExprNode)
    ensures
        r == agg_node(AggOp::Std, expr),
{
    ExprNode::Aggregate(AggOp::Std, Box::new(expr))
}

/// Quantile reduction with nearest-value interpolation; the quantile is
/// given as the IEEE 754 bit pattern of a value between zero and one.
pub fn expr_quantile(expr: ExprNode, quantile_bits: u64) -> (r: ExprNode)
    ensures
        r == agg_node(AggOp::Quantile(quantile_bits), expr),
{
    ExprNode::Aggregate(AggOp::Quantile(quantile_bits), Box::new(expr))
}

/// Count of non-null values.
pub fn expr_count(expr: ExprNode) -> (r: ExprNode)
    ensures
        r == agg_node(AggOp::Count, expr),
{
    ExprNode::Aggregate(AggOp::Count, Box::new(expr))
}

/// Count of distinct values; a present null counts as one value.
pub fn expr_n_distinct(expr: ExprNode) -> (r: ExprNode)
    ensures
        r == agg_node(AggOp::NDistinct, expr),
{
    ExprNode::Aggregate(AggOp::NDistinct, Box::new(expr))
}

/// First element.
pub fn expr_first(expr: ExprNode) -> (r: ExprNode)
    ensures
        r == agg_node(AggOp::First, expr),
{
    ExprNode::Aggregate(AggOp::First, Box::new(expr))
}

/// Last element.
pub fn expr_last(expr: ExprNode) -> (r: ExprNode)
    ensures
        r == agg_node(AggOp::Last, expr),
{
    ExprNode::Aggregate(AggOp::Last, Box::new(expr))
}

/// A boolean mask, true wherever an element equals the global minimum or
/// maximum reduction of the same expression.  The kind string must be
/// `"min"` or `"max"`; anything else is a construction error.
pub fn expr_peaks(data: ExprNode, min_or_max: &str) -> (r: Result<ExprNode, ConstructionError>)
    ensures
        match r {
            Ok(node) => {
                ||| min_or_max@ == "min"@ && node == binary_node(
                    BinaryOp::Eq,
                    data,
                    agg_node(AggOp::Min, data),
                )
                ||| min_or_max@ == "max"@ && node == binary_node(
                    BinaryOp::Eq,
                    data,
                    agg_node(AggOp::Max, data),
                )
            },
            Err(e) => min_or_max@ != "min"@ && min_or_max@ != "max"@ && e
                == ConstructionError::UnknownPeakKind,
        },
{
    if str_eq(min_or_max, "min") {
        let reduction = ExprNode::Aggregate(AggOp::Min, Box::new(data.duplicate()));
        Ok(ExprNode::Binary(BinaryOp::Eq, Box::new(data), Box::new(reduction)))
    } else if str_eq(min_or_max, "max") {
        let reduction = ExprNode::Aggregate(AggOp::Max, Box::new(data.duplicate()));
        Ok(ExprNode::Binary(BinaryOp::Eq, Box::new(data), Box::new(reduction)))
    } else {
        Err(ConstructionError::UnknownPeakKind)
    }
}

// ---------------------------------------------------------------------------
// Rolling windows.
// ---------------------------------------------------------------------------

fn window_expr(
    op: WindowOp,
    data: ExprNode,
    window_size: usize,
    weights: Option<Vec<u64>>,
    min_periods: Option<usize>,
    center: bool,
) -> (r: Result<ExprNode, ConstructionError>)
    ensures
        match r {
            Ok(node) => window_params_ok(window_size, opt_weights_of(weights), min_periods)
                && node == ExprNode::Window(
                op,
                Box::new(data),
                WindowParams {
                    size: window_size,
                    weights: opt_weights_of(weights),
                    min_periods,
                    center,
                },
            ),
            Err(e) => !window_params_ok(window_size, opt_weights_of(weights), min_periods) && e
                == window_params_err(window_size, opt_weights_of(weights)),
        },
{
    proof {
        match &weights {
            Some(v) => lemma_weights_of_len(v@),
            None => (),
        }
    }
    if window_size < 1 {
        return Err(ConstructionError::WindowSizeZero);
    }
    let stored: Option<Weights> = match &weights {
        Some(w) => {
            if w.len() != window_size {
                return Err(ConstructionError::WeightsLengthMismatch);
            }
            Some(weights_from_vec(w))
        },
        None => None,
    };
    if let Some(mp) = &min_periods {
        if *mp > window_size {
            return Err(ConstructionError::MinPeriodsTooLarge);
        }
    }
    Ok(ExprNode::Window(
        op,
        Box::new(data),
        WindowParams { size: window_size, weights: stored, min_periods, center },
    ))
}

/// Rolling maximum over a sliding window.  The parameters are validated
/// eagerly: the size must be at least one, weights (if given) must have
/// exactly one entry per slot, and `min_periods` (if given) must not
/// exceed the size.
pub fn expr_window_max(
    data: ExprNode,
    window_size: usize,
    weights: Option<Vec<u64>>,
    min_periods: Option<usize>,
    center: bool,
) -> (r: Result<ExprNode, ConstructionError>)
    ensures
        match r {
            Ok(node) => window_params_ok(window_size, opt_weights_of(weights), min_periods)
                && node == ExprNode::Window(
                WindowOp::WinMax,
                Box::new(data),
                WindowParams {
                    size: window_size,
                    weights: opt_weights_of(weights),
                    min_periods,
                    center,
                },
            ),
            Err(e) => !window_params_ok(window_size, opt_weights_of(weights), min_periods) && e
                == window_params_err(window_size, opt_weights_of(weights)),
        },
{
    window_expr(WindowOp::WinMax, data, window_size, weights, min_periods, center)
}

/// Rolling minimum over a sliding window, validated as `expr_window_max`.
pub fn expr_window_min(
    data: ExprNode,
    window_size: usize,
    weights: Option<Vec<u64>>,
    min_periods: Option<usize>,
    center: bool,
) -> (r: Result<ExprNode, ConstructionError>)
    ensures
        match r {
            Ok(node) => window_params_ok(window_size, opt_weights_of(weights), min_periods)
                && node == ExprNode::Window(
                WindowOp::WinMin,
                Box::new(data),
                WindowParams {
                    size: window_size,
                    weights: opt_weights_of(weights),
                    min_periods,
                    center,
                },
            ),
            Err(e) => !window_params_ok(window_size, opt_weights_of(weights), min_periods) && e
                == window_params_err(window_size, opt_weights_of(weights)),
        },
{
    window_expr(WindowOp::WinMin, data, window_size, weights, min_periods, center)
}

/// Rolling sum over a sliding window, validated as `expr_window_max`.
pub fn expr_window_sum(
    data: ExprNode,
    window_size: usize,
    weights: Option<Vec<u64>>,
    min_periods: Option<usize>,
    center: bool,
) -> (r: Result<ExprNode, ConstructionError>)
    ensures
        match r {
            Ok(node) => window_params_ok(window_size, opt_weights_of(weights), min_periods)
                && node == ExprNode::Window(
                WindowOp::WinSum,
                Box::new(data),
                WindowParams {
                    size: window_size,
                    weights: opt_weights_of(weights),
                    min_periods,
                    center,
                },
            ),
            Err(e) => !window_params_ok(window_size, opt_weights_of(weights), min_periods) && e
                == window_params_err(window_size, opt_weights_of(weights)),
        },
{
    window_expr(WindowOp::WinSum, data, window_size, weights, min_periods, center)
}

/// Rolling mean over a sliding window, validated as `expr_window_max`.
pub fn expr_window_mean(
    data: ExprNode,
    window_size: usize,
    weights: Option<Vec<u64>>,
    min_periods: Option<usize>,
    center: bool,
) -> (r: Result<ExprNode, ConstructionError>)
    ensures
        match r {
            Ok(node) => window_params_ok(window_size, opt_weights_of(weights), min_periods)
                && node == ExprNode::Window(
                WindowOp::WinMean,
                Box::new(data),
                WindowParams {
                    size: window_size,
                    weights: opt_weights_of(weights),
                    min_periods,
                    center,
                },
            ),
            Err(e) => !window_params_ok(window_size, opt_weights_of(weights), min_periods) && e
                == window_params_err(window_size, opt_weights_of(weights)),
        },
{
    window_expr(WindowOp::WinMean, data, window_size, weights, min_periods, center)
}

// ---------------------------------------------------------------------------
// Cumulative, ordering and uniqueness operators.
// ---------------------------------------------------------------------------

/// Running minimum; `reverse` runs it from the back.
pub fn expr_cumulative_min(data: ExprNode, reverse: bool) -> (r: ExprNode)
    ensures
        r == ExprNode::Cumulative(CumOp::CumMin, Box::new(data), reverse),
{
    ExprNode::Cumulative(CumOp::CumMin, Box::new(data), reverse)
}

/// Running maximum; `reverse` runs it from the back.
pub fn expr_cumulative_max(data: ExprNode, reverse: bool) -> (r: ExprNode)
    ensures
        r == ExprNode::Cumulative(CumOp::CumMax, Box::new(data), reverse),
{
    ExprNode::Cumulative(CumOp::CumMax, Box::new(data), reverse)
}

/// Running sum; `reverse` runs it from the back.
pub fn expr_cumulative_sum(data: ExprNode, reverse: bool) -> (r: ExprNode)
    ensures
        r == ExprNode::Cumulative(CumOp::CumSum, Box::new(data), reverse),
{
    ExprNode::Cumulative(CumOp::CumSum, Box::new(data), reverse)
}

/// Reverses element order without re-sorting.
pub fn expr_reverse(expr: ExprNode) -> (r: ExprNode)
    ensures
        r == unary_node(UnaryOp::Reverse, expr),
{
    ExprNode::Unary(UnaryOp::Reverse, Box::new(expr))
}

/// Total-order sort of the operand values; nulls sort last regardless of
/// the direction.
pub fn expr_sort(expr: ExprNode, reverse: bool) -> (r: ExprNode)
    ensures
        r == ExprNode::Sort(Box::new(expr), reverse),
{
    ExprNode::Sort(Box::new(expr), reverse)
}

/// The index permutation that would produce `expr_sort`'s order; its null
/// placement (nulls first) is fixed independently of `expr_sort`'s.
pub fn expr_argsort(expr: ExprNode, reverse: bool) -> (r: ExprNode)
    ensures
        r == ExprNode::ArgSort(Box::new(expr), reverse),
{
    ExprNode::ArgSort(Box::new(expr), reverse)
}

/// The distinct values in first-occurrence order.
pub fn expr_distinct(expr: ExprNode) -> (r: ExprNode)
    ensures
        r == ExprNode::Distinct(Box::new(expr), true),
{
    ExprNode::Distinct(Box::new(expr), true)
}

/// The same distinct value set, with no order guarantee.
pub fn expr_unordered_distinct(expr: ExprNode) -> (r: ExprNode)
    ensures
        r == ExprNode::Distinct(Box::new(expr), false),
{
    ExprNode::Distinct(Box::new(expr), false)
}

// ---------------------------------------------------------------------------
// Shape operators, cast and alias.
// ---------------------------------------------------------------------------

/// At most `length` elements starting at `offset`; a negative offset
/// counts from the end.
pub fn expr_slice(expr: ExprNode, offset: i64, length: u32) -> (r: ExprNode)
    ensures
        r == ExprNode::Slice(Box::new(expr), offset, length),
{
    ExprNode::Slice(Box::new(expr), offset, length)
}

/// At most `length` elements from the front; the whole sequence when it is
/// shorter.
pub fn expr_head(expr: ExprNode, length: usize) -> (r: ExprNode)
    ensures
        r == ExprNode::Head(Box::new(expr), length),
{
    ExprNode::Head(Box::new(expr), length)
}

/// At most `length` elements from the back; the whole sequence when it is
/// shorter.
pub fn expr_tail(expr: ExprNode, length: usize) -> (r: ExprNode)
    ensures
        r == ExprNode::Tail(Box::new(expr), length),
{
    ExprNode::Tail(Box::new(expr), length)
}

/// Declares a type coercion of the operand.  An unrecognized target type
/// string is a construction error, raised before any evaluation.
pub fn expr_cast(data: ExprNode, to_dtype: &str) -> (r: Result<ExprNode, ConstructionError>)
    ensures
        match r {
            Ok(node) => parse_dtype(to_dtype@) matches Some(dt) && node == ExprNode::Cast(
                Box::new(data),
                dt,
            ),
            Err(e) => parse_dtype(to_dtype@) is None && e == ConstructionError::UnknownCastType,
        },
{
    if str_eq(to_dtype, "integer") {
        Ok(ExprNode::Cast(Box::new(data), DType::Integer))
    } else if str_eq(to_dtype, "float") {
        Ok(ExprNode::Cast(Box::new(data), DType::Float))
    } else if str_eq(to_dtype, "boolean") {
        Ok(ExprNode::Cast(Box::new(data), DType::Boolean))
    } else if str_eq(to_dtype, "string") {
        Ok(ExprNode::Cast(Box::new(data), DType::Text))
    } else if str_eq(to_dtype, "date") {
        Ok(ExprNode::Cast(Box::new(data), DType::Date))
    } else if str_eq(to_dtype, "datetime") {
        Ok(ExprNode::Cast(Box::new(data), DType::DateTime))
    } else {
        Err(ConstructionError::UnknownCastType)
    }
}

/// Renames the node's output label without changing its computed values.
pub fn expr_alias(expr: ExprNode, name: &str) -> (r: ExprNode)
    ensures
        r matches ExprNode::Alias(e, n) && *e == expr && n@ == name@,
{
    ExprNode::Alias(Box::new(expr), name.to_owned())
}

} // verus!
