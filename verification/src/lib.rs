//! A lazy expression algebra for column-wise computations over tabular data.
//!
//! Expressions are immutable trees built by pure factory functions: leaf
//! builders (`expr_integer`, `expr_column`, ...), combinators (`expr_add`,
//! `expr_eq`, ...), null-handling operators, aggregations, rolling windows,
//! ordering operators and shape operators.  A tree is only inspected when it
//! is handed to the evaluation boundary: `evaluate` runs it against a frame
//! of columns under the reference semantics, and `expr_describe_filter_plan`
//! renders a filter plan as text.

pub mod value;
pub mod expr;
pub mod cells;
pub mod columns;
pub mod eval;
pub mod laws;
pub mod plan;

pub use value::{Scalar, Value, DType, ConstructionError, EvalError};
pub use expr::{
    ExprNode, UnaryOp, BinaryOp, AggOp, CumOp, WindowOp, FillStrategy, Weights, WindowParams,
    expr_integer, expr_float, expr_string, expr_boolean, expr_date, expr_datetime, expr_null,
    expr_column, expr_cast, expr_eq, expr_neq, expr_gt, expr_gt_eq, expr_lt, expr_lt_eq,
    expr_binary_and, expr_binary_or, expr_is_nil, expr_is_not_nil, expr_all_equal, expr_slice,
    expr_head, expr_tail, expr_peaks, expr_fill_missing, expr_fill_missing_with_value,
    expr_add, expr_subtract, expr_divide, expr_quotient, expr_remainder, expr_multiply,
    expr_pow, expr_sum, expr_min, expr_max, expr_mean, expr_median, expr_var, expr_std,
    expr_quantile, expr_alias, expr_count, expr_n_distinct, expr_first, expr_last,
    expr_coalesce, expr_cumulative_min, expr_cumulative_max, expr_cumulative_sum, expr_reverse,
    expr_sort, expr_argsort, expr_distinct, expr_unordered_distinct, expr_window_max,
    expr_window_min, expr_window_sum, expr_window_mean,
};
pub use eval::{Frame, Column, Series, evaluate};
pub use plan::expr_describe_filter_plan;
