use explorer::{
    evaluate, expr_alias, expr_all_equal, expr_argsort, expr_binary_and, expr_boolean,
    expr_cast, expr_coalesce, expr_column, expr_cumulative_sum, expr_describe_filter_plan,
    expr_distinct, expr_fill_missing, expr_float, expr_gt, expr_head, expr_integer,
    expr_is_nil, expr_is_not_nil, expr_lt_eq, expr_max, expr_mean, expr_min, expr_n_distinct,
    expr_null, expr_peaks, expr_pow, expr_quotient, expr_remainder, expr_reverse, expr_slice,
    expr_sort, expr_sum, expr_tail, expr_unordered_distinct, expr_var, expr_window_sum,
    expr_count, expr_divide, expr_first, expr_last, EvalError, ExprNode, Frame, Value,
};

fn ints(vals: &[Option<i64>]) -> Vec<Value> {
    vals.iter()
        .map(|v| match v {
            Some(x) => Value::Int(*x),
            None => Value::Null,
        })
        .collect()
}

fn frame_x(vals: &[Option<i64>]) -> Frame {
    Frame::new(vals.len())
        .with_column("x", ints(vals))
        .unwrap()
}

fn eval_cells(f: &Frame, e: &ExprNode) -> Vec<Value> {
    evaluate(f, e).unwrap().cells
}

#[test]
fn quotient_and_remainder_with_constant_divisor() {
    let f = frame_x(&[Some(1), Some(2), Some(3), Some(4)]);
    let q = expr_quotient(expr_column("x"), expr_integer(2));
    assert_eq!(eval_cells(&f, &q), ints(&[Some(0), Some(1), Some(1), Some(2)]));
    let m = expr_remainder(expr_column("x"), expr_integer(2));
    assert_eq!(eval_cells(&f, &m), ints(&[Some(1), Some(0), Some(1), Some(0)]));
}

#[test]
fn quotient_and_remainder_are_null_exactly_at_zero_divisors() {
    let f = Frame::new(4)
        .with_column("x", ints(&[Some(1), Some(2), Some(3), Some(4)]))
        .unwrap()
        .with_column("y", ints(&[Some(0), Some(2), Some(0), Some(2)]))
        .unwrap();
    let q = expr_quotient(expr_column("x"), expr_column("y"));
    assert_eq!(eval_cells(&f, &q), ints(&[None, Some(1), None, Some(2)]));
    let m = expr_remainder(expr_column("x"), expr_column("y"));
    assert_eq!(eval_cells(&f, &m), ints(&[None, Some(0), None, Some(0)]));
}

#[test]
fn fill_missing_mean_replaces_nulls_with_the_column_mean() {
    let f = frame_x(&[Some(1), None, Some(3)]);
    let e = expr_fill_missing(expr_column("x"), "mean").unwrap();
    assert_eq!(eval_cells(&f, &e), ints(&[Some(1), Some(2), Some(3)]));
}

#[test]
fn alias_renames_without_changing_values() {
    let f = frame_x(&[Some(4), None, Some(6)]);
    let plain = evaluate(&f, &expr_column("x")).unwrap();
    let renamed = evaluate(&f, &expr_alias(expr_column("x"), "n")).unwrap();
    assert_eq!(renamed.cells, plain.cells);
    assert_eq!(renamed.name, "n");
    assert_eq!(plain.name, "x");
}

#[test]
fn coalesce_prefers_the_first_operand() {
    let f = Frame::new(3)
        .with_column("a", ints(&[None, Some(2), None]))
        .unwrap()
        .with_column("b", ints(&[Some(5), Some(7), None]))
        .unwrap();
    let e = expr_coalesce(expr_column("a"), expr_column("b"));
    assert_eq!(eval_cells(&f, &e), ints(&[Some(5), Some(2), None]));
}

#[test]
fn distinct_keeps_first_occurrence_order() {
    let f = frame_x(&[Some(2), Some(1), Some(2), None, Some(3), None]);
    let st = expr_distinct(expr_column("x"));
    let stable = eval_cells(&f, &st);
    assert_eq!(stable, ints(&[Some(2), Some(1), None, Some(3)]));
    let un = expr_unordered_distinct(expr_column("x"));
    let mut unordered = eval_cells(&f, &un);
    let mut expected = stable.clone();
    unordered.sort_by_key(format_cells);
    expected.sort_by_key(format_cells);
    assert_eq!(unordered, expected);
}

fn format_cells(v: &Value) -> String {
    format!("{:?}", v)
}

#[test]
fn sort_and_argsort_are_consistent_without_nulls() {
    let f = frame_x(&[Some(3), Some(1), Some(2)]);
    for desc in [false, true] {
        let sorted = eval_cells(&f, &expr_sort(expr_column("x"), desc));
        let perm = eval_cells(&f, &expr_argsort(expr_column("x"), desc));
        let input = ints(&[Some(3), Some(1), Some(2)]);
        let gathered: Vec<Value> = perm
            .iter()
            .map(|p| match p {
                Value::Int(i) => input[*i as usize],
                _ => panic!("argsort produced a non-index"),
            })
            .collect();
        assert_eq!(gathered, sorted);
    }
}

#[test]
fn sort_places_nulls_last_in_both_directions() {
    let f = frame_x(&[None, Some(2), Some(1)]);
    let asc = eval_cells(&f, &expr_sort(expr_column("x"), false));
    assert_eq!(asc, ints(&[Some(1), Some(2), None]));
    let desc = eval_cells(&f, &expr_sort(expr_column("x"), true));
    assert_eq!(desc, ints(&[Some(2), Some(1), None]));
}

#[test]
fn argsort_places_nulls_first() {
    let f = frame_x(&[None, Some(2), Some(1)]);
    let perm = eval_cells(&f, &expr_argsort(expr_column("x"), false));
    assert_eq!(perm, ints(&[Some(0), Some(2), Some(1)]));
}

#[test]
fn window_sum_of_size_one_is_the_identity() {
    let f = frame_x(&[Some(1), None, Some(3)]);
    let e = expr_window_sum(expr_column("x"), 1, None, None, false).unwrap();
    assert_eq!(eval_cells(&f, &e), ints(&[Some(1), None, Some(3)]));
}

#[test]
fn window_sum_trailing_and_centered() {
    let f = frame_x(&[Some(1), Some(2), Some(3), Some(4)]);
    let trailing = expr_window_sum(expr_column("x"), 2, None, None, false).unwrap();
    assert_eq!(eval_cells(&f, &trailing), ints(&[None, Some(3), Some(5), Some(7)]));
    let centered = expr_window_sum(expr_column("x"), 3, None, Some(1), true).unwrap();
    assert_eq!(
        eval_cells(&f, &centered),
        ints(&[Some(3), Some(6), Some(9), Some(7)])
    );
}

#[test]
fn cumulative_sum_skips_nulls_and_can_run_reversed() {
    let f = frame_x(&[Some(1), None, Some(2)]);
    let fwd = expr_cumulative_sum(expr_column("x"), false);
    assert_eq!(eval_cells(&f, &fwd), ints(&[Some(1), None, Some(3)]));
    let rev = expr_cumulative_sum(expr_column("x"), true);
    assert_eq!(eval_cells(&f, &rev), ints(&[Some(3), None, Some(2)]));
}

#[test]
fn reductions_have_exact_values() {
    let f = frame_x(&[Some(4), None, Some(1), Some(7)]);
    assert_eq!(eval_cells(&f, &expr_sum(expr_column("x"))), ints(&[Some(12)]));
    assert_eq!(eval_cells(&f, &expr_min(expr_column("x"))), ints(&[Some(1)]));
    assert_eq!(eval_cells(&f, &expr_max(expr_column("x"))), ints(&[Some(7)]));
    assert_eq!(eval_cells(&f, &expr_mean(expr_column("x"))), ints(&[Some(4)]));
    assert_eq!(eval_cells(&f, &expr_count(expr_column("x"))), ints(&[Some(3)]));
    assert_eq!(eval_cells(&f, &expr_first(expr_column("x"))), ints(&[Some(4)]));
    assert_eq!(eval_cells(&f, &expr_last(expr_column("x"))), ints(&[Some(7)]));
}

#[test]
fn mean_truncates_toward_zero() {
    let f = frame_x(&[Some(1), Some(2)]);
    assert_eq!(eval_cells(&f, &expr_mean(expr_column("x"))), ints(&[Some(1)]));
    let g = frame_x(&[Some(-1), Some(-2)]);
    assert_eq!(eval_cells(&g, &expr_mean(expr_column("x"))), ints(&[Some(-1)]));
}

#[test]
fn n_distinct_counts_null_as_one_value() {
    let f = frame_x(&[Some(2), Some(2), None, None, Some(3)]);
    assert_eq!(eval_cells(&f, &expr_n_distinct(expr_column("x"))), ints(&[Some(3)]));
}

#[test]
fn all_equal_reduces_elementwise_equality() {
    let f = Frame::new(2)
        .with_column("a", ints(&[Some(1), Some(2)]))
        .unwrap()
        .with_column("b", ints(&[Some(1), Some(2)]))
        .unwrap()
        .with_column("c", ints(&[Some(1), Some(3)]))
        .unwrap();
    let same = expr_all_equal(expr_column("a"), expr_column("b"));
    assert_eq!(eval_cells(&f, &same), vec![Value::Bool(true)]);
    let differ = expr_all_equal(expr_column("a"), expr_column("c"));
    assert_eq!(eval_cells(&f, &differ), vec![Value::Bool(false)]);
}

#[test]
fn peaks_marks_cells_equal_to_the_global_extremum() {
    let f = frame_x(&[Some(1), Some(3), Some(3)]);
    let e = expr_peaks(expr_column("x"), "max").unwrap();
    assert_eq!(
        eval_cells(&f, &e),
        vec![Value::Bool(false), Value::Bool(true), Value::Bool(true)]
    );
}

#[test]
fn directional_fills_propagate_the_nearest_value() {
    let f = frame_x(&[None, Some(1), None, Some(2), None]);
    let fwd = expr_fill_missing(expr_column("x"), "forward").unwrap();
    assert_eq!(eval_cells(&f, &fwd), ints(&[None, Some(1), Some(1), Some(2), Some(2)]));
    let bwd = expr_fill_missing(expr_column("x"), "backward").unwrap();
    assert_eq!(eval_cells(&f, &bwd), ints(&[Some(1), Some(1), Some(2), Some(2), None]));
}

#[test]
fn comparisons_propagate_nulls_and_null_tests_see_them() {
    let f = frame_x(&[Some(1), None, Some(3)]);
    let gt = expr_gt(expr_column("x"), expr_integer(2));
    assert_eq!(
        eval_cells(&f, &gt),
        vec![Value::Bool(false), Value::Null, Value::Bool(true)]
    );
    let isnil = expr_is_nil(expr_column("x"));
    assert_eq!(
        eval_cells(&f, &isnil),
        vec![Value::Bool(false), Value::Bool(true), Value::Bool(false)]
    );
    let notnil = expr_is_not_nil(expr_column("x"));
    assert_eq!(
        eval_cells(&f, &notnil),
        vec![Value::Bool(true), Value::Bool(false), Value::Bool(true)]
    );
}

#[test]
fn conjunction_uses_three_valued_logic() {
    let f = Frame::new(3)
        .with_column(
            "a",
            vec![Value::Bool(true), Value::Bool(false), Value::Null],
        )
        .unwrap();
    let e = expr_binary_and(expr_column("a"), ExprNode::Literal(explorer::Scalar::Null));
    assert_eq!(
        eval_cells(&f, &e),
        vec![Value::Null, Value::Bool(false), Value::Null]
    );
}

#[test]
fn division_by_zero_and_negative_exponents_are_null() {
    let f = frame_x(&[Some(6)]);
    let div = expr_divide(expr_column("x"), expr_integer(0));
    assert_eq!(eval_cells(&f, &div), ints(&[None]));
    let pow = expr_pow(expr_integer(2), expr_integer(10));
    assert_eq!(eval_cells(&f, &pow), ints(&[Some(1024)]));
    let neg = expr_pow(expr_integer(2), expr_integer(-1));
    assert_eq!(eval_cells(&f, &neg), ints(&[None]));
}

#[test]
fn shape_operators_clamp_to_the_column() {
    let f = frame_x(&[Some(1), Some(2), Some(3), Some(4)]);
    assert_eq!(
        eval_cells(&f, &expr_reverse(expr_column("x"))),
        ints(&[Some(4), Some(3), Some(2), Some(1)])
    );
    assert_eq!(
        eval_cells(&f, &expr_head(expr_column("x"), 9)),
        ints(&[Some(1), Some(2), Some(3), Some(4)])
    );
    assert_eq!(
        eval_cells(&f, &expr_tail(expr_column("x"), 2)),
        ints(&[Some(3), Some(4)])
    );
    assert_eq!(
        eval_cells(&f, &expr_slice(expr_column("x"), -3, 2)),
        ints(&[Some(2), Some(3)])
    );
    assert_eq!(
        eval_cells(&f, &expr_slice(expr_column("x"), 1, 99)),
        ints(&[Some(2), Some(3), Some(4)])
    );
}

#[test]
fn cast_between_integers_and_booleans() {
    let f = frame_x(&[Some(0), Some(5), None]);
    let e = expr_cast(expr_column("x"), "boolean").unwrap();
    assert_eq!(
        eval_cells(&f, &e),
        vec![Value::Bool(false), Value::Bool(true), Value::Null]
    );
    let back = expr_cast(e, "integer").unwrap();
    assert_eq!(eval_cells(&f, &back), ints(&[Some(0), Some(1), None]));
}

#[test]
fn evaluation_errors_surface_whole() {
    let f = frame_x(&[Some(1), Some(2), Some(3)]);
    let missing = evaluate(&f, &expr_column("nope"));
    assert_eq!(missing.unwrap_err(), EvalError::ColumnNotFound);
    let and_on_ints = evaluate(
        &f,
        &expr_binary_and(expr_column("x"), expr_column("x")),
    );
    assert_eq!(and_on_ints.unwrap_err(), EvalError::TypeMismatch);
    let mismatched = evaluate(
        &f,
        &explorer::expr_add(expr_head(expr_column("x"), 2), expr_column("x")),
    );
    assert_eq!(mismatched.unwrap_err(), EvalError::LengthMismatch);
    let fractional = evaluate(&f, &expr_var(expr_column("x")));
    assert_eq!(fractional.unwrap_err(), EvalError::Unsupported);
    let float_literal = evaluate(&f, &expr_float(1.5f64.to_bits()));
    assert_eq!(float_literal.unwrap_err(), EvalError::Unsupported);
    let weighted = expr_window_sum(expr_column("x"), 2, Some(vec![1, 2]), None, false).unwrap();
    assert_eq!(evaluate(&f, &weighted).unwrap_err(), EvalError::Unsupported);
}

#[test]
fn comparison_chain_keeps_left_label() {
    let f = frame_x(&[Some(1), Some(2), Some(3)]);
    let e = expr_lt_eq(expr_column("x"), expr_integer(2));
    let s = evaluate(&f, &e).unwrap();
    assert_eq!(s.name, "x");
    assert_eq!(
        s.cells,
        vec![Value::Bool(true), Value::Bool(true), Value::Bool(false)]
    );
}

#[test]
fn describe_filter_plan_renders_the_composed_filter() {
    let f = Frame::new(2)
        .with_column("x", ints(&[Some(1), Some(2)]))
        .unwrap()
        .with_column("y", ints(&[Some(3), Some(4)]))
        .unwrap();
    let pred = expr_gt(expr_column("x"), expr_integer(1));
    let text = expr_describe_filter_plan(&f, &pred);
    assert_eq!(text, "FILTER (col(\"x\") > lit(1)) FROM df[x, y]");
}

#[test]
fn describe_filter_plan_renders_negative_numbers() {
    let f = frame_x(&[Some(1)]);
    let pred = expr_gt(expr_column("x"), expr_integer(-12));
    let text = expr_describe_filter_plan(&f, &pred);
    assert_eq!(text, "FILTER (col(\"x\") > lit(-12)) FROM df[x]");
}
