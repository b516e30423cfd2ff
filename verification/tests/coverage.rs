use explorer::{
    evaluate, expr_add, expr_alias, expr_boolean, expr_column, expr_cumulative_max,
    expr_cumulative_min, expr_date, expr_datetime, expr_describe_filter_plan, expr_float,
    expr_integer, expr_median, expr_multiply, expr_pow, expr_quantile, expr_sort, expr_std,
    expr_string, expr_subtract, expr_window_max, expr_window_mean, expr_window_min, EvalError,
    Frame, Value,
};

fn ints(vals: &[Option<i64>]) -> Vec<Value> {
    vals.iter()
        .map(|v| match v {
            Some(x) => Value::Int(*x),
            None => Value::Null,
        })
        .collect()
}

fn frame_x(vals: &[Option<i64>]) -> Frame {
    Frame::new(vals.len())
        .with_column("x", ints(vals))
        .unwrap()
}

#[test]
fn cumulative_min_and_max_carry_through_nulls() {
    let f = frame_x(&[Some(3), None, Some(1), Some(2)]);
    let mn = expr_cumulative_min(expr_column("x"), false);
    assert_eq!(
        evaluate(&f, &mn).unwrap().cells,
        ints(&[Some(3), None, Some(1), Some(1)])
    );
    let mx = expr_cumulative_max(expr_column("x"), false);
    assert_eq!(
        evaluate(&f, &mx).unwrap().cells,
        ints(&[Some(3), None, Some(3), Some(3)])
    );
}

#[test]
fn rolling_min_max_and_mean_have_exact_values() {
    let f = frame_x(&[Some(4), Some(1), Some(3), Some(2)]);
    let mn = expr_window_min(expr_column("x"), 2, None, None, false).unwrap();
    assert_eq!(
        evaluate(&f, &mn).unwrap().cells,
        ints(&[None, Some(1), Some(1), Some(2)])
    );
    let mx = expr_window_max(expr_column("x"), 2, None, None, false).unwrap();
    assert_eq!(
        evaluate(&f, &mx).unwrap().cells,
        ints(&[None, Some(4), Some(3), Some(3)])
    );
    let mean = expr_window_mean(expr_column("x"), 2, None, Some(1), false).unwrap();
    assert_eq!(
        evaluate(&f, &mean).unwrap().cells,
        ints(&[Some(4), Some(2), Some(2), Some(2)])
    );
}

#[test]
fn rolling_windows_count_only_non_null_cells() {
    let f = frame_x(&[Some(5), None, None, Some(7)]);
    let mn = expr_window_min(expr_column("x"), 2, None, None, false).unwrap();
    assert_eq!(evaluate(&f, &mn).unwrap().cells, ints(&[None, None, None, None]));
    let relaxed = expr_window_min(expr_column("x"), 2, None, Some(1), false).unwrap();
    assert_eq!(
        evaluate(&f, &relaxed).unwrap().cells,
        ints(&[Some(5), Some(5), None, Some(7)])
    );
}

#[test]
fn fractional_aggregations_are_constructible_but_not_runnable_here() {
    let f = frame_x(&[Some(1), Some(2)]);
    for e in [
        expr_median(expr_column("x")),
        expr_std(expr_column("x")),
        explorer::expr_var(expr_column("x")),
        expr_quantile(expr_column("x"), 0.5f64.to_bits()),
    ] {
        assert_eq!(evaluate(&f, &e).unwrap_err(), EvalError::Unsupported);
    }
}

#[test]
fn textual_and_temporal_literals_are_outside_the_integral_engine() {
    let f = frame_x(&[Some(1)]);
    for e in [
        expr_string(String::from("s")),
        expr_date(10),
        expr_datetime(1000),
        expr_float(1.0f64.to_bits()),
    ] {
        assert_eq!(evaluate(&f, &e).unwrap_err(), EvalError::Unsupported);
    }
    assert_eq!(
        evaluate(&f, &expr_boolean(true)).unwrap().cells,
        vec![Value::Bool(true)]
    );
}

#[test]
fn arithmetic_overflow_yields_null() {
    let f = frame_x(&[Some(i64::MAX)]);
    let add = expr_add(expr_column("x"), expr_integer(1));
    assert_eq!(evaluate(&f, &add).unwrap().cells, ints(&[None]));
    let mul = expr_multiply(expr_column("x"), expr_integer(2));
    assert_eq!(evaluate(&f, &mul).unwrap().cells, ints(&[None]));
    let sub = expr_subtract(expr_integer(i64::MIN), expr_integer(1));
    assert_eq!(evaluate(&f, &sub).unwrap().cells, ints(&[None]));
    let pow = expr_pow(expr_integer(2), expr_integer(64));
    assert_eq!(evaluate(&f, &pow).unwrap().cells, ints(&[None]));
}

#[test]
fn sorting_booleans_orders_false_before_true() {
    let f = Frame::new(3)
        .with_column(
            "b",
            vec![Value::Bool(true), Value::Bool(false), Value::Null],
        )
        .unwrap();
    let sorted = evaluate(&f, &expr_sort(expr_column("b"), false)).unwrap().cells;
    assert_eq!(sorted, vec![Value::Bool(false), Value::Bool(true), Value::Null]);
}

#[test]
fn frame_rejects_a_column_of_the_wrong_height() {
    let r = Frame::new(3).with_column("x", ints(&[Some(1)]));
    assert_eq!(r.unwrap_err(), EvalError::LengthMismatch);
}

#[test]
fn plan_text_renders_nested_operators() {
    let f = frame_x(&[Some(1)]);
    let pred = explorer::expr_binary_and(
        explorer::expr_is_not_nil(expr_column("x")),
        explorer::expr_lt_eq(expr_alias(expr_column("x"), "y"), expr_integer(10)),
    );
    let text = expr_describe_filter_plan(&f, &pred);
    assert_eq!(
        text,
        "FILTER (is_not_null(col(\"x\")) & (col(\"x\").alias(\"y\") <= lit(10))) FROM df[x]"
    );
}

#[test]
fn empty_column_reductions() {
    let f = Frame::new(0).with_column("x", vec![]).unwrap();
    assert_eq!(
        evaluate(&f, &explorer::expr_sum(expr_column("x"))).unwrap().cells,
        ints(&[Some(0)])
    );
    assert_eq!(
        evaluate(&f, &explorer::expr_min(expr_column("x"))).unwrap().cells,
        ints(&[None])
    );
    assert_eq!(
        evaluate(&f, &explorer::expr_mean(expr_column("x"))).unwrap().cells,
        ints(&[None])
    );
    assert_eq!(
        evaluate(&f, &explorer::expr_first(expr_column("x"))).unwrap().cells,
        ints(&[None])
    );
}
