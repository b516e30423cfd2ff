use explorer::{
    expr_alias, expr_boolean, expr_cast, expr_coalesce, expr_column, expr_date, expr_datetime,
    expr_distinct, expr_eq, expr_fill_missing, expr_fill_missing_with_value, expr_float,
    expr_integer, expr_is_not_nil, expr_null, expr_peaks, expr_quotient, expr_remainder,
    expr_string, expr_unordered_distinct, expr_window_sum, AggOp, BinaryOp, ConstructionError,
    DType, ExprNode, Scalar, UnaryOp, Weights, WindowOp,
};

#[test]
fn literal_builders_wrap_scalars() {
    assert_eq!(expr_integer(5), ExprNode::Literal(Scalar::Int(5)));
    assert_eq!(
        expr_float(2.5f64.to_bits()),
        ExprNode::Literal(Scalar::FloatBits(2.5f64.to_bits()))
    );
    assert_eq!(
        expr_string(String::from("abc")),
        ExprNode::Literal(Scalar::Text(String::from("abc")))
    );
    assert_eq!(expr_boolean(true), ExprNode::Literal(Scalar::Bool(true)));
    assert_eq!(expr_date(19000), ExprNode::Literal(Scalar::Date(19000)));
    assert_eq!(
        expr_datetime(1_600_000_000_000_000),
        ExprNode::Literal(Scalar::DateTime(1_600_000_000_000_000))
    );
    assert_eq!(expr_null(), ExprNode::Literal(Scalar::Null));
    assert_eq!(expr_column("x"), ExprNode::Column(String::from("x")));
}

#[test]
fn cast_rejects_unknown_type_before_any_evaluation() {
    let r = expr_cast(expr_column("x"), "not_a_type");
    assert_eq!(r, Err(ConstructionError::UnknownCastType));
}

#[test]
fn cast_accepts_the_known_types() {
    for (name, dt) in [
        ("integer", DType::Integer),
        ("float", DType::Float),
        ("boolean", DType::Boolean),
        ("string", DType::Text),
        ("date", DType::Date),
        ("datetime", DType::DateTime),
    ] {
        let r = expr_cast(expr_column("x"), name).unwrap();
        assert_eq!(r, ExprNode::Cast(Box::new(expr_column("x")), dt));
    }
}

#[test]
fn fill_missing_rejects_unknown_strategy() {
    let r = expr_fill_missing(expr_column("x"), "sideways");
    assert_eq!(r, Err(ConstructionError::UnknownFillStrategy));
}

#[test]
fn fill_missing_directional_strategies_are_primitive() {
    let b = expr_fill_missing(expr_column("x"), "backward").unwrap();
    assert_eq!(
        b,
        ExprNode::Unary(UnaryOp::BackwardFill, Box::new(expr_column("x")))
    );
    let f = expr_fill_missing(expr_column("x"), "forward").unwrap();
    assert_eq!(
        f,
        ExprNode::Unary(UnaryOp::ForwardFill, Box::new(expr_column("x")))
    );
}

#[test]
fn fill_missing_mean_substitutes_the_full_column_reduction() {
    let m = expr_fill_missing(expr_column("x"), "mean").unwrap();
    let reduction = ExprNode::Aggregate(AggOp::Mean, Box::new(expr_column("x")));
    assert_eq!(m, expr_fill_missing_with_value(expr_column("x"), reduction));
}

#[test]
fn coalesce_is_a_conditional_on_the_first_operand() {
    let c = expr_coalesce(expr_column("a"), expr_column("b"));
    assert_eq!(
        c,
        ExprNode::Conditional(
            Box::new(expr_is_not_nil(expr_column("a"))),
            Box::new(expr_column("a")),
            Box::new(expr_column("b")),
        )
    );
}

#[test]
fn peaks_rejects_unknown_kind() {
    let r = expr_peaks(expr_column("x"), "median");
    assert_eq!(r, Err(ConstructionError::UnknownPeakKind));
}

#[test]
fn peaks_compares_against_the_global_reduction() {
    let p = expr_peaks(expr_column("x"), "max").unwrap();
    assert_eq!(
        p,
        expr_eq(
            expr_column("x"),
            ExprNode::Aggregate(AggOp::Max, Box::new(expr_column("x")))
        )
    );
}

#[test]
fn quotient_guards_the_divisor_against_zero() {
    let q = expr_quotient(expr_column("a"), expr_column("b"));
    let guard = ExprNode::Conditional(
        Box::new(expr_eq(expr_column("b"), expr_integer(0))),
        Box::new(expr_null()),
        Box::new(expr_column("b")),
    );
    assert_eq!(
        q,
        ExprNode::Binary(BinaryOp::Divide, Box::new(expr_column("a")), Box::new(guard))
    );
}

#[test]
fn remainder_reuses_the_quotient_guard() {
    let m = expr_remainder(expr_column("a"), expr_column("b"));
    let q = expr_quotient(expr_column("a"), expr_column("b"));
    let mult = ExprNode::Binary(BinaryOp::Multiply, Box::new(expr_column("b")), Box::new(q));
    assert_eq!(
        m,
        ExprNode::Binary(BinaryOp::Subtract, Box::new(expr_column("a")), Box::new(mult))
    );
}

#[test]
fn window_rejects_size_zero() {
    let r = expr_window_sum(expr_column("x"), 0, None, None, false);
    assert_eq!(r, Err(ConstructionError::WindowSizeZero));
}

#[test]
fn window_rejects_mismatched_weights_length() {
    let r = expr_window_sum(expr_column("x"), 3, Some(vec![1, 2]), None, false);
    assert_eq!(r, Err(ConstructionError::WeightsLengthMismatch));
}

#[test]
fn window_rejects_min_periods_over_size() {
    let r = expr_window_sum(expr_column("x"), 2, None, Some(3), false);
    assert_eq!(r, Err(ConstructionError::MinPeriodsTooLarge));
}

#[test]
fn window_stores_validated_parameters() {
    let r = expr_window_sum(expr_column("x"), 2, Some(vec![7, 8]), Some(1), true).unwrap();
    match r {
        ExprNode::Window(WindowOp::WinSum, operand, params) => {
            assert_eq!(*operand, expr_column("x"));
            assert_eq!(params.size, 2);
            assert_eq!(params.min_periods, Some(1));
            assert!(params.center);
            assert_eq!(
                params.weights,
                Some(Weights::Cons(7, Box::new(Weights::Cons(8, Box::new(Weights::Nil)))))
            );
        }
        other => panic!("unexpected node {:?}", other),
    }
}

#[test]
fn duplicate_makes_an_equal_tree() {
    let e = expr_remainder(
        expr_alias(expr_column("a"), "left"),
        expr_distinct(expr_unordered_distinct(expr_column("b"))),
    );
    assert_eq!(e.duplicate(), e);
}
