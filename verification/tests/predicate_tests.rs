use delta_kernel::expressions::{
    BinaryOperator, Expression, JunctionOperator, Predicate, UnaryOperator,
};
use delta_kernel::kernel_predicates::{
    DefaultKernelPredicateEvaluator, KernelPredicateEvaluatorDefaults, MapColumnResolver,
    NullColumnResolver, EmptyColumnResolver, ScalarResolver, UnimplementedColumnResolver,
};
use delta_kernel::scalars::Scalar;
use delta_kernel::schema::DataType;
use std::cmp::Ordering;
use std::cmp::Ordering::{Equal, Greater, Less};
use delta_kernel::scalars::Scalar::{
    Array, Binary, Boolean, Byte, Date, Integer, Long, Null, Short, String, Struct, Timestamp,
    TimestampNtz,
};

#[test]
fn test_default_eval_scalar() {
    let test_cases = [
        (Scalar::Boolean(true), false, Some(true)),
        (Scalar::Boolean(true), true, Some(false)),
        (Scalar::Boolean(false), false, Some(false)),
        (Scalar::Boolean(false), true, Some(true)),
        (Scalar::Long(1), false, None),
        (Scalar::Long(1), true, None),
        (Scalar::Null(DataType::boolean()), false, None),
        (Scalar::Null(DataType::boolean()), true, None),
        (Scalar::Null(DataType::long()), false, None),
        (Scalar::Null(DataType::long()), true, None),
    ];
    for (value, inverted, expect) in test_cases.into_iter() {
        assert_eq!(
            KernelPredicateEvaluatorDefaults::eval_scalar(&value, inverted),
            expect,
            "value: {value:?} inverted: {inverted}"
        );
    }
}

// verifies that partial orderings behave as expected for the scalar types
#[test]
fn test_default_partial_cmp_scalars() {
    let smaller_values = &[
        Integer(1),
        Long(1),
        Short(1),
        Byte(1),
        String("1".into()),
        Boolean(false),
        Timestamp(1),
        TimestampNtz(1),
        Date(1),
        Binary(vec![1]),
        Scalar::decimal(1, 10, 10).unwrap(),
        Null(DataType::long()),
        Struct(delta_kernel::scalars::StructData::try_new(vec![], vec![]).unwrap()),
        Array(
            delta_kernel::scalars::ArrayData::try_new(
                delta_kernel::schema::ArrayType::new(DataType::long(), false),
                vec![],
            )
            .unwrap(),
        ),
    ];
    let larger_values = &[
        Integer(10),
        Long(10),
        Short(10),
        Byte(10),
        String("10".into()),
        Boolean(true),
        Timestamp(10),
        TimestampNtz(10),
        Date(10),
        Binary(vec![10]),
        Scalar::decimal(10, 10, 10).unwrap(),
        Null(DataType::long()),
        Struct(delta_kernel::scalars::StructData::try_new(vec![], vec![]).unwrap()),
        Array(
            delta_kernel::scalars::ArrayData::try_new(
                delta_kernel::schema::ArrayType::new(DataType::long(), false),
                vec![],
            )
            .unwrap(),
        ),
    ];

    // scalars of different types are always incomparable
    let compare = KernelPredicateEvaluatorDefaults::partial_cmp_scalars;
    for (i, a) in smaller_values.iter().enumerate() {
        for b in smaller_values.iter().skip(i + 1) {
            for op in [Less, Equal, Greater] {
                for inverted in [true, false] {
                    assert!(
                        compare(op, a, b, inverted).is_none(),
                        "{:?} should not be comparable to {:?}",
                        a,
                        b
                    );
                }
            }
        }
    }

    let expect_if_comparable_type = |s: &_, expect| match s {
        Null(_) | Struct(_) | Array(_) => None,
        _ => Some(expect),
    };

    // Test same-type comparisons where a == b
    for (a, b) in smaller_values.iter().zip(smaller_values) {
        for inverted in [true, false] {
            assert_eq!(
                compare(Less, a, b, inverted),
                expect_if_comparable_type(a, inverted),
                "{a:?} < {b:?} (inverted: {inverted})"
            );
            assert_eq!(
                compare(Equal, a, b, inverted),
                expect_if_comparable_type(a, !inverted),
                "{a:?} == {b:?} (inverted: {inverted})"
            );
            assert_eq!(
                compare(Greater, a, b, inverted),
                expect_if_comparable_type(a, inverted),
                "{a:?} > {b:?} (inverted: {inverted})"
            );
        }
    }

    // Test same-type comparisons where a < b
    for (a, b) in smaller_values.iter().zip(larger_values) {
        for inverted in [true, false] {
            assert_eq!(
                compare(Less, a, b, inverted),
                expect_if_comparable_type(a, !inverted),
                "{a:?} < {b:?} (inverted: {inverted})"
            );
            assert_eq!(
                compare(Equal, a, b, inverted),
                expect_if_comparable_type(a, inverted),
                "{a:?} == {b:?} (inverted: {inverted})"
            );
            assert_eq!(
                compare(Greater, a, b, inverted),
                expect_if_comparable_type(a, inverted),
                "{a:?} < {b:?} (inverted: {inverted})"
            );
            assert_eq!(
                compare(Less, b, a, inverted),
                expect_if_comparable_type(a, inverted),
                "{b:?} < {a:?} (inverted: {inverted})"
            );
            assert_eq!(
                compare(Equal, b, a, inverted),
                expect_if_comparable_type(a, inverted),
                "{b:?} == {a:?} (inverted: {inverted})"
            );
            assert_eq!(
                compare(Greater, b, a, inverted),
                expect_if_comparable_type(a, !inverted),
                "{b:?} < {a:?} (inverted: {inverted})"
            );
        }
    }
}

// Verifies that eval_binary_scalars uses partial_cmp_scalars correctly
#[test]
fn test_eval_binary_scalars() {
    let smaller_value = Scalar::Long(1);
    let larger_value = Scalar::Long(10);
    for inverted in [true, false] {
        let compare = KernelPredicateEvaluatorDefaults::eval_binary_scalars;
        assert_eq!(
            compare(BinaryOperator::Equal, &smaller_value, &smaller_value, inverted),
            Some(!inverted)
        );
        assert_eq!(
            compare(BinaryOperator::Equal, &smaller_value, &larger_value, inverted),
            Some(inverted)
        );
        assert_eq!(
            compare(BinaryOperator::NotEqual, &smaller_value, &smaller_value, inverted),
            Some(inverted)
        );
        assert_eq!(
            compare(BinaryOperator::NotEqual, &smaller_value, &larger_value, inverted),
            Some(!inverted)
        );
        assert_eq!(
            compare(BinaryOperator::LessThan, &smaller_value, &smaller_value, inverted),
            Some(inverted)
        );
        assert_eq!(
            compare(BinaryOperator::LessThan, &smaller_value, &larger_value, inverted),
            Some(!inverted)
        );
        assert_eq!(
            compare(BinaryOperator::GreaterThan, &smaller_value, &smaller_value, inverted),
            Some(inverted)
        );
        assert_eq!(
            compare(BinaryOperator::GreaterThan, &smaller_value, &larger_value, inverted),
            Some(inverted)
        );
        assert_eq!(
            compare(BinaryOperator::LessThanOrEqual, &smaller_value, &smaller_value, inverted),
            Some(!inverted)
        );
        assert_eq!(
            compare(BinaryOperator::LessThanOrEqual, &smaller_value, &larger_value, inverted),
            Some(!inverted)
        );
        assert_eq!(
            compare(BinaryOperator::GreaterThanOrEqual, &smaller_value, &smaller_value, inverted),
            Some(!inverted)
        );
        assert_eq!(
            compare(BinaryOperator::GreaterThanOrEqual, &smaller_value, &larger_value, inverted),
            Some(inverted)
        );
    }
}

// NOTE: We're testing routing here -- the actual comparisons are already
// validated by test_eval_binary_scalars.
#[test]
fn test_eval_binary_columns() {
    let columns = MapColumnResolver {
        entries: vec![
            ("x".to_string(), Scalar::from(1)),
            ("y".to_string(), Scalar::from(10)),
        ],
    };
    let filter = DefaultKernelPredicateEvaluator::new(columns);
    let x = Expression::column("x");
    let y = Expression::column("y");
    for inverted in [true, false] {
        assert_eq!(
            filter.eval_binary(BinaryOperator::Equal, &x, &y, inverted),
            Some(inverted),
            "x = y (inverted: {inverted})"
        );
        assert_eq!(
            filter.eval_binary(BinaryOperator::Equal, &x, &x, inverted),
            Some(!inverted),
            "x = x (inverted: {inverted})"
        );
    }
}

#[test]
fn test_eval_junction() {
    let test_cases: Vec<(&[Option<bool>], Option<bool>, Option<bool>)> = vec![
        // input, AND expect, OR expect
        (&[], Some(true), Some(false)),
        (&[Some(true)], Some(true), Some(true)),
        (&[Some(false)], Some(false), Some(false)),
        (&[None], None, None),
        (&[Some(true), Some(false)], Some(false), Some(true)),
        (&[Some(false), Some(true)], Some(false), Some(true)),
        (&[Some(true), None], None, Some(true)),
        (&[None, Some(true)], None, Some(true)),
        (&[Some(false), None], Some(false), None),
        (&[None, Some(false)], Some(false), None),
        (&[None, Some(false), Some(true)], Some(false), Some(true)),
        (&[None, Some(true), Some(false)], Some(false), Some(true)),
        (&[Some(false), None, Some(true)], Some(false), Some(true)),
        (&[Some(true), None, Some(false)], Some(false), Some(true)),
        (&[Some(false), Some(true), None], Some(false), Some(true)),
        (&[Some(true), Some(false), None], Some(false), Some(true)),
    ];
    let filter = DefaultKernelPredicateEvaluator::new(UnimplementedColumnResolver);
    for (inputs, expect_and, expect_or) in test_cases.iter() {
        let inputs: Vec<Predicate> = inputs
            .iter()
            .cloned()
            .map(|v| match v {
                Some(v) => Predicate::literal(v),
                None => Predicate::from_expr(Expression::null_literal(DataType::boolean())),
            })
            .collect();
        for inverted in [true, false] {
            let invert_if_needed = |v: &Option<bool>| v.map(|v| v != inverted);
            assert_eq!(
                filter.eval_junction(JunctionOperator::And, &inputs, inverted),
                invert_if_needed(expect_and),
                "AND({inputs:?}) (inverted: {inverted})"
            );
            assert_eq!(
                filter.eval_junction(JunctionOperator::Or, &inputs, inverted),
                invert_if_needed(expect_or),
                "OR({inputs:?}) (inverted: {inverted})"
            );
        }
    }
}

#[test]
fn test_eval_column() {
    let test_cases = [
        (Scalar::from(true), Some(true)),
        (Scalar::from(false), Some(false)),
        (Scalar::Null(DataType::boolean()), None),
        (Scalar::from(1), None),
    ];
    for (input, expect) in &test_cases {
        let filter = DefaultKernelPredicateEvaluator::new(ScalarResolver {
            value: input.clone(),
        });
        for inverted in [true, false] {
            assert_eq!(
                filter.eval_column("x", inverted),
                expect.map(|v| v != inverted),
                "{input:?} (inverted: {inverted})"
            );
        }
    }
}

#[test]
fn test_eval_not() {
    let test_cases = [
        (Scalar::Boolean(true), Some(false)),
        (Scalar::Boolean(false), Some(true)),
        (Scalar::Null(DataType::boolean()), None),
        (Scalar::Long(1), None),
    ];
    let filter = DefaultKernelPredicateEvaluator::new(UnimplementedColumnResolver);
    for (input, expect) in test_cases {
        let input = Predicate::from_expr(Expression::literal(input));
        for inverted in [true, false] {
            assert_eq!(
                filter.eval_not(&input, inverted),
                expect.map(|v| v != inverted),
                "NOT({input:?}) (inverted: {inverted})"
            );
        }
    }
}

#[test]
fn test_eval_is_null() {
    let expr = Expression::column("x");
    let filter = DefaultKernelPredicateEvaluator::new(ScalarResolver {
        value: Scalar::from(1),
    });
    assert_eq!(filter.eval_unary(UnaryOperator::IsNull, &expr, true), Some(true), "x IS NOT NULL");
    assert_eq!(filter.eval_unary(UnaryOperator::IsNull, &expr, false), Some(false), "x IS NULL");

    let expr = Expression::literal(Scalar::from(1));
    assert_eq!(filter.eval_unary(UnaryOperator::IsNull, &expr, true), Some(true), "1 IS NOT NULL");
    assert_eq!(filter.eval_unary(UnaryOperator::IsNull, &expr, false), Some(false), "1 IS NULL");
}

#[test]
fn test_eval_distinct() {
    let one = &Scalar::from(1);
    let two = &Scalar::from(2);
    let null = &Scalar::Null(DataType::integer());
    let filter = DefaultKernelPredicateEvaluator::new(ScalarResolver { value: one.clone() });
    assert_eq!(filter.eval_distinct("x", one, true), Some(true), "NOT DISTINCT(x, 1) (x = 1)");
    assert_eq!(filter.eval_distinct("x", one, false), Some(false), "DISTINCT(x, 1) (x = 1)");
    assert_eq!(filter.eval_distinct("x", two, true), Some(false), "NOT DISTINCT(x, 2) (x = 1)");
    assert_eq!(filter.eval_distinct("x", two, false), Some(true), "DISTINCT(x, 2) (x = 1)");
    assert_eq!(filter.eval_distinct("x", null, true), Some(false), "NOT DISTINCT(x, NULL) (x = 1)");
    assert_eq!(filter.eval_distinct("x", null, false), Some(true), "DISTINCT(x, NULL) (x = 1)");

    let filter = DefaultKernelPredicateEvaluator::new(ScalarResolver { value: null.clone() });
    assert_eq!(filter.eval_distinct("x", one, true), Some(false), "NOT DISTINCT(x, 1) (x = NULL)");
    assert_eq!(filter.eval_distinct("x", one, false), Some(true), "DISTINCT(x, 1) (x = NULL)");
    assert_eq!(
        filter.eval_distinct("x", null, true),
        Some(true),
        "NOT DISTINCT(x, NULL) (x = NULL)"
    );
    assert_eq!(
        filter.eval_distinct("x", null, false),
        Some(false),
        "DISTINCT(x, NULL) (x = NULL)"
    );
}

// NOTE: We're testing routing here -- the actual comparisons are already
// validated by test_eval_binary_scalars.
#[test]
fn eval_binary() {
    let col = Expression::column("x");
    let val = Expression::literal(Scalar::from(10));
    let filter = DefaultKernelPredicateEvaluator::new(ScalarResolver {
        value: Scalar::from(1),
    });

    // unsupported
    assert_eq!(filter.eval_binary(BinaryOperator::Plus, &col, &val, false), None, "x + 10");
    assert_eq!(filter.eval_binary(BinaryOperator::Minus, &col, &val, false), None, "x - 10");
    assert_eq!(filter.eval_binary(BinaryOperator::Multiply, &col, &val, false), None, "x * 10");
    assert_eq!(filter.eval_binary(BinaryOperator::Divide, &col, &val, false), None, "x / 10");

    // supported
    for inverted in [true, false] {
        assert_eq!(
            filter.eval_binary(BinaryOperator::LessThan, &col, &val, inverted),
            Some(!inverted)
        );
        assert_eq!(
            filter.eval_binary(BinaryOperator::LessThanOrEqual, &col, &val, inverted),
            Some(!inverted)
        );
        assert_eq!(
            filter.eval_binary(BinaryOperator::Equal, &col, &val, inverted),
            Some(inverted)
        );
        assert_eq!(
            filter.eval_binary(BinaryOperator::NotEqual, &col, &val, inverted),
            Some(!inverted)
        );
        assert_eq!(
            filter.eval_binary(BinaryOperator::GreaterThanOrEqual, &col, &val, inverted),
            Some(inverted)
        );
        assert_eq!(
            filter.eval_binary(BinaryOperator::GreaterThan, &col, &val, inverted),
            Some(inverted)
        );
        assert_eq!(
            filter.eval_binary(BinaryOperator::Distinct, &col, &val, inverted),
            Some(!inverted)
        );

        assert_eq!(
            filter.eval_binary(BinaryOperator::LessThan, &val, &col, inverted),
            Some(inverted)
        );
        assert_eq!(
            filter.eval_binary(BinaryOperator::LessThanOrEqual, &val, &col, inverted),
            Some(inverted)
        );
        assert_eq!(
            filter.eval_binary(BinaryOperator::Equal, &val, &col, inverted),
            Some(inverted)
        );
        assert_eq!(
            filter.eval_binary(BinaryOperator::NotEqual, &val, &col, inverted),
            Some(!inverted)
        );
        assert_eq!(
            filter.eval_binary(BinaryOperator::GreaterThanOrEqual, &val, &col, inverted),
            Some(!inverted)
        );
        assert_eq!(
            filter.eval_binary(BinaryOperator::GreaterThan, &val, &col, inverted),
            Some(!inverted)
        );
        assert_eq!(
            filter.eval_binary(BinaryOperator::Distinct, &val, &col, inverted),
            Some(!inverted)
        );
    }
}

#[test]
fn test_sql_where() {
    let col = || Expression::column("x");
    let val = || Expression::literal(Scalar::Integer(1));
    let null = || Expression::null_literal(DataType::boolean());
    let fals = || Expression::literal(Scalar::Boolean(false));
    let tru = || Expression::literal(Scalar::Boolean(true));
    let null_filter = DefaultKernelPredicateEvaluator::new(NullColumnResolver);
    let empty_filter = DefaultKernelPredicateEvaluator::new(EmptyColumnResolver);

    // Basic sanity check
    assert_eq!(null_filter.eval_sql_where(&Predicate::from_expr(val())), None);
    assert_eq!(empty_filter.eval_sql_where(&Predicate::from_expr(val())), None);

    assert_eq!(null_filter.eval_sql_where(&Predicate::from_expr(col())), Some(false));
    assert_eq!(empty_filter.eval_sql_where(&Predicate::from_expr(col())), None);

    // SQL eval does not modify behavior of IS NULL
    let expr = Predicate::is_null(col());
    assert_eq!(null_filter.eval_sql_where(&expr), Some(true));

    // NOT a gets skipped when NULL but not when missing
    let expr = Predicate::not(Predicate::from_expr(col()));
    assert_eq!(null_filter.eval_sql_where(&expr), Some(false));
    assert_eq!(empty_filter.eval_sql_where(&expr), None);

    // Injected NULL checks only short circuit if inputs are NULL
    let expr = Predicate::lt(fals(), tru());
    assert_eq!(null_filter.eval_sql_where(&expr), Some(true));
    assert_eq!(empty_filter.eval_sql_where(&expr), Some(true));

    // Contrast normal vs SQL WHERE semantics - comparison
    let expr = Predicate::lt(col(), val());
    assert_eq!(null_filter.eval(&expr), None);
    assert_eq!(null_filter.eval_sql_where(&expr), Some(false));
    // NULL check produces NULL due to missing column
    assert_eq!(empty_filter.eval_sql_where(&expr), None);

    let expr = Predicate::lt(val(), col());
    assert_eq!(null_filter.eval(&expr), None);
    assert_eq!(null_filter.eval_sql_where(&expr), Some(false));
    assert_eq!(empty_filter.eval_sql_where(&expr), None);

    let expr = Predicate::distinct(val(), col());
    assert_eq!(null_filter.eval(&expr), Some(true));
    assert_eq!(null_filter.eval_sql_where(&expr), Some(true));
    assert_eq!(empty_filter.eval_sql_where(&expr), None);

    let expr = Predicate::distinct(null(), col());
    assert_eq!(null_filter.eval(&expr), Some(false));
    assert_eq!(null_filter.eval_sql_where(&expr), Some(false));
    assert_eq!(empty_filter.eval_sql_where(&expr), None);

    // Contrast normal vs SQL WHERE semantics - comparison inside AND
    let expr = Predicate::and(Predicate::from_expr(tru()), Predicate::lt(col(), val()));
    assert_eq!(null_filter.eval(&expr), None);
    assert_eq!(null_filter.eval_sql_where(&expr), Some(false));
    assert_eq!(empty_filter.eval_sql_where(&expr), None);

    // NULL allows static skipping under SQL semantics
    let expr = Predicate::and(Predicate::from_expr(null()), Predicate::lt(col(), val()));
    assert_eq!(null_filter.eval(&expr), None);
    assert_eq!(null_filter.eval_sql_where(&expr), Some(false));
    assert_eq!(empty_filter.eval_sql_where(&expr), Some(false));

    // Contrast normal vs. SQL WHERE semantics - comparison inside AND inside AND
    let expr = Predicate::and(
        Predicate::from_expr(tru()),
        Predicate::and(Predicate::from_expr(tru()), Predicate::lt(col(), val())),
    );
    assert_eq!(null_filter.eval(&expr), None);
    assert_eq!(null_filter.eval_sql_where(&expr), Some(false));
    assert_eq!(empty_filter.eval_sql_where(&expr), None);

    // Ditto for comparison inside OR inside AND
    let expr = Predicate::or(
        Predicate::from_expr(fals()),
        Predicate::and(Predicate::from_expr(tru()), Predicate::lt(col(), val())),
    );
    assert_eq!(null_filter.eval(&expr), None);
    assert_eq!(null_filter.eval_sql_where(&expr), Some(false));
    assert_eq!(empty_filter.eval_sql_where(&expr), None);
}

#[test]
fn test_not_negates_eval() {
    // Negation maps true to false, false to true, and keeps unknown.
    let null_filter = DefaultKernelPredicateEvaluator::new(NullColumnResolver);
    let cases = [
        Predicate::literal(true),
        Predicate::literal(false),
        Predicate::from_expr(Expression::null_literal(DataType::boolean())),
        Predicate::lt(Expression::column("x"), Expression::literal(Scalar::from(1))),
        Predicate::is_null(Expression::column("x")),
    ];
    for p in cases {
        let plain = null_filter.eval(&p);
        let negated = null_filter.eval(&Predicate::not(p));
        assert_eq!(negated, plain.map(|b| !b));
    }
}

#[test]
fn test_null_incomparable_eval() {
    // A comparison against a null literal is unknown, and a null never
    // equals itself.
    let filter = DefaultKernelPredicateEvaluator::new(EmptyColumnResolver);
    let p = Predicate::eq(
        Expression::literal(Scalar::Integer(7)),
        Expression::null_literal(DataType::integer()),
    );
    assert_eq!(filter.eval(&p), None);
    let p = Predicate::eq(
        Expression::null_literal(DataType::integer()),
        Expression::null_literal(DataType::integer()),
    );
    assert_eq!(filter.eval(&p), None);
}

#[test]
fn test_distinct_total_eval() {
    // Distinctness of resolvable same-type values is always known.
    let filter = DefaultKernelPredicateEvaluator::new(EmptyColumnResolver);
    let records = [
        (Scalar::Integer(1), Scalar::Integer(1), Some(false)),
        (Scalar::Integer(1), Scalar::Integer(2), Some(true)),
        (Scalar::Null(DataType::integer()), Scalar::Integer(2), Some(true)),
        (
            Scalar::Null(DataType::integer()),
            Scalar::Null(DataType::integer()),
            Some(false),
        ),
        // values of different types are never equal, hence distinct
        (Scalar::Integer(1), Scalar::from("s"), Some(true)),
    ];
    for (a, b, expect) in records {
        let p = Predicate::distinct(Expression::literal(a), Expression::literal(b));
        assert_eq!(filter.eval(&p), expect);
    }
}
