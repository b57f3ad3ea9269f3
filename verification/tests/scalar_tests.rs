use delta_kernel::parse::parse_decimal;
use delta_kernel::scalars::{get_decimal_precision, ArrayData, DecimalData, MapData, Scalar, StructData};
use delta_kernel::schema::{ArrayType, DataType, DecimalType, MapType, PrimitiveType, StructType};
use std::cmp::Ordering;

#[test]
fn test_bad_decimal() {
    let dtype = DecimalType::try_new(3, 0).unwrap();
    DecimalData::try_new(123456789, dtype).expect_err("should have failed");
    parse_decimal("0.12345", dtype).expect_err("should have failed");
    parse_decimal("12345", dtype).expect_err("should have failed");
}

#[test]
fn test_decimal_display() {
    let s = Scalar::decimal(123456789, 9, 2).unwrap();
    assert_eq!(s.display_string(), "1234567.89");

    let s = Scalar::decimal(123456789, 9, 0).unwrap();
    assert_eq!(s.display_string(), "123456789");

    let s = Scalar::decimal(123456789, 9, 9).unwrap();
    assert_eq!(s.display_string(), "0.123456789");
}

#[test]
fn test_decimal_precision() {
    // Test around 0, 1, 2, and 4 digit boundaries
    assert_eq!(get_decimal_precision(0), 0);
    assert_eq!(get_decimal_precision(1), 1);
    assert_eq!(get_decimal_precision(9), 1);
    assert_eq!(get_decimal_precision(10), 2);
    assert_eq!(get_decimal_precision(99), 2);
    assert_eq!(get_decimal_precision(100), 3);
    assert_eq!(get_decimal_precision(999), 3);
    assert_eq!(get_decimal_precision(1000), 4);
    assert_eq!(get_decimal_precision(9999), 4);
    assert_eq!(get_decimal_precision(10000), 5);

    // Test around the 8 digit boundary
    assert_eq!(get_decimal_precision(999_9999), 7);
    assert_eq!(get_decimal_precision(1000_0000), 8);
    assert_eq!(get_decimal_precision(9999_9999), 8);
    assert_eq!(get_decimal_precision(1_0000_0000), 9);

    // Test around the 16 digit boundary
    assert_eq!(get_decimal_precision(999_9999_9999_9999), 15);
    assert_eq!(get_decimal_precision(1000_0000_0000_0000), 16);
    assert_eq!(get_decimal_precision(9999_9999_9999_9999), 16);
    assert_eq!(get_decimal_precision(1_0000_0000_0000_0000), 17);

    // Test around the 32 digit boundary
    assert_eq!(
        get_decimal_precision(999_9999_9999_9999_9999_9999_9999_9999),
        31
    );
    assert_eq!(
        get_decimal_precision(1000_0000_0000_0000_0000_0000_0000_0000),
        32
    );
    assert_eq!(
        get_decimal_precision(9999_9999_9999_9999_9999_9999_9999_9999),
        32
    );
    assert_eq!(
        get_decimal_precision(1_0000_0000_0000_0000_0000_0000_0000_0000),
        33
    );

    // Test around the 38 digit boundary
    assert_eq!(
        get_decimal_precision(9_9999_9999_9999_9999_9999_9999_9999_9999_9999),
        37
    );
    assert_eq!(
        get_decimal_precision(10_0000_0000_0000_0000_0000_0000_0000_0000_0000),
        38
    );
    assert_eq!(
        get_decimal_precision(99_9999_9999_9999_9999_9999_9999_9999_9999_9999),
        38
    );
    assert_eq!(
        get_decimal_precision(100_0000_0000_0000_0000_0000_0000_0000_0000_0000),
        39
    );
}

fn assert_decimal(raw: &str, expect_int: i128, expect_prec: u8, expect_scale: u8) {
    let dtype = DecimalType::try_new(expect_prec, expect_scale).unwrap();
    match parse_decimal(raw, dtype).unwrap() {
        Scalar::Decimal(val) => {
            assert_eq!(val.bits(), expect_int);
            assert_eq!(val.precision(), expect_prec);
            assert_eq!(val.scale(), expect_scale);
        }
        _ => panic!("Didn't parse as decimal"),
    };
}

#[test]
fn test_parse_decimal() {
    assert_decimal("0.999", 999, 3, 3);
    assert_decimal("0", 0, 1, 0);
    assert_decimal("0.00", 0, 3, 2);
    assert_decimal("123", 123, 3, 0);
    assert_decimal("-123", -123, 3, 0);
    assert_decimal("-123.", -123, 3, 0);
    assert_decimal("123000", 123000, 6, 0);
    assert_decimal("12.0", 120, 3, 1);
    assert_decimal("12.3", 123, 3, 1);
    assert_decimal("0.00123", 123, 5, 5);
    assert_decimal("1234.5E-4", 12345, 5, 5);
    assert_decimal("-0", 0, 1, 0);
    assert_decimal("12.000000000000000000", 12000000000000000000, 38, 18);
}

fn expect_fail_parse(raw: &str, prec: u8, scale: u8) {
    let dtype = DecimalType::try_new(prec, scale).unwrap();
    let res = parse_decimal(raw, dtype);
    assert!(res.is_err(), "Fail on {raw}");
}

#[test]
fn test_parse_decimal_expect_fail() {
    expect_fail_parse("1.000", 3, 3);
    expect_fail_parse("iowjef", 1, 0);
    expect_fail_parse("123Ef", 1, 0);
    expect_fail_parse("1d2E3", 1, 0);
    expect_fail_parse("a", 1, 0);
    expect_fail_parse("2.a", 1, 1);
    expect_fail_parse("E45", 1, 0);
    expect_fail_parse("1.2.3", 1, 0);
    expect_fail_parse("1.2E1.3", 1, 0);
    expect_fail_parse("123.45", 5, 1);
    expect_fail_parse(".45", 5, 1);
    expect_fail_parse("+", 1, 0);
    expect_fail_parse("-", 1, 0);
    expect_fail_parse("0.-0", 2, 1);
    expect_fail_parse("--1.0", 1, 1);
    expect_fail_parse("+-1.0", 1, 1);
    expect_fail_parse("-+1.0", 1, 1);
    expect_fail_parse("++1.0", 1, 1);
    expect_fail_parse("1.0E1+", 1, 1);
    // overflow i8 for `scale`
    expect_fail_parse("0.999999999999999999999999999999999999999999999999999999999999999999999999999999999999999999999999999999999999999999999999999999999", 1, 0);
    // scale will be too small to fit in i8
    expect_fail_parse("0.E170141183460469231731687303715884105727", 1, 0);
}

#[test]
fn test_invalid_array() {
    assert!(ArrayData::try_new(
        ArrayType::new(DataType::integer(), false),
        vec![Scalar::Integer(1), Scalar::String("s".to_string())],
    )
    .is_err());

    assert!(ArrayData::try_new(
        ArrayType::new(DataType::integer(), false),
        vec![Scalar::from(1), Scalar::Null(DataType::integer())],
    )
    .is_err());
}

#[test]
fn test_invalid_map() {
    // incorrect schema
    assert!(MapData::try_new(
        MapType::new(DataType::string(), DataType::integer(), false),
        vec![(Scalar::Integer(1), Scalar::String("s".to_string()))],
    )
    .is_err());

    // key must be non-null
    assert!(MapData::try_new(
        MapType::new(DataType::string(), DataType::string(), true),
        vec![(
            Scalar::Null(DataType::string()),
            Scalar::String("s".to_string())
        )],
    )
    .is_err());

    // val must be non-null if we have value_contains_null = false
    assert!(MapData::try_new(
        MapType::new(DataType::string(), DataType::string(), false),
        vec![(
            Scalar::String("s".to_string()),
            Scalar::Null(DataType::string())
        )],
    )
    .is_err());
}

#[test]
fn test_timestamp_parse() {
    let assert_timestamp_eq = |scalar_string, micros| {
        let scalar = delta_kernel::schema::PrimitiveType::Timestamp
            .parse_scalar(scalar_string)
            .unwrap();
        assert_eq!(scalar, Scalar::Timestamp(micros));
    };
    assert_timestamp_eq("1971-07-22T03:06:40.678910Z", 49000000678910);
    assert_timestamp_eq("1971-07-22T03:06:40Z", 49000000000000);
    assert_timestamp_eq("2011-01-11 13:06:07", 1294751167000000);
    assert_timestamp_eq("2011-01-11 13:06:07.123456", 1294751167123456);
    assert_timestamp_eq("1970-01-01 00:00:00", 0);
}

#[test]
fn test_timestamp_ntz_parse() {
    let assert_timestamp_eq = |scalar_string, micros| {
        let scalar = delta_kernel::schema::PrimitiveType::TimestampNtz
            .parse_scalar(scalar_string)
            .unwrap();
        assert_eq!(scalar, Scalar::TimestampNtz(micros));
    };
    assert_timestamp_eq("2011-01-11 13:06:07", 1294751167000000);
    assert_timestamp_eq("2011-01-11 13:06:07.123456", 1294751167123456);
    assert_timestamp_eq("1970-01-01 00:00:00", 0);
}

#[test]
fn test_timestamp_parse_fails() {
    let assert_timestamp_fails = |p_type: &delta_kernel::schema::PrimitiveType, scalar_string| {
        let res = p_type.parse_scalar(scalar_string);
        assert!(res.is_err());
    };

    let p_type = delta_kernel::schema::PrimitiveType::TimestampNtz;
    assert_timestamp_fails(&p_type, "1971-07-22T03:06:40.678910Z");
    assert_timestamp_fails(&p_type, "1971-07-22T03:06:40Z");
    assert_timestamp_fails(&p_type, "1971-07-22");

    let p_type = delta_kernel::schema::PrimitiveType::Timestamp;
    assert_timestamp_fails(&p_type, "1971-07-22");
}

#[test]
fn test_partial_cmp() {
    let a = Scalar::Integer(1);
    let b = Scalar::Integer(2);
    let c = Scalar::Null(DataType::integer());
    assert_eq!(a.partial_cmp(&b), Some(Ordering::Less));
    assert_eq!(b.partial_cmp(&a), Some(Ordering::Greater));
    assert_eq!(a.partial_cmp(&a), Some(Ordering::Equal));
    assert_eq!(b.partial_cmp(&b), Some(Ordering::Equal));
    assert_eq!(a.partial_cmp(&c), None);
    assert_eq!(c.partial_cmp(&a), None);

    // assert that NULL values are incomparable
    let null = Scalar::Null(DataType::integer());
    assert_eq!(null.partial_cmp(&null), None);
}

#[test]
fn test_partial_eq() {
    let a = Scalar::Integer(1);
    let b = Scalar::Integer(2);
    let c = Scalar::Null(DataType::integer());
    assert!(!a.eq(&b));
    assert!(a.eq(&a));
    assert!(!a.eq(&c));
    assert!(!c.eq(&a));

    // assert that NULL values are incomparable
    let null = Scalar::Null(DataType::integer());
    assert!(!null.eq(&null));
}

#[test]
fn test_decimal_round_trip_display_parse() {
    // The rendering of a representable decimal parses back to the same value.
    for (bits, p, s) in [
        (123456789i128, 9u8, 2u8),
        (999, 3, 3),
        (0, 3, 2),
        (120, 3, 1),
        (12000000000000000000, 38, 18),
        (-123, 3, 0),
        (-12345, 5, 2),
        (-5, 3, 1),
        (-999, 3, 3),
    ] {
        let d = Scalar::decimal(bits, p, s).unwrap();
        let text = d.display_string();
        let dtype = DecimalType::try_new(p, s).unwrap();
        match parse_decimal(&text, dtype).unwrap() {
            Scalar::Decimal(v) => {
                assert_eq!(v.bits(), bits, "round trip of {text}");
                assert_eq!(v.scale(), s);
            }
            _ => panic!("did not parse as decimal"),
        }
    }
}

#[test]
fn test_struct_and_array_display() {
    let fields = vec![
        delta_kernel::schema::StructField::not_null("a", DataType::integer()),
        delta_kernel::schema::StructField::nullable("b", DataType::string()),
    ];
    let values = vec![Scalar::Integer(5), Scalar::String("x".to_string())];
    let sd = StructData::try_new(fields, values).unwrap();
    assert_eq!(Scalar::Struct(sd).display_string(), "{a: 5, b: 'x'}");

    let ad = ArrayData::try_new(
        ArrayType::new(DataType::integer(), false),
        vec![Scalar::Integer(1), Scalar::Integer(2), Scalar::Integer(3)],
    )
    .unwrap();
    assert_eq!(Scalar::Array(ad).display_string(), "(1, 2, 3)");

    assert_eq!(Scalar::Binary(vec![1, 2]).display_string(), "[1, 2]");
    assert_eq!(Scalar::Boolean(true).display_string(), "true");
    assert_eq!(Scalar::Null(DataType::long()).display_string(), "null");
}

#[test]
fn test_scalar_arithmetic() {
    let a = Scalar::Integer(6);
    let b = Scalar::Integer(3);
    assert_eq!(a.try_add(&b), Some(Scalar::Integer(9)));
    assert_eq!(a.try_sub(&b), Some(Scalar::Integer(3)));
    assert_eq!(a.try_mul(&b), Some(Scalar::Integer(18)));
    assert_eq!(a.try_div(&b), Some(Scalar::Integer(2)));
    assert_eq!(a.try_div(&Scalar::Integer(0)), None);
    assert_eq!(a.try_add(&Scalar::Long(1)), None);
    assert_eq!(Scalar::Integer(i32::MAX).try_add(&Scalar::Integer(1)), None);
    let _ = StructType::new(vec![]);
}

#[test]
fn test_negative_decimal_display() {
    // one sign, from the magnitude's parts, so the text re-parses
    let s = Scalar::decimal(-12345, 5, 2).unwrap();
    assert_eq!(s.display_string(), "-123.45");
    let s = Scalar::decimal(-5, 3, 1).unwrap();
    assert_eq!(s.display_string(), "-0.5");
    let s = Scalar::decimal(-999, 3, 3).unwrap();
    assert_eq!(s.display_string(), "-0.999");
}

#[test]
fn test_date_parse() {
    assert_eq!(
        PrimitiveType::Date.parse_scalar("1970-01-01").unwrap(),
        Scalar::Date(0)
    );
    assert_eq!(
        PrimitiveType::Date.parse_scalar("2017-12-10").unwrap(),
        Scalar::Date(17510)
    );
    assert!(PrimitiveType::Date.parse_scalar("1971-07").is_err());
    assert!(PrimitiveType::Date.parse_scalar("not a date").is_err());
}

#[test]
fn test_boolean_and_integer_parse() {
    assert_eq!(
        PrimitiveType::Boolean.parse_scalar("TRUE").unwrap(),
        Scalar::Boolean(true)
    );
    assert_eq!(
        PrimitiveType::Boolean.parse_scalar("false").unwrap(),
        Scalar::Boolean(false)
    );
    assert!(PrimitiveType::Boolean.parse_scalar("yes").is_err());

    assert_eq!(
        PrimitiveType::Integer.parse_scalar("-42").unwrap(),
        Scalar::Integer(-42)
    );
    assert_eq!(
        PrimitiveType::Long.parse_scalar("+7").unwrap(),
        Scalar::Long(7)
    );
    assert!(PrimitiveType::Byte.parse_scalar("300").is_err());
    assert!(PrimitiveType::Integer.parse_scalar("12x").is_err());

    // the empty string parses as the typed null; nulls never compare
    // equal, so the shape is matched instead
    assert!(matches!(
        PrimitiveType::Integer.parse_scalar("").unwrap(),
        Scalar::Null(_)
    ));

    assert_eq!(
        PrimitiveType::String.parse_scalar("plain").unwrap(),
        Scalar::String("plain".to_string())
    );
}
