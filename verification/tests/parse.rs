use unrest::parse::{parse_bool, parse_param, parse_signed, parse_unsigned};
use unrest::{Error, ParamType, ParamValue, ParseFailure};

#[test]
fn booleans_are_true_or_false() {
    assert_eq!(parse_bool("true"), Ok(true));
    assert_eq!(parse_bool("false"), Ok(false));
    assert_eq!(parse_bool("notabool"), Err(ParseFailure::NotBoolean));
    assert_eq!(parse_bool("True"), Err(ParseFailure::NotBoolean));
    assert_eq!(parse_bool(""), Err(ParseFailure::NotBoolean));
    assert_eq!(parse_bool(" true"), Err(ParseFailure::NotBoolean));
}

#[test]
fn booleans_parse_as_std_does() {
    for s in ["true", "false", "", "1", "TRUE", "falsee"] {
        assert_eq!(parse_bool(s).ok(), s.parse::<bool>().ok());
    }
}

#[test]
fn unsigned_numbers() {
    assert_eq!(parse_unsigned("0", u64::MAX), Ok(0));
    assert_eq!(parse_unsigned("7", u64::MAX), Ok(7));
    assert_eq!(parse_unsigned("+42", u64::MAX), Ok(42));
    assert_eq!(parse_unsigned("007", u64::MAX), Ok(7));
    assert_eq!(parse_unsigned("18446744073709551615", u64::MAX), Ok(u64::MAX));
    assert_eq!(
        parse_unsigned("18446744073709551616", u64::MAX),
        Err(ParseFailure::PosOverflow)
    );
    assert_eq!(parse_unsigned("4294967295", 4294967295), Ok(4294967295));
    assert_eq!(parse_unsigned("4294967296", 4294967295), Err(ParseFailure::PosOverflow));
    assert_eq!(parse_unsigned("", u64::MAX), Err(ParseFailure::Empty));
    assert_eq!(parse_unsigned("+", u64::MAX), Err(ParseFailure::InvalidDigit));
    assert_eq!(parse_unsigned("-", u64::MAX), Err(ParseFailure::InvalidDigit));
    assert_eq!(parse_unsigned("-1", u64::MAX), Err(ParseFailure::InvalidDigit));
    assert_eq!(parse_unsigned("12a", u64::MAX), Err(ParseFailure::InvalidDigit));
    assert_eq!(parse_unsigned("a12", u64::MAX), Err(ParseFailure::InvalidDigit));
    assert_eq!(parse_unsigned("1 2", u64::MAX), Err(ParseFailure::InvalidDigit));
    assert_eq!(parse_unsigned("++1", u64::MAX), Err(ParseFailure::InvalidDigit));
}

#[test]
fn what_is_wrong_first_decides() {
    assert_eq!(parse_unsigned("300x", 255), Err(ParseFailure::PosOverflow));
    assert_eq!(parse_unsigned("30x0", 255), Err(ParseFailure::InvalidDigit));
    assert_eq!(parse_unsigned("x300", 255), Err(ParseFailure::InvalidDigit));
    assert_eq!(parse_signed("-300x", 127), Err(ParseFailure::NegOverflow));
}

#[test]
fn signed_numbers() {
    assert_eq!(parse_signed("0", i64::MAX), Ok(0));
    assert_eq!(parse_signed("-0", i64::MAX), Ok(0));
    assert_eq!(parse_signed("-7", i64::MAX), Ok(-7));
    assert_eq!(parse_signed("+7", i64::MAX), Ok(7));
    assert_eq!(parse_signed("9223372036854775807", i64::MAX), Ok(i64::MAX));
    assert_eq!(parse_signed("-9223372036854775808", i64::MAX), Ok(i64::MIN));
    assert_eq!(
        parse_signed("9223372036854775808", i64::MAX),
        Err(ParseFailure::PosOverflow)
    );
    assert_eq!(
        parse_signed("-9223372036854775809", i64::MAX),
        Err(ParseFailure::NegOverflow)
    );
    assert_eq!(parse_signed("2147483647", 2147483647), Ok(2147483647));
    assert_eq!(parse_signed("-2147483648", 2147483647), Ok(-2147483648));
    assert_eq!(parse_signed("2147483648", 2147483647), Err(ParseFailure::PosOverflow));
    assert_eq!(parse_signed("-2147483649", 2147483647), Err(ParseFailure::NegOverflow));
    assert_eq!(parse_signed("", i64::MAX), Err(ParseFailure::Empty));
    assert_eq!(parse_signed("-", i64::MAX), Err(ParseFailure::InvalidDigit));
    assert_eq!(parse_signed("+", i64::MAX), Err(ParseFailure::InvalidDigit));
    assert_eq!(parse_signed("--1", i64::MAX), Err(ParseFailure::InvalidDigit));
    assert_eq!(parse_signed("1-", i64::MAX), Err(ParseFailure::InvalidDigit));
}

#[test]
fn integers_parse_as_std_does() {
    let samples = [
        "", "0", "1", "+1", "-1", "+", "-", "00012", "4294967295", "4294967296", "2147483648",
        "-2147483648", "-2147483649", "99999999999999999999999", "12x", "x", " 1", "1 ", "+-1",
        "18446744073709551615", "18446744073709551616", "-9223372036854775808",
        "-9223372036854775809", "9223372036854775807", "٣",
    ];
    for s in samples {
        assert_eq!(parse_unsigned(s, u32::MAX as u64).ok(), s.parse::<u32>().ok().map(|n| n as u64));
        assert_eq!(parse_unsigned(s, u64::MAX).ok(), s.parse::<u64>().ok());
        assert_eq!(parse_signed(s, i32::MAX as i64).ok(), s.parse::<i32>().ok().map(|n| n as i64));
        assert_eq!(parse_signed(s, i64::MAX).ok(), s.parse::<i64>().ok());
        let ours = parse_unsigned(s, u32::MAX as u64).err().map(|f| f.message().to_string());
        let theirs = s.parse::<u32>().err().map(|e| e.to_string());
        assert_eq!(ours, theirs);
        let ours = parse_signed(s, i64::MAX).err().map(|f| f.message().to_string());
        let theirs = s.parse::<i64>().err().map(|e| e.to_string());
        assert_eq!(ours, theirs);
    }
}

#[test]
fn messages_of_failures() {
    assert_eq!(ParseFailure::Empty.message(), "cannot parse integer from empty string");
    assert_eq!(ParseFailure::InvalidDigit.message(), "invalid digit found in string");
    assert_eq!(ParseFailure::PosOverflow.message(), "number too large to fit in target type");
    assert_eq!(ParseFailure::NegOverflow.message(), "number too small to fit in target type");
    assert_eq!(
        ParseFailure::NotBoolean.message(),
        "provided string was not `true` or `false`"
    );
    assert_eq!(
        ParseFailure::NotBoolean.message(),
        "x".parse::<bool>().unwrap_err().to_string()
    );
}

#[test]
fn a_failed_parse_is_a_param_parse_error() {
    assert_eq!(
        ParseFailure::InvalidDigit.to_error(),
        Error::ParamParseError("invalid digit found in string".to_string())
    );
    assert_eq!(ParseFailure::NotBoolean.to_error().status_code(), 400);
}

#[test]
fn parameters_parse_into_their_target() {
    assert_eq!(
        parse_param(ParamType::Text, "abc"),
        Ok(ParamValue::Text("abc".to_string()))
    );
    assert_eq!(parse_param(ParamType::Text, ""), Ok(ParamValue::Text(String::new())));
    assert_eq!(parse_param(ParamType::Boolean, "true"), Ok(ParamValue::Boolean(true)));
    assert_eq!(
        parse_param(ParamType::Boolean, "notabool"),
        Err(ParseFailure::NotBoolean)
    );
    assert_eq!(parse_param(ParamType::U32, "7"), Ok(ParamValue::Unsigned(7)));
    assert_eq!(parse_param(ParamType::U32, "4294967296"), Err(ParseFailure::PosOverflow));
    assert_eq!(
        parse_param(ParamType::U64, "4294967296"),
        Ok(ParamValue::Unsigned(4294967296))
    );
    assert_eq!(parse_param(ParamType::I32, "-5"), Ok(ParamValue::Signed(-5)));
    assert_eq!(parse_param(ParamType::I32, "-2147483649"), Err(ParseFailure::NegOverflow));
    assert_eq!(
        parse_param(ParamType::I64, "-2147483649"),
        Ok(ParamValue::Signed(-2147483649))
    );
    assert_eq!(parse_param(ParamType::U32, "-5"), Err(ParseFailure::InvalidDigit));
}
