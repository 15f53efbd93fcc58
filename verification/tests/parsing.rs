use scalar_number::text::{resolve, special};
use scalar_number::Number;

fn reading(s: &str) -> Option<u64> {
    match s.parse::<f64>() {
        Ok(v) => Some(v.to_bits()),
        Err(_) => None,
    }
}

fn parse(s: &str) -> Result<Number, scalar_number::ParseError> {
    Number::parse(s, reading(s.trim()))
}

#[test]
fn special_tokens_parse_without_regard_to_case() {
    assert!(matches!(parse("Infinity"), Ok(Number::PositiveInfinity)));
    assert!(matches!(parse("-inf"), Ok(Number::NegativeInfinity)));
    assert!(matches!(parse("NaN"), Ok(Number::NaN)));
    assert!(matches!(parse("nan"), Ok(Number::NaN)));
    assert!(matches!(parse("inf"), Ok(Number::PositiveInfinity)));
    assert!(matches!(parse("+INF"), Ok(Number::PositiveInfinity)));
    assert!(matches!(parse("+Infinity"), Ok(Number::PositiveInfinity)));
    assert!(matches!(parse("-INFINITY"), Ok(Number::NegativeInfinity)));
}

#[test]
fn special_tokens_are_trimmed() {
    assert!(matches!(parse("  inf\t"), Ok(Number::PositiveInfinity)));
    assert!(matches!(parse("\n-Infinity "), Ok(Number::NegativeInfinity)));
    assert!(matches!(parse("\u{3000}NAN\u{a0}"), Ok(Number::NaN)));
    // with no float reading at hand the token alone decides
    assert!(matches!(Number::parse(" Inf ", None), Ok(Number::PositiveInfinity)));
    assert!(Number::parse("i nf", None).is_err());
}

#[test]
fn integers_parse_to_their_narrowest_variant() {
    assert!(matches!(parse("42"), Ok(Number::Integer8(42))));
    assert!(matches!(parse("-128"), Ok(Number::Integer8(-128))));
    assert!(matches!(parse("+300"), Ok(Number::Integer16(300))));
    assert!(matches!(parse("0007"), Ok(Number::Integer8(7))));
    assert!(matches!(parse("-70000"), Ok(Number::Integer32(-70000))));
    assert!(matches!(
        parse("9223372036854775807"),
        Ok(Number::Integer64(9223372036854775807))
    ));
    assert!(matches!(parse("-9223372036854775808"), Ok(Number::Integer64(i64::MIN))));
    assert!(matches!(Number::parse("42", None), Ok(Number::Integer8(42))));
}

#[test]
fn other_numerals_parse_as_floats() {
    match parse("3.5") {
        Ok(Number::Float32(b)) => assert_eq!(f32::from_bits(b), 3.5),
        _ => panic!("a binary32 value was expected"),
    }
    match parse("0.1") {
        Ok(Number::Float64(b)) => assert_eq!(f64::from_bits(b), 0.1),
        _ => panic!("a binary64 value was expected"),
    }
    match parse("9223372036854775808") {
        Ok(Number::Float32(b)) => assert_eq!(f32::from_bits(b) as f64, 9223372036854775808.0),
        _ => panic!("a binary32 value was expected"),
    }
    match parse("1e400") {
        Ok(Number::Float64(b)) => assert_eq!(f64::from_bits(b), f64::INFINITY),
        _ => panic!("a binary64 value was expected"),
    }
}

#[test]
fn unreadable_text_is_rejected_with_the_text() {
    match parse("not a number") {
        Err(e) => assert_eq!(e.text, "not a number"),
        Ok(_) => panic!("the text is no number"),
    }
    match parse("  12a\t") {
        Err(e) => assert_eq!(e.text, "  12a\t"),
        Ok(_) => panic!("the text is no number"),
    }
    assert!(parse("4 2").is_err());
    assert!(parse("- 42").is_err());
    assert!(parse("   ").is_err());
    assert!(parse("").is_err());
    assert!(parse("-").is_err());
    assert!(parse("+").is_err());
    assert!(parse("12a").is_err());
    assert!(Number::parse("3.5", None).is_err());
}

#[test]
fn resolve_prefers_token_then_integer_then_float() {
    let float = Some(2.5f64.to_bits());
    assert!(matches!(resolve("nan", Some(1), float, "x"), Ok(Number::NaN)));
    assert!(matches!(resolve("1", Some(1), float, "1"), Ok(Number::Integer8(1))));
    match resolve("2.5", None, float, "2.5") {
        Ok(Number::Float32(b)) => assert_eq!(f32::from_bits(b), 2.5),
        _ => panic!("a binary32 value was expected"),
    }
    match resolve("what", None, None, "What") {
        Err(e) => assert_eq!(e.text, "What"),
        Ok(_) => panic!("nothing was readable"),
    }
}

#[test]
fn special_reads_lowercase_tokens_only() {
    assert!(matches!(special("inf"), Some(Number::PositiveInfinity)));
    assert!(matches!(special("+infinity"), Some(Number::PositiveInfinity)));
    assert!(matches!(special("-infinity"), Some(Number::NegativeInfinity)));
    assert!(matches!(special("nan"), Some(Number::NaN)));
    assert!(special("NaN").is_none());
    assert!(special("-nan").is_none());
    assert!(special("").is_none());
}

#[test]
fn the_message_holds_the_rejected_text() {
    match parse("not a number") {
        Err(e) => {
            assert!(e.message().contains("'not a number'"));
            assert_eq!(
                e.message(),
                "\u{65e0}\u{6cd5}\u{89e3}\u{6790} 'not a number' \u{4e3a}\u{6570}\u{5b57}"
            );
        }
        Ok(_) => panic!("the text is no number"),
    }
}

#[test]
fn written_integers_read_back() {
    for v in [0i64, 7, -7, 127, -128, 128, 99999, -2147483649, i64::MAX, i64::MIN] {
        let text = Number::from_int(v).to_text().unwrap();
        assert_eq!(text, v.to_string());
        match Number::parse(&text, None) {
            Ok(n) => assert_eq!(n.as_integer(), Some(v)),
            Err(_) => panic!("the text of an integer was rejected"),
        }
    }
}

#[test]
fn every_white_space_character_is_trimmed() {
    let spaces = [
        '\u{9}', '\u{a}', '\u{b}', '\u{c}', '\u{d}', '\u{20}', '\u{85}', '\u{a0}', '\u{1680}',
        '\u{2000}', '\u{2001}', '\u{2002}', '\u{2003}', '\u{2004}', '\u{2005}', '\u{2006}',
        '\u{2007}', '\u{2008}', '\u{2009}', '\u{200a}', '\u{2028}', '\u{2029}', '\u{202f}',
        '\u{205f}', '\u{3000}',
    ];
    for c in spaces {
        let text = format!("{}nan{}{}", c, c, c);
        assert!(matches!(Number::parse(&text, None), Ok(Number::NaN)));
    }
    for c in ['\u{200b}', '\u{180e}', '\u{feff}', '\u{8}', '\u{e}', '\u{1f}', '_'] {
        let text = format!("{}nan", c);
        assert!(Number::parse(&text, None).is_err());
        let text = format!("nan{}", c);
        assert!(Number::parse(&text, None).is_err());
    }
}

#[test]
fn signed_zero_and_signs_in_integers() {
    assert!(matches!(parse("-0"), Ok(Number::Integer8(0))));
    assert!(matches!(parse("+0"), Ok(Number::Integer8(0))));
    assert!(Number::parse("--5", None).is_err());
    assert!(Number::parse("+-5", None).is_err());
    assert!(Number::parse("5-", None).is_err());
    assert!(Number::parse("9223372036854775808", None).is_err());
    assert!(Number::parse("-9223372036854775809", None).is_err());
    assert!(Number::parse("\u{663}", None).is_err());
}

#[test]
fn numbers_are_trimmed_before_they_are_read() {
    assert!(matches!(parse(" 42 "), Ok(Number::Integer8(42))));
    assert!(matches!(parse(" 42"), Ok(Number::Integer8(42))));
    assert!(matches!(parse("42\n"), Ok(Number::Integer8(42))));
    assert!(matches!(parse("\t-70000\u{3000}"), Ok(Number::Integer32(-70000))));
    assert!(matches!(parse("\u{a0}+300 "), Ok(Number::Integer16(300))));
    assert!(matches!(Number::parse(" 42 ", None), Ok(Number::Integer8(42))));
    match parse("  3.5 ") {
        Ok(Number::Float32(b)) => assert_eq!(f32::from_bits(b), 3.5),
        _ => panic!("a binary32 value was expected"),
    }
    match parse("\t0.1\n") {
        Ok(Number::Float64(b)) => assert_eq!(f64::from_bits(b), 0.1),
        _ => panic!("a binary64 value was expected"),
    }
}
