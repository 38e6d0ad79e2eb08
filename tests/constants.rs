use planggy::constant::lex_constant;
use planggy::lexer::FloatLit;
use planggy::{Constant, DError, RawNode, Rule};

fn parse(text: &str) -> Result<Constant, DError> {
    Constant::deserialize(&RawNode::leaf(Rule::Constant, text))
}

fn float_value(f: &FloatLit) -> f64 {
    let sign = if f.negative { "-" } else { "" };
    format!("{}{}.{}", sign, f.whole, f.frac).parse::<f64>().unwrap()
}

fn as_float(r: Result<Constant, DError>) -> f64 {
    match r {
        Ok(Constant::Float(f)) => float_value(&f),
        other => panic!("not a float: {:?}", other),
    }
}

#[test]
fn uppercase_igaz() {
    assert_eq!(parse("IGAZ"), Ok(Constant::Boolean(true)))
}

#[test]
fn uppercase_hamis() {
    assert_eq!(parse("HAMIS"), Ok(Constant::Boolean(false)))
}

#[test]
fn int_one() {
    assert_eq!(parse("1"), Ok(Constant::Int(1)))
}

#[test]
fn int_minus_one() {
    assert_eq!(parse("-1"), Ok(Constant::Int(-1)))
}

#[test]
fn int_multi_digit() {
    assert_eq!(parse("+123"), Ok(Constant::Int(123)))
}

#[test]
fn too_large() {
    assert_eq!(parse("99999999999999999"), Err(DError::ConstValueTooLarge))
}

#[test]
fn float_minus_one() {
    assert_eq!(as_float(parse("-1.0")), -1.0)
}

#[test]
fn a() {
    assert_eq!(parse("'a'"), Ok(Constant::Char('a')))
}

#[test]
fn uppercase_a() {
    assert_eq!(parse("'A'"), Ok(Constant::Char('A')))
}

#[test]
fn digit() {
    assert_eq!(parse("'7'"), Ok(Constant::Char('7')))
}

#[test]
fn space() {
    assert_eq!(parse("' '"), Ok(Constant::Char(' ')))
}

#[test]
fn newline() {
    assert_eq!(parse("'\n'"), Ok(Constant::Char('\n')))
}

#[test]
fn constant_single_quote() {
    assert_eq!(parse(r"'\''"), Ok(Constant::Char('\'')))
}

#[test]
fn constant_words() {
    assert_eq!(
        parse(r#""lorem ipsum 123""#),
        Ok(Constant::String("lorem ipsum 123".to_string()))
    )
}

// Escapes inside a string literal are decoded.
#[test]
fn special_chars() {
    assert_eq!(
        parse(r#""lorem\t\nipsum 123""#),
        Ok(Constant::String("lorem\t\nipsum 123".to_string()))
    )
}

#[test]
fn double_quote() {
    assert_eq!(
        parse("\"lorem\\\"ipsum\""),
        Ok(Constant::String("lorem\"ipsum".to_string()))
    )
}

#[test]
fn constants_one() {
    assert_eq!(lex_constant("1"), Ok(Constant::Int(1)));
    assert_eq!(as_float(lex_constant("1.0")), 1.0);
}

#[test]
fn multi_digit() {
    assert_eq!(lex_constant("1234"), Ok(Constant::Int(1234)));
}

#[test]
fn constants_two() {
    assert_eq!(lex_constant("2"), Ok(Constant::Int(2)));
    assert_eq!(as_float(lex_constant("2.0")), 2.0);
}

#[test]
fn constants_signed_one() {
    assert_eq!(lex_constant("+1"), Ok(Constant::Int(1)));
    assert_eq!(as_float(lex_constant("+1.0")), 1.0);
}

#[test]
fn constants_signed_negative_one() {
    assert_eq!(lex_constant("-1"), Ok(Constant::Int(-1)));
    assert_eq!(as_float(lex_constant("-1.0")), -1.0);
}

#[test]
fn lowercase_true() {
    assert_eq!(lex_constant("igaz"), Ok(Constant::Boolean(true)));
    assert_eq!(lex_constant("true"), Ok(Constant::Boolean(true)));
}

#[test]
fn uppercase_true() {
    assert_eq!(lex_constant("IGAZ"), Ok(Constant::Boolean(true)));
    assert_eq!(lex_constant("TRUE"), Ok(Constant::Boolean(true)));
}

#[test]
fn lowercase_false() {
    assert_eq!(lex_constant("hamis"), Ok(Constant::Boolean(false)));
    assert_eq!(lex_constant("false"), Ok(Constant::Boolean(false)));
}

#[test]
fn uppercase_false() {
    assert_eq!(lex_constant("HAMIS"), Ok(Constant::Boolean(false)));
    assert_eq!(lex_constant("FALSE"), Ok(Constant::Boolean(false)));
}

#[test]
fn normal() {
    assert_eq!(lex_constant("'a'"), Ok(Constant::Char('a')))
}

#[test]
fn invalid_single_quote() {
    assert!(lex_constant("'''").is_err());
}

#[test]
fn constants_empty() {
    assert!(lex_constant("''").is_err());
    assert_eq!(lex_constant("\"foo\""), Ok(Constant::String("foo".to_string())));
}

#[test]
fn constants_single_quote() {
    assert_eq!(lex_constant("'\\''"), Ok(Constant::Char('\'')))
}

#[test]
fn unescaped_backslash() {
    assert!(lex_constant("'\\'").is_err())
}

#[test]
fn escaped_backslash() {
    assert_eq!(lex_constant("'\\\\'"), Ok(Constant::Char('\\')))
}

#[test]
fn ascii() {
    assert_eq!(
        lex_constant("\"loremipsum123\""),
        Ok(Constant::String("loremipsum123".to_string()))
    )
}

#[test]
fn constants_words() {
    assert_eq!(
        lex_constant("\"lorem ipsum\""),
        Ok(Constant::String("lorem ipsum".to_string()))
    )
}

#[test]
fn emojis() {
    assert_eq!(lex_constant("\"♥\""), Ok(Constant::String("♥".to_string())))
}

#[test]
fn quotes() {
    assert_eq!(
        lex_constant("\"foo\\\"bar\""),
        Ok(Constant::String("foo\"bar".to_string()))
    )
}

// `\o` is not in the escape table.
#[test]
fn backslash_inside() {
    assert_eq!(lex_constant("\"fo\\o\""), Err(DError::UnknownEscape));
}

#[test]
fn backslash_as_last() {
    assert!(lex_constant("\"fo\\\"").is_err());
}

#[test]
fn escaped_backslash_as_last() {
    assert!(lex_constant("\"fo\\\\\"").is_ok());
    assert!(lex_constant("\"\\\\\"").is_ok());
}

#[test]
fn float_forms() {
    assert_eq!(as_float(lex_constant("123.45")), 123.45);
    assert_eq!(as_float(lex_constant("123.45f")), 123.45);
    assert_eq!(as_float(lex_constant("123f")), 123.0);
    assert_eq!(as_float(lex_constant("1f")), 1.0);
    assert_eq!(as_float(lex_constant("1.0f")), 1.0);
    assert_eq!(lex_constant("123"), Ok(Constant::Int(123)));
}

#[test]
fn malformed_numbers() {
    assert_eq!(lex_constant("1.f"), Err(DError::ConstValueTooLarge));
    assert_eq!(lex_constant(".5"), Err(DError::ConstValueTooLarge));
    assert_eq!(lex_constant("-"), Err(DError::ConstValueTooLarge));
    assert_eq!(lex_constant("12a"), Err(DError::ConstValueTooLarge));
}

#[test]
fn integer_bounds() {
    assert_eq!(lex_constant("2147483647"), Ok(Constant::Int(2147483647)));
    assert_eq!(lex_constant("-2147483648"), Ok(Constant::Int(-2147483648)));
    assert_eq!(lex_constant("2147483648"), Err(DError::ConstValueTooLarge));
    assert_eq!(lex_constant("-2147483649"), Err(DError::ConstValueTooLarge));
    assert_eq!(lex_constant("99999999999999999"), Err(DError::ConstValueTooLarge));
}

#[test]
fn char_errors() {
    assert_eq!(lex_constant("''"), Err(DError::EmptyCharLiteral));
    assert_eq!(lex_constant("'''"), Err(DError::UnescapedSingleQuote));
    assert_eq!(lex_constant("'\\q'"), Err(DError::UnknownEscape));
    assert_eq!(lex_constant("'ab'"), Err(DError::TooLongCharacter));
    assert_eq!(lex_constant("'\\nn'"), Err(DError::TooLongCharacter));
}

#[test]
fn string_errors() {
    assert_eq!(lex_constant("\"ab\\\""), Err(DError::UnterminatedString));
    assert_eq!(lex_constant("\"\\x\""), Err(DError::UnknownEscape));
}

#[test]
fn leaf_tags() {
    let n = RawNode::leaf(Rule::Int, "42");
    assert_eq!(Constant::deserialize(&n), Ok(Constant::Int(42)));
    let n = RawNode::leaf(Rule::Character, "'\\t'");
    assert_eq!(Constant::deserialize(&n), Ok(Constant::Char('\t')));
    let n = RawNode::leaf(Rule::Str, "\"a\\0b\"");
    assert_eq!(Constant::deserialize(&n), Ok(Constant::String("a\0b".to_string())));
    let n = RawNode::leaf(Rule::BooleanTrue, "IGAZ");
    assert_eq!(Constant::deserialize(&n), Ok(Constant::Boolean(true)));
    let n = RawNode::node(
        Rule::Constant,
        "7",
        vec![RawNode::node(Rule::Number, "7", vec![RawNode::leaf(Rule::Int, "7")])],
    );
    assert_eq!(Constant::deserialize(&n), Ok(Constant::Int(7)));
    let n = RawNode::leaf(Rule::Other, "7");
    assert_eq!(Constant::deserialize(&n), Err(DError::UnknownRule));
}

#[test]
fn char_and_string_parsers() {
    assert_eq!(planggy::char_parser("a"), Ok('a'));
    assert_eq!(planggy::char_parser("\\0"), Ok('\0'));
    assert_eq!(planggy::char_parser("\\\""), Ok('"'));
    assert_eq!(planggy::char_parser(""), Err(DError::EmptyCharLiteral));
    assert_eq!(planggy::string_parser("abc"), Ok("abc".to_string()));
    assert_eq!(planggy::string_parser("a\\tb\\\\"), Ok("a\tb\\".to_string()));
}

#[test]
fn canonical_text() {
    assert_eq!(Constant::Int(-42).to_text(), "-42");
    assert_eq!(Constant::Int(0).to_text(), "0");
    assert_eq!(Constant::Int(i32::MIN).to_text(), "-2147483648");
    assert_eq!(Constant::Boolean(true).to_text(), "IGAZ");
    assert_eq!(Constant::Boolean(false).to_text(), "HAMIS");
    assert_eq!(Constant::Char('\n').to_text(), "'\\n'");
    assert_eq!(Constant::Char('\\').to_text(), "'\\\\'");
    assert_eq!(Constant::String("a\"b".to_string()).to_text(), "\"a\\\"b\"");
    let f = match lex_constant("7f") {
        Ok(c) => c,
        Err(e) => panic!("{:?}", e),
    };
    assert_eq!(f.to_text(), "7.0");
}

#[test]
fn float_digits_normalised() {
    assert_eq!(lex_constant("1.50"), lex_constant("1.5"));
    assert_eq!(lex_constant("01.0"), lex_constant("1.0"));
    assert_eq!(lex_constant("007f"), lex_constant("7.000"));
    assert_eq!(lex_constant("0.0").unwrap().to_text(), "0.0");
    assert_eq!(lex_constant("-00.500f").unwrap().to_text(), "-0.5");
}

#[test]
fn single_quote_in_string_stays_raw() {
    assert_eq!(Constant::String("'".to_string()).to_text(), "\"'\"");
    assert_eq!(Constant::String("it's".to_string()).to_text(), "\"it's\"");
    let c = Constant::String("a'\"\\\n".to_string());
    assert_eq!(lex_constant(&c.to_text()), Ok(c));
}
