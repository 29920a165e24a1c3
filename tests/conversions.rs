use el_roi::{
    convert_bool, convert_char, convert_int, convert_int_vec, convert_text, convert_text_vec,
    split_words, ParseError, TargetType,
};

fn parse_error(target: TargetType, literal: &str) -> ParseError {
    ParseError { target, literal: literal.to_string() }
}

#[test]
fn int_round_trips_through_its_text() {
    for n in [0, 1, -1, 7, 42, -42, 1000, 2147483647, -2147483648, 123456789, -987654321] {
        assert_eq!(convert_int(&n.to_string()), Ok(n));
    }
    assert_eq!(convert_int("+7"), Ok(7));
    assert_eq!(convert_int("+2147483647"), Ok(2147483647));
    assert_eq!(convert_int("-0"), Ok(0));
    assert_eq!(convert_int("007"), Ok(7));
    assert_eq!(convert_int("  12 \n"), Ok(12));
}

#[test]
fn int_out_of_range_or_malformed_fails() {
    assert_eq!(convert_int("2147483648"), Err(parse_error(TargetType::Integer, "2147483648")));
    assert_eq!(convert_int("-2147483649"), Err(parse_error(TargetType::Integer, "-2147483649")));
    assert_eq!(
        convert_int("99999999999999999999"),
        Err(parse_error(TargetType::Integer, "99999999999999999999"))
    );
    assert_eq!(convert_int("abc"), Err(parse_error(TargetType::Integer, "abc")));
    assert_eq!(convert_int(""), Err(parse_error(TargetType::Integer, "")));
    assert_eq!(convert_int("+"), Err(parse_error(TargetType::Integer, "+")));
    assert_eq!(convert_int("-"), Err(parse_error(TargetType::Integer, "-")));
    assert_eq!(convert_int("+-1"), Err(parse_error(TargetType::Integer, "+-1")));
    assert_eq!(convert_int("1 2"), Err(parse_error(TargetType::Integer, "1 2")));
    assert_eq!(convert_int(" 4x \n"), Err(parse_error(TargetType::Integer, "4x")));
}

#[test]
fn bool_true_words() {
    for w in ["true", "yes", "1", "y", "TRUE", "True", "YES", "Yes", "Y", " true \n"] {
        assert_eq!(convert_bool(w), Ok(true), "{w}");
    }
}

#[test]
fn bool_false_words() {
    for w in ["false", "no", "0", "n", "FALSE", "False", "NO", "No", "N", "\tno\n"] {
        assert_eq!(convert_bool(w), Ok(false), "{w}");
    }
}

#[test]
fn bool_other_words_fail() {
    for w in ["", "maybe", "t", "f", "ye", "nope", "2", "truee", "yes no"] {
        assert_eq!(convert_bool(w), Err(parse_error(TargetType::Boolean, w)), "{w}");
    }
}

#[test]
fn char_of_empty_line_fails() {
    assert_eq!(convert_char(""), Err(parse_error(TargetType::Character, "")));
    assert_eq!(convert_char(" \n"), Err(parse_error(TargetType::Character, "")));
}

#[test]
fn char_is_first_of_trimmed_line() {
    assert_eq!(convert_char("abc"), Ok('a'));
    assert_eq!(convert_char(" \t xyz \n"), Ok('x'));
    assert_eq!(convert_char("é"), Ok('é'));
}

#[test]
fn int_vec_converts_every_word() {
    assert_eq!(convert_int_vec("1 2 3 4 5"), Ok(vec![1, 2, 3, 4, 5]));
    assert_eq!(convert_int_vec("  -1\t+2   30 \n"), Ok(vec![-1, 2, 30]));
    assert_eq!(convert_int_vec(""), Ok(vec![]));
    assert_eq!(convert_int_vec(" \n"), Ok(vec![]));
}

#[test]
fn int_vec_is_all_or_nothing() {
    assert_eq!(convert_int_vec("1 2 x 4"), Err(parse_error(TargetType::IntegerVec, "1 2 x 4")));
    assert_eq!(
        convert_int_vec("1 2147483648\n"),
        Err(parse_error(TargetType::IntegerVec, "1 2147483648"))
    );
}

#[test]
fn text_is_trimmed_at_both_ends() {
    assert_eq!(convert_text(" Hello, World! \n"), Ok("Hello, World!".to_string()));
    assert_eq!(convert_text(""), Ok(String::new()));
    assert_eq!(convert_text("\u{3000}wide\u{a0}\r\n"), Ok("wide".to_string()));
    assert_eq!(convert_text("a  b"), Ok("a  b".to_string()));
}

#[test]
fn text_conversion_is_idempotent() {
    for s in [" Hello, World! \n", "", "  ", "x", "\t a b \t"] {
        let once = convert_text(s).unwrap();
        assert_eq!(convert_text(&once), Ok(once.clone()));
    }
}

#[test]
fn text_vec_splits_on_whitespace_runs() {
    assert_eq!(
        convert_text_vec("  foo \t bar\n baz  "),
        Ok(vec!["foo".to_string(), "bar".to_string(), "baz".to_string()])
    );
    assert_eq!(convert_text_vec(""), Ok(Vec::<String>::new()));
    assert_eq!(split_words("a\u{2003}b"), vec!["a".to_string(), "b".to_string()]);
}

#[test]
fn examples_for_each_kind() {
    assert_eq!(TargetType::Integer.example(), "42");
    assert_eq!(TargetType::Float.example(), "3.14");
    assert_eq!(TargetType::Boolean.example(), "true (or yes/1)");
    assert_eq!(TargetType::Character.example(), "a");
    assert_eq!(TargetType::IntegerVec.example(), "1 2 3");
    assert_eq!(TargetType::FloatVec.example(), "1.0 2.5 3.14");
    assert_eq!(parse_error(TargetType::Integer, "x").example(), "42");
}
