use el_roi::{
    failure_notice, parse_from_reader, read_bool_loop, read_char_loop, read_int_from,
    read_int_retry, read_int_vec_loop, read_value_from, read_with_retry, retry_step, LineSource,
    ParseError, ReadError, TargetType,
};

#[test]
fn retry_reads_until_a_line_converts() {
    let mut src = LineSource::new("abc\n42\n");
    let mut out: Vec<String> = Vec::new();
    assert_eq!(read_int_retry(&mut src, &mut out, None), Ok(42));
    assert_eq!(out, vec!["Invalid input data type. Example: 42".to_string()]);
    assert_eq!(src.lines_read(), 2);
}

#[test]
fn retry_repeats_the_label_after_each_failure() {
    let mut src = LineSource::new("x\n\nmaybe\nyes\nno\n");
    let mut out: Vec<String> = Vec::new();
    assert_eq!(read_bool_loop(&mut src, &mut out, Some("Continue?")), Ok(true));
    let hint = "Invalid input data type. Example: true (or yes/1)".to_string();
    let label = "Continue?: ".to_string();
    assert_eq!(out, vec![hint.clone(), label.clone(), hint.clone(), label.clone(), hint, label]);
    assert_eq!(src.lines_read(), 4);
    assert_eq!(read_bool_loop(&mut src, &mut out, None), Ok(false));
    assert_eq!(out.len(), 6);
}

#[test]
fn retry_fails_only_when_lines_run_out() {
    let mut src = LineSource::new("\n  \n");
    let mut out: Vec<String> = Vec::new();
    assert_eq!(read_char_loop(&mut src, &mut out, None), Err(ReadError::Io));
    assert_eq!(out.len(), 2);
    assert_eq!(src.lines_read(), 2);
}

#[test]
fn retry_vector_after_partial_line() {
    let mut src = LineSource::new("1 2 x 4\n1 2 3");
    let mut out: Vec<String> = Vec::new();
    assert_eq!(read_int_vec_loop(&mut src, &mut out, None), Ok(vec![1, 2, 3]));
    assert_eq!(out, vec!["Invalid input data type. Example: 1 2 3".to_string()]);
}

#[test]
fn retry_on_first_line_writes_nothing() {
    let mut src = LineSource::new("7\n8\n");
    let mut out: Vec<String> = Vec::new();
    assert_eq!(read_with_retry::<i32>(&mut src, &mut out, Some("n")), Ok(7));
    assert!(out.is_empty());
    assert_eq!(src.lines_read(), 1);
}

#[test]
fn strict_read_fails_on_bad_line_after_one_read() {
    let mut src = LineSource::new("abc\n42\n");
    assert_eq!(
        read_int_from(&mut src),
        Err(ReadError::Parse(ParseError {
            target: TargetType::Integer,
            literal: "abc".to_string()
        }))
    );
    assert_eq!(src.lines_read(), 1);
    assert_eq!(read_int_from(&mut src), Ok(42));
}

#[test]
fn strict_read_of_empty_source_is_io_error() {
    let mut src = LineSource::new("");
    assert_eq!(read_value_from::<String>(&mut src), Err(ReadError::Io));
    assert_eq!(src.lines_read(), 0);
    let mut src = LineSource::new("5\n");
    assert_eq!(parse_from_reader::<i32>(&mut src), Ok(Ok(5)));
    assert_eq!(parse_from_reader::<i32>(&mut src), Err(ReadError::Io));
}

#[test]
fn line_source_keeps_terminators() {
    let mut src = LineSource::new("a\nb");
    assert_eq!(src.read_line(), Ok("a\n".to_string()));
    assert_eq!(src.read_line(), Ok("b".to_string()));
    assert_eq!(src.read_line(), Err(ReadError::Io));
    assert_eq!(src.lines_read(), 2);
}

#[test]
fn notice_holds_hint_and_label() {
    assert_eq!(
        failure_notice(TargetType::Float, Some("Pi")),
        vec!["Invalid input data type. Example: 3.14".to_string(), "Pi: ".to_string()]
    );
    assert_eq!(
        failure_notice(TargetType::Character, None),
        vec!["Invalid input data type. Example: a".to_string()]
    );
    assert_eq!(retry_step::<i32>(" 9 \n", None), Ok(9));
    assert_eq!(
        retry_step::<char>("\n", Some("c")),
        Err(vec!["Invalid input data type. Example: a".to_string(), "c: ".to_string()])
    );
}
