use el_roi::{
    read_bool_from, read_char_from, read_int_from, read_int_vec_from, read_string_from,
    read_string_vec_from, LineSource,
};

#[test]
fn test_read_string_from() {
    let mut src = LineSource::new("Hello, World!\n");
    assert_eq!(read_string_from(&mut src), Ok("Hello, World!".to_string()));
}

#[test]
fn test_read_int_from() {
    let mut src = LineSource::new("42\n");
    assert_eq!(read_int_from(&mut src), Ok(42));
}

#[test]
fn test_read_bool_from_true() {
    let mut src = LineSource::new("true\n");
    assert!(read_bool_from(&mut src).unwrap());
}

#[test]
fn test_read_bool_from_false() {
    let mut src = LineSource::new("no\n");
    assert!(!read_bool_from(&mut src).unwrap());
}

#[test]
fn test_read_char_from() {
    let mut src = LineSource::new("a\n");
    assert_eq!(read_char_from(&mut src), Ok('a'));
}

#[test]
fn test_read_int_vec_from() {
    let mut src = LineSource::new("1 2 3 4 5\n");
    assert_eq!(read_int_vec_from(&mut src), Ok(vec![1, 2, 3, 4, 5]));
}

#[test]
fn test_read_string_vec_from() {
    let mut src = LineSource::new("foo bar baz\n");
    assert_eq!(
        read_string_vec_from(&mut src),
        Ok(vec!["foo".to_string(), "bar".to_string(), "baz".to_string()])
    );
}
