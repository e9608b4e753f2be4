use fast_collections::String;

fn takes_five(_value: String<5>) {}

#[test]
fn test_array() {
    let value: String<10> = String::from_array(*b"hell0");
    assert_eq!(value.as_vec().as_slice(), *b"hell0     ");
    takes_five(String::from_array(*b"a"));
}

#[test]
fn asdf() {
    let value: String<4> = String::from_array(*b"123123123123");
    assert_eq!(value.len(), 4);
}

#[test]
fn test_print() {
    let string = String::<100>::from_array(*b"abcd");
    assert_eq!(string.as_str(), "abcd");
}

#[test]
fn new_string_is_empty() {
    let mut string = String::<8>::new();
    assert_eq!(string.len(), 0);
    assert_eq!(string.as_str(), "");
    string.as_vec_mut().push(b'x').unwrap();
    assert_eq!(string.as_str(), "x");
}
