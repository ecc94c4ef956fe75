use pqb::convert_table_name;

#[test]
fn test_convert_table_name() {
    assert_eq!("my_table_name", convert_table_name("MyTableName"));
}

#[test]
fn test_convert_single_letter() {
    assert_eq!("a", convert_table_name("a"));
}

#[test]
fn test_convert_first_letter_only() {
    assert_eq!("user", convert_table_name("User"));
}

#[test]
fn test_convert_no_capitals_unchanged() {
    assert_eq!("plain_name", convert_table_name("plain_name"));
}

#[test]
fn test_convert_empty_name() {
    assert_eq!("", convert_table_name(""));
}

#[test]
fn test_convert_digits_kept() {
    assert_eq!("model2_x", convert_table_name("Model2X"));
}
