use pdeef::options::parse_num_array;
use pdeef::paths::{diff_file_name, join_path, page_file_name};

#[test]
fn parses_full_colour_literal() {
    let r = parse_num_array("[218, 165, 32, 255]");
    assert_eq!(r, Ok([218, 165, 32, 255]));
}

#[test]
fn parses_unbracketed_literal() {
    let r = parse_num_array("1,2");
    assert_eq!(r, Ok([1, 2, 255, 255]));
}

#[test]
fn missing_components_default_to_opaque() {
    let r = parse_num_array("[7]");
    assert_eq!(r, Ok([7, 255, 255, 255]));
}

#[test]
fn parses_with_inner_whitespace_and_plus() {
    let r = parse_num_array("[ +42 ,\t7 ]");
    assert_eq!(r, Ok([42, 7, 255, 255]));
}

#[test]
fn parses_largest_component() {
    let r = parse_num_array("[4294967295]");
    assert_eq!(r, Ok([4294967295, 255, 255, 255]));
}

#[test]
fn rejects_component_overflow() {
    assert!(parse_num_array("[4294967296]").is_err());
}

#[test]
fn rejects_empty_literal() {
    assert!(parse_num_array("").is_err());
    assert!(parse_num_array("[]").is_err());
}

#[test]
fn rejects_non_numeric_component() {
    assert!(parse_num_array("[a, b]").is_err());
    assert!(parse_num_array("[1, , 3]").is_err());
}

#[test]
fn rejects_more_than_four_components() {
    assert!(parse_num_array("[1, 2, 3, 4, 5]").is_err());
}

#[test]
fn rejects_negative_component() {
    assert!(parse_num_array("[-1]").is_err());
}

#[test]
fn page_file_names_follow_prefix_and_index() {
    assert_eq!(page_file_name("base", 0), "base_[0].jpg");
    assert_eq!(page_file_name("diff", 12), "diff_[12].jpg");
    assert_eq!(page_file_name("base", 305), "base_[305].jpg");
}

#[test]
fn diff_file_names_follow_index() {
    assert_eq!(diff_file_name(0), "diff_result_page_[0].png");
    assert_eq!(diff_file_name(41), "diff_result_page_[41].png");
}

#[test]
fn join_path_uses_single_separator() {
    assert_eq!(join_path("/tmp/ws/base", "base_[0].jpg"), "/tmp/ws/base/base_[0].jpg");
}
