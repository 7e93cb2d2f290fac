use envl::case::{to_camel_case, to_snake_case};

#[test]
fn snake_case_convert_test() {
    assert_eq!(to_snake_case("thisIsATest"), "this_is_a_test");
}

#[test]
fn camel_case_convert_test() {
    assert_eq!(to_camel_case("this_is_a_test"), "thisIsATest");
}
