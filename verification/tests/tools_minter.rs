use paint_type::tools::minter::{id_to_crate_name, to_ascii_lower, to_ascii_upper, to_camel_case};

#[test]
fn test_id_to_crate_name() {
    assert_eq!(id_to_crate_name("com.example.plugin"), "com-example-plugin");
    assert_eq!(id_to_crate_name("org.paint.type.blur"), "org-paint-type-blur");
}

#[test]
fn test_to_camel_case() {
    assert_eq!(to_camel_case("blur_effect"), "BlurEffect");
    assert_eq!(to_camel_case("gaussian-blur"), "GaussianBlur");
    assert_eq!(to_camel_case("My Plugin"), "MyPlugin");
}

#[test]
fn crate_name_is_lower_cased() {
    assert_eq!(id_to_crate_name("Com.Example.Blur"), "com-example-blur");
    assert_eq!(id_to_crate_name("ÉCOLE.Plug"), "école-plug");
}

#[test]
fn camel_case_edge_cases() {
    assert_eq!(to_camel_case(""), "");
    assert_eq!(to_camel_case("__a..b"), "AB");
    assert_eq!(to_camel_case("HELLO world"), "HelloWorld");
    assert_eq!(to_ascii_upper('q'), 'Q');
    assert_eq!(to_ascii_lower('Q'), 'q');
    assert_eq!(to_ascii_upper('7'), '7');
}
