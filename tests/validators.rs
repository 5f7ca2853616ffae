use tailwind_merge::validators::{
    get_is_arbitrary_value, image_labels, is_arbitrary_image, is_arbitrary_length, is_arbitrary_number,
    is_arbitrary_position, is_arbitrary_shadow, is_arbitrary_size, is_arbitrary_value, is_image,
    is_integer, is_length, is_length_only, is_never, is_number, is_percent, is_shadow, is_tshirt_size,
    size_labels, string_lengths, validate, PayloadTest, Validator,
};

#[test]
fn test_is_length() {
    assert_eq!(is_length("1"), true);
    assert_eq!(is_length("1023713"), true);
    assert_eq!(is_length("1.5"), true);
    assert_eq!(is_length("1145.67597"), true);
    assert_eq!(is_length("px"), true);
    assert_eq!(is_length("full"), true);
    assert_eq!(is_length("screen"), true);
    assert_eq!(is_length("3/4"), true);
    assert_eq!(is_length("25/66"), true);

    assert_eq!(is_length("[6.9%]"), false);
    assert_eq!(is_length("[486px]"), false);
    assert_eq!(is_length("[45.5rem]"), false);
    assert_eq!(is_length("[57vw]"), false);
    assert_eq!(is_length("[75vh]"), false);
    assert_eq!(is_length("[length:var(--arbitrary)]"), false);
    assert_eq!(is_length("5t7"), false);
    assert_eq!(is_length("[1]"), false);
    assert_eq!(is_length("[56px]"), false);
    assert_eq!(is_length("65px]"), false);
    assert_eq!(is_length("one"), false);
}

#[test]
fn numbers_and_integers() {
    assert!(is_number("0"));
    assert!(is_number("-2.5"));
    assert!(is_number("+.75"));
    assert!(is_number("3."));
    assert!(!is_number(""));
    assert!(!is_number("."));
    assert!(!is_number("1.2.3"));
    assert!(!is_number("abc"));
    assert!(!is_number("-"));
    assert!(is_integer("42"));
    assert!(is_integer("3.000"));
    assert!(!is_integer("3.5"));
    assert!(!is_integer("x"));
}

#[test]
fn percentages() {
    assert!(is_percent("12.5%"));
    assert!(is_percent("100%"));
    assert!(!is_percent("%"));
    assert!(!is_percent("12"));
    assert!(!is_percent("a%"));
}

#[test]
fn fixed_label_sets() {
    assert_eq!(string_lengths(), vec!["px", "full", "screen"]);
    assert_eq!(size_labels(), vec!["length", "size", "percentage"]);
    assert_eq!(image_labels(), vec!["image", "url"]);
}

#[test]
fn arbitrary_value_shape() {
    assert!(is_arbitrary_value("[1px]"));
    assert!(is_arbitrary_value("[length:var(--x)]"));
    assert!(is_arbitrary_value("[abc:]"));
    assert!(!is_arbitrary_value("[]"));
    assert!(!is_arbitrary_value("1px"));
    assert!(!is_arbitrary_value("[a\nb]"));
}

#[test]
fn arbitrary_length_labels() {
    assert!(is_arbitrary_length("[length:var(--x)]"));
    assert!(is_arbitrary_length("[3px]"));
    assert!(is_arbitrary_length("[3%]"));
    assert!(!is_arbitrary_length("[percentage:3%]"));
    assert!(!is_arbitrary_length("[red]"));
    assert!(!is_arbitrary_length("[size:var(--x)]"));
    assert!(!is_arbitrary_length("3px"));
}

#[test]
fn color_function_is_not_a_length() {
    assert!(!is_length_only("hsl(0 0% 0%)"));
    assert!(is_length_only("3px"));
    assert!(is_length_only("calc(100%-1rem)"));
    assert!(is_length_only("0"));
}

#[test]
fn other_arbitrary_validators() {
    assert!(is_arbitrary_number("[1.5]"));
    assert!(is_arbitrary_number("[number:var(--n)]"));
    assert!(!is_arbitrary_number("[1px]"));
    assert!(is_arbitrary_size("[size:var(--s)]"));
    assert!(is_arbitrary_size("[percentage:var(--s)]"));
    assert!(!is_arbitrary_size("[10px]"));
    assert!(is_arbitrary_position("[position:center]"));
    assert!(!is_arbitrary_position("[center]"));
    assert!(is_arbitrary_image("[url:var(--i)]"));
    assert!(is_arbitrary_image("[linear-gradient(red,blue)]"));
    assert!(!is_arbitrary_image("[red]"));
    assert!(is_arbitrary_shadow("[0_35px_60px_-15px_rgba(0,0,0,0.3)]"));
    assert!(!is_arbitrary_shadow("[shadow:0_1px_1px_0]"));
}

#[test]
fn regex_backed_validators() {
    assert!(is_tshirt_size("md"));
    assert!(is_tshirt_size("2xl"));
    assert!(is_tshirt_size("1.5lg"));
    assert!(!is_tshirt_size("2xxl"));
    assert!(is_shadow("inset_4px_4px"));
    assert!(!is_shadow("4px"));
    assert!(is_image("url(a.png)"));
    assert!(!is_image("url"));
    assert!(!is_never());
}

#[test]
fn shared_arbitrary_rule() {
    let labels = vec!["foo", "bar"];
    assert!(get_is_arbitrary_value("[bar:x]", &labels, PayloadTest::Never));
    assert!(!get_is_arbitrary_value("[baz:x]", &labels, PayloadTest::Number));
    assert!(get_is_arbitrary_value("[12]", &labels, PayloadTest::Number));
    assert!(!get_is_arbitrary_value("12", &labels, PayloadTest::Number));
}

#[test]
fn validator_dispatch() {
    assert!(validate(Validator::Any, "anything"));
    assert!(validate(Validator::Length, "px"));
    assert!(!validate(Validator::Never, "px"));
    assert!(validate(Validator::ArbitraryLength, "[3px]"));
}
