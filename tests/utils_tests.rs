use oscapxml::utils::{
    get_attr, get_attr_default, get_attr_default_options, html_to_string, require_attr,
    require_attr_options, Weight,
};
use oscapxml::xml::XmlElement;

#[test]
fn test_get_attr() {
    let el = XmlElement::new("person", "people").with_attr("name", "John");
    assert_eq!(get_attr(&el, "name"), Some(String::from("John")));
}

#[test]
fn test_get_none() {
    let el = XmlElement::new("person", "people").with_attr("login", "jdoe");
    assert_eq!(get_attr(&el, "name"), None);
}

#[test]
fn test_get_attr_default() {
    let el1 = XmlElement::new("person", "ns").with_attr("age", "24");
    let val1 = get_attr_default(&el1, "age", 17);
    assert_eq!(val1, Ok(24));
    let el2 = XmlElement::new("person", "ns");
    let val2 = get_attr_default(&el2, "age", 17);
    assert_eq!(val2, Ok(17));
    let el3 = XmlElement::new("person", "ns").with_attr("age", "24");
    let val3 = get_attr_default(&el3, "age", String::from("17"));
    assert_eq!(val3, Ok(String::from("24")));
    let el4 = XmlElement::new("person", "ns");
    let val4 = get_attr_default(&el4, "age", String::from("17"));
    assert_eq!(val4, Ok(String::from("17")));
}

#[test]
fn test_require_attr() {
    let el = XmlElement::new("person", "people").with_attr("name", "John");
    assert_eq!(require_attr(&el, "name"), Ok(String::from("John")));
}

#[test]
fn test_require_attr_missing() {
    let el = XmlElement::new("person", "people");
    assert_eq!(
        require_attr(&el, "name"),
        Err(String::from(
            "Element 'person' doesn't have required 'name' attribute"
        ))
    );
}

#[test]
fn test_require_attr_options() {
    let el = XmlElement::new("person", "people").with_attr("name", "John");
    assert_eq!(
        require_attr_options(&el, "name", vec!["John", "Peter"]),
        Ok(String::from("John"))
    );
}

#[test]
fn test_require_attr_options_wrong() {
    let el = XmlElement::new("person", "people").with_attr("name", "Albert");
    assert_eq!(require_attr_options(&el, "name", vec!["John", "Peter"]), Err(String::from("Element 'person' attribute 'name'='Albert', but expected one of [\"John\", \"Peter\"]")));
}

#[test]
fn test_html_to_string() {
    let el = XmlElement::new("description", "xccdf")
        .with_text("We are\nthe ")
        .with_child(XmlElement::new("em", "xccdf").with_text("best"))
        .with_text(" project!");
    assert_eq!(html_to_string(&el), String::from("We are the best project!"));
    let el = XmlElement::new("description", "xccdf")
        .with_text("Open it")
        .with_child(XmlElement::new("br", "xccdf"))
        .with_text("and then close it ")
        .with_child(XmlElement::new("b", "xccdf").with_text("quickly"))
        .with_text(".");
    assert_eq!(
        html_to_string(&el),
        String::from("Open it\nand then close it quickly.")
    );
}

#[test]
fn html_to_string_collapses_newlines_inside_inline_markup() {
    let el = XmlElement::new("description", "xccdf")
        .with_child(XmlElement::new("code", "xccdf").with_text("a\nb"))
        .with_text("\n");
    assert_eq!(html_to_string(&el), String::from("a b "));
}

#[test]
fn html_to_string_of_empty_element_is_empty() {
    let el = XmlElement::new("description", "xccdf");
    assert_eq!(html_to_string(&el), String::new());
}

#[test]
fn get_attr_default_reports_unparsable_value() {
    let el = XmlElement::new("Rule", "x").with_attr("hidden", "yes");
    assert_eq!(
        get_attr_default(&el, "hidden", false),
        Err(String::from(
            "Element 'Rule' attribute 'hidden' can't parse value 'yes'."
        ))
    );
    let el = XmlElement::new("person", "ns").with_attr("age", "x4");
    assert!(get_attr_default(&el, "age", 17).is_err());
}

#[test]
fn get_attr_default_reads_booleans() {
    let el = XmlElement::new("Rule", "x").with_attr("hidden", "true");
    assert_eq!(get_attr_default(&el, "hidden", false), Ok(true));
    let el = XmlElement::new("Rule", "x").with_attr("hidden", "false");
    assert_eq!(get_attr_default(&el, "hidden", true), Ok(false));
}

#[test]
fn get_attr_default_reads_signed_integers_within_range() {
    let el = XmlElement::new("n", "x").with_attr("v", "-2147483648");
    assert_eq!(get_attr_default(&el, "v", 0), Ok(-2147483648));
    let el = XmlElement::new("n", "x").with_attr("v", "+2147483647");
    assert_eq!(get_attr_default(&el, "v", 0), Ok(2147483647));
    let el = XmlElement::new("n", "x").with_attr("v", "2147483648");
    assert!(get_attr_default(&el, "v", 0).is_err());
    let el = XmlElement::new("n", "x").with_attr("v", "-");
    assert!(get_attr_default(&el, "v", 0).is_err());
    let el = XmlElement::new("n", "x").with_attr("v", "");
    assert!(get_attr_default(&el, "v", 0).is_err());
}

#[test]
fn get_attr_default_reads_decimal_weights() {
    let el = XmlElement::new("Rule", "x").with_attr("weight", "2.5");
    assert_eq!(
        get_attr_default(&el, "weight", Weight::one()).map(|w| w.text),
        Ok(String::from("2.5"))
    );
    let el = XmlElement::new("Rule", "x");
    assert_eq!(
        get_attr_default(&el, "weight", Weight::one()).map(|w| w.text),
        Ok(String::from("1.0"))
    );
    for bad in ["1.2.3", "abc", ".", "-", ""] {
        let el = XmlElement::new("Rule", "x").with_attr("weight", bad);
        assert!(get_attr_default(&el, "weight", Weight::one()).is_err());
    }
}

#[test]
fn get_attr_default_options_checks_default_and_value() {
    let el = XmlElement::new("Rule", "x");
    assert_eq!(
        get_attr_default_options(&el, "role", String::from("full"), vec!["full", "unscored"]),
        Ok(String::from("full"))
    );
    let el = XmlElement::new("Rule", "x").with_attr("role", "bogus");
    assert_eq!(
        get_attr_default_options(&el, "role", String::from("full"), vec!["full", "unscored"]),
        Err(String::from(
            "Element 'Rule' attribute 'role'='bogus', but expected one of [\"full\", \"unscored\"]"
        ))
    );
}

#[test]
fn require_attr_options_missing_attribute() {
    let el = XmlElement::new("person", "people");
    assert_eq!(
        require_attr_options(&el, "name", vec!["John"]),
        Err(String::from(
            "Element 'person' doesn't have required 'name' attribute"
        ))
    );
}

#[test]
fn first_of_repeated_attributes_wins() {
    let el = XmlElement::new("a", "x").with_attr("k", "1").with_attr("k", "2");
    assert_eq!(get_attr(&el, "k"), Some(String::from("1")));
}

#[test]
fn html_to_string_flattens_nested_markup() {
    let el = XmlElement::new("description", "xccdf").with_child(
        XmlElement::new("em", "xccdf")
            .with_text("a")
            .with_child(XmlElement::new("b", "xccdf").with_text("c\nd"))
            .with_child(XmlElement::new("br", "xccdf")),
    );
    assert_eq!(html_to_string(&el), String::from("ac d "));
}
