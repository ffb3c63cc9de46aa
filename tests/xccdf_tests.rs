use oscapxml::xccdf::{Benchmark, Group, Ident, Profile, Rule, Status, XCCDF12_NS};
use oscapxml::xml::XmlElement;

fn x(name: &str) -> XmlElement {
    XmlElement::new(name, XCCDF12_NS)
}

fn minimal_benchmark() -> XmlElement {
    x("Benchmark")
        .with_attr("id", "xccdf_b")
        .with_child(x("status").with_text("draft"))
        .with_child(x("version").with_text("1.0"))
}

#[test]
fn test_ident_from_xml_ok() {
    let e = XmlElement::new("ident", XCCDF12_NS)
        .with_attr("system", "https://gov.cz")
        .with_text("AC-24");
    let real = Ident::from_xml(&e);
    assert!(real.is_ok());
    let real = real.unwrap();
    let expected = Ident {
        text: String::from("AC-24"),
        system: String::from("https://gov.cz"),
    };
    assert_eq!(real.system, expected.system);
    assert_eq!(real.text, expected.text);
}

#[test]
fn test_ident_from_xml_err() {
    let f = XmlElement::new("ident", XCCDF12_NS)
        .with_attr("wrong_attribute_name", "https://gov.cz")
        .with_text("AC-24");
    let real = Ident::from_xml(&f);
    assert!(real.is_err());
}

#[test]
fn benchmark_minimal_maps() {
    let b = Benchmark::from_xml(&minimal_benchmark()).unwrap();
    assert_eq!(b.id, "xccdf_b");
    assert!(!b.resolved);
    assert_eq!(b.statuses.len(), 1);
    assert_eq!(b.statuses[0].status, "draft");
    assert_eq!(b.version.text, "1.0");
}

#[test]
fn benchmark_wrong_element_is_rejected() {
    let e = XmlElement::new("Benchmark", "urn:other").with_attr("id", "b");
    assert_eq!(
        Benchmark::from_xml(&e).err(),
        Some(String::from("Unexpected element 'Benchmark', expected xccdf:Benchmark"))
    );
}

#[test]
fn benchmark_requires_status_and_single_version() {
    let no_status = x("Benchmark")
        .with_attr("id", "b1")
        .with_child(x("version").with_text("1"));
    assert_eq!(
        Benchmark::from_xml(&no_status).err(),
        Some(String::from("xccdf:Benchmark b1: missing status element"))
    );
    let no_version = x("Benchmark")
        .with_attr("id", "b2")
        .with_child(x("status").with_text("draft"));
    assert_eq!(
        Benchmark::from_xml(&no_version).err(),
        Some(String::from("xccdf:Benchmark b2: missing version element"))
    );
    let two_versions = minimal_benchmark().with_child(x("version").with_text("2"));
    assert_eq!(
        Benchmark::from_xml(&two_versions).err(),
        Some(String::from("Duplicate version elements"))
    );
}

#[test]
fn benchmark_rejects_unknown_child() {
    let e = minimal_benchmark().with_child(x("bogus"));
    assert_eq!(
        Benchmark::from_xml(&e).err(),
        Some(String::from("unexpected element bogus"))
    );
}

#[test]
fn status_rejects_unknown_value() {
    let e = x("status").with_text("finished");
    assert_eq!(
        Status::from_xml(&e).err(),
        Some(String::from("Unexpected xccdf:status value: 'finished"))
    );
}

#[test]
fn profile_needs_a_title() {
    let p = x("Profile").with_attr("id", "prof_std");
    assert_eq!(
        Profile::from_xml(&p).err(),
        Some(String::from("Profile 'prof_std' doesn't have any title"))
    );
    let p = x("Profile")
        .with_attr("id", "prof_std")
        .with_attr("abstract", "true")
        .with_child(x("title").with_text("Standard"))
        .with_child(x("select").with_attr("idref", "r1").with_attr("selected", "false"));
    let p = Profile::from_xml(&p).unwrap();
    assert!(p.abstract_);
    assert_eq!(p.titles[0].title, "Standard");
    assert_eq!(p.selects[0].idref, "r1");
    assert!(!p.selects[0].selected);
}

#[test]
fn rule_and_group_without_id_are_rejected() {
    assert_eq!(
        Rule::from_xml(&x("Rule")).err(),
        Some(String::from("Element 'Rule' doesn't have required 'id' attribute"))
    );
    assert_eq!(
        Group::from_xml(&x("Group")).err(),
        Some(String::from("Element 'Group' doesn't have required 'id' attribute"))
    );
}

#[test]
fn rule_attribute_defaults_and_checks() {
    let r = Rule::from_xml(&x("Rule").with_attr("id", "r")).unwrap();
    assert_eq!(r.role, "full");
    assert_eq!(r.severity, "unknown");
    assert!(r.selected);
    assert!(!r.hidden);
    assert_eq!(r.weight.text, "1.0");
    let bad = x("Rule").with_attr("id", "r").with_attr("severity", "critical");
    assert!(Rule::from_xml(&bad).is_err());
    let bad = x("Rule").with_attr("id", "r").with_child(x("Group").with_attr("id", "g"));
    assert_eq!(
        Rule::from_xml(&bad).err(),
        Some(String::from("Rule 'r': unexpected element 'Group'"))
    );
}

#[test]
fn groups_nest_groups_and_rules() {
    let g = x("Group")
        .with_attr("id", "g1")
        .with_attr("weight", "0.5")
        .with_child(x("title").with_text("Outer"))
        .with_child(
            x("Group")
                .with_attr("id", "g2")
                .with_child(x("Rule").with_attr("id", "r1").with_attr("severity", "high")),
        )
        .with_child(x("Rule").with_attr("id", "r2"))
        .with_child(x("Value").with_attr("id", "v1"));
    let g = Group::from_xml(&g).unwrap();
    assert_eq!(g.weight.text, "0.5");
    assert_eq!(g.groups.len(), 1);
    assert_eq!(g.groups[0].rules[0].severity, "high");
    assert_eq!(g.rules[0].id, "r2");
    assert_eq!(g.values[0].id, "v1");
    let inner_bad = x("Group")
        .with_attr("id", "g1")
        .with_child(x("Group").with_attr("id", "g2").with_child(x("Rule")));
    assert!(Group::from_xml(&inner_bad).is_err());
}

#[test]
fn metadata_keeps_credited_names_in_order() {
    let m = x("metadata")
        .with_child(XmlElement::new("creator", "http://purl.org/dc/elements/1.1/").with_text("Ann"))
        .with_child(XmlElement::new("publisher", "http://purl.org/dc/elements/1.1/").with_text("Org"))
        .with_child(XmlElement::new("creator", "http://purl.org/dc/elements/1.1/").with_text("Bob"))
        .with_child(XmlElement::new("rights", "http://purl.org/dc/elements/1.1/").with_text("-"));
    let m = oscapxml::xccdf::Metadata::from_xml(&m).unwrap();
    assert_eq!(m.creators, vec![String::from("Ann"), String::from("Bob")]);
    assert_eq!(m.publishers, vec![String::from("Org")]);
    assert!(m.contributors.is_empty());
    assert!(m.sources.is_empty());
}

#[test]
fn benchmark_children_keep_document_order() {
    let b = minimal_benchmark()
        .with_child(x("title").with_text("First"))
        .with_child(x("Rule").with_attr("id", "r1"))
        .with_child(x("title").with_text("Second"))
        .with_child(x("Rule").with_attr("id", "r2"))
        .with_child(x("description").with_text("Line\none"));
    let b = Benchmark::from_xml(&b).unwrap();
    assert_eq!(b.titles[0].title, "First");
    assert_eq!(b.titles[1].title, "Second");
    assert_eq!(b.rules[0].id, "r1");
    assert_eq!(b.rules[1].id, "r2");
    assert_eq!(b.descriptions[0].text, "Line one");
}

#[test]
fn select_with_non_boolean_selected_is_an_error() {
    let s = x("select").with_attr("idref", "r").with_attr("selected", "maybe");
    assert_eq!(
        oscapxml::xccdf::Select::from_xml(&s).err(),
        Some(String::from(
            "Element 'select' attribute 'selected' can't parse value 'maybe'."
        ))
    );
    let s = x("select").with_attr("idref", "r");
    assert!(oscapxml::xccdf::Select::from_xml(&s).is_err());
}

#[test]
fn profile_unknown_child_names_the_profile() {
    let p = x("Profile")
        .with_attr("id", "prof_std")
        .with_child(x("title").with_text("T"))
        .with_child(x("Rule").with_attr("id", "r"));
    assert_eq!(
        Profile::from_xml(&p).err(),
        Some(String::from("Profile 'prof_std': unexpected element 'Rule'"))
    );
}

#[test]
fn rule_severity_outside_its_set_is_named() {
    let r = x("Rule").with_attr("id", "r").with_attr("severity", "critical");
    assert_eq!(
        Rule::from_xml(&r).err(),
        Some(String::from("Element 'Rule' attribute 'severity'='critical', but expected one of [\"unknown\", \"info\", \"low\", \"medium\", \"high\"]"))
    );
}

#[test]
fn group_unknown_child_names_the_group() {
    let g = x("Group").with_attr("id", "g").with_child(x("ident"));
    assert_eq!(
        Group::from_xml(&g).err(),
        Some(String::from("Group 'g': unexpected element 'ident'"))
    );
}

#[test]
fn first_failing_child_error_wins_in_benchmark() {
    let b = x("Benchmark")
        .with_attr("id", "b")
        .with_child(x("status").with_text("bogus"))
        .with_child(x("Rule"));
    assert_eq!(
        Benchmark::from_xml(&b).err(),
        Some(String::from("Unexpected xccdf:status value: 'bogus"))
    );
    let b = x("Benchmark")
        .with_attr("id", "b")
        .with_child(x("Group").with_attr("id", "g").with_child(x("Rule")));
    assert_eq!(
        Benchmark::from_xml(&b).err(),
        Some(String::from("Element 'Rule' doesn't have required 'id' attribute"))
    );
}

#[test]
fn duplicate_platform_specification_is_reported() {
    let b = minimal_benchmark()
        .with_child(x("platform-specification"))
        .with_child(x("platform-specification"));
    assert_eq!(
        Benchmark::from_xml(&b).err(),
        Some(String::from("Duplicate platform elements"))
    );
}
