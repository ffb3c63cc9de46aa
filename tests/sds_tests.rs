use oscapxml::sds::{ComponentContent, DataStream, DataStreamCollection, CAT_NS, DSIG_NS, SCAP12_NS};
use oscapxml::xccdf::XCCDF12_NS;
use oscapxml::xml::XmlElement;

fn s(name: &str) -> XmlElement {
    XmlElement::new(name, SCAP12_NS)
}

fn benchmark() -> XmlElement {
    XmlElement::new("Benchmark", XCCDF12_NS)
        .with_attr("id", "xccdf_org.example_benchmark_simple")
        .with_child(XmlElement::new("status", XCCDF12_NS).with_text("accepted"))
        .with_child(XmlElement::new("version", XCCDF12_NS).with_text("0.1"))
        .with_child(
            XmlElement::new("Profile", XCCDF12_NS)
                .with_attr("id", "xccdf_org.example_profile_default")
                .with_child(XmlElement::new("title", XCCDF12_NS).with_text("Default")),
        )
}

fn data_stream() -> XmlElement {
    s("data-stream")
        .with_attr("id", "scap_org.example_datastream_simple")
        .with_attr("use-case", "OTHER")
        .with_attr("scap-version", "1.3")
        .with_child(
            s("checklists").with_child(
                s("component-ref")
                    .with_attr("id", "scap_org.example_cref_xccdf")
                    .with_attr("xlink:href", "#scap_org.example_comp_xccdf"),
            ),
        )
}

fn component() -> XmlElement {
    s("component")
        .with_attr("id", "scap_org.example_comp_xccdf")
        .with_attr("timestamp", "2021-01-01T00:00:00")
        .with_child(benchmark())
}

fn collection(children: Vec<XmlElement>) -> XmlElement {
    let mut root = s("data-stream-collection")
        .with_attr("id", "scap_org.example_collection_simple")
        .with_attr("schematron-version", "1.3");
    for c in children {
        root = root.with_child(c);
    }
    root
}

#[test]
fn test_simple() {
    let root = collection(vec![data_stream(), component()]);
    let result = DataStreamCollection::from_xml(&root);
    assert!(result.is_ok());
}

#[test]
fn minimal_document_has_one_stream_and_one_component() {
    let c = DataStreamCollection::from_xml(&collection(vec![data_stream(), component()])).unwrap();
    assert_eq!(c.data_streams.len(), 1);
    assert_eq!(c.components.len(), 1);
    assert_eq!(c.data_streams[0].checklists.len(), 1);
    assert!(matches!(c.components[0].content, ComponentContent::XCCDFBenchmark(_)));
}

#[test]
fn mapping_twice_gives_equal_models() {
    let root = collection(vec![data_stream(), component()]);
    let a = DataStreamCollection::from_xml(&root).unwrap();
    let b = DataStreamCollection::from_xml(&root).unwrap();
    assert_eq!(a, b);
}

#[test]
fn missing_data_stream_or_component_is_reported() {
    assert_eq!(
        DataStreamCollection::from_xml(&collection(vec![component()])).err(),
        Some(String::from("The 'data-stream-collection' element needs to have at least 1 child 'data-stream' element."))
    );
    assert_eq!(
        DataStreamCollection::from_xml(&collection(vec![data_stream()])).err(),
        Some(String::from("The 'data-stream-collection' element needs to have at least 1 child 'component' element."))
    );
}

#[test]
fn wrong_root_namespace_is_rejected_first() {
    let root = XmlElement::new("data-stream-collection", "urn:wrong");
    assert_eq!(
        DataStreamCollection::from_xml(&root).err(),
        Some(String::from("Wrong namespace 'urn:wrong', expected 'http://scap.nist.gov/schema/scap/source/1.2"))
    );
}

#[test]
fn unknown_children_of_the_collection_are_skipped() {
    let root = collection(vec![
        XmlElement::new("Signature", DSIG_NS).with_attr("id", "sig"),
        s("something-else"),
        data_stream(),
        component(),
        s("extended-component").with_attr("id", "e").with_attr("timestamp", "t"),
    ]);
    let c = DataStreamCollection::from_xml(&root).unwrap();
    assert_eq!(c.signatures.len(), 1);
    assert_eq!(c.extended_components.len(), 1);
}

#[test]
fn use_case_outside_the_allowed_set_is_rejected() {
    let d = s("data-stream")
        .with_attr("id", "d")
        .with_attr("use-case", "GAMING")
        .with_attr("scap-version", "1.3");
    assert_eq!(
        DataStream::from_xml(&d).err(),
        Some(String::from("Element 'data-stream' attribute 'use-case'='GAMING', but expected one of [\"CONFIGURATION\", \"VULNERABILITY\", \"INVENTORY\", \"OTHER\"]"))
    );
}

#[test]
fn component_without_payload_is_rejected() {
    let c = s("component").with_attr("id", "c1").with_attr("timestamp", "t");
    let root = collection(vec![data_stream(), c]);
    assert_eq!(
        DataStreamCollection::from_xml(&root).err(),
        Some(String::from("component 'c1' doesn't have any child element"))
    );
}

#[test]
fn non_benchmark_payload_is_kept_unhandled() {
    let c = s("component")
        .with_attr("id", "c2")
        .with_attr("timestamp", "t")
        .with_child(XmlElement::new("oval_definitions", "urn:oval"));
    let root = collection(vec![data_stream(), component(), c]);
    let m = DataStreamCollection::from_xml(&root).unwrap();
    assert!(matches!(m.components[1].content, ComponentContent::NotImplemented));
    assert_eq!(m.components[1].component_name, "oval_definitions");
}

#[test]
fn catalog_rejects_unknown_entries() {
    let cref = s("component-ref")
        .with_attr("id", "r")
        .with_attr("xlink:href", "#c")
        .with_child(
            XmlElement::new("catalog", CAT_NS)
                .with_child(XmlElement::new("uri", CAT_NS).with_attr("name", "n").with_attr("uri", "#u"))
                .with_child(XmlElement::new("nextCatalog", CAT_NS)),
        );
    let d = s("data-stream")
        .with_attr("id", "d")
        .with_attr("use-case", "OTHER")
        .with_attr("scap-version", "1.2")
        .with_child(s("checks").with_child(cref));
    assert_eq!(
        DataStream::from_xml(&d).err(),
        Some(String::from("Unexpected element 'nextCatalog', expected either 'uri' or 'rewriteURI'"))
    );
}

#[test]
fn checklist_links_resolve_to_benchmarks() {
    let c = DataStreamCollection::from_xml(&collection(vec![data_stream(), component()])).unwrap();
    assert_eq!(c.resolve_checklist("#scap_org.example_comp_xccdf"), Ok(Some(vec![0])));
    assert_eq!(c.resolve_checklist("#nothing"), Ok(Some(vec![])));
    assert_eq!(c.resolve_checklist("remote.xml#x"), Ok(None));
    let other = s("component")
        .with_attr("id", "c2")
        .with_attr("timestamp", "t")
        .with_child(XmlElement::new("oval_definitions", "urn:oval"));
    let c = DataStreamCollection::from_xml(&collection(vec![data_stream(), component(), other])).unwrap();
    assert!(c.resolve_checklist("#c2").is_err());
}

#[test]
fn root_missing_attributes_are_named() {
    let root = s("data-stream-collection").with_attr("id", "c");
    assert_eq!(
        DataStreamCollection::from_xml(&root).err(),
        Some(String::from("Element 'data-stream-collection' doesn't have required 'schematron-version' attribute"))
    );
}

#[test]
fn bad_scap_version_is_named() {
    let d = s("data-stream")
        .with_attr("id", "d")
        .with_attr("use-case", "OTHER")
        .with_attr("scap-version", "2.0");
    assert_eq!(
        DataStream::from_xml(&d).err(),
        Some(String::from("Element 'data-stream' attribute 'scap-version'='2.0', but expected one of [\"1.0\", \"1.1\", \"1.2\", \"1.3\"]"))
    );
}

#[test]
fn wrong_reference_element_is_named() {
    let d = s("data-stream")
        .with_attr("id", "d")
        .with_attr("use-case", "OTHER")
        .with_attr("scap-version", "1.2")
        .with_child(s("checklists").with_child(s("checklist-ref")));
    assert_eq!(
        DataStream::from_xml(&d).err(),
        Some(String::from("Unexpected element 'checklist-ref'"))
    );
}

#[test]
fn first_failing_child_error_wins_in_collection() {
    let bad_component = s("component").with_attr("id", "c9");
    let root = collection(vec![bad_component, data_stream(), component()]);
    assert_eq!(
        DataStreamCollection::from_xml(&root).err(),
        Some(String::from("Element 'component' doesn't have required 'timestamp' attribute"))
    );
}
