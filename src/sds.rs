//! Mapping of a SCAP 1.2 source data stream collection: its data streams,
//! components, catalogs and signatures.
use vstd::prelude::*;
use vstd::string::*;
use crate::xml::{
    XmlElement, XmlNode, attr_spec, is_spec, child_from, first_elem_from, str_eq,
    lemma_take_last,
};
use crate::utils::{get_attr, require_attr, require_attr_options, opt_view, one_of, err_is,
    not_allowed_msg, missing_attr_msg,
};
use crate::xccdf::{
    Benchmark, XCCDF12_NS, benchmark_ok, benchmark_model, benchmark_err, has_attr, attr_text,
};

verus! {

/// The namespace of SCAP 1.2 source data streams.
pub const SCAP12_NS: &'static str = "http://scap.nist.gov/schema/scap/source/1.2";

/// The namespace of digital signatures inside a data stream collection.
pub const DSIG_NS: &'static str = "http://scap.nist.gov/schema/xml-dsig/1.0";

/// The namespace of XML catalogs.
pub const CAT_NS: &'static str = "urn:oasis:names:tc:entity:xmlns:xml:catalog";

/// The children of a collection that the mapper reads; all others are skipped.
pub enum CollectionChild {
    DataStream,
    Component,
    ExtendedComponent,
    Signature,
    Other,
}

/// The kind of a child of a collection, by name and namespace.
pub open spec fn collection_kind(c: XmlElement) -> CollectionChild {
    if is_spec(c, "data-stream"@, SCAP12_NS@) {
        CollectionChild::DataStream
    } else if is_spec(c, "component"@, SCAP12_NS@) {
        CollectionChild::Component
    } else if is_spec(c, "extended-component"@, SCAP12_NS@) {
        CollectionChild::ExtendedComponent
    } else if is_spec(c, "Signature"@, DSIG_NS@) {
        CollectionChild::Signature
    } else {
        CollectionChild::Other
    }
}

fn collection_child(c: &XmlElement) -> (r: CollectionChild)
    ensures
        r == collection_kind(*c),
{
    if c.is("data-stream", SCAP12_NS) {
        CollectionChild::DataStream
    } else if c.is("component", SCAP12_NS) {
        CollectionChild::Component
    } else if c.is("extended-component", SCAP12_NS) {
        CollectionChild::ExtendedComponent
    } else if c.is("Signature", DSIG_NS) {
        CollectionChild::Signature
    } else {
        CollectionChild::Other
    }
}

/// The element children among `nodes` that are of collection kind `k`, in order.
pub open spec fn collection_children(nodes: Seq<XmlNode>, k: CollectionChild) -> Seq<XmlElement>
    decreases nodes.len(),
{
    if nodes.len() == 0 {
        Seq::empty()
    } else if nodes.last() is Element && collection_kind(nodes.last()->Element_0) == k {
        collection_children(nodes.drop_last(), k).push(nodes.last()->Element_0)
    } else {
        collection_children(nodes.drop_last(), k)
    }
}

/// How many element children among `nodes` are of collection kind `k`.
pub open spec fn count_collection(nodes: Seq<XmlNode>, k: CollectionChild) -> nat {
    collection_children(nodes, k).len()
}

/// The entries of a catalog.
pub enum CatalogEntry {
    Uri,
    RewriteUri,
    Other,
}

/// The kind of a child of a catalog.
pub open spec fn catalog_kind(c: XmlElement) -> CatalogEntry {
    if is_spec(c, "uri"@, CAT_NS@) {
        CatalogEntry::Uri
    } else if is_spec(c, "rewriteURI"@, CAT_NS@) {
        CatalogEntry::RewriteUri
    } else {
        CatalogEntry::Other
    }
}

/// The element children among `nodes` that are catalog entries of kind `k`, in order.
pub open spec fn catalog_children(nodes: Seq<XmlNode>, k: CatalogEntry) -> Seq<XmlElement>
    decreases nodes.len(),
{
    if nodes.len() == 0 {
        Seq::empty()
    } else if nodes.last() is Element && catalog_kind(nodes.last()->Element_0) == k {
        catalog_children(nodes.drop_last(), k).push(nodes.last()->Element_0)
    } else {
        catalog_children(nodes.drop_last(), k)
    }
}

/// How many element children among `nodes` are catalog entries of kind `k`.
pub open spec fn count_catalog(nodes: Seq<XmlNode>, k: CatalogEntry) -> nat {
    catalog_children(nodes, k).len()
}

/// The element children among `nodes`, in order.
pub open spec fn elem_children(nodes: Seq<XmlNode>) -> Seq<XmlElement>
    decreases nodes.len(),
{
    if nodes.len() == 0 {
        Seq::empty()
    } else if nodes.last() is Element {
        elem_children(nodes.drop_last()).push(nodes.last()->Element_0)
    } else {
        elem_children(nodes.drop_last())
    }
}

/// Whether a catalog entry carries the attributes of its kind.
pub open spec fn catalog_entry_ok(c: XmlElement) -> bool {
    match catalog_kind(c) {
        CatalogEntry::Uri => has_attr(c, "name"@) && has_attr(c, "uri"@),
        CatalogEntry::RewriteUri => has_attr(c, "uriStartString"@) && has_attr(
            c,
            "rewritePrefix"@,
        ),
        CatalogEntry::Other => false,
    }
}

/// Whether a `catalog` element is well formed.
pub open spec fn catalog_ok(el: XmlElement) -> bool {
    &&& is_spec(el, "catalog"@, CAT_NS@)
    &&& forall|i: int|
        0 <= i < el.nodes@.len() && #[trigger] el.nodes@[i] is Element ==> catalog_entry_ok(
            el.nodes@[i]->Element_0,
        )
}

/// Whether a `component-ref` element is well formed.
pub open spec fn component_ref_ok(el: XmlElement) -> bool {
    &&& is_spec(el, "component-ref"@, SCAP12_NS@)
    &&& has_attr(el, "id"@)
    &&& has_attr(el, "xlink:href"@)
    &&& (child_from(el.nodes@, "catalog"@, CAT_NS@, 0) matches Some(c) ==> catalog_ok(c))
}

/// Whether every element child of the optional container is a well-formed reference.
pub open spec fn refs_ok(container: Option<XmlElement>) -> bool {
    match container {
        Some(c) => forall|i: int|
            0 <= i < c.nodes@.len() && #[trigger] c.nodes@[i] is Element ==> component_ref_ok(
                c.nodes@[i]->Element_0,
            ),
        None => true,
    }
}

/// How many references the optional container holds.
pub open spec fn refs_count(container: Option<XmlElement>) -> nat {
    match container {
        Some(c) => elem_children(c.nodes@).len(),
        None => 0,
    }
}

/// Whether `refs` were built, one for one and in order, from the element
/// children of the optional container.
pub open spec fn refs_built(refs: Seq<ComponentRef>, container: Option<XmlElement>) -> bool {
    &&& refs.len() == refs_count(container)
    &&& forall|j: int|
        0 <= j < refs.len() ==> (#[trigger] refs[j]).built_from(
            elem_children(container->0.nodes@)[j],
        )
}

/// The reference container `name` of a data stream, if it has one.
pub open spec fn container(el: XmlElement, name: Seq<char>) -> Option<XmlElement> {
    child_from(el.nodes@, name, SCAP12_NS@, 0)
}

/// The allowed use cases of a data stream.
pub open spec fn use_case_values() -> Seq<&'static str> {
    seq!["CONFIGURATION", "VULNERABILITY", "INVENTORY", "OTHER"]
}

/// The allowed SCAP versions of a data stream.
pub open spec fn scap_version_values() -> Seq<&'static str> {
    seq!["1.0", "1.1", "1.2", "1.3"]
}

fn use_case_options() -> (r: Vec<&'static str>)
    ensures
        r@ == use_case_values(),
{
    let mut v: Vec<&'static str> = Vec::new();
    v.push("CONFIGURATION");
    v.push("VULNERABILITY");
    v.push("INVENTORY");
    v.push("OTHER");
    v
}

fn scap_version_options() -> (r: Vec<&'static str>)
    ensures
        r@ == scap_version_values(),
{
    let mut v: Vec<&'static str> = Vec::new();
    v.push("1.0");
    v.push("1.1");
    v.push("1.2");
    v.push("1.3");
    v
}

/// Whether the attribute `name` is present and one of `options`.
pub open spec fn attr_in(el: XmlElement, name: Seq<char>, options: Seq<&str>) -> bool {
    attr_spec(el, name) matches Some(v) && one_of(v, options)
}

/// Whether a `data-stream` element is well formed.
pub open spec fn data_stream_ok(el: XmlElement) -> bool {
    &&& has_attr(el, "id"@)
    &&& attr_in(el, "use-case"@, use_case_values())
    &&& attr_in(el, "scap-version"@, scap_version_values())
    &&& refs_ok(container(el, "dictionaries"@))
    &&& refs_ok(container(el, "checklists"@))
    &&& refs_ok(container(el, "checks"@))
    &&& refs_ok(container(el, "extended-components"@))
}

/// Whether a `component` element is well formed: it names itself, has a
/// payload element, and a benchmark payload is itself well formed.
pub open spec fn component_ok(el: XmlElement) -> bool {
    &&& has_attr(el, "id"@)
    &&& has_attr(el, "timestamp"@)
    &&& first_elem_from(el.nodes@, 0) matches Some(p) && (is_spec(p, "Benchmark"@, XCCDF12_NS@)
        ==> benchmark_ok(p))
}

/// Whether a child of a collection that the mapper reads is well formed.
pub open spec fn collection_child_ok(c: XmlElement) -> bool {
    match collection_kind(c) {
        CollectionChild::DataStream => data_stream_ok(c),
        CollectionChild::Component => component_ok(c),
        CollectionChild::ExtendedComponent => has_attr(c, "id"@) && has_attr(c, "timestamp"@),
        CollectionChild::Signature => has_attr(c, "id"@),
        CollectionChild::Other => true,
    }
}

/// Whether the root, its attributes and every child it reads are well
/// formed, leaving aside how many children of each kind there are.
pub open spec fn collection_parts_ok(root: XmlElement) -> bool {
    &&& root.ns@ == SCAP12_NS@
    &&& has_attr(root, "id"@)
    &&& has_attr(root, "schematron-version"@)
    &&& forall|i: int|
        0 <= i < root.nodes@.len() && #[trigger] root.nodes@[i] is Element
            ==> collection_child_ok(root.nodes@[i]->Element_0)
}

/// Whether a whole data stream collection is well formed.
pub open spec fn collection_ok(root: XmlElement) -> bool {
    &&& collection_parts_ok(root)
    &&& count_collection(root.nodes@, CollectionChild::DataStream) >= 1
    &&& count_collection(root.nodes@, CollectionChild::Component) >= 1
}

/// The message for a root element outside the SCAP 1.2 namespace.
pub open spec fn wrong_ns_msg(ns: Seq<char>) -> Seq<char> {
    "Wrong namespace '"@ + ns + "', expected '"@ + SCAP12_NS@
}

/// The message for a collection without any child of the given name.
pub open spec fn missing_child_msg(name: Seq<char>) -> Seq<char> {
    "The 'data-stream-collection' element needs to have at least 1 child '"@ + name
        + "' element."@
}

/// The message of a catalog `uri` entry that is not well formed.
pub open spec fn cat_uri_err(el: XmlElement) -> Seq<char> {
    if !has_attr(el, "name"@) {
        missing_attr_msg(el.name@, "name"@)
    } else {
        missing_attr_msg(el.name@, "uri"@)
    }
}

/// The message of a catalog `rewriteURI` entry that is not well formed.
pub open spec fn rewrite_uri_err(el: XmlElement) -> Seq<char> {
    if !has_attr(el, "uriStartString"@) {
        missing_attr_msg(el.name@, "uriStartString"@)
    } else {
        missing_attr_msg(el.name@, "rewritePrefix"@)
    }
}

/// The message of a catalog child that is not a well-formed entry.
pub open spec fn catalog_entry_err(c: XmlElement) -> Seq<char> {
    match catalog_kind(c) {
        CatalogEntry::Uri => cat_uri_err(c),
        CatalogEntry::RewriteUri => rewrite_uri_err(c),
        CatalogEntry::Other => "Unexpected element '"@ + c.name@
            + "', expected either 'uri' or 'rewriteURI'"@,
    }
}

/// Whether the child at position `i` of `el` is an entry that fails to map.
pub open spec fn catalog_fails_at(el: XmlElement, i: int) -> bool {
    &&& 0 <= i < el.nodes@.len()
    &&& el.nodes@[i] is Element
    &&& !catalog_entry_ok(el.nodes@[i]->Element_0)
}

/// Whether `i` is the first position at which mapping the children of `el` stops.
pub open spec fn catalog_first_fail(el: XmlElement, i: int) -> bool {
    catalog_fails_at(el, i) && forall|j: int| 0 <= j < i ==> !(#[trigger] catalog_fails_at(el, j))
}

/// The message of the first child of `el` that fails to map.
pub open spec fn catalog_fail_msg(el: XmlElement) -> Seq<char> {
    let i = choose|i: int| catalog_first_fail(el, i);
    catalog_entry_err(el.nodes@[i]->Element_0)
}

proof fn lemma_catalog_first_fail(el: XmlElement, i: int)
    requires
        catalog_fails_at(el, i),
        forall|j: int| 0 <= j < i ==> !(#[trigger] catalog_fails_at(el, j)),
    ensures
        exists|j: int| catalog_first_fail(el, j),
        (choose|j: int| catalog_first_fail(el, j)) == i,
{
    assert(catalog_first_fail(el, i));
    let j = choose|j: int| catalog_first_fail(el, j);
    if j < i {
        assert(!catalog_fails_at(el, j));
    } else if j > i {
        assert(!catalog_fails_at(el, i));
    }
}

/// The message of a `catalog` element that is not well formed.
pub open spec fn catalog_err(el: XmlElement) -> Seq<char> {
    if !is_spec(el, "catalog"@, CAT_NS@) {
        "Unexpected element '"@ + el.name@ + "'"@
    } else {
        catalog_fail_msg(el)
    }
}

/// The message of a `component-ref` element that is not well formed.
pub open spec fn component_ref_err(el: XmlElement) -> Seq<char> {
    if !is_spec(el, "component-ref"@, SCAP12_NS@) {
        "Unexpected element '"@ + el.name@ + "'"@
    } else if !has_attr(el, "id"@) {
        missing_attr_msg(el.name@, "id"@)
    } else if !has_attr(el, "xlink:href"@) {
        missing_attr_msg(el.name@, "xlink:href"@)
    } else {
        catalog_err(child_from(el.nodes@, "catalog"@, CAT_NS@, 0)->0)
    }
}

/// Whether the child at position `i` of `el` is a reference that fails to map.
pub open spec fn refs_fails_at(el: XmlElement, i: int) -> bool {
    &&& 0 <= i < el.nodes@.len()
    &&& el.nodes@[i] is Element
    &&& !component_ref_ok(el.nodes@[i]->Element_0)
}

/// Whether `i` is the first position at which mapping the children of `el` stops.
pub open spec fn refs_first_fail(el: XmlElement, i: int) -> bool {
    refs_fails_at(el, i) && forall|j: int| 0 <= j < i ==> !(#[trigger] refs_fails_at(el, j))
}

/// The message of the first child of `el` that fails to map.
pub open spec fn refs_fail_msg(el: XmlElement) -> Seq<char> {
    let i = choose|i: int| refs_first_fail(el, i);
    component_ref_err(el.nodes@[i]->Element_0)
}

proof fn lemma_refs_first_fail(el: XmlElement, i: int)
    requires
        refs_fails_at(el, i),
        forall|j: int| 0 <= j < i ==> !(#[trigger] refs_fails_at(el, j)),
    ensures
        exists|j: int| refs_first_fail(el, j),
        (choose|j: int| refs_first_fail(el, j)) == i,
{
    assert(refs_first_fail(el, i));
    let j = choose|j: int| refs_first_fail(el, j);
    if j < i {
        assert(!refs_fails_at(el, j));
    } else if j > i {
        assert(!refs_fails_at(el, i));
    }
}

/// The message for the attribute `name` that is absent or outside `options`.
pub open spec fn attr_in_err(el: XmlElement, name: Seq<char>, options: Seq<&str>) -> Seq<char> {
    if !has_attr(el, name) {
        missing_attr_msg(el.name@, name)
    } else {
        not_allowed_msg(el.name@, name, attr_text(el, name), options)
    }
}

/// The message of a `data-stream` element that is not well formed.
pub open spec fn data_stream_err(el: XmlElement) -> Seq<char> {
    if !has_attr(el, "id"@) {
        missing_attr_msg(el.name@, "id"@)
    } else if !attr_in(el, "use-case"@, use_case_values()) {
        attr_in_err(el, "use-case"@, use_case_values())
    } else if !attr_in(el, "scap-version"@, scap_version_values()) {
        attr_in_err(el, "scap-version"@, scap_version_values())
    } else if !refs_ok(container(el, "dictionaries"@)) {
        refs_fail_msg(container(el, "dictionaries"@)->0)
    } else if !refs_ok(container(el, "checklists"@)) {
        refs_fail_msg(container(el, "checklists"@)->0)
    } else if !refs_ok(container(el, "checks"@)) {
        refs_fail_msg(container(el, "checks"@)->0)
    } else {
        refs_fail_msg(container(el, "extended-components"@)->0)
    }
}

/// The message of a `component` element that is not well formed.
pub open spec fn component_err(el: XmlElement) -> Seq<char> {
    if !has_attr(el, "id"@) {
        missing_attr_msg(el.name@, "id"@)
    } else if !has_attr(el, "timestamp"@) {
        missing_attr_msg(el.name@, "timestamp"@)
    } else if first_elem_from(el.nodes@, 0) is None {
        "component '"@ + attr_text(el, "id"@) + "' doesn't have any child element"@
    } else {
        benchmark_err(first_elem_from(el.nodes@, 0)->0)
    }
}

/// The message of an element that needs an `id` and a `timestamp`.
pub open spec fn stamped_err(el: XmlElement) -> Seq<char> {
    if !has_attr(el, "id"@) {
        missing_attr_msg(el.name@, "id"@)
    } else {
        missing_attr_msg(el.name@, "timestamp"@)
    }
}

/// The message of a child of a collection that fails to map.
pub open spec fn collection_child_err(c: XmlElement) -> Seq<char> {
    match collection_kind(c) {
        CollectionChild::DataStream => data_stream_err(c),
        CollectionChild::Component => component_err(c),
        CollectionChild::ExtendedComponent => stamped_err(c),
        CollectionChild::Signature => missing_attr_msg(c.name@, "id"@),
        CollectionChild::Other => Seq::empty(),
    }
}

/// Whether the child at position `i` of `el` is a read child that fails to map.
pub open spec fn collection_fails_at(el: XmlElement, i: int) -> bool {
    &&& 0 <= i < el.nodes@.len()
    &&& el.nodes@[i] is Element
    &&& !collection_child_ok(el.nodes@[i]->Element_0)
}

/// Whether `i` is the first position at which mapping the children of `el` stops.
pub open spec fn collection_first_fail(el: XmlElement, i: int) -> bool {
    collection_fails_at(el, i) && forall|j: int| 0 <= j < i ==> !(#[trigger] collection_fails_at(el, j))
}

/// The message of the first child of `el` that fails to map.
pub open spec fn collection_fail_msg(el: XmlElement) -> Seq<char> {
    let i = choose|i: int| collection_first_fail(el, i);
    collection_child_err(el.nodes@[i]->Element_0)
}

proof fn lemma_collection_first_fail(el: XmlElement, i: int)
    requires
        collection_fails_at(el, i),
        forall|j: int| 0 <= j < i ==> !(#[trigger] collection_fails_at(el, j)),
    ensures
        exists|j: int| collection_first_fail(el, j),
        (choose|j: int| collection_first_fail(el, j)) == i,
{
    assert(collection_first_fail(el, i));
    let j = choose|j: int| collection_first_fail(el, j);
    if j < i {
        assert(!collection_fails_at(el, j));
    } else if j > i {
        assert(!collection_fails_at(el, i));
    }
}

/// The message that mapping a collection that is not well formed fails with.
pub open spec fn collection_err(root: XmlElement) -> Seq<char> {
    if root.ns@ != SCAP12_NS@ {
        wrong_ns_msg(root.ns@)
    } else if !has_attr(root, "id"@) {
        missing_attr_msg(root.name@, "id"@)
    } else if !has_attr(root, "schematron-version"@) {
        missing_attr_msg(root.name@, "schematron-version"@)
    } else if exists|i: int| collection_first_fail(root, i) {
        collection_fail_msg(root)
    } else if count_collection(root.nodes@, CollectionChild::DataStream) == 0 {
        missing_child_msg("data-stream"@)
    } else {
        missing_child_msg("component"@)
    }
}

/// A URI mapping of a catalog.
#[derive(Debug, PartialEq)]
pub struct CatURI {
    pub name: String,
    pub uri: String,
}

impl CatURI {
    /// Whether this value holds what the element `el` says.
    pub open spec fn built_from(self, el: XmlElement) -> bool {
        attr_spec(el, "name"@) == Some(self.name@) && attr_spec(el, "uri"@) == Some(self.uri@)
    }

    pub fn from_xml(el: &XmlElement) -> (r: Result<CatURI, String>)
        ensures
            r is Ok <==> has_attr(*el, "name"@) && has_attr(*el, "uri"@),
            r is Err ==> err_is(r, cat_uri_err(*el)),
            r matches Ok(x) ==> x.built_from(*el),
    {
        let name = match require_attr(el, "name") {
            Ok(v) => v,
            Err(e) => {
                return Err(e);
            },
        };
        let uri = match require_attr(el, "uri") {
            Ok(v) => v,
            Err(e) => {
                return Err(e);
            },
        };
        Ok(CatURI { name, uri })
    }
}

/// A prefix rewrite rule of a catalog.
#[derive(Debug, PartialEq)]
pub struct RewriteURI {
    pub uri_start_string: String,
    pub rewrite_prefix: String,
}

impl RewriteURI {
    /// Whether this value holds what the element `el` says.
    pub open spec fn built_from(self, el: XmlElement) -> bool {
        attr_spec(el, "uriStartString"@) == Some(self.uri_start_string@) && attr_spec(
            el,
            "rewritePrefix"@,
        ) == Some(self.rewrite_prefix@)
    }

    pub fn from_xml(el: &XmlElement) -> (r: Result<RewriteURI, String>)
        ensures
            r is Ok <==> has_attr(*el, "uriStartString"@) && has_attr(*el, "rewritePrefix"@),
            r is Err ==> err_is(r, rewrite_uri_err(*el)),
            r matches Ok(x) ==> x.built_from(*el),
    {
        let uri_start_string = match require_attr(el, "uriStartString") {
            Ok(v) => v,
            Err(e) => {
                return Err(e);
            },
        };
        let rewrite_prefix = match require_attr(el, "rewritePrefix") {
            Ok(v) => v,
            Err(e) => {
                return Err(e);
            },
        };
        Ok(RewriteURI { uri_start_string, rewrite_prefix })
    }
}

/// The URI rewrite rules that come with a component reference.
#[derive(Debug, PartialEq)]
pub struct Catalog {
    pub uris: Vec<CatURI>,
    pub rewrite_uris: Vec<RewriteURI>,
}

impl Catalog {
    /// Whether this value holds what the element `el` says.
    pub open spec fn built_from(self, el: XmlElement) -> bool {
        &&& self.uris@.len() == count_catalog(el.nodes@, CatalogEntry::Uri)
        &&& forall|j: int|
            0 <= j < self.uris@.len() ==> (#[trigger] self.uris@[j]).built_from(
                catalog_children(el.nodes@, CatalogEntry::Uri)[j],
            )
        &&& self.rewrite_uris@.len() == count_catalog(el.nodes@, CatalogEntry::RewriteUri)
        &&& forall|j: int|
            0 <= j < self.rewrite_uris@.len() ==> (#[trigger] self.rewrite_uris@[j]).built_from(
                catalog_children(el.nodes@, CatalogEntry::RewriteUri)[j],
            )
    }

    pub fn from_xml(el: &XmlElement) -> (r: Result<Catalog, String>)
        ensures
            r is Ok <==> catalog_ok(*el),
            r is Err ==> err_is(r, catalog_err(*el)),
            r matches Ok(x) ==> x.built_from(*el),
    {
        if !el.is("catalog", CAT_NS) {
            let mut m = String::from_str("Unexpected element '");
            m.append(el.name());
            m.append("'");
            return Err(m);
        }
        let mut uris: Vec<CatURI> = Vec::new();
        let mut rewrite_uris: Vec<RewriteURI> = Vec::new();
        let mut i: usize = 0;
        while i < el.nodes.len()
            invariant
                i <= el.nodes@.len(),
                is_spec(*el, "catalog"@, CAT_NS@),
                forall|j: int| 0 <= j < i ==> !(#[trigger] catalog_fails_at(*el, j)),
                forall|j: int|
                    0 <= j < i && #[trigger] el.nodes@[j] is Element ==> catalog_entry_ok(
                        el.nodes@[j]->Element_0,
                    ),
                uris@.len() == count_catalog(el.nodes@.take(i as int), CatalogEntry::Uri),
                forall|j: int|
                    0 <= j < uris@.len() ==> (#[trigger] uris@[j]).built_from(
                        catalog_children(el.nodes@.take(i as int), CatalogEntry::Uri)[j],
                    ),
                rewrite_uris@.len() == count_catalog(
                    el.nodes@.take(i as int),
                    CatalogEntry::RewriteUri,
                ),
                forall|j: int|
                    0 <= j < rewrite_uris@.len() ==> (#[trigger] rewrite_uris@[j]).built_from(
                        catalog_children(el.nodes@.take(i as int), CatalogEntry::RewriteUri)[j],
                    ),
            decreases el.nodes@.len() - i,
        {
            proof {
                lemma_take_last(el.nodes@, i as int);
            }
            if let XmlNode::Element(child) = &el.nodes[i] {
                if child.is("uri", CAT_NS) {
                    match CatURI::from_xml(child) {
                        Ok(x) => uris.push(x),
                        Err(e) => {
                            proof {
                                lemma_catalog_first_fail(*el, i as int);
                            }
                            return Err(e);
                        },
                    }
                } else if child.is("rewriteURI", CAT_NS) {
                    match RewriteURI::from_xml(child) {
                        Ok(x) => rewrite_uris.push(x),
                        Err(e) => {
                            proof {
                                lemma_catalog_first_fail(*el, i as int);
                            }
                            return Err(e);
                        },
                    }
                } else {
                    let mut m = String::from_str("Unexpected element '");
                    m.append(child.name());
                    m.append("', expected either 'uri' or 'rewriteURI'");
                    proof {
                        lemma_catalog_first_fail(*el, i as int);
                    }
                    return Err(m);
                }
            }
            i = i + 1;
        }
        proof {
            assert(el.nodes@.take(el.nodes@.len() as int) =~= el.nodes@);
        }
        Ok(Catalog { uris, rewrite_uris })
    }
}

/// A reference from a data stream to a component, by identifier and link.
#[derive(Debug, PartialEq)]
pub struct ComponentRef {
    pub id: String,
    pub type_: Option<String>,
    pub href: String,
    pub catalog: Option<Catalog>,
}

impl ComponentRef {
    /// Whether this value holds what the element `el` says.
    pub open spec fn built_from(self, el: XmlElement) -> bool {
        &&& attr_spec(el, "id"@) == Some(self.id@)
        &&& opt_view(self.type_) == attr_spec(el, "xlink:type"@)
        &&& attr_spec(el, "xlink:href"@) == Some(self.href@)
        &&& (self.catalog is Some <==> child_from(el.nodes@, "catalog"@, CAT_NS@, 0) is Some)
        &&& (self.catalog matches Some(c) ==> c.built_from(
            child_from(el.nodes@, "catalog"@, CAT_NS@, 0)->0,
        ))
    }

    pub fn from_xml(el: &XmlElement) -> (r: Result<ComponentRef, String>)
        ensures
            r is Ok <==> component_ref_ok(*el),
            r is Err ==> err_is(r, component_ref_err(*el)),
            r matches Ok(x) ==> x.built_from(*el),
    {
        if !el.is("component-ref", SCAP12_NS) {
            let mut m = String::from_str("Unexpected element '");
            m.append(el.name());
            m.append("'");
            return Err(m);
        }
        let id = match require_attr(el, "id") {
            Ok(v) => v,
            Err(e) => {
                return Err(e);
            },
        };
        let type_ = get_attr(el, "xlink:type");
        let href = match require_attr(el, "xlink:href") {
            Ok(v) => v,
            Err(e) => {
                return Err(e);
            },
        };
        let catalog = match el.get_child("catalog", CAT_NS) {
            Some(catalog_el) => match Catalog::from_xml(catalog_el) {
                Ok(c) => Some(c),
                Err(e) => {
                    return Err(e);
                },
            },
            None => None,
        };
        Ok(ComponentRef { id, type_, href, catalog })
    }
}

/// A logical view over the components of a collection, by reference.
#[derive(Debug, PartialEq)]
pub struct DataStream {
    pub id: String,
    pub use_case: String,
    pub scap_version: String,
    pub timestamp: Option<String>,
    pub dictionaries: Vec<ComponentRef>,
    pub checklists: Vec<ComponentRef>,
    pub checks: Vec<ComponentRef>,
    pub extended_components: Vec<ComponentRef>,
}

/// What a `DataStream` built from `el` holds.
pub open spec fn data_stream_model(el: XmlElement, x: DataStream) -> bool {
    &&& attr_spec(el, "id"@) == Some(x.id@)
    &&& attr_spec(el, "use-case"@) == Some(x.use_case@)
    &&& attr_spec(el, "scap-version"@) == Some(x.scap_version@)
    &&& opt_view(x.timestamp) == attr_spec(el, "timestamp"@)
    &&& refs_built(x.dictionaries@, container(el, "dictionaries"@))
    &&& refs_built(x.checklists@, container(el, "checklists"@))
    &&& refs_built(x.checks@, container(el, "checks"@))
    &&& refs_built(x.extended_components@, container(el, "extended-components"@))
}

impl DataStream {
    /// Whether this value holds what the element `el` says.
    pub open spec fn built_from(self, el: XmlElement) -> bool {
        data_stream_model(el, self)
    }

    pub fn from_xml(el: &XmlElement) -> (r: Result<DataStream, String>)
        ensures
            r is Ok <==> data_stream_ok(*el),
            r is Err ==> err_is(r, data_stream_err(*el)),
            r matches Ok(x) ==> data_stream_model(*el, x),
            has_attr(*el, "id"@) && has_attr(*el, "use-case"@) && !one_of(
                attr_text(*el, "use-case"@),
                use_case_values(),
            ) ==> err_is(
                r,
                not_allowed_msg(
                    el.name@,
                    "use-case"@,
                    attr_text(*el, "use-case"@),
                    use_case_values(),
                ),
            ),
    {
        let id = match require_attr(el, "id") {
            Ok(v) => v,
            Err(e) => {
                return Err(e);
            },
        };
        let use_case = match require_attr_options(el, "use-case", use_case_options()) {
            Ok(v) => v,
            Err(e) => {
                return Err(e);
            },
        };
        let scap_version = match require_attr_options(
            el,
            "scap-version",
            scap_version_options(),
        ) {
            Ok(v) => v,
            Err(e) => {
                return Err(e);
            },
        };
        let timestamp = get_attr(el, "timestamp");
        let dictionaries = match DataStream::get_component_ref_vec(el, "dictionaries") {
            Ok(v) => v,
            Err(e) => {
                return Err(e);
            },
        };
        let checklists = match DataStream::get_component_ref_vec(el, "checklists") {
            Ok(v) => v,
            Err(e) => {
                return Err(e);
            },
        };
        let checks = match DataStream::get_component_ref_vec(el, "checks") {
            Ok(v) => v,
            Err(e) => {
                return Err(e);
            },
        };
        let extended_components = match DataStream::get_component_ref_vec(
            el,
            "extended-components",
        ) {
            Ok(v) => v,
            Err(e) => {
                return Err(e);
            },
        };
        Ok(
            DataStream {
                id,
                use_case,
                scap_version,
                timestamp,
                dictionaries,
                checklists,
                checks,
                extended_components,
            },
        )
    }

    /// The references held by the container `component_name` of a data
    /// stream; none when the container is absent.
    pub fn get_component_ref_vec(data_stream_el: &XmlElement, component_name: &str) -> (r: Result<
        Vec<ComponentRef>,
        String,
    >)
        ensures
            r is Ok <==> refs_ok(container(*data_stream_el, component_name@)),
            r is Err ==> err_is(
                r,
                refs_fail_msg(container(*data_stream_el, component_name@)->0),
            ),
            r matches Ok(v) ==> refs_built(v@, container(*data_stream_el, component_name@)),
    {
        let mut component_refs: Vec<ComponentRef> = Vec::new();
        if let Some(component_el) = data_stream_el.get_child(component_name, SCAP12_NS) {
            let mut i: usize = 0;
            while i < component_el.nodes.len()
                invariant
                    i <= component_el.nodes@.len(),
                    container(*data_stream_el, component_name@) == Some(*component_el),
                    forall|j: int| 0 <= j < i ==> !(#[trigger] refs_fails_at(*component_el, j)),
                    forall|j: int|
                        0 <= j < i && #[trigger] component_el.nodes@[j] is Element
                            ==> component_ref_ok(component_el.nodes@[j]->Element_0),
                    component_refs@.len() == elem_children(component_el.nodes@.take(i as int)).len(),
                    forall|j: int|
                        0 <= j < component_refs@.len() ==> (#[trigger] component_refs@[j]).built_from(
                            elem_children(component_el.nodes@.take(i as int))[j],
                        ),
                decreases component_el.nodes@.len() - i,
            {
                proof {
                    lemma_take_last(component_el.nodes@, i as int);
                }
                if let XmlNode::Element(child) = &component_el.nodes[i] {
                    match ComponentRef::from_xml(child) {
                        Ok(x) => component_refs.push(x),
                        Err(e) => {
                            proof {
                                lemma_refs_first_fail(*component_el, i as int);
                            }
                            return Err(e);
                        },
                    }
                }
                i = i + 1;
            }
            proof {
                assert(component_el.nodes@.take(component_el.nodes@.len() as int)
                    =~= component_el.nodes@);
            }
        }
        Ok(component_refs)
    }
}

/// What a component holds, by the kind of its payload.
#[derive(Debug, PartialEq)]
pub enum ComponentContent {
    XCCDFBenchmark(Benchmark),
    NotImplemented,
}

/// A document inlined in the collection and named by an identifier.
#[derive(Debug, PartialEq)]
pub struct Component {
    pub id: String,
    pub timestamp: String,
    pub component_name: String,
    pub component_ns: String,
    pub content: ComponentContent,
}

/// What a `Component` built from `el` holds.
pub open spec fn component_model(el: XmlElement, x: Component) -> bool {
    &&& attr_spec(el, "id"@) == Some(x.id@)
    &&& attr_spec(el, "timestamp"@) == Some(x.timestamp@)
    &&& first_elem_from(el.nodes@, 0) matches Some(p) && {
        &&& x.component_name@ == p.name@
        &&& x.component_ns@ == p.ns@
        &&& (x.content is XCCDFBenchmark <==> is_spec(p, "Benchmark"@, XCCDF12_NS@))
        &&& (x.content matches ComponentContent::XCCDFBenchmark(b) ==> benchmark_model(p, b))
    }
}

impl Component {
    /// Whether this value holds what the element `el` says.
    pub open spec fn built_from(self, el: XmlElement) -> bool {
        component_model(el, self)
    }

    pub fn from_xml(el: &XmlElement) -> (r: Result<Component, String>)
        ensures
            r is Ok <==> component_ok(*el),
            r is Err ==> err_is(r, component_err(*el)),
            r matches Ok(x) ==> component_model(*el, x),
    {
        let id = match require_attr(el, "id") {
            Ok(v) => v,
            Err(e) => {
                return Err(e);
            },
        };
        let timestamp = match require_attr(el, "timestamp") {
            Ok(v) => v,
            Err(e) => {
                return Err(e);
            },
        };
        if let Some(component) = el.first_child() {
            let component_name = component.name.clone();
            let component_ns = component.ns.clone();
            let mut content = ComponentContent::NotImplemented;
            if component.is("Benchmark", XCCDF12_NS) {
                match Benchmark::from_xml(component) {
                    Ok(b) => {
                        content = ComponentContent::XCCDFBenchmark(b);
                    },
                    Err(e) => {
                        return Err(e);
                    },
                }
            }
            Ok(Component { id, timestamp, component_name, component_ns, content })
        } else {
            let mut m = String::from_str("component '");
            m.append(id.as_str());
            m.append("' doesn't have any child element");
            Err(m)
        }
    }
}

/// A component whose content is not modelled.
#[derive(Debug, PartialEq)]
pub struct ExtendedComponent {
    pub id: String,
    pub timestamp: String,
}

impl ExtendedComponent {
    /// Whether this value holds what the element `el` says.
    pub open spec fn built_from(self, el: XmlElement) -> bool {
        attr_spec(el, "id"@) == Some(self.id@) && attr_spec(el, "timestamp"@) == Some(
            self.timestamp@,
        )
    }

    pub fn from_xml(el: &XmlElement) -> (r: Result<ExtendedComponent, String>)
        ensures
            r is Ok <==> has_attr(*el, "id"@) && has_attr(*el, "timestamp"@),
            r is Err ==> err_is(r, stamped_err(*el)),
            r matches Ok(x) ==> x.built_from(*el),
    {
        let id = match require_attr(el, "id") {
            Ok(v) => v,
            Err(e) => {
                return Err(e);
            },
        };
        let timestamp = match require_attr(el, "timestamp") {
            Ok(v) => v,
            Err(e) => {
                return Err(e);
            },
        };
        Ok(ExtendedComponent { id, timestamp })
    }
}

/// A digital signature over the collection; only its identifier is kept.
#[derive(Debug, PartialEq)]
pub struct Signature {
    pub id: String,
}

impl Signature {
    /// Whether this value holds what the element `el` says.
    pub open spec fn built_from(self, el: XmlElement) -> bool {
        attr_spec(el, "id"@) == Some(self.id@)
    }

    pub fn from_xml(el: &XmlElement) -> (r: Result<Signature, String>)
        ensures
            r is Ok <==> has_attr(*el, "id"@),
            r matches Ok(x) ==> x.built_from(*el),
            r is Err ==> err_is(r, missing_attr_msg(el.name@, "id"@)),
    {
        let id = match require_attr(el, "id") {
            Ok(v) => v,
            Err(e) => {
                return Err(e);
            },
        };
        Ok(Signature { id })
    }
}

/// The message for a collection without any child named `name`.
fn missing_child(name: &str) -> (r: String)
    ensures
        r@ == missing_child_msg(name@),
{
    let mut m = String::from_str(
        "The 'data-stream-collection' element needs to have at least 1 child '",
    );
    m.append(name);
    m.append("' element.");
    m
}

/// A SCAP source data stream collection.
#[derive(Debug, PartialEq)]
pub struct DataStreamCollection {
    pub id: String,
    pub schematron_version: String,
    pub data_streams: Vec<DataStream>,
    pub components: Vec<Component>,
    pub extended_components: Vec<ExtendedComponent>,
    pub signatures: Vec<Signature>,
}

/// What a `DataStreamCollection` built from `root` holds.
pub open spec fn collection_model(root: XmlElement, x: DataStreamCollection) -> bool {
    &&& attr_spec(root, "id"@) == Some(x.id@)
    &&& attr_spec(root, "schematron-version"@) == Some(x.schematron_version@)
    &&& x.data_streams@.len() == count_collection(root.nodes@, CollectionChild::DataStream)
    &&& forall|j: int|
        0 <= j < x.data_streams@.len() ==> (#[trigger] x.data_streams@[j]).built_from(
            collection_children(root.nodes@, CollectionChild::DataStream)[j],
        )
    &&& x.components@.len() == count_collection(root.nodes@, CollectionChild::Component)
    &&& forall|j: int|
        0 <= j < x.components@.len() ==> (#[trigger] x.components@[j]).built_from(
            collection_children(root.nodes@, CollectionChild::Component)[j],
        )
    &&& x.extended_components@.len() == count_collection(root.nodes@, CollectionChild::ExtendedComponent)
    &&& forall|j: int|
        0 <= j < x.extended_components@.len() ==> (#[trigger] x.extended_components@[j]).built_from(
            collection_children(root.nodes@, CollectionChild::ExtendedComponent)[j],
        )
    &&& x.signatures@.len() == count_collection(root.nodes@, CollectionChild::Signature)
    &&& forall|j: int|
        0 <= j < x.signatures@.len() ==> (#[trigger] x.signatures@[j]).built_from(
            collection_children(root.nodes@, CollectionChild::Signature)[j],
        )
}

impl DataStreamCollection {
    pub fn from_xml(root: &XmlElement) -> (r: Result<DataStreamCollection, String>)
        ensures
            root.ns@ != SCAP12_NS@ ==> err_is(r, wrong_ns_msg(root.ns@)),
            r is Ok <==> collection_ok(*root),
            r is Err ==> err_is(r, collection_err(*root)),
            r matches Ok(x) ==> collection_model(*root, x),
            collection_parts_ok(*root) && count_collection(
                root.nodes@,
                CollectionChild::DataStream,
            ) == 0 ==> err_is(r, missing_child_msg("data-stream"@)),
            collection_parts_ok(*root) && count_collection(
                root.nodes@,
                CollectionChild::DataStream,
            ) >= 1 && count_collection(root.nodes@, CollectionChild::Component) == 0 ==> err_is(
                r,
                missing_child_msg("component"@),
            ),
    {
        if !str_eq(root.ns.as_str(), SCAP12_NS) {
            let mut m = String::from_str("Wrong namespace '");
            m.append(root.ns.as_str());
            m.append("', expected '");
            m.append(SCAP12_NS);
            return Err(m);
        }
        let id = match require_attr(root, "id") {
            Ok(v) => v,
            Err(e) => {
                return Err(e);
            },
        };
        let schematron_version = match require_attr(root, "schematron-version") {
            Ok(v) => v,
            Err(e) => {
                return Err(e);
            },
        };
        let mut data_streams: Vec<DataStream> = Vec::new();
        let mut components: Vec<Component> = Vec::new();
        let mut extended_components: Vec<ExtendedComponent> = Vec::new();
        let mut signatures: Vec<Signature> = Vec::new();
        let mut i: usize = 0;
        while i < root.nodes.len()
            invariant
                i <= root.nodes@.len(),
                root.ns@ == SCAP12_NS@,
                forall|j: int| 0 <= j < i ==> !(#[trigger] collection_fails_at(*root, j)),
                attr_spec(*root, "id"@) == Some(id@),
                attr_spec(*root, "schematron-version"@) == Some(schematron_version@),
                forall|j: int|
                    0 <= j < i && #[trigger] root.nodes@[j] is Element ==> collection_child_ok(
                        root.nodes@[j]->Element_0,
                    ),
                data_streams@.len() == count_collection(
                    root.nodes@.take(i as int),
                    CollectionChild::DataStream,
                ),
                forall|j: int|
                    0 <= j < data_streams@.len() ==> (#[trigger] data_streams@[j]).built_from(
                        collection_children(root.nodes@.take(i as int), CollectionChild::DataStream)[j],
                    ),
                components@.len() == count_collection(
                    root.nodes@.take(i as int),
                    CollectionChild::Component,
                ),
                forall|j: int|
                    0 <= j < components@.len() ==> (#[trigger] components@[j]).built_from(
                        collection_children(root.nodes@.take(i as int), CollectionChild::Component)[j],
                    ),
                extended_components@.len() == count_collection(
                    root.nodes@.take(i as int),
                    CollectionChild::ExtendedComponent,
                ),
                forall|j: int|
                    0 <= j < extended_components@.len() ==> (#[trigger] extended_components@[j]).built_from(
                        collection_children(root.nodes@.take(i as int), CollectionChild::ExtendedComponent)[j],
                    ),
                signatures@.len() == count_collection(
                    root.nodes@.take(i as int),
                    CollectionChild::Signature,
                ),
                forall|j: int|
                    0 <= j < signatures@.len() ==> (#[trigger] signatures@[j]).built_from(
                        collection_children(root.nodes@.take(i as int), CollectionChild::Signature)[j],
                    ),
            decreases root.nodes@.len() - i,
        {
            proof {
                lemma_take_last(root.nodes@, i as int);
            }
            if let XmlNode::Element(child) = &root.nodes[i] {
                match collection_child(child) {
                    CollectionChild::DataStream => match DataStream::from_xml(child) {
                        Ok(x) => data_streams.push(x),
                        Err(e) => {
                            proof {
                                lemma_collection_first_fail(*root, i as int);
                            }
                            return Err(e);
                        },
                    },
                    CollectionChild::Component => match Component::from_xml(child) {
                        Ok(x) => components.push(x),
                        Err(e) => {
                            proof {
                                lemma_collection_first_fail(*root, i as int);
                            }
                            return Err(e);
                        },
                    },
                    CollectionChild::ExtendedComponent => match ExtendedComponent::from_xml(
                        child,
                    ) {
                        Ok(x) => extended_components.push(x),
                        Err(e) => {
                            proof {
                                lemma_collection_first_fail(*root, i as int);
                            }
                            return Err(e);
                        },
                    },
                    CollectionChild::Signature => match Signature::from_xml(child) {
                        Ok(x) => signatures.push(x),
                        Err(e) => {
                            proof {
                                lemma_collection_first_fail(*root, i as int);
                            }
                            return Err(e);
                        },
                    },
                    CollectionChild::Other => {},
                }
            }
            i = i + 1;
        }
        proof {
            assert(root.nodes@.take(root.nodes@.len() as int) =~= root.nodes@);
        }
        if data_streams.len() < 1 {
            return Err(missing_child("data-stream"));
        }
        if components.len() < 1 {
            return Err(missing_child("component"));
        }
        Ok(
            DataStreamCollection {
                id,
                schematron_version,
                data_streams,
                components,
                extended_components,
                signatures,
            },
        )
    }
}

/// Whether a link points into this document: it starts with `#`.
pub open spec fn is_local(href: Seq<char>) -> bool {
    href.len() > 0 && href[0] == '#'
}

/// Whether the component at position `k` is the one that the fragment `frag` names.
pub open spec fn names_component(c: DataStreamCollection, k: int, frag: Seq<char>) -> bool {
    0 <= k < c.components@.len() && c.components@[k].id@ == frag
}

/// Whether `v` lists, in increasing order, exactly the positions of the
/// components that `frag` names.
pub open spec fn resolves_to(c: DataStreamCollection, frag: Seq<char>, v: Seq<usize>) -> bool {
    &&& forall|j: int| 0 <= j < v.len() ==> names_component(c, #[trigger] v[j] as int, frag)
    &&& forall|k: int|
        names_component(c, k, frag) ==> exists|j: int| 0 <= j < v.len() && #[trigger] v[j] == k
    &&& forall|a: int, b: int| 0 <= a < b < v.len() ==> v[a] < v[b]
}

impl DataStreamCollection {
    /// The positions, in order, of the components that a checklist link
    /// `href` targets. A link that does not start with `#` points outside
    /// the document and is not followed (`None`). A checklist targets
    /// benchmarks only: a targeted component with any other content fails.
    pub fn resolve_checklist(&self, href: &str) -> (r: Result<Option<Vec<usize>>, String>)
        ensures
            !is_local(href@) ==> r matches Ok(None),
            is_local(href@) ==> (r is Ok <==> forall|k: int|
                names_component(*self, k, href@.drop_first())
                    ==> (#[trigger] self.components@[k]).content is XCCDFBenchmark),
            is_local(href@) && r is Ok ==> r matches Ok(Some(_)),
            r matches Ok(Some(v)) ==> resolves_to(*self, href@.drop_first(), v@),
    {
        let n = href.unicode_len();
        if n == 0 {
            return Ok(None);
        }
        if href.get_char(0) != '#' {
            return Ok(None);
        }
        let frag = href.substring_char(1, n);
        proof {
            assert(frag@ =~= href@.drop_first());
        }
        let mut found: Vec<usize> = Vec::new();
        let mut i: usize = 0;
        while i < self.components.len()
            invariant
                i <= self.components@.len(),
                is_local(href@),
                frag@ == href@.drop_first(),
                forall|j: int|
                    0 <= j < found@.len() ==> names_component(*self, #[trigger] found@[j] as int, frag@)
                        && found@[j] < i,
                forall|k: int|
                    0 <= k < i && names_component(*self, k, frag@) ==> exists|j: int|
                        0 <= j < found@.len() && #[trigger] found@[j] == k,
                forall|k: int|
                    0 <= k < i && names_component(*self, k, frag@) ==> (
                    #[trigger] self.components@[k]).content is XCCDFBenchmark,
                forall|a: int, b: int| 0 <= a < b < found@.len() ==> found@[a] < found@[b],
            decreases self.components@.len() - i,
        {
            let c = &self.components[i];
            if str_eq(c.id.as_str(), frag) {
                match &c.content {
                    ComponentContent::XCCDFBenchmark(_) => {
                        let ghost before = found@;
                        found.push(i);
                        proof {
                            assert(found@[found@.len() - 1] == i);
                            assert forall|k: int|
                                0 <= k < i + 1 && names_component(*self, k, frag@) implies exists|
                                j: int,
                            | 0 <= j < found@.len() && #[trigger] found@[j] == k by {
                                if k < i {
                                    let j = choose|j: int| 0 <= j < before.len() && before[j] == k;
                                    assert(found@[j] == before[j]);
                                } else {
                                    assert(found@[found@.len() - 1] == k);
                                }
                            }
                        }
                    },
                    ComponentContent::NotImplemented => {
                        let mut m = String::from_str("The component '");
                        m.append(c.id.as_str());
                        m.append("' isn't a XCCDF benchmark");
                        return Err(m);
                    },
                }
            }
            i = i + 1;
        }
        proof {
            assert forall|k: int| names_component(*self, k, href@.drop_first()) implies exists|
                j: int,
            | 0 <= j < found@.len() && #[trigger] found@[j] == k by {
                assert(0 <= k < i);
            }
            assert forall|j: int| 0 <= j < found@.len() implies names_component(
                *self,
                #[trigger] found@[j] as int,
                href@.drop_first(),
            ) by {
                assert(names_component(*self, found@[j] as int, frag@));
            }
            assert(forall|a: int, b: int| 0 <= a < b < found@.len() ==> found@[a] < found@[b]);
            assert(resolves_to(*self, href@.drop_first(), found@));
        }
        Ok(Some(found))
    }
}

} // verus!
