//! Properties of the mapping as a whole.
use vstd::prelude::*;
use crate::xml::{XmlElement, XmlNode, is_spec, first_elem_from, lemma_take_last};
use crate::xccdf::{
    XCCDF12_NS, ChildKind, kind_of, count_kind, has_attr, bool_attr_ok, status_ok, benchmark_ok,
    benchmark_child_ok,
};
use crate::utils::err_is;
use crate::sds::{
    SCAP12_NS, CollectionChild, DataStreamCollection, collection_kind, count_collection,
    collection_children,
    collection_ok, collection_model, collection_child_ok, collection_err, data_stream_ok,
    component_ok,
};

verus! {

/// Whether the only element children among `nodes` are the two at positions
/// `i` and `j`; every other child is text.
pub open spec fn only_two(nodes: Seq<XmlNode>, i: int, j: int) -> bool {
    &&& 0 <= i < nodes.len()
    &&& 0 <= j < nodes.len()
    &&& i != j
    &&& nodes[i] is Element
    &&& nodes[j] is Element
    &&& forall|k: int| 0 <= k < nodes.len() && k != i && k != j ==> (#[trigger] nodes[k]) is Text
}

/// A benchmark whose element children are one valid `status` and one
/// `version`, in either order.
pub open spec fn minimal_benchmark(b: XmlElement) -> bool {
    &&& is_spec(b, "Benchmark"@, XCCDF12_NS@)
    &&& has_attr(b, "id"@)
    &&& bool_attr_ok(b, "resolved"@)
    &&& exists|i: int, j: int|
        only_two(b.nodes@, i, j) && b.nodes@[i]->Element_0.name@ == "status"@ && status_ok(
            b.nodes@[i]->Element_0,
        ) && b.nodes@[j]->Element_0.name@ == "version"@
}

/// A well-formed data stream; its reference containers may hold references.
pub open spec fn minimal_data_stream(d: XmlElement) -> bool {
    is_spec(d, "data-stream"@, SCAP12_NS@) && data_stream_ok(d)
}

/// A component whose payload, its first element child, is a minimal benchmark.
pub open spec fn minimal_component(c: XmlElement) -> bool {
    &&& is_spec(c, "component"@, SCAP12_NS@)
    &&& has_attr(c, "id"@)
    &&& has_attr(c, "timestamp"@)
    &&& first_elem_from(c.nodes@, 0) matches Some(b) && minimal_benchmark(b)
}

/// A collection whose element children are one minimal data stream and one
/// minimal component, in either order.
pub open spec fn minimal_document(root: XmlElement) -> bool {
    &&& root.ns@ == SCAP12_NS@
    &&& has_attr(root, "id"@)
    &&& has_attr(root, "schematron-version"@)
    &&& exists|i: int, j: int|
        only_two(root.nodes@, i, j) && minimal_data_stream(root.nodes@[i]->Element_0)
            && minimal_component(root.nodes@[j]->Element_0)
}

proof fn lemma_collection_count_two(nodes: Seq<XmlNode>, i: int, j: int, k: CollectionChild, n: int)
    requires
        only_two(nodes, i, j),
        0 <= n <= nodes.len(),
    ensures
        count_collection(nodes.take(n), k) == (if i < n && collection_kind(nodes[i]->Element_0)
            == k {
            1int
        } else {
            0int
        }) + (if j < n && collection_kind(nodes[j]->Element_0) == k {
            1int
        } else {
            0int
        }),
    decreases n,
{
    if n == 0 {
        assert(nodes.take(0).len() == 0);
    } else {
        lemma_collection_count_two(nodes, i, j, k, n - 1);
        lemma_take_last(nodes, n - 1);
        if n - 1 != i && n - 1 != j {
            assert(nodes[n - 1] is Text);
        }
    }
}

proof fn lemma_kind_count_two(nodes: Seq<XmlNode>, i: int, j: int, k: ChildKind, n: int)
    requires
        only_two(nodes, i, j),
        0 <= n <= nodes.len(),
    ensures
        count_kind(nodes.take(n), k) == (if i < n && kind_of(nodes[i]->Element_0.name@) == k {
            1int
        } else {
            0int
        }) + (if j < n && kind_of(nodes[j]->Element_0.name@) == k {
            1int
        } else {
            0int
        }),
    decreases n,
{
    if n == 0 {
        assert(nodes.take(0).len() == 0);
    } else {
        lemma_kind_count_two(nodes, i, j, k, n - 1);
        lemma_take_last(nodes, n - 1);
        if n - 1 != i && n - 1 != j {
            assert(nodes[n - 1] is Text);
        }
    }
}

proof fn lemma_minimal_benchmark_ok(b: XmlElement)
    requires
        minimal_benchmark(b),
    ensures
        benchmark_ok(b),
{
    let (i, j) = choose|i: int, j: int|
        only_two(b.nodes@, i, j) && b.nodes@[i]->Element_0.name@ == "status"@ && status_ok(
            b.nodes@[i]->Element_0,
        ) && b.nodes@[j]->Element_0.name@ == "version"@;
    let bn = b.nodes@;
    let s = bn[i]->Element_0;
    let v = bn[j]->Element_0;
    reveal_strlit("version");
    reveal_strlit("status");
    reveal_strlit("title");
    reveal_strlit("description");
    reveal_strlit("notice");
    reveal_strlit("front-matter");
    reveal_strlit("rear-matter");
    reveal_strlit("reference");
    reveal_strlit("plain-text");
    reveal_strlit("platform-specification");
    reveal_strlit("platform");
    assert("version"@.len() == 7);
    assert("status"@.len() == 6);
    assert("title"@.len() == 5);
    assert("description"@.len() == 11);
    assert("notice"@.len() == 6);
    assert("front-matter"@.len() == 12);
    assert("rear-matter"@.len() == 11);
    assert("reference"@.len() == 9);
    assert("plain-text"@.len() == 10);
    assert("platform-specification"@.len() == 22);
    assert("platform"@.len() == 8);
    assert(kind_of(s.name@) == ChildKind::Status);
    assert(kind_of(v.name@) == ChildKind::Version);
    assert(benchmark_child_ok(s));
    assert(benchmark_child_ok(v));
    assert(bn.take(bn.len() as int) =~= bn);
    lemma_kind_count_two(bn, i, j, ChildKind::Status, bn.len() as int);
    lemma_kind_count_two(bn, i, j, ChildKind::Version, bn.len() as int);
    lemma_kind_count_two(bn, i, j, ChildKind::PlatformSpecification, bn.len() as int);
    assert forall|k: int| 0 <= k < bn.len() && #[trigger] bn[k] is Element implies benchmark_child_ok(
        bn[k]->Element_0,
    ) by {
        assert(k == i || k == j);
    }
}

/// Every minimal document is well formed, with exactly one data stream and
/// one component: mapping it succeeds and yields one of each.
pub proof fn lemma_minimal_document_maps(root: XmlElement)
    requires
        minimal_document(root),
    ensures
        collection_ok(root),
        count_collection(root.nodes@, CollectionChild::DataStream) == 1,
        count_collection(root.nodes@, CollectionChild::Component) == 1,
{
    let (i, j) = choose|i: int, j: int|
        only_two(root.nodes@, i, j) && minimal_data_stream(root.nodes@[i]->Element_0)
            && minimal_component(root.nodes@[j]->Element_0);
    let rn = root.nodes@;
    let d = rn[i]->Element_0;
    let c = rn[j]->Element_0;
    reveal_strlit("component");
    reveal_strlit("data-stream");
    assert("component"@.len() == 9);
    assert("data-stream"@.len() == 11);
    assert(collection_kind(d) == CollectionChild::DataStream);
    assert(collection_kind(c) == CollectionChild::Component);
    let b = first_elem_from(c.nodes@, 0)->0;
    lemma_minimal_benchmark_ok(b);
    assert(component_ok(c));
    assert(collection_child_ok(d));
    assert(collection_child_ok(c));
    assert forall|k: int| 0 <= k < rn.len() && #[trigger] rn[k] is Element implies collection_child_ok(
        rn[k]->Element_0,
    ) by {
        assert(k == i || k == j);
    }
    assert(rn.take(rn.len() as int) =~= rn);
    lemma_collection_count_two(rn, i, j, CollectionChild::DataStream, rn.len() as int);
    lemma_collection_count_two(rn, i, j, CollectionChild::Component, rn.len() as int);
}

/// Mapping is a function of the document alone: two collections built from
/// the same root carry the same identifiers, the same number of children of
/// each kind, and, position by position, data streams and components with
/// the same identifiers and components with the same kind of payload.
pub proof fn lemma_mapping_agrees(root: XmlElement, a: DataStreamCollection, b: DataStreamCollection)
    requires
        collection_model(root, a),
        collection_model(root, b),
    ensures
        a.id@ == b.id@,
        a.schematron_version@ == b.schematron_version@,
        a.data_streams@.len() == b.data_streams@.len(),
        a.components@.len() == b.components@.len(),
        a.extended_components@.len() == b.extended_components@.len(),
        a.signatures@.len() == b.signatures@.len(),
        forall|j: int|
            0 <= j < a.data_streams@.len() ==> (#[trigger] a.data_streams@[j]).id@
                == b.data_streams@[j].id@,
        forall|j: int|
            0 <= j < a.components@.len() ==> (#[trigger] a.components@[j]).id@
                == b.components@[j].id@ && (a.components@[j].content is XCCDFBenchmark
                <==> b.components@[j].content is XCCDFBenchmark),
{
    assert forall|j: int| 0 <= j < a.data_streams@.len() implies (
    #[trigger] a.data_streams@[j]).id@ == b.data_streams@[j].id@ by {
        assert(a.data_streams@[j].built_from(
            collection_children(root.nodes@, CollectionChild::DataStream)[j],
        ));
        assert(b.data_streams@[j].built_from(
            collection_children(root.nodes@, CollectionChild::DataStream)[j],
        ));
    }
    assert forall|j: int| 0 <= j < a.components@.len() implies (
    #[trigger] a.components@[j]).id@ == b.components@[j].id@ && (a.components@[j].content is XCCDFBenchmark
        <==> b.components@[j].content is XCCDFBenchmark) by {
        assert(a.components@[j].built_from(
            collection_children(root.nodes@, CollectionChild::Component)[j],
        ));
        assert(b.components@[j].built_from(
            collection_children(root.nodes@, CollectionChild::Component)[j],
        ));
    }
}

/// Whether `r` is a result that mapping `root` may give.
pub open spec fn collection_result(root: XmlElement, r: Result<DataStreamCollection, String>) -> bool {
    &&& (r is Ok <==> collection_ok(root))
    &&& (r matches Ok(x) ==> collection_model(root, x))
    &&& (r is Err ==> err_is(r, collection_err(root)))
}

/// Mapping the same document twice gives the same outcome: either both
/// succeed, or both fail with the same message.
pub proof fn lemma_mapping_outcome_agrees(
    root: XmlElement,
    r1: Result<DataStreamCollection, String>,
    r2: Result<DataStreamCollection, String>,
)
    requires
        collection_result(root, r1),
        collection_result(root, r2),
    ensures
        r1 is Ok <==> r2 is Ok,
        r1 matches Err(e1) ==> r2 matches Err(e2) && e1@ == e2@,
{
}

} // verus!
