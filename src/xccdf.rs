//! Mapping of an XCCDF 1.2 benchmark and everything nested in it.
use vstd::prelude::*;
use vstd::string::*;
use crate::xml::{
    XmlElement, XmlNode, attr_spec, text_spec, is_spec, str_eq, lemma_take_last,
};
use crate::utils::{
    get_attr, get_attr_default, get_attr_default_options, require_attr, html_to_string, html_text,
    opt_view, one_of, err_is, is_decimal, Weight, missing_attr_msg, unparsable_msg, not_allowed_msg,
};

verus! {

/// The namespace of XCCDF 1.2 documents.
pub const XCCDF12_NS: &'static str = "http://checklists.nist.gov/xccdf/1.2";

/// The element names that XCCDF content is made of, one variant per name.
pub enum ChildKind {
    Status,
    Title,
    Description,
    Notice,
    FrontMatter,
    RearMatter,
    Reference,
    PlainText,
    PlatformSpecification,
    Platform,
    Version,
    Metadata,
    Model,
    Profile,
    Value,
    Group,
    Rule,
    TestResult,
    Select,
    SetComplexValue,
    SetValue,
    RefineValue,
    RefineRule,
    Warning,
    Question,
    Rationale,
    Requires,
    Conflicts,
    Ident,
    ProfileNote,
    FixText,
    Fix,
    Check,
    ComplexCheck,
    Contributor,
    Publisher,
    Creator,
    Source,
    /// Any name that is none of the above.
    Unknown,
}

/// The kind of an element with local name `n`.
pub open spec fn kind_of(n: Seq<char>) -> ChildKind {
    if n == "status"@ {
        ChildKind::Status
    } else     if n == "title"@ {
        ChildKind::Title
    } else     if n == "description"@ {
        ChildKind::Description
    } else     if n == "notice"@ {
        ChildKind::Notice
    } else     if n == "front-matter"@ {
        ChildKind::FrontMatter
    } else     if n == "rear-matter"@ {
        ChildKind::RearMatter
    } else     if n == "reference"@ {
        ChildKind::Reference
    } else     if n == "plain-text"@ {
        ChildKind::PlainText
    } else     if n == "platform-specification"@ {
        ChildKind::PlatformSpecification
    } else     if n == "platform"@ {
        ChildKind::Platform
    } else     if n == "version"@ {
        ChildKind::Version
    } else     if n == "metadata"@ {
        ChildKind::Metadata
    } else     if n == "model"@ {
        ChildKind::Model
    } else     if n == "Profile"@ {
        ChildKind::Profile
    } else     if n == "Value"@ {
        ChildKind::Value
    } else     if n == "Group"@ {
        ChildKind::Group
    } else     if n == "Rule"@ {
        ChildKind::Rule
    } else     if n == "TestResult"@ {
        ChildKind::TestResult
    } else     if n == "select"@ {
        ChildKind::Select
    } else     if n == "set-complex-value"@ {
        ChildKind::SetComplexValue
    } else     if n == "set-value"@ {
        ChildKind::SetValue
    } else     if n == "refine-value"@ {
        ChildKind::RefineValue
    } else     if n == "refine-rule"@ {
        ChildKind::RefineRule
    } else     if n == "warning"@ {
        ChildKind::Warning
    } else     if n == "question"@ {
        ChildKind::Question
    } else     if n == "rationale"@ {
        ChildKind::Rationale
    } else     if n == "requires"@ {
        ChildKind::Requires
    } else     if n == "conflicts"@ {
        ChildKind::Conflicts
    } else     if n == "ident"@ {
        ChildKind::Ident
    } else     if n == "profile-note"@ {
        ChildKind::ProfileNote
    } else     if n == "fixtext"@ {
        ChildKind::FixText
    } else     if n == "fix"@ {
        ChildKind::Fix
    } else     if n == "check"@ {
        ChildKind::Check
    } else     if n == "complex-check"@ {
        ChildKind::ComplexCheck
    } else     if n == "contributor"@ {
        ChildKind::Contributor
    } else     if n == "publisher"@ {
        ChildKind::Publisher
    } else     if n == "creator"@ {
        ChildKind::Creator
    } else     if n == "source"@ {
        ChildKind::Source
    } else {
        ChildKind::Unknown
    }
}

/// The kind of an element with local name `n`.
pub fn child_kind(n: &str) -> (r: ChildKind)
    ensures
        r == kind_of(n@),
{
    if str_eq(n, "status") {
        ChildKind::Status
    } else     if str_eq(n, "title") {
        ChildKind::Title
    } else     if str_eq(n, "description") {
        ChildKind::Description
    } else     if str_eq(n, "notice") {
        ChildKind::Notice
    } else     if str_eq(n, "front-matter") {
        ChildKind::FrontMatter
    } else     if str_eq(n, "rear-matter") {
        ChildKind::RearMatter
    } else     if str_eq(n, "reference") {
        ChildKind::Reference
    } else     if str_eq(n, "plain-text") {
        ChildKind::PlainText
    } else     if str_eq(n, "platform-specification") {
        ChildKind::PlatformSpecification
    } else     if str_eq(n, "platform") {
        ChildKind::Platform
    } else     if str_eq(n, "version") {
        ChildKind::Version
    } else     if str_eq(n, "metadata") {
        ChildKind::Metadata
    } else     if str_eq(n, "model") {
        ChildKind::Model
    } else     if str_eq(n, "Profile") {
        ChildKind::Profile
    } else     if str_eq(n, "Value") {
        ChildKind::Value
    } else     if str_eq(n, "Group") {
        ChildKind::Group
    } else     if str_eq(n, "Rule") {
        ChildKind::Rule
    } else     if str_eq(n, "TestResult") {
        ChildKind::TestResult
    } else     if str_eq(n, "select") {
        ChildKind::Select
    } else     if str_eq(n, "set-complex-value") {
        ChildKind::SetComplexValue
    } else     if str_eq(n, "set-value") {
        ChildKind::SetValue
    } else     if str_eq(n, "refine-value") {
        ChildKind::RefineValue
    } else     if str_eq(n, "refine-rule") {
        ChildKind::RefineRule
    } else     if str_eq(n, "warning") {
        ChildKind::Warning
    } else     if str_eq(n, "question") {
        ChildKind::Question
    } else     if str_eq(n, "rationale") {
        ChildKind::Rationale
    } else     if str_eq(n, "requires") {
        ChildKind::Requires
    } else     if str_eq(n, "conflicts") {
        ChildKind::Conflicts
    } else     if str_eq(n, "ident") {
        ChildKind::Ident
    } else     if str_eq(n, "profile-note") {
        ChildKind::ProfileNote
    } else     if str_eq(n, "fixtext") {
        ChildKind::FixText
    } else     if str_eq(n, "fix") {
        ChildKind::Fix
    } else     if str_eq(n, "check") {
        ChildKind::Check
    } else     if str_eq(n, "complex-check") {
        ChildKind::ComplexCheck
    } else     if str_eq(n, "contributor") {
        ChildKind::Contributor
    } else     if str_eq(n, "publisher") {
        ChildKind::Publisher
    } else     if str_eq(n, "creator") {
        ChildKind::Creator
    } else     if str_eq(n, "source") {
        ChildKind::Source
    } else {
        ChildKind::Unknown
    }
}

/// The element children among `nodes` that are of kind `k`, in order.
pub open spec fn kind_children(nodes: Seq<XmlNode>, k: ChildKind) -> Seq<XmlElement>
    decreases nodes.len(),
{
    if nodes.len() == 0 {
        Seq::empty()
    } else if nodes.last() is Element && kind_of(nodes.last()->Element_0.name@) == k {
        kind_children(nodes.drop_last(), k).push(nodes.last()->Element_0)
    } else {
        kind_children(nodes.drop_last(), k)
    }
}

/// How many element children among `nodes` are of kind `k`.
pub open spec fn count_kind(nodes: Seq<XmlNode>, k: ChildKind) -> nat {
    kind_children(nodes, k).len()
}

/// A prefix of `nodes` holds no more children of a kind than `nodes` does.
pub proof fn lemma_count_prefix(nodes: Seq<XmlNode>, i: int, k: ChildKind)
    requires
        0 <= i <= nodes.len(),
    ensures
        count_kind(nodes.take(i), k) <= count_kind(nodes, k),
    decreases nodes.len() - i,
{
    if i < nodes.len() {
        lemma_take_last(nodes, i);
        lemma_count_prefix(nodes, i + 1, k);
    } else {
        assert(nodes.take(i) =~= nodes);
    }
}

/// Whether `el` has the attribute `name`.
pub open spec fn has_attr(el: XmlElement, name: Seq<char>) -> bool {
    attr_spec(el, name) is Some
}

/// The text of a required attribute, or the empty text when it is absent.
pub open spec fn attr_text(el: XmlElement, name: Seq<char>) -> Seq<char> {
    match attr_spec(el, name) {
        Some(v) => v,
        None => Seq::empty(),
    }
}

/// Whether the attribute `name`, when present, is `true` or `false`.
pub open spec fn bool_attr_ok(el: XmlElement, name: Seq<char>) -> bool {
    match attr_spec(el, name) {
        Some(s) => s == "true"@ || s == "false"@,
        None => true,
    }
}

/// The boolean that the attribute `name` holds, `d` when it is absent.
pub open spec fn bool_attr(el: XmlElement, name: Seq<char>, d: bool) -> bool {
    match attr_spec(el, name) {
        Some(s) => s == "true"@,
        None => d,
    }
}

/// The text of the attribute `name`, `d` when it is absent.
pub open spec fn attr_or(el: XmlElement, name: Seq<char>, d: Seq<char>) -> Seq<char> {
    match attr_spec(el, name) {
        Some(s) => s,
        None => d,
    }
}

/// The values that a `status` element may hold.
pub open spec fn status_values() -> Seq<&'static str> {
    seq!["incomplete", "draft", "interim", "accepted", "deprecated"]
}

/// The values of a rule's `role` attribute.
pub open spec fn role_values() -> Seq<&'static str> {
    seq!["full", "unscored", "unchecked"]
}

/// The values of a rule's `severity` attribute.
pub open spec fn severity_values() -> Seq<&'static str> {
    seq!["unknown", "info", "low", "medium", "high"]
}

fn status_options() -> (r: Vec<&'static str>)
    ensures
        r@ == status_values(),
{
    let mut v: Vec<&'static str> = Vec::new();
    v.push("incomplete");
    v.push("draft");
    v.push("interim");
    v.push("accepted");
    v.push("deprecated");
    v
}

fn role_options() -> (r: Vec<&'static str>)
    ensures
        r@ == role_values(),
{
    let mut v: Vec<&'static str> = Vec::new();
    v.push("full");
    v.push("unscored");
    v.push("unchecked");
    v
}

fn severity_options() -> (r: Vec<&'static str>)
    ensures
        r@ == severity_values(),
{
    let mut v: Vec<&'static str> = Vec::new();
    v.push("unknown");
    v.push("info");
    v.push("low");
    v.push("medium");
    v.push("high");
    v
}

/// Whether a `status` element holds one of the allowed values.
pub open spec fn status_ok(el: XmlElement) -> bool {
    one_of(text_spec(el), status_values())
}

/// Whether a `select` element names its target and says whether it is selected.
pub open spec fn select_ok(el: XmlElement) -> bool {
    has_attr(el, "idref"@) && has_attr(el, "selected"@) && bool_attr_ok(el, "selected"@)
}

/// Whether a child of kind `k` that has no nested content to check is well formed.
pub open spec fn leaf_ok(k: ChildKind, c: XmlElement) -> bool {
    match k {
        ChildKind::Status => status_ok(c),
        ChildKind::Notice => has_attr(c, "id"@),
        ChildKind::Platform => has_attr(c, "idref"@),
        ChildKind::Value => has_attr(c, "id"@),
        ChildKind::TestResult => has_attr(c, "id"@),
        ChildKind::Conflicts => has_attr(c, "idref"@),
        ChildKind::Ident => has_attr(c, "system"@),
        ChildKind::Select => select_ok(c),
        _ => true,
    }
}

/// The message of a `select` element that is not well formed.
pub open spec fn select_err(el: XmlElement) -> Seq<char> {
    if !has_attr(el, "idref"@) {
        missing_attr_msg(el.name@, "idref"@)
    } else if !has_attr(el, "selected"@) {
        missing_attr_msg(el.name@, "selected"@)
    } else {
        unparsable_msg(el.name@, "selected"@, attr_text(el, "selected"@))
    }
}

/// The message that a child of kind `k` with no nested content to check fails with.
pub open spec fn leaf_err(k: ChildKind, c: XmlElement) -> Seq<char> {
    match k {
        ChildKind::Status => "Unexpected xccdf:status value: '"@ + text_spec(c),
        ChildKind::Notice => missing_attr_msg(c.name@, "id"@),
        ChildKind::Value => missing_attr_msg(c.name@, "id"@),
        ChildKind::TestResult => missing_attr_msg(c.name@, "id"@),
        ChildKind::Platform => missing_attr_msg(c.name@, "idref"@),
        ChildKind::Conflicts => missing_attr_msg(c.name@, "idref"@),
        ChildKind::Ident => missing_attr_msg(c.name@, "system"@),
        ChildKind::Select => select_err(c),
        _ => Seq::empty(),
    }
}

/// The message for the boolean attribute `name` whose text does not parse.
pub open spec fn bool_attr_err(el: XmlElement, name: Seq<char>) -> Seq<char> {
    unparsable_msg(el.name@, name, attr_text(el, name))
}

/// The message for a child that its parent does not allow.
pub open spec fn unexpected_msg(owner: Seq<char>, id: Seq<char>, name: Seq<char>) -> Seq<char> {
    owner + " '"@ + id + "': unexpected element '"@ + name + "'"@
}

/// The message of a group or rule whose shared attributes are not well formed.
pub open spec fn item_attrs_err(el: XmlElement) -> Seq<char> {
    if !has_attr(el, "id"@) {
        missing_attr_msg(el.name@, "id"@)
    } else if !bool_attr_ok(el, "abstract"@) {
        bool_attr_err(el, "abstract"@)
    } else if !bool_attr_ok(el, "hidden"@) {
        bool_attr_err(el, "hidden"@)
    } else if !bool_attr_ok(el, "prohibitChanges"@) {
        bool_attr_err(el, "prohibitChanges"@)
    } else if !bool_attr_ok(el, "selected"@) {
        bool_attr_err(el, "selected"@)
    } else {
        unparsable_msg(el.name@, "weight"@, attr_text(el, "weight"@))
    }
}

/// Whether an element of kind `k` may appear inside `Benchmark`.
pub open spec fn in_benchmark(k: ChildKind) -> bool {
    k is Status
        || k is Title
        || k is Description
        || k is Notice
        || k is FrontMatter
        || k is RearMatter
        || k is Reference
        || k is PlainText
        || k is PlatformSpecification
        || k is Platform
        || k is Version
        || k is Metadata
        || k is Model
        || k is Profile
        || k is Value
        || k is Group
        || k is Rule
        || k is TestResult
}

/// Whether an element of kind `k` may appear inside `Profile`.
pub open spec fn in_profile(k: ChildKind) -> bool {
    k is Status
        || k is Version
        || k is Title
        || k is Description
        || k is Reference
        || k is Platform
        || k is Select
        || k is SetComplexValue
        || k is SetValue
        || k is RefineValue
        || k is RefineRule
}

/// Whether an element of kind `k` may appear inside `Group`.
pub open spec fn in_group(k: ChildKind) -> bool {
    k is Status
        || k is Version
        || k is Title
        || k is Description
        || k is Warning
        || k is Question
        || k is Reference
        || k is Metadata
        || k is Rationale
        || k is Platform
        || k is Requires
        || k is Conflicts
        || k is Value
        || k is Group
        || k is Rule
}

/// Whether an element of kind `k` may appear inside `Rule`.
pub open spec fn in_rule(k: ChildKind) -> bool {
    k is Status
        || k is Version
        || k is Title
        || k is Description
        || k is Warning
        || k is Question
        || k is Reference
        || k is Metadata
        || k is Rationale
        || k is Platform
        || k is Requires
        || k is Conflicts
        || k is Ident
        || k is ProfileNote
        || k is FixText
        || k is Fix
        || k is Check
        || k is ComplexCheck
}

/// Whether the attributes that groups and rules share are well formed.
pub open spec fn item_attrs_ok(el: XmlElement) -> bool {
    &&& has_attr(el, "id"@)
    &&& bool_attr_ok(el, "abstract"@)
    &&& bool_attr_ok(el, "hidden"@)
    &&& bool_attr_ok(el, "prohibitChanges"@)
    &&& bool_attr_ok(el, "selected"@)
    &&& (attr_spec(el, "weight"@) matches Some(s) ==> is_decimal(s))
}

/// Whether a `Rule` element and all it holds are well formed.
pub open spec fn rule_ok(el: XmlElement) -> bool {
    &&& item_attrs_ok(el)
    &&& one_of(attr_or(el, "role"@, "full"@), role_values())
    &&& one_of(attr_or(el, "severity"@, "unknown"@), severity_values())
    &&& bool_attr_ok(el, "multiple"@)
    &&& count_kind(el.nodes@, ChildKind::Version) <= 1
    &&& forall|i: int|
        0 <= i < el.nodes@.len() && #[trigger] el.nodes@[i] is Element ==> {
            let c = el.nodes@[i]->Element_0;
            in_rule(kind_of(c.name@)) && leaf_ok(kind_of(c.name@), c)
        }
}

/// Whether a `Profile` element and all it holds are well formed.
pub open spec fn profile_ok(el: XmlElement) -> bool {
    &&& has_attr(el, "id"@)
    &&& bool_attr_ok(el, "prohibitChanges"@)
    &&& bool_attr_ok(el, "abstract"@)
    &&& count_kind(el.nodes@, ChildKind::Version) <= 1
    &&& count_kind(el.nodes@, ChildKind::Title) >= 1
    &&& forall|i: int|
        0 <= i < el.nodes@.len() && #[trigger] el.nodes@[i] is Element ==> {
            let c = el.nodes@[i]->Element_0;
            in_profile(kind_of(c.name@)) && leaf_ok(kind_of(c.name@), c)
        }
}

/// Whether a child of a `Group` is well formed, nested groups included.
pub open spec fn group_child_ok(c: XmlElement) -> bool
    decreases c, 1int,
{
    let k = kind_of(c.name@);
    if k is Group {
        group_ok(c)
    } else if k is Rule {
        rule_ok(c)
    } else {
        in_group(k) && leaf_ok(k, c)
    }
}

/// Whether a `Group` element and all it holds are well formed.
pub open spec fn group_ok(el: XmlElement) -> bool
    decreases el, 0int,
{
    &&& item_attrs_ok(el)
    &&& count_kind(el.nodes@, ChildKind::Version) <= 1
    &&& forall|i: int|
        0 <= i < el.nodes@.len() && #[trigger] el.nodes@[i] is Element ==> {
            group_child_ok(el.nodes@[i]->Element_0)
        }
}

/// Whether a child of a `Benchmark` is well formed.
pub open spec fn benchmark_child_ok(c: XmlElement) -> bool {
    let k = kind_of(c.name@);
    if k is Profile {
        profile_ok(c)
    } else if k is Group {
        group_ok(c)
    } else if k is Rule {
        rule_ok(c)
    } else {
        in_benchmark(k) && leaf_ok(k, c)
    }
}

/// Whether a `Benchmark` element and all it holds are well formed.
pub open spec fn benchmark_ok(el: XmlElement) -> bool {
    &&& is_spec(el, "Benchmark"@, XCCDF12_NS@)
    &&& has_attr(el, "id"@)
    &&& bool_attr_ok(el, "resolved"@)
    &&& count_kind(el.nodes@, ChildKind::Status) >= 1
    &&& count_kind(el.nodes@, ChildKind::Version) == 1
    &&& count_kind(el.nodes@, ChildKind::PlatformSpecification) <= 1
    &&& forall|i: int|
        0 <= i < el.nodes@.len() && #[trigger] el.nodes@[i] is Element ==> benchmark_child_ok(
            el.nodes@[i]->Element_0,
        )
}

/// A `title` element, kept as its text.
#[derive(Debug, PartialEq)]
pub struct Title {
    pub title: String,
}

impl Title {
    /// Whether this value holds what the element `el` says.
    pub open spec fn built_from(self, el: XmlElement) -> bool {
        self.title@ == text_spec(el)
    }

    /// Reads the element; this never fails.
    pub fn from_xml(el: &XmlElement) -> (r: Result<Title, String>)
        ensures
            r matches Ok(x) && x.built_from(*el),
    {
        Ok(Title { title: el.text() })
    }
}

/// A `description` element, kept as its content flattened to plain text.
#[derive(Debug, PartialEq)]
pub struct Description {
    pub text: String,
}

impl Description {
    /// Whether this value holds what the element `el` says.
    pub open spec fn built_from(self, el: XmlElement) -> bool {
        self.text@ == html_text(el.nodes@)
    }

    /// Reads the element; this never fails.
    pub fn from_xml(el: &XmlElement) -> (r: Result<Description, String>)
        ensures
            r matches Ok(x) && x.built_from(*el),
    {
        Ok(Description { text: html_to_string(el) })
    }
}

/// A `front-matter` element, kept as its text.
#[derive(Debug, PartialEq)]
pub struct FrontMatter {
    pub text: String,
}

impl FrontMatter {
    /// Whether this value holds what the element `el` says.
    pub open spec fn built_from(self, el: XmlElement) -> bool {
        self.text@ == text_spec(el)
    }

    /// Reads the element; this never fails.
    pub fn from_xml(el: &XmlElement) -> (r: Result<FrontMatter, String>)
        ensures
            r matches Ok(x) && x.built_from(*el),
    {
        Ok(FrontMatter { text: el.text() })
    }
}

/// A `rear-matter` element, kept as its text.
#[derive(Debug, PartialEq)]
pub struct RearMatter {
    pub text: String,
}

impl RearMatter {
    /// Whether this value holds what the element `el` says.
    pub open spec fn built_from(self, el: XmlElement) -> bool {
        self.text@ == text_spec(el)
    }

    /// Reads the element; this never fails.
    pub fn from_xml(el: &XmlElement) -> (r: Result<RearMatter, String>)
        ensures
            r matches Ok(x) && x.built_from(*el),
    {
        Ok(RearMatter { text: el.text() })
    }
}

/// A `reference` element, kept as its text.
#[derive(Debug, PartialEq)]
pub struct Reference {
    pub text: String,
}

impl Reference {
    /// Whether this value holds what the element `el` says.
    pub open spec fn built_from(self, el: XmlElement) -> bool {
        self.text@ == text_spec(el)
    }

    /// Reads the element; this never fails.
    pub fn from_xml(el: &XmlElement) -> (r: Result<Reference, String>)
        ensures
            r matches Ok(x) && x.built_from(*el),
    {
        Ok(Reference { text: el.text() })
    }
}

/// A `plain-text` element, kept as its text.
#[derive(Debug, PartialEq)]
pub struct PlainText {
    pub text: String,
}

impl PlainText {
    /// Whether this value holds what the element `el` says.
    pub open spec fn built_from(self, el: XmlElement) -> bool {
        self.text@ == text_spec(el)
    }

    /// Reads the element; this never fails.
    pub fn from_xml(el: &XmlElement) -> (r: Result<PlainText, String>)
        ensures
            r matches Ok(x) && x.built_from(*el),
    {
        Ok(PlainText { text: el.text() })
    }
}

/// A `platform-specification` element, kept as its text.
#[derive(Debug, PartialEq)]
pub struct PlatformSpecification {
    pub text: String,
}

impl PlatformSpecification {
    /// Whether this value holds what the element `el` says.
    pub open spec fn built_from(self, el: XmlElement) -> bool {
        self.text@ == text_spec(el)
    }

    /// Reads the element; this never fails.
    pub fn from_xml(el: &XmlElement) -> (r: Result<PlatformSpecification, String>)
        ensures
            r matches Ok(x) && x.built_from(*el),
    {
        Ok(PlatformSpecification { text: el.text() })
    }
}

/// A `version` element, kept as its text.
#[derive(Debug, PartialEq)]
pub struct Version {
    pub text: String,
}

impl Version {
    /// Whether this value holds what the element `el` says.
    pub open spec fn built_from(self, el: XmlElement) -> bool {
        self.text@ == text_spec(el)
    }

    /// Reads the element; this never fails.
    pub fn from_xml(el: &XmlElement) -> (r: Result<Version, String>)
        ensures
            r matches Ok(x) && x.built_from(*el),
    {
        Ok(Version { text: el.text() })
    }
}

/// A `model` element, kept as its text.
#[derive(Debug, PartialEq)]
pub struct Model {
    pub text: String,
}

impl Model {
    /// Whether this value holds what the element `el` says.
    pub open spec fn built_from(self, el: XmlElement) -> bool {
        self.text@ == text_spec(el)
    }

    /// Reads the element; this never fails.
    pub fn from_xml(el: &XmlElement) -> (r: Result<Model, String>)
        ensures
            r matches Ok(x) && x.built_from(*el),
    {
        Ok(Model { text: el.text() })
    }
}

/// A `set-complex-value` element, kept as its text.
#[derive(Debug, PartialEq)]
pub struct SetComplexValue {
    pub text: String,
}

impl SetComplexValue {
    /// Whether this value holds what the element `el` says.
    pub open spec fn built_from(self, el: XmlElement) -> bool {
        self.text@ == text_spec(el)
    }

    /// Reads the element; this never fails.
    pub fn from_xml(el: &XmlElement) -> (r: Result<SetComplexValue, String>)
        ensures
            r matches Ok(x) && x.built_from(*el),
    {
        Ok(SetComplexValue { text: el.text() })
    }
}

/// A `set-value` element, kept as its text.
#[derive(Debug, PartialEq)]
pub struct SetValue {
    pub text: String,
}

impl SetValue {
    /// Whether this value holds what the element `el` says.
    pub open spec fn built_from(self, el: XmlElement) -> bool {
        self.text@ == text_spec(el)
    }

    /// Reads the element; this never fails.
    pub fn from_xml(el: &XmlElement) -> (r: Result<SetValue, String>)
        ensures
            r matches Ok(x) && x.built_from(*el),
    {
        Ok(SetValue { text: el.text() })
    }
}

/// A `refine-value` element, kept as its text.
#[derive(Debug, PartialEq)]
pub struct RefineValue {
    pub text: String,
}

impl RefineValue {
    /// Whether this value holds what the element `el` says.
    pub open spec fn built_from(self, el: XmlElement) -> bool {
        self.text@ == text_spec(el)
    }

    /// Reads the element; this never fails.
    pub fn from_xml(el: &XmlElement) -> (r: Result<RefineValue, String>)
        ensures
            r matches Ok(x) && x.built_from(*el),
    {
        Ok(RefineValue { text: el.text() })
    }
}

/// A `refine-rule` element, kept as its text.
#[derive(Debug, PartialEq)]
pub struct RefineRule {
    pub text: String,
}

impl RefineRule {
    /// Whether this value holds what the element `el` says.
    pub open spec fn built_from(self, el: XmlElement) -> bool {
        self.text@ == text_spec(el)
    }

    /// Reads the element; this never fails.
    pub fn from_xml(el: &XmlElement) -> (r: Result<RefineRule, String>)
        ensures
            r matches Ok(x) && x.built_from(*el),
    {
        Ok(RefineRule { text: el.text() })
    }
}

/// A `warning` element, kept as its text.
#[derive(Debug, PartialEq)]
pub struct Warning {
    pub text: String,
}

impl Warning {
    /// Whether this value holds what the element `el` says.
    pub open spec fn built_from(self, el: XmlElement) -> bool {
        self.text@ == text_spec(el)
    }

    /// Reads the element; this never fails.
    pub fn from_xml(el: &XmlElement) -> (r: Result<Warning, String>)
        ensures
            r matches Ok(x) && x.built_from(*el),
    {
        Ok(Warning { text: el.text() })
    }
}

/// A `question` element, kept as its text.
#[derive(Debug, PartialEq)]
pub struct Question {
    pub text: String,
}

impl Question {
    /// Whether this value holds what the element `el` says.
    pub open spec fn built_from(self, el: XmlElement) -> bool {
        self.text@ == text_spec(el)
    }

    /// Reads the element; this never fails.
    pub fn from_xml(el: &XmlElement) -> (r: Result<Question, String>)
        ensures
            r matches Ok(x) && x.built_from(*el),
    {
        Ok(Question { text: el.text() })
    }
}

/// A `rationale` element, kept as its text.
#[derive(Debug, PartialEq)]
pub struct Rationale {
    pub text: String,
}

impl Rationale {
    /// Whether this value holds what the element `el` says.
    pub open spec fn built_from(self, el: XmlElement) -> bool {
        self.text@ == text_spec(el)
    }

    /// Reads the element; this never fails.
    pub fn from_xml(el: &XmlElement) -> (r: Result<Rationale, String>)
        ensures
            r matches Ok(x) && x.built_from(*el),
    {
        Ok(Rationale { text: el.text() })
    }
}

/// A `requires` element, kept as its text.
#[derive(Debug, PartialEq)]
pub struct Requires {
    pub text: String,
}

impl Requires {
    /// Whether this value holds what the element `el` says.
    pub open spec fn built_from(self, el: XmlElement) -> bool {
        self.text@ == text_spec(el)
    }

    /// Reads the element; this never fails.
    pub fn from_xml(el: &XmlElement) -> (r: Result<Requires, String>)
        ensures
            r matches Ok(x) && x.built_from(*el),
    {
        Ok(Requires { text: el.text() })
    }
}

/// A `profile-note` element, kept as its text.
#[derive(Debug, PartialEq)]
pub struct ProfileNote {
    pub text: String,
}

impl ProfileNote {
    /// Whether this value holds what the element `el` says.
    pub open spec fn built_from(self, el: XmlElement) -> bool {
        self.text@ == text_spec(el)
    }

    /// Reads the element; this never fails.
    pub fn from_xml(el: &XmlElement) -> (r: Result<ProfileNote, String>)
        ensures
            r matches Ok(x) && x.built_from(*el),
    {
        Ok(ProfileNote { text: el.text() })
    }
}

/// A `fixtext` element, kept as its text.
#[derive(Debug, PartialEq)]
pub struct FixText {
    pub text: String,
}

impl FixText {
    /// Whether this value holds what the element `el` says.
    pub open spec fn built_from(self, el: XmlElement) -> bool {
        self.text@ == text_spec(el)
    }

    /// Reads the element; this never fails.
    pub fn from_xml(el: &XmlElement) -> (r: Result<FixText, String>)
        ensures
            r matches Ok(x) && x.built_from(*el),
    {
        Ok(FixText { text: el.text() })
    }
}

/// A `fix` element, kept as its text.
#[derive(Debug, PartialEq)]
pub struct Fix {
    pub text: String,
}

impl Fix {
    /// Whether this value holds what the element `el` says.
    pub open spec fn built_from(self, el: XmlElement) -> bool {
        self.text@ == text_spec(el)
    }

    /// Reads the element; this never fails.
    pub fn from_xml(el: &XmlElement) -> (r: Result<Fix, String>)
        ensures
            r matches Ok(x) && x.built_from(*el),
    {
        Ok(Fix { text: el.text() })
    }
}

/// A `check` element, kept as its text.
#[derive(Debug, PartialEq)]
pub struct Check {
    pub text: String,
}

impl Check {
    /// Whether this value holds what the element `el` says.
    pub open spec fn built_from(self, el: XmlElement) -> bool {
        self.text@ == text_spec(el)
    }

    /// Reads the element; this never fails.
    pub fn from_xml(el: &XmlElement) -> (r: Result<Check, String>)
        ensures
            r matches Ok(x) && x.built_from(*el),
    {
        Ok(Check { text: el.text() })
    }
}

/// A `complex-check` element, kept as its text.
#[derive(Debug, PartialEq)]
pub struct ComplexCheck {
    pub text: String,
}

impl ComplexCheck {
    /// Whether this value holds what the element `el` says.
    pub open spec fn built_from(self, el: XmlElement) -> bool {
        self.text@ == text_spec(el)
    }

    /// Reads the element; this never fails.
    pub fn from_xml(el: &XmlElement) -> (r: Result<ComplexCheck, String>)
        ensures
            r matches Ok(x) && x.built_from(*el),
    {
        Ok(ComplexCheck { text: el.text() })
    }
}

/// A `platform` element, kept by its `idref` attribute.
#[derive(Debug, PartialEq)]
pub struct Platform {
    pub idref: String,
}

impl Platform {
    /// Whether this value holds what the element `el` says.
    pub open spec fn built_from(self, el: XmlElement) -> bool {
        attr_spec(el, "idref"@) == Some(self.idref@)
    }

    /// Reads the element, which must carry the attribute.
    pub fn from_xml(el: &XmlElement) -> (r: Result<Platform, String>)
        ensures
            r is Ok <==> has_attr(*el, "idref"@),
            r matches Ok(x) ==> x.built_from(*el),
            !has_attr(*el, "idref"@) ==> err_is(r, missing_attr_msg(el.name@, "idref"@)),
    {
        let idref = match require_attr(el, "idref") {
            Ok(v) => v,
            Err(e) => {
                return Err(e);
            },
        };
        Ok(Platform { idref })
    }
}

/// A `Value` element, kept by its `id` attribute.
#[derive(Debug, PartialEq)]
pub struct Value {
    pub id: String,
}

impl Value {
    /// Whether this value holds what the element `el` says.
    pub open spec fn built_from(self, el: XmlElement) -> bool {
        attr_spec(el, "id"@) == Some(self.id@)
    }

    /// Reads the element, which must carry the attribute.
    pub fn from_xml(el: &XmlElement) -> (r: Result<Value, String>)
        ensures
            r is Ok <==> has_attr(*el, "id"@),
            r matches Ok(x) ==> x.built_from(*el),
            !has_attr(*el, "id"@) ==> err_is(r, missing_attr_msg(el.name@, "id"@)),
    {
        let id = match require_attr(el, "id") {
            Ok(v) => v,
            Err(e) => {
                return Err(e);
            },
        };
        Ok(Value { id })
    }
}

/// A `TestResult` element, kept by its `id` attribute.
#[derive(Debug, PartialEq)]
pub struct TestResult {
    pub id: String,
}

impl TestResult {
    /// Whether this value holds what the element `el` says.
    pub open spec fn built_from(self, el: XmlElement) -> bool {
        attr_spec(el, "id"@) == Some(self.id@)
    }

    /// Reads the element, which must carry the attribute.
    pub fn from_xml(el: &XmlElement) -> (r: Result<TestResult, String>)
        ensures
            r is Ok <==> has_attr(*el, "id"@),
            r matches Ok(x) ==> x.built_from(*el),
            !has_attr(*el, "id"@) ==> err_is(r, missing_attr_msg(el.name@, "id"@)),
    {
        let id = match require_attr(el, "id") {
            Ok(v) => v,
            Err(e) => {
                return Err(e);
            },
        };
        Ok(TestResult { id })
    }
}

/// A `conflicts` element, kept by its `idref` attribute.
#[derive(Debug, PartialEq)]
pub struct Conflicts {
    pub idref: String,
}

impl Conflicts {
    /// Whether this value holds what the element `el` says.
    pub open spec fn built_from(self, el: XmlElement) -> bool {
        attr_spec(el, "idref"@) == Some(self.idref@)
    }

    /// Reads the element, which must carry the attribute.
    pub fn from_xml(el: &XmlElement) -> (r: Result<Conflicts, String>)
        ensures
            r is Ok <==> has_attr(*el, "idref"@),
            r matches Ok(x) ==> x.built_from(*el),
            !has_attr(*el, "idref"@) ==> err_is(r, missing_attr_msg(el.name@, "idref"@)),
    {
        let idref = match require_attr(el, "idref") {
            Ok(v) => v,
            Err(e) => {
                return Err(e);
            },
        };
        Ok(Conflicts { idref })
    }
}

/// The concatenation of three strings.
fn concat3(a: &str, b: &str, c: &str) -> (r: String)
    ensures
        r@ == a@ + b@ + c@,
{
    let mut m = String::from_str(a);
    m.append(b);
    m.append(c);
    m
}

/// The message for a child element that its parent does not allow.
fn unexpected_in(owner: &str, id: &str, name: &str) -> (r: String)
    ensures
        r@ == owner@ + " '"@ + id@ + "': unexpected element '"@ + name@ + "'"@,
{
    let mut m = String::from_str(owner);
    m.append(" '");
    m.append(id);
    m.append("': unexpected element '");
    m.append(name);
    m.append("'");
    m
}

/// A `status` element: a lifecycle state and its optional date.
#[derive(Debug, PartialEq)]
pub struct Status {
    pub date: Option<String>,
    pub status: String,
}

impl Status {
    /// Whether this value holds what the element `el` says.
    pub open spec fn built_from(self, el: XmlElement) -> bool {
        self.status@ == text_spec(el) && opt_view(self.date) == attr_spec(el, "date"@)
    }

    /// Reads the element; its text must be one of the allowed states.
    pub fn from_xml(el: &XmlElement) -> (r: Result<Status, String>)
        ensures
            r is Ok <==> status_ok(*el),
            r matches Ok(x) ==> x.built_from(*el),
            !status_ok(*el) ==> err_is(r, "Unexpected xccdf:status value: '"@ + text_spec(*el)),
    {
        let date = get_attr(el, "date");
        let status = el.text();
        let allowed = status_options();
        let mut i: usize = 0;
        while i < allowed.len()
            invariant
                allowed@ == status_values(),
                i <= allowed@.len(),
                status@ == text_spec(*el),
                opt_view(date) == attr_spec(*el, "date"@),
                forall|j: int| 0 <= j < i ==> allowed@[j]@ != status@,
            decreases allowed@.len() - i,
        {
            if str_eq(allowed[i], status.as_str()) {
                return Ok(Status { date, status });
            }
            i = i + 1;
        }
        let mut m = String::from_str("Unexpected xccdf:status value: '");
        m.append(status.as_str());
        Err(m)
    }
}

/// A `notice` element: legal text under an identifier.
#[derive(Debug, PartialEq)]
pub struct Notice {
    pub id: String,
    pub text: String,
}

impl Notice {
    /// Whether this value holds what the element `el` says.
    pub open spec fn built_from(self, el: XmlElement) -> bool {
        attr_spec(el, "id"@) == Some(self.id@) && self.text@ == text_spec(el)
    }

    /// Reads the element, which must carry an `id`.
    pub fn from_xml(el: &XmlElement) -> (r: Result<Notice, String>)
        ensures
            r is Ok <==> has_attr(*el, "id"@),
            r matches Ok(x) ==> x.built_from(*el),
            !has_attr(*el, "id"@) ==> err_is(r, missing_attr_msg(el.name@, "id"@)),
    {
        let id = match require_attr(el, "id") {
            Ok(v) => v,
            Err(e) => {
                return Err(e);
            },
        };
        let text = el.text();
        Ok(Notice { id, text })
    }
}

/// An `ident` element: an identifier in a named system.
#[derive(Debug, PartialEq)]
pub struct Ident {
    pub text: String,
    pub system: String,
}

impl Ident {
    /// Whether this value holds what the element `el` says.
    pub open spec fn built_from(self, el: XmlElement) -> bool {
        attr_spec(el, "system"@) == Some(self.system@) && self.text@ == text_spec(el)
    }

    /// Reads the element, which must carry a `system`.
    pub fn from_xml(el: &XmlElement) -> (r: Result<Ident, String>)
        ensures
            r is Ok <==> has_attr(*el, "system"@),
            r matches Ok(x) ==> x.built_from(*el),
            !has_attr(*el, "system"@) ==> err_is(r, missing_attr_msg(el.name@, "system"@)),
    {
        let text = el.text();
        let system = match require_attr(el, "system") {
            Ok(v) => v,
            Err(e) => {
                return Err(e);
            },
        };
        Ok(Ident { text, system })
    }
}

/// A `select` element of a profile: whether an item is selected.
#[derive(Debug, PartialEq)]
pub struct Select {
    pub idref: String,
    pub selected: bool,
}

impl Select {
    /// Whether this value holds what the element `el` says.
    pub open spec fn built_from(self, el: XmlElement) -> bool {
        attr_spec(el, "idref"@) == Some(self.idref@) && self.selected == bool_attr(
            el,
            "selected"@,
            false,
        )
    }

    /// Reads the element; `selected` must be present and boolean.
    pub fn from_xml(el: &XmlElement) -> (r: Result<Select, String>)
        ensures
            r is Ok <==> select_ok(*el),
            r matches Ok(x) ==> x.built_from(*el),
            !select_ok(*el) ==> err_is(r, select_err(*el)),
    {
        let idref = match require_attr(el, "idref") {
            Ok(v) => v,
            Err(e) => {
                return Err(e);
            },
        };
        if let Err(e) = require_attr(el, "selected") {
            return Err(e);
        }
        let selected = match get_attr_default(el, "selected", false) {
            Ok(v) => v,
            Err(e) => {
                return Err(e);
            },
        };
        Ok(Select { idref, selected })
    }
}

/// The people and sources credited for a piece of content.
#[derive(Debug, PartialEq)]
pub struct Metadata {
    pub contributors: Vec<String>,
    pub publishers: Vec<String>,
    pub creators: Vec<String>,
    pub sources: Vec<String>,
}

impl Metadata {
    /// Whether this value holds the names of each kind that the element `el` credits.
    pub open spec fn built_from(self, el: XmlElement) -> bool {
        &&& self.contributors@.len() == count_kind(el.nodes@, ChildKind::Contributor)
        &&& forall|j: int|
            0 <= j < self.contributors@.len() ==> (#[trigger] self.contributors@[j])@ == text_spec(
                kind_children(el.nodes@, ChildKind::Contributor)[j],
            )
        &&& self.publishers@.len() == count_kind(el.nodes@, ChildKind::Publisher)
        &&& forall|j: int|
            0 <= j < self.publishers@.len() ==> (#[trigger] self.publishers@[j])@ == text_spec(
                kind_children(el.nodes@, ChildKind::Publisher)[j],
            )
        &&& self.creators@.len() == count_kind(el.nodes@, ChildKind::Creator)
        &&& forall|j: int|
            0 <= j < self.creators@.len() ==> (#[trigger] self.creators@[j])@ == text_spec(
                kind_children(el.nodes@, ChildKind::Creator)[j],
            )
        &&& self.sources@.len() == count_kind(el.nodes@, ChildKind::Source)
        &&& forall|j: int|
            0 <= j < self.sources@.len() ==> (#[trigger] self.sources@[j])@ == text_spec(
                kind_children(el.nodes@, ChildKind::Source)[j],
            )
    }

    /// Collects the credited names; other children are ignored.
    pub fn from_xml(el: &XmlElement) -> (r: Result<Metadata, String>)
        ensures
            r matches Ok(x) && x.built_from(*el),
    {
        let mut contributors: Vec<String> = Vec::new();
        let mut publishers: Vec<String> = Vec::new();
        let mut creators: Vec<String> = Vec::new();
        let mut sources: Vec<String> = Vec::new();
        let mut i: usize = 0;
        while i < el.nodes.len()
            invariant
                i <= el.nodes@.len(),
                contributors@.len() == count_kind(el.nodes@.take(i as int), ChildKind::Contributor),
                forall|j: int|
                    0 <= j < contributors@.len() ==> (#[trigger] contributors@[j])@ == text_spec(
                        kind_children(el.nodes@.take(i as int), ChildKind::Contributor)[j],
                    ),
                publishers@.len() == count_kind(el.nodes@.take(i as int), ChildKind::Publisher),
                forall|j: int|
                    0 <= j < publishers@.len() ==> (#[trigger] publishers@[j])@ == text_spec(
                        kind_children(el.nodes@.take(i as int), ChildKind::Publisher)[j],
                    ),
                creators@.len() == count_kind(el.nodes@.take(i as int), ChildKind::Creator),
                forall|j: int|
                    0 <= j < creators@.len() ==> (#[trigger] creators@[j])@ == text_spec(
                        kind_children(el.nodes@.take(i as int), ChildKind::Creator)[j],
                    ),
                sources@.len() == count_kind(el.nodes@.take(i as int), ChildKind::Source),
                forall|j: int|
                    0 <= j < sources@.len() ==> (#[trigger] sources@[j])@ == text_spec(
                        kind_children(el.nodes@.take(i as int), ChildKind::Source)[j],
                    ),
            decreases el.nodes@.len() - i,
        {
            proof {
                lemma_take_last(el.nodes@, i as int);
            }
            if let XmlNode::Element(child) = &el.nodes[i] {
                match child_kind(child.name.as_str()) {
                    ChildKind::Contributor => contributors.push(child.text()),
                    ChildKind::Publisher => publishers.push(child.text()),
                    ChildKind::Creator => creators.push(child.text()),
                    ChildKind::Source => sources.push(child.text()),
                    _ => {},
                }
            }
            i = i + 1;
        }
        proof {
            assert(el.nodes@.take(el.nodes@.len() as int) =~= el.nodes@);
        }
        Ok(Metadata { contributors, publishers, creators, sources })
    }
}

/// Whether the attributes of a `Benchmark` element are well formed.
pub open spec fn benchmark_attrs_ok(el: XmlElement) -> bool {
    is_spec(el, "Benchmark"@, XCCDF12_NS@) && has_attr(el, "id"@) && bool_attr_ok(el, "resolved"@)
}

/// Whether the child at position `i` of a `Benchmark` element is where mapping stops.
pub open spec fn benchmark_fails_at(el: XmlElement, i: int) -> bool {
    &&& 0 <= i < el.nodes@.len()
    &&& el.nodes@[i] is Element
    &&& {
        let c = el.nodes@[i]->Element_0;
        let k = kind_of(c.name@);
        (k is PlatformSpecification && count_kind(el.nodes@.take(i), ChildKind::PlatformSpecification) >= 1) || (k is Version && count_kind(el.nodes@.take(i), ChildKind::Version) >= 1) || !(benchmark_child_ok(c))
    }
}

/// Whether `i` is the first position at which mapping a `Benchmark` element stops.
pub open spec fn benchmark_first_fail(el: XmlElement, i: int) -> bool {
    benchmark_fails_at(el, i) && forall|j: int| 0 <= j < i ==> !(#[trigger] benchmark_fails_at(el, j))
}

/// The message that mapping a `Benchmark` element stops with at the child at position `i`.
pub open spec fn benchmark_fail_msg(el: XmlElement, i: int) -> Seq<char> {
    if 0 <= i < el.nodes@.len() && el.nodes@[i] is Element {
        let c = el.nodes@[i]->Element_0;
        let k = kind_of(c.name@);
        if k is PlatformSpecification && count_kind(el.nodes@.take(i), ChildKind::PlatformSpecification) >= 1 {
            "Duplicate platform elements"@
        } else if k is Version && count_kind(el.nodes@.take(i), ChildKind::Version) >= 1 {
            "Duplicate version elements"@
        } else if !in_benchmark(k) {
            "unexpected element "@ + c.name@
        } else if k is Profile {
            profile_err(c)
        } else if k is Group {
            group_err(c)
        } else if k is Rule {
            rule_err(c)
        } else {
            leaf_err(k, c)
        }
    } else {
        Seq::empty()
    }
}

/// The message that mapping a `Benchmark` element that is not well formed fails with.
pub open spec fn benchmark_err(el: XmlElement) -> Seq<char> {
    if !is_spec(el, "Benchmark"@, XCCDF12_NS@) {
        "Unexpected element '"@ + el.name@ + "', expected xccdf:Benchmark"@
    } else if !has_attr(el, "id"@) {
        missing_attr_msg(el.name@, "id"@)
    } else if !bool_attr_ok(el, "resolved"@) {
        bool_attr_err(el, "resolved"@)
    } else if exists|i: int| benchmark_first_fail(el, i) {
        benchmark_fail_msg(el, choose|i: int| benchmark_first_fail(el, i))
    } else if count_kind(el.nodes@, ChildKind::Status) == 0 {
        "xccdf:Benchmark "@ + attr_text(el, "id"@) + ": missing status element"@
    } else {
        "xccdf:Benchmark "@ + attr_text(el, "id"@) + ": missing version element"@
    }
}

proof fn lemma_benchmark_first_fail(el: XmlElement, i: int)
    requires
        benchmark_fails_at(el, i),
        forall|j: int| 0 <= j < i ==> !(#[trigger] benchmark_fails_at(el, j)),
    ensures
        exists|j: int| benchmark_first_fail(el, j),
        (choose|j: int| benchmark_first_fail(el, j)) == i,
{
    assert(benchmark_first_fail(el, i));
    let j = choose|j: int| benchmark_first_fail(el, j);
    if j < i {
        assert(!benchmark_fails_at(el, j));
    } else if j > i {
        assert(!benchmark_fails_at(el, i));
    }
}

/// An XCCDF benchmark: a checklist with its profiles, values, groups and rules.
#[derive(Debug, PartialEq)]
pub struct Benchmark {
    pub id: String,
    pub resolved: bool,
    pub style: Option<String>,
    pub style_href: Option<String>,
    pub statuses: Vec<Status>,
    pub titles: Vec<Title>,
    pub descriptions: Vec<Description>,
    pub notices: Vec<Notice>,
    pub front_matters: Vec<FrontMatter>,
    pub rear_matters: Vec<RearMatter>,
    pub references: Vec<Reference>,
    pub plain_texts: Vec<PlainText>,
    pub platform_specification: Option<PlatformSpecification>,
    pub platforms: Vec<Platform>,
    pub version: Version,
    pub metadata: Vec<Metadata>,
    pub models: Vec<Model>,
    pub profiles: Vec<Profile>,
    pub values: Vec<Value>,
    pub groups: Vec<Group>,
    pub rules: Vec<Rule>,
    pub test_results: Vec<TestResult>,
}

/// What a `Benchmark` built from `el` holds.
pub open spec fn benchmark_model(el: XmlElement, x: Benchmark) -> bool {
    &&& attr_spec(el, "id"@) == Some(x.id@)
    &&& x.resolved == bool_attr(el, "resolved"@, false)
    &&& opt_view(x.style) == attr_spec(el, "style"@)
    &&& opt_view(x.style_href) == attr_spec(el, "style-href"@)
    &&& x.statuses@.len() == count_kind(el.nodes@, ChildKind::Status)
    &&& forall|j: int|
        0 <= j < x.statuses@.len() ==> (#[trigger] x.statuses@[j]).built_from(
            kind_children(el.nodes@, ChildKind::Status)[j],
        )
    &&& x.titles@.len() == count_kind(el.nodes@, ChildKind::Title)
    &&& forall|j: int|
        0 <= j < x.titles@.len() ==> (#[trigger] x.titles@[j]).built_from(
            kind_children(el.nodes@, ChildKind::Title)[j],
        )
    &&& x.descriptions@.len() == count_kind(el.nodes@, ChildKind::Description)
    &&& forall|j: int|
        0 <= j < x.descriptions@.len() ==> (#[trigger] x.descriptions@[j]).built_from(
            kind_children(el.nodes@, ChildKind::Description)[j],
        )
    &&& x.notices@.len() == count_kind(el.nodes@, ChildKind::Notice)
    &&& forall|j: int|
        0 <= j < x.notices@.len() ==> (#[trigger] x.notices@[j]).built_from(
            kind_children(el.nodes@, ChildKind::Notice)[j],
        )
    &&& x.front_matters@.len() == count_kind(el.nodes@, ChildKind::FrontMatter)
    &&& forall|j: int|
        0 <= j < x.front_matters@.len() ==> (#[trigger] x.front_matters@[j]).built_from(
            kind_children(el.nodes@, ChildKind::FrontMatter)[j],
        )
    &&& x.rear_matters@.len() == count_kind(el.nodes@, ChildKind::RearMatter)
    &&& forall|j: int|
        0 <= j < x.rear_matters@.len() ==> (#[trigger] x.rear_matters@[j]).built_from(
            kind_children(el.nodes@, ChildKind::RearMatter)[j],
        )
    &&& x.references@.len() == count_kind(el.nodes@, ChildKind::Reference)
    &&& forall|j: int|
        0 <= j < x.references@.len() ==> (#[trigger] x.references@[j]).built_from(
            kind_children(el.nodes@, ChildKind::Reference)[j],
        )
    &&& x.plain_texts@.len() == count_kind(el.nodes@, ChildKind::PlainText)
    &&& forall|j: int|
        0 <= j < x.plain_texts@.len() ==> (#[trigger] x.plain_texts@[j]).built_from(
            kind_children(el.nodes@, ChildKind::PlainText)[j],
        )
    &&& (x.platform_specification is Some <==> count_kind(
        el.nodes@,
        ChildKind::PlatformSpecification,
    ) == 1)
    &&& (x.platform_specification matches Some(v) ==> v.built_from(
        kind_children(el.nodes@, ChildKind::PlatformSpecification)[0],
    ))
    &&& x.platforms@.len() == count_kind(el.nodes@, ChildKind::Platform)
    &&& forall|j: int|
        0 <= j < x.platforms@.len() ==> (#[trigger] x.platforms@[j]).built_from(
            kind_children(el.nodes@, ChildKind::Platform)[j],
        )
    &&& x.version.built_from(kind_children(el.nodes@, ChildKind::Version)[0])
    &&& x.metadata@.len() == count_kind(el.nodes@, ChildKind::Metadata)
    &&& forall|j: int|
        0 <= j < x.metadata@.len() ==> (#[trigger] x.metadata@[j]).built_from(
            kind_children(el.nodes@, ChildKind::Metadata)[j],
        )
    &&& x.models@.len() == count_kind(el.nodes@, ChildKind::Model)
    &&& forall|j: int|
        0 <= j < x.models@.len() ==> (#[trigger] x.models@[j]).built_from(
            kind_children(el.nodes@, ChildKind::Model)[j],
        )
    &&& x.profiles@.len() == count_kind(el.nodes@, ChildKind::Profile)
    &&& forall|j: int|
        0 <= j < x.profiles@.len() ==> (#[trigger] x.profiles@[j]).built_from(
            kind_children(el.nodes@, ChildKind::Profile)[j],
        )
    &&& x.values@.len() == count_kind(el.nodes@, ChildKind::Value)
    &&& forall|j: int|
        0 <= j < x.values@.len() ==> (#[trigger] x.values@[j]).built_from(
            kind_children(el.nodes@, ChildKind::Value)[j],
        )
    &&& x.groups@.len() == count_kind(el.nodes@, ChildKind::Group)
    &&& forall|j: int|
        0 <= j < x.groups@.len() ==> (#[trigger] x.groups@[j]).built_from(
            kind_children(el.nodes@, ChildKind::Group)[j],
        )
    &&& x.rules@.len() == count_kind(el.nodes@, ChildKind::Rule)
    &&& forall|j: int|
        0 <= j < x.rules@.len() ==> (#[trigger] x.rules@[j]).built_from(
            kind_children(el.nodes@, ChildKind::Rule)[j],
        )
    &&& x.test_results@.len() == count_kind(el.nodes@, ChildKind::TestResult)
    &&& forall|j: int|
        0 <= j < x.test_results@.len() ==> (#[trigger] x.test_results@[j]).built_from(
            kind_children(el.nodes@, ChildKind::TestResult)[j],
        )
}

impl Benchmark {
    /// Whether this value holds what the element `el` says.
    pub open spec fn built_from(self, el: XmlElement) -> bool {
        benchmark_model(el, self)
    }
}

impl Benchmark {
    /// Maps the element and everything nested in it; the first violation found is returned.
    pub fn from_xml(el: &XmlElement) -> (r: Result<Benchmark, String>)
        ensures
            !is_spec(*el, "Benchmark"@, XCCDF12_NS@) ==> err_is(
                r,
                "Unexpected element '"@ + el.name@ + "', expected xccdf:Benchmark"@,
            ),
            !benchmark_ok(*el) ==> err_is(r, benchmark_err(*el)),
            r is Ok <==> benchmark_ok(*el),
            r matches Ok(x) ==> benchmark_model(*el, x),
    {
        if !el.is("Benchmark", XCCDF12_NS) {
            return Err(concat3("Unexpected element '", el.name(), "', expected xccdf:Benchmark"));
        }
        let id = match require_attr(el, "id") {
            Ok(v) => v,
            Err(e) => {
                return Err(e);
            },
        };
        let resolved = match get_attr_default(el, "resolved", false) {
            Ok(v) => v,
            Err(e) => {
                return Err(e);
            },
        };
        let style = get_attr(el, "style");
        let style_href = get_attr(el, "style-href");
        let mut statuses: Vec<Status> = Vec::new();
        let mut titles: Vec<Title> = Vec::new();
        let mut descriptions: Vec<Description> = Vec::new();
        let mut notices: Vec<Notice> = Vec::new();
        let mut front_matters: Vec<FrontMatter> = Vec::new();
        let mut rear_matters: Vec<RearMatter> = Vec::new();
        let mut references: Vec<Reference> = Vec::new();
        let mut plain_texts: Vec<PlainText> = Vec::new();
        let mut platform_specification: Option<PlatformSpecification> = None;
        let mut platforms: Vec<Platform> = Vec::new();
        let mut version: Option<Version> = None;
        let mut metadata: Vec<Metadata> = Vec::new();
        let mut models: Vec<Model> = Vec::new();
        let mut profiles: Vec<Profile> = Vec::new();
        let mut values: Vec<Value> = Vec::new();
        let mut groups: Vec<Group> = Vec::new();
        let mut rules: Vec<Rule> = Vec::new();
        let mut test_results: Vec<TestResult> = Vec::new();
        let mut i: usize = 0;
        while i < el.nodes.len()
            invariant
                i <= el.nodes@.len(),
                attr_spec(*el, "id"@) == Some(id@),
                forall|j: int|
                    0 <= j < i && #[trigger] el.nodes@[j] is Element ==> {
                        let c = el.nodes@[j]->Element_0;
                        benchmark_child_ok(c)
                    },
                is_spec(*el, "Benchmark"@, XCCDF12_NS@),
                benchmark_attrs_ok(*el),
                forall|j: int| 0 <= j < i ==> !(#[trigger] benchmark_fails_at(*el, j)),
                statuses@.len() == count_kind(el.nodes@.take(i as int), ChildKind::Status),
                forall|j: int|
                    0 <= j < statuses@.len() ==> (#[trigger] statuses@[j]).built_from(
                        kind_children(el.nodes@.take(i as int), ChildKind::Status)[j],
                    ),
                titles@.len() == count_kind(el.nodes@.take(i as int), ChildKind::Title),
                forall|j: int|
                    0 <= j < titles@.len() ==> (#[trigger] titles@[j]).built_from(
                        kind_children(el.nodes@.take(i as int), ChildKind::Title)[j],
                    ),
                descriptions@.len() == count_kind(el.nodes@.take(i as int), ChildKind::Description),
                forall|j: int|
                    0 <= j < descriptions@.len() ==> (#[trigger] descriptions@[j]).built_from(
                        kind_children(el.nodes@.take(i as int), ChildKind::Description)[j],
                    ),
                notices@.len() == count_kind(el.nodes@.take(i as int), ChildKind::Notice),
                forall|j: int|
                    0 <= j < notices@.len() ==> (#[trigger] notices@[j]).built_from(
                        kind_children(el.nodes@.take(i as int), ChildKind::Notice)[j],
                    ),
                front_matters@.len() == count_kind(
                    el.nodes@.take(i as int),
                    ChildKind::FrontMatter,
                ),
                forall|j: int|
                    0 <= j < front_matters@.len() ==> (#[trigger] front_matters@[j]).built_from(
                        kind_children(el.nodes@.take(i as int), ChildKind::FrontMatter)[j],
                    ),
                rear_matters@.len() == count_kind(el.nodes@.take(i as int), ChildKind::RearMatter),
                forall|j: int|
                    0 <= j < rear_matters@.len() ==> (#[trigger] rear_matters@[j]).built_from(
                        kind_children(el.nodes@.take(i as int), ChildKind::RearMatter)[j],
                    ),
                references@.len() == count_kind(el.nodes@.take(i as int), ChildKind::Reference),
                forall|j: int|
                    0 <= j < references@.len() ==> (#[trigger] references@[j]).built_from(
                        kind_children(el.nodes@.take(i as int), ChildKind::Reference)[j],
                    ),
                plain_texts@.len() == count_kind(el.nodes@.take(i as int), ChildKind::PlainText),
                forall|j: int|
                    0 <= j < plain_texts@.len() ==> (#[trigger] plain_texts@[j]).built_from(
                        kind_children(el.nodes@.take(i as int), ChildKind::PlainText)[j],
                    ),
                platform_specification is Some <==> count_kind(
                    el.nodes@.take(i as int),
                    ChildKind::PlatformSpecification,
                ) >= 1,
                count_kind(el.nodes@.take(i as int), ChildKind::PlatformSpecification) <= 1,
                platform_specification matches Some(v) ==> v.built_from(
                    kind_children(el.nodes@.take(i as int), ChildKind::PlatformSpecification)[0],
                ),
                platforms@.len() == count_kind(el.nodes@.take(i as int), ChildKind::Platform),
                forall|j: int|
                    0 <= j < platforms@.len() ==> (#[trigger] platforms@[j]).built_from(
                        kind_children(el.nodes@.take(i as int), ChildKind::Platform)[j],
                    ),
                version is Some <==> count_kind(
                    el.nodes@.take(i as int),
                    ChildKind::Version,
                ) >= 1,
                count_kind(el.nodes@.take(i as int), ChildKind::Version) <= 1,
                version matches Some(v) ==> v.built_from(
                    kind_children(el.nodes@.take(i as int), ChildKind::Version)[0],
                ),
                metadata@.len() == count_kind(el.nodes@.take(i as int), ChildKind::Metadata),
                forall|j: int|
                    0 <= j < metadata@.len() ==> (#[trigger] metadata@[j]).built_from(
                        kind_children(el.nodes@.take(i as int), ChildKind::Metadata)[j],
                    ),
                models@.len() == count_kind(el.nodes@.take(i as int), ChildKind::Model),
                forall|j: int|
                    0 <= j < models@.len() ==> (#[trigger] models@[j]).built_from(
                        kind_children(el.nodes@.take(i as int), ChildKind::Model)[j],
                    ),
                profiles@.len() == count_kind(el.nodes@.take(i as int), ChildKind::Profile),
                forall|j: int|
                    0 <= j < profiles@.len() ==> (#[trigger] profiles@[j]).built_from(
                        kind_children(el.nodes@.take(i as int), ChildKind::Profile)[j],
                    ),
                values@.len() == count_kind(el.nodes@.take(i as int), ChildKind::Value),
                forall|j: int|
                    0 <= j < values@.len() ==> (#[trigger] values@[j]).built_from(
                        kind_children(el.nodes@.take(i as int), ChildKind::Value)[j],
                    ),
                groups@.len() == count_kind(el.nodes@.take(i as int), ChildKind::Group),
                forall|j: int|
                    0 <= j < groups@.len() ==> (#[trigger] groups@[j]).built_from(
                        kind_children(el.nodes@.take(i as int), ChildKind::Group)[j],
                    ),
                rules@.len() == count_kind(el.nodes@.take(i as int), ChildKind::Rule),
                forall|j: int|
                    0 <= j < rules@.len() ==> (#[trigger] rules@[j]).built_from(
                        kind_children(el.nodes@.take(i as int), ChildKind::Rule)[j],
                    ),
                test_results@.len() == count_kind(el.nodes@.take(i as int), ChildKind::TestResult),
                forall|j: int|
                    0 <= j < test_results@.len() ==> (#[trigger] test_results@[j]).built_from(
                        kind_children(el.nodes@.take(i as int), ChildKind::TestResult)[j],
                    ),
            decreases el.nodes@.len() - i,
        {
            proof {
                lemma_take_last(el.nodes@, i as int);
            }
            if let XmlNode::Element(child) = &el.nodes[i] {
                match child_kind(child.name.as_str()) {
                    ChildKind::Status => match Status::from_xml(child) {
                        Ok(x) => statuses.push(x),
                        Err(e) => {
                            proof {
                                lemma_benchmark_first_fail(*el, i as int);
                            }
                            return Err(e);
                        },
                    },
                    ChildKind::Title => match Title::from_xml(child) {
                        Ok(x) => titles.push(x),
                        Err(e) => {
                            proof {
                                lemma_benchmark_first_fail(*el, i as int);
                            }
                            return Err(e);
                        },
                    },
                    ChildKind::Description => match Description::from_xml(child) {
                        Ok(x) => descriptions.push(x),
                        Err(e) => {
                            proof {
                                lemma_benchmark_first_fail(*el, i as int);
                            }
                            return Err(e);
                        },
                    },
                    ChildKind::Notice => match Notice::from_xml(child) {
                        Ok(x) => notices.push(x),
                        Err(e) => {
                            proof {
                                lemma_benchmark_first_fail(*el, i as int);
                            }
                            return Err(e);
                        },
                    },
                    ChildKind::FrontMatter => match FrontMatter::from_xml(child) {
                        Ok(x) => front_matters.push(x),
                        Err(e) => {
                            proof {
                                lemma_benchmark_first_fail(*el, i as int);
                            }
                            return Err(e);
                        },
                    },
                    ChildKind::RearMatter => match RearMatter::from_xml(child) {
                        Ok(x) => rear_matters.push(x),
                        Err(e) => {
                            proof {
                                lemma_benchmark_first_fail(*el, i as int);
                            }
                            return Err(e);
                        },
                    },
                    ChildKind::Reference => match Reference::from_xml(child) {
                        Ok(x) => references.push(x),
                        Err(e) => {
                            proof {
                                lemma_benchmark_first_fail(*el, i as int);
                            }
                            return Err(e);
                        },
                    },
                    ChildKind::PlainText => match PlainText::from_xml(child) {
                        Ok(x) => plain_texts.push(x),
                        Err(e) => {
                            proof {
                                lemma_benchmark_first_fail(*el, i as int);
                            }
                            return Err(e);
                        },
                    },
                    ChildKind::PlatformSpecification => {
                        if platform_specification.is_some() {
                            proof {
                                lemma_count_prefix(
                                    el.nodes@,
                                    i + 1,
                                    ChildKind::PlatformSpecification,
                                );
                                lemma_benchmark_first_fail(*el, i as int);
                            }
                            return Err(String::from_str("Duplicate platform elements"));
                        }
                        match PlatformSpecification::from_xml(child) {
                            Ok(x) => {
                                platform_specification = Some(x);
                            },
                            Err(e) => {
                                proof {
                                    lemma_benchmark_first_fail(*el, i as int);
                                }
                                return Err(e);
                            },
                        }
                    },
                    ChildKind::Platform => match Platform::from_xml(child) {
                        Ok(x) => platforms.push(x),
                        Err(e) => {
                            proof {
                                lemma_benchmark_first_fail(*el, i as int);
                            }
                            return Err(e);
                        },
                    },
                    ChildKind::Version => {
                        if version.is_some() {
                            proof {
                                lemma_count_prefix(
                                    el.nodes@,
                                    i + 1,
                                    ChildKind::Version,
                                );
                                lemma_benchmark_first_fail(*el, i as int);
                            }
                            return Err(String::from_str("Duplicate version elements"));
                        }
                        match Version::from_xml(child) {
                            Ok(x) => {
                                version = Some(x);
                            },
                            Err(e) => {
                                proof {
                                    lemma_benchmark_first_fail(*el, i as int);
                                }
                                return Err(e);
                            },
                        }
                    },
                    ChildKind::Metadata => match Metadata::from_xml(child) {
                        Ok(x) => metadata.push(x),
                        Err(e) => {
                            proof {
                                lemma_benchmark_first_fail(*el, i as int);
                            }
                            return Err(e);
                        },
                    },
                    ChildKind::Model => match Model::from_xml(child) {
                        Ok(x) => models.push(x),
                        Err(e) => {
                            proof {
                                lemma_benchmark_first_fail(*el, i as int);
                            }
                            return Err(e);
                        },
                    },
                    ChildKind::Profile => match Profile::from_xml(child) {
                        Ok(x) => profiles.push(x),
                        Err(e) => {
                            proof {
                                lemma_benchmark_first_fail(*el, i as int);
                            }
                            return Err(e);
                        },
                    },
                    ChildKind::Value => match Value::from_xml(child) {
                        Ok(x) => values.push(x),
                        Err(e) => {
                            proof {
                                lemma_benchmark_first_fail(*el, i as int);
                            }
                            return Err(e);
                        },
                    },
                    ChildKind::Group => match Group::from_xml(child) {
                        Ok(x) => groups.push(x),
                        Err(e) => {
                            proof {
                                lemma_benchmark_first_fail(*el, i as int);
                            }
                            return Err(e);
                        },
                    },
                    ChildKind::Rule => match Rule::from_xml(child) {
                        Ok(x) => rules.push(x),
                        Err(e) => {
                            proof {
                                lemma_benchmark_first_fail(*el, i as int);
                            }
                            return Err(e);
                        },
                    },
                    ChildKind::TestResult => match TestResult::from_xml(child) {
                        Ok(x) => test_results.push(x),
                        Err(e) => {
                            proof {
                                lemma_benchmark_first_fail(*el, i as int);
                            }
                            return Err(e);
                        },
                    },
                    _ => {
                        proof {
                            lemma_benchmark_first_fail(*el, i as int);
                        }
                        let mut m = String::from_str("unexpected element ");
                        m.append(child.name());
                        return Err(m);
                    },
                }
            }
            i = i + 1;
        }
        proof {
            assert(el.nodes@.take(el.nodes@.len() as int) =~= el.nodes@);
        }
        if statuses.len() == 0 {
            return Err(concat3("xccdf:Benchmark ", id.as_str(), ": missing status element"));
        }
        let version = match version {
            Some(x) => x,
            None => {
                return Err(concat3("xccdf:Benchmark ", id.as_str(), ": missing version element"));
            },
        };
        Ok(
            Benchmark {
                id,
                resolved,
                style,
                style_href,
                statuses,
                titles,
                descriptions,
                notices,
                front_matters,
                rear_matters,
                references,
                plain_texts,
                platform_specification,
                platforms,
                version,
                metadata,
                models,
                profiles,
                values,
                groups,
                rules,
                test_results,
            },
        )
    }
}

/// Whether the attributes of a `Profile` element are well formed.
pub open spec fn profile_attrs_ok(el: XmlElement) -> bool {
    has_attr(el, "id"@) && bool_attr_ok(el, "prohibitChanges"@) && bool_attr_ok(el, "abstract"@)
}

/// Whether the child at position `i` of a `Profile` element is where mapping stops.
pub open spec fn profile_fails_at(el: XmlElement, i: int) -> bool {
    &&& 0 <= i < el.nodes@.len()
    &&& el.nodes@[i] is Element
    &&& {
        let c = el.nodes@[i]->Element_0;
        let k = kind_of(c.name@);
        (k is Version && count_kind(el.nodes@.take(i), ChildKind::Version) >= 1) || !(in_profile(kind_of(c.name@)) && leaf_ok(kind_of(c.name@), c))
    }
}

/// Whether `i` is the first position at which mapping a `Profile` element stops.
pub open spec fn profile_first_fail(el: XmlElement, i: int) -> bool {
    profile_fails_at(el, i) && forall|j: int| 0 <= j < i ==> !(#[trigger] profile_fails_at(el, j))
}

/// The message that mapping a `Profile` element stops with at the child at position `i`.
pub open spec fn profile_fail_msg(el: XmlElement, i: int) -> Seq<char> {
    if 0 <= i < el.nodes@.len() && el.nodes@[i] is Element {
        let c = el.nodes@[i]->Element_0;
        let k = kind_of(c.name@);
        if k is Version && count_kind(el.nodes@.take(i), ChildKind::Version) >= 1 {
            "Duplicate version elements"@
        } else if !in_profile(k) {
            unexpected_msg("Profile"@, attr_text(el, "id"@), c.name@)
        } else {
            leaf_err(k, c)
        }
    } else {
        Seq::empty()
    }
}

/// The message that mapping a `Profile` element that is not well formed fails with.
pub open spec fn profile_err(el: XmlElement) -> Seq<char> {
    if !has_attr(el, "id"@) {
        missing_attr_msg(el.name@, "id"@)
    } else if !bool_attr_ok(el, "prohibitChanges"@) {
        bool_attr_err(el, "prohibitChanges"@)
    } else if !bool_attr_ok(el, "abstract"@) {
        bool_attr_err(el, "abstract"@)
    } else if exists|i: int| profile_first_fail(el, i) {
        profile_fail_msg(el, choose|i: int| profile_first_fail(el, i))
    } else {
        "Profile '"@ + attr_text(el, "id"@) + "' doesn't have any title"@
    }
}

proof fn lemma_profile_first_fail(el: XmlElement, i: int)
    requires
        profile_fails_at(el, i),
        forall|j: int| 0 <= j < i ==> !(#[trigger] profile_fails_at(el, j)),
    ensures
        exists|j: int| profile_first_fail(el, j),
        (choose|j: int| profile_first_fail(el, j)) == i,
{
    assert(profile_first_fail(el, i));
    let j = choose|j: int| profile_first_fail(el, j);
    if j < i {
        assert(!profile_fails_at(el, j));
    } else if j > i {
        assert(!profile_fails_at(el, i));
    }
}

/// A named selection and tailoring of the rules and values of a benchmark.
#[derive(Debug, PartialEq)]
pub struct Profile {
    pub id: String,
    pub prohibit_changes: bool,
    pub abstract_: bool,
    pub note_tag: Option<String>,
    pub extends: Option<String>,
    pub statuses: Vec<Status>,
    pub version: Option<Version>,
    pub titles: Vec<Title>,
    pub descriptions: Vec<Description>,
    pub references: Vec<Reference>,
    pub platforms: Vec<Platform>,
    pub selects: Vec<Select>,
    pub set_complex_values: Vec<SetComplexValue>,
    pub set_values: Vec<SetValue>,
    pub refine_values: Vec<RefineValue>,
    pub refine_rules: Vec<RefineRule>,
}

/// What a `Profile` built from `el` holds.
pub open spec fn profile_model(el: XmlElement, x: Profile) -> bool {
    &&& attr_spec(el, "id"@) == Some(x.id@)
    &&& x.prohibit_changes == bool_attr(el, "prohibitChanges"@, false)
    &&& x.abstract_ == bool_attr(el, "abstract"@, false)
    &&& opt_view(x.note_tag) == attr_spec(el, "note-tag"@)
    &&& opt_view(x.extends) == attr_spec(el, "extends"@)
    &&& x.statuses@.len() == count_kind(el.nodes@, ChildKind::Status)
    &&& forall|j: int|
        0 <= j < x.statuses@.len() ==> (#[trigger] x.statuses@[j]).built_from(
            kind_children(el.nodes@, ChildKind::Status)[j],
        )
    &&& (x.version is Some <==> count_kind(
        el.nodes@,
        ChildKind::Version,
    ) == 1)
    &&& (x.version matches Some(v) ==> v.built_from(
        kind_children(el.nodes@, ChildKind::Version)[0],
    ))
    &&& x.titles@.len() == count_kind(el.nodes@, ChildKind::Title)
    &&& forall|j: int|
        0 <= j < x.titles@.len() ==> (#[trigger] x.titles@[j]).built_from(
            kind_children(el.nodes@, ChildKind::Title)[j],
        )
    &&& x.descriptions@.len() == count_kind(el.nodes@, ChildKind::Description)
    &&& forall|j: int|
        0 <= j < x.descriptions@.len() ==> (#[trigger] x.descriptions@[j]).built_from(
            kind_children(el.nodes@, ChildKind::Description)[j],
        )
    &&& x.references@.len() == count_kind(el.nodes@, ChildKind::Reference)
    &&& forall|j: int|
        0 <= j < x.references@.len() ==> (#[trigger] x.references@[j]).built_from(
            kind_children(el.nodes@, ChildKind::Reference)[j],
        )
    &&& x.platforms@.len() == count_kind(el.nodes@, ChildKind::Platform)
    &&& forall|j: int|
        0 <= j < x.platforms@.len() ==> (#[trigger] x.platforms@[j]).built_from(
            kind_children(el.nodes@, ChildKind::Platform)[j],
        )
    &&& x.selects@.len() == count_kind(el.nodes@, ChildKind::Select)
    &&& forall|j: int|
        0 <= j < x.selects@.len() ==> (#[trigger] x.selects@[j]).built_from(
            kind_children(el.nodes@, ChildKind::Select)[j],
        )
    &&& x.set_complex_values@.len() == count_kind(el.nodes@, ChildKind::SetComplexValue)
    &&& forall|j: int|
        0 <= j < x.set_complex_values@.len() ==> (#[trigger] x.set_complex_values@[j]).built_from(
            kind_children(el.nodes@, ChildKind::SetComplexValue)[j],
        )
    &&& x.set_values@.len() == count_kind(el.nodes@, ChildKind::SetValue)
    &&& forall|j: int|
        0 <= j < x.set_values@.len() ==> (#[trigger] x.set_values@[j]).built_from(
            kind_children(el.nodes@, ChildKind::SetValue)[j],
        )
    &&& x.refine_values@.len() == count_kind(el.nodes@, ChildKind::RefineValue)
    &&& forall|j: int|
        0 <= j < x.refine_values@.len() ==> (#[trigger] x.refine_values@[j]).built_from(
            kind_children(el.nodes@, ChildKind::RefineValue)[j],
        )
    &&& x.refine_rules@.len() == count_kind(el.nodes@, ChildKind::RefineRule)
    &&& forall|j: int|
        0 <= j < x.refine_rules@.len() ==> (#[trigger] x.refine_rules@[j]).built_from(
            kind_children(el.nodes@, ChildKind::RefineRule)[j],
        )
}

impl Profile {
    /// Whether this value holds what the element `el` says.
    pub open spec fn built_from(self, el: XmlElement) -> bool {
        profile_model(el, self)
    }
}

impl Profile {
    /// Maps the element and everything nested in it; the first violation found is returned.
    pub fn from_xml(el: &XmlElement) -> (r: Result<Profile, String>)
        ensures
            !has_attr(*el, "id"@) ==> err_is(r, missing_attr_msg(el.name@, "id"@)),
            !profile_ok(*el) ==> err_is(r, profile_err(*el)),
            r is Ok <==> profile_ok(*el),
            r matches Ok(x) ==> profile_model(*el, x),
    {
        let id = match require_attr(el, "id") {
            Ok(v) => v,
            Err(e) => {
                return Err(e);
            },
        };
        let prohibit_changes = match get_attr_default(el, "prohibitChanges", false) {
            Ok(v) => v,
            Err(e) => {
                return Err(e);
            },
        };
        let abstract_ = match get_attr_default(el, "abstract", false) {
            Ok(v) => v,
            Err(e) => {
                return Err(e);
            },
        };
        let note_tag = get_attr(el, "note-tag");
        let extends = get_attr(el, "extends");
        let mut statuses: Vec<Status> = Vec::new();
        let mut version: Option<Version> = None;
        let mut titles: Vec<Title> = Vec::new();
        let mut descriptions: Vec<Description> = Vec::new();
        let mut references: Vec<Reference> = Vec::new();
        let mut platforms: Vec<Platform> = Vec::new();
        let mut selects: Vec<Select> = Vec::new();
        let mut set_complex_values: Vec<SetComplexValue> = Vec::new();
        let mut set_values: Vec<SetValue> = Vec::new();
        let mut refine_values: Vec<RefineValue> = Vec::new();
        let mut refine_rules: Vec<RefineRule> = Vec::new();
        let mut i: usize = 0;
        while i < el.nodes.len()
            invariant
                i <= el.nodes@.len(),
                attr_spec(*el, "id"@) == Some(id@),
                forall|j: int|
                    0 <= j < i && #[trigger] el.nodes@[j] is Element ==> {
                        let c = el.nodes@[j]->Element_0;
                        in_profile(kind_of(c.name@)) && leaf_ok(kind_of(c.name@), c)
                    },
                profile_attrs_ok(*el),
                forall|j: int| 0 <= j < i ==> !(#[trigger] profile_fails_at(*el, j)),
                statuses@.len() == count_kind(el.nodes@.take(i as int), ChildKind::Status),
                forall|j: int|
                    0 <= j < statuses@.len() ==> (#[trigger] statuses@[j]).built_from(
                        kind_children(el.nodes@.take(i as int), ChildKind::Status)[j],
                    ),
                version is Some <==> count_kind(
                    el.nodes@.take(i as int),
                    ChildKind::Version,
                ) >= 1,
                count_kind(el.nodes@.take(i as int), ChildKind::Version) <= 1,
                version matches Some(v) ==> v.built_from(
                    kind_children(el.nodes@.take(i as int), ChildKind::Version)[0],
                ),
                titles@.len() == count_kind(el.nodes@.take(i as int), ChildKind::Title),
                forall|j: int|
                    0 <= j < titles@.len() ==> (#[trigger] titles@[j]).built_from(
                        kind_children(el.nodes@.take(i as int), ChildKind::Title)[j],
                    ),
                descriptions@.len() == count_kind(el.nodes@.take(i as int), ChildKind::Description),
                forall|j: int|
                    0 <= j < descriptions@.len() ==> (#[trigger] descriptions@[j]).built_from(
                        kind_children(el.nodes@.take(i as int), ChildKind::Description)[j],
                    ),
                references@.len() == count_kind(el.nodes@.take(i as int), ChildKind::Reference),
                forall|j: int|
                    0 <= j < references@.len() ==> (#[trigger] references@[j]).built_from(
                        kind_children(el.nodes@.take(i as int), ChildKind::Reference)[j],
                    ),
                platforms@.len() == count_kind(el.nodes@.take(i as int), ChildKind::Platform),
                forall|j: int|
                    0 <= j < platforms@.len() ==> (#[trigger] platforms@[j]).built_from(
                        kind_children(el.nodes@.take(i as int), ChildKind::Platform)[j],
                    ),
                selects@.len() == count_kind(el.nodes@.take(i as int), ChildKind::Select),
                forall|j: int|
                    0 <= j < selects@.len() ==> (#[trigger] selects@[j]).built_from(
                        kind_children(el.nodes@.take(i as int), ChildKind::Select)[j],
                    ),
                set_complex_values@.len() == count_kind(
                    el.nodes@.take(i as int),
                    ChildKind::SetComplexValue,
                ),
                forall|j: int|
                    0 <= j < set_complex_values@.len() ==> (#[trigger] set_complex_values@[j]).built_from(
                        kind_children(el.nodes@.take(i as int), ChildKind::SetComplexValue)[j],
                    ),
                set_values@.len() == count_kind(el.nodes@.take(i as int), ChildKind::SetValue),
                forall|j: int|
                    0 <= j < set_values@.len() ==> (#[trigger] set_values@[j]).built_from(
                        kind_children(el.nodes@.take(i as int), ChildKind::SetValue)[j],
                    ),
                refine_values@.len() == count_kind(
                    el.nodes@.take(i as int),
                    ChildKind::RefineValue,
                ),
                forall|j: int|
                    0 <= j < refine_values@.len() ==> (#[trigger] refine_values@[j]).built_from(
                        kind_children(el.nodes@.take(i as int), ChildKind::RefineValue)[j],
                    ),
                refine_rules@.len() == count_kind(el.nodes@.take(i as int), ChildKind::RefineRule),
                forall|j: int|
                    0 <= j < refine_rules@.len() ==> (#[trigger] refine_rules@[j]).built_from(
                        kind_children(el.nodes@.take(i as int), ChildKind::RefineRule)[j],
                    ),
            decreases el.nodes@.len() - i,
        {
            proof {
                lemma_take_last(el.nodes@, i as int);
            }
            if let XmlNode::Element(child) = &el.nodes[i] {
                match child_kind(child.name.as_str()) {
                    ChildKind::Status => match Status::from_xml(child) {
                        Ok(x) => statuses.push(x),
                        Err(e) => {
                            proof {
                                lemma_profile_first_fail(*el, i as int);
                            }
                            return Err(e);
                        },
                    },
                    ChildKind::Version => {
                        if version.is_some() {
                            proof {
                                lemma_count_prefix(
                                    el.nodes@,
                                    i + 1,
                                    ChildKind::Version,
                                );
                                lemma_profile_first_fail(*el, i as int);
                            }
                            return Err(String::from_str("Duplicate version elements"));
                        }
                        match Version::from_xml(child) {
                            Ok(x) => {
                                version = Some(x);
                            },
                            Err(e) => {
                                proof {
                                    lemma_profile_first_fail(*el, i as int);
                                }
                                return Err(e);
                            },
                        }
                    },
                    ChildKind::Title => match Title::from_xml(child) {
                        Ok(x) => titles.push(x),
                        Err(e) => {
                            proof {
                                lemma_profile_first_fail(*el, i as int);
                            }
                            return Err(e);
                        },
                    },
                    ChildKind::Description => match Description::from_xml(child) {
                        Ok(x) => descriptions.push(x),
                        Err(e) => {
                            proof {
                                lemma_profile_first_fail(*el, i as int);
                            }
                            return Err(e);
                        },
                    },
                    ChildKind::Reference => match Reference::from_xml(child) {
                        Ok(x) => references.push(x),
                        Err(e) => {
                            proof {
                                lemma_profile_first_fail(*el, i as int);
                            }
                            return Err(e);
                        },
                    },
                    ChildKind::Platform => match Platform::from_xml(child) {
                        Ok(x) => platforms.push(x),
                        Err(e) => {
                            proof {
                                lemma_profile_first_fail(*el, i as int);
                            }
                            return Err(e);
                        },
                    },
                    ChildKind::Select => match Select::from_xml(child) {
                        Ok(x) => selects.push(x),
                        Err(e) => {
                            proof {
                                lemma_profile_first_fail(*el, i as int);
                            }
                            return Err(e);
                        },
                    },
                    ChildKind::SetComplexValue => match SetComplexValue::from_xml(child) {
                        Ok(x) => set_complex_values.push(x),
                        Err(e) => {
                            proof {
                                lemma_profile_first_fail(*el, i as int);
                            }
                            return Err(e);
                        },
                    },
                    ChildKind::SetValue => match SetValue::from_xml(child) {
                        Ok(x) => set_values.push(x),
                        Err(e) => {
                            proof {
                                lemma_profile_first_fail(*el, i as int);
                            }
                            return Err(e);
                        },
                    },
                    ChildKind::RefineValue => match RefineValue::from_xml(child) {
                        Ok(x) => refine_values.push(x),
                        Err(e) => {
                            proof {
                                lemma_profile_first_fail(*el, i as int);
                            }
                            return Err(e);
                        },
                    },
                    ChildKind::RefineRule => match RefineRule::from_xml(child) {
                        Ok(x) => refine_rules.push(x),
                        Err(e) => {
                            proof {
                                lemma_profile_first_fail(*el, i as int);
                            }
                            return Err(e);
                        },
                    },
                    _ => {
                        proof {
                            lemma_profile_first_fail(*el, i as int);
                        }
                        return Err(unexpected_in("Profile", id.as_str(), child.name()));
                    },
                }
            }
            i = i + 1;
        }
        proof {
            assert(el.nodes@.take(el.nodes@.len() as int) =~= el.nodes@);
        }
        if titles.len() == 0 {
            return Err(concat3("Profile '", id.as_str(), "' doesn't have any title"));
        }
        Ok(
            Profile {
                id,
                prohibit_changes,
                abstract_,
                note_tag,
                extends,
                statuses,
                version,
                titles,
                descriptions,
                references,
                platforms,
                selects,
                set_complex_values,
                set_values,
                refine_values,
                refine_rules,
            },
        )
    }
}

/// Whether the attributes of a `Group` element are well formed.
pub open spec fn group_attrs_ok(el: XmlElement) -> bool {
    item_attrs_ok(el)
}

/// Whether the child at position `i` of a `Group` element is where mapping stops.
pub open spec fn group_fails_at(el: XmlElement, i: int) -> bool {
    &&& 0 <= i < el.nodes@.len()
    &&& el.nodes@[i] is Element
    &&& {
        let c = el.nodes@[i]->Element_0;
        let k = kind_of(c.name@);
        (k is Version && count_kind(el.nodes@.take(i), ChildKind::Version) >= 1) || !(group_child_ok(c))
    }
}

/// Whether `i` is the first position at which mapping a `Group` element stops.
pub open spec fn group_first_fail(el: XmlElement, i: int) -> bool {
    group_fails_at(el, i) && forall|j: int| 0 <= j < i ==> !(#[trigger] group_fails_at(el, j))
}

/// The message that mapping a `Group` element stops with at the child at position `i`.
pub open spec fn group_fail_msg(el: XmlElement, i: int) -> Seq<char>
    decreases el, 0int,
{
    if 0 <= i < el.nodes@.len() && el.nodes@[i] is Element {
        let c = el.nodes@[i]->Element_0;
        let k = kind_of(c.name@);
        if k is Version && count_kind(el.nodes@.take(i), ChildKind::Version) >= 1 {
            "Duplicate version elements"@
        } else if !in_group(k) {
            unexpected_msg("Group"@, attr_text(el, "id"@), c.name@)
        } else if k is Group {
            group_err(c)
        } else if k is Rule {
            rule_err(c)
        } else {
            leaf_err(k, c)
        }
    } else {
        Seq::empty()
    }
}

/// The message that mapping a `Group` element that is not well formed fails with.
pub open spec fn group_err(el: XmlElement) -> Seq<char>
    decreases el, 1int,
{
    if !item_attrs_ok(el) {
        item_attrs_err(el)
    } else if exists|i: int| group_first_fail(el, i) {
        group_fail_msg(el, choose|i: int| group_first_fail(el, i))
    } else {
        Seq::empty()
    }
}

proof fn lemma_group_first_fail(el: XmlElement, i: int)
    requires
        group_fails_at(el, i),
        forall|j: int| 0 <= j < i ==> !(#[trigger] group_fails_at(el, j)),
    ensures
        exists|j: int| group_first_fail(el, j),
        (choose|j: int| group_first_fail(el, j)) == i,
{
    assert(group_first_fail(el, i));
    let j = choose|j: int| group_first_fail(el, j);
    if j < i {
        assert(!group_fails_at(el, j));
    } else if j > i {
        assert(!group_fails_at(el, i));
    }
}

/// A node of the checklist tree, holding values, nested groups and rules.
#[derive(Debug, PartialEq)]
pub struct Group {
    pub id: String,
    pub abstract_: bool,
    pub cluster_id: Option<String>,
    pub extends: Option<String>,
    pub hidden: bool,
    pub prohibit_changes: bool,
    pub selected: bool,
    pub weight: Weight,
    pub statuses: Vec<Status>,
    pub version: Option<Version>,
    pub titles: Vec<Title>,
    pub descriptions: Vec<Description>,
    pub warnings: Vec<Warning>,
    pub questions: Vec<Question>,
    pub references: Vec<Reference>,
    pub metadata: Vec<Metadata>,
    pub rationales: Vec<Rationale>,
    pub platforms: Vec<Platform>,
    pub requirements: Vec<Requires>,
    pub conflicts: Vec<Conflicts>,
    pub values: Vec<Value>,
    pub groups: Vec<Group>,
    pub rules: Vec<Rule>,
}

/// What a `Group` built from `el` holds.
pub open spec fn group_model(el: XmlElement, x: Group) -> bool
    decreases el,
{
    &&& attr_spec(el, "id"@) == Some(x.id@)
    &&& x.abstract_ == bool_attr(el, "abstract"@, false)
    &&& opt_view(x.cluster_id) == attr_spec(el, "cluster-id"@)
    &&& opt_view(x.extends) == attr_spec(el, "extends"@)
    &&& x.hidden == bool_attr(el, "hidden"@, false)
    &&& x.prohibit_changes == bool_attr(el, "prohibitChanges"@, false)
    &&& x.selected == bool_attr(el, "selected"@, true)
    &&& x.weight.text@ == attr_or(el, "weight"@, "1.0"@)
    &&& x.statuses@.len() == count_kind(el.nodes@, ChildKind::Status)
    &&& forall|j: int|
        0 <= j < x.statuses@.len() ==> (#[trigger] x.statuses@[j]).built_from(
            kind_children(el.nodes@, ChildKind::Status)[j],
        )
    &&& (x.version is Some <==> count_kind(
        el.nodes@,
        ChildKind::Version,
    ) == 1)
    &&& (x.version matches Some(v) ==> v.built_from(
        kind_children(el.nodes@, ChildKind::Version)[0],
    ))
    &&& x.titles@.len() == count_kind(el.nodes@, ChildKind::Title)
    &&& forall|j: int|
        0 <= j < x.titles@.len() ==> (#[trigger] x.titles@[j]).built_from(
            kind_children(el.nodes@, ChildKind::Title)[j],
        )
    &&& x.descriptions@.len() == count_kind(el.nodes@, ChildKind::Description)
    &&& forall|j: int|
        0 <= j < x.descriptions@.len() ==> (#[trigger] x.descriptions@[j]).built_from(
            kind_children(el.nodes@, ChildKind::Description)[j],
        )
    &&& x.warnings@.len() == count_kind(el.nodes@, ChildKind::Warning)
    &&& forall|j: int|
        0 <= j < x.warnings@.len() ==> (#[trigger] x.warnings@[j]).built_from(
            kind_children(el.nodes@, ChildKind::Warning)[j],
        )
    &&& x.questions@.len() == count_kind(el.nodes@, ChildKind::Question)
    &&& forall|j: int|
        0 <= j < x.questions@.len() ==> (#[trigger] x.questions@[j]).built_from(
            kind_children(el.nodes@, ChildKind::Question)[j],
        )
    &&& x.references@.len() == count_kind(el.nodes@, ChildKind::Reference)
    &&& forall|j: int|
        0 <= j < x.references@.len() ==> (#[trigger] x.references@[j]).built_from(
            kind_children(el.nodes@, ChildKind::Reference)[j],
        )
    &&& x.metadata@.len() == count_kind(el.nodes@, ChildKind::Metadata)
    &&& forall|j: int|
        0 <= j < x.metadata@.len() ==> (#[trigger] x.metadata@[j]).built_from(
            kind_children(el.nodes@, ChildKind::Metadata)[j],
        )
    &&& x.rationales@.len() == count_kind(el.nodes@, ChildKind::Rationale)
    &&& forall|j: int|
        0 <= j < x.rationales@.len() ==> (#[trigger] x.rationales@[j]).built_from(
            kind_children(el.nodes@, ChildKind::Rationale)[j],
        )
    &&& x.platforms@.len() == count_kind(el.nodes@, ChildKind::Platform)
    &&& forall|j: int|
        0 <= j < x.platforms@.len() ==> (#[trigger] x.platforms@[j]).built_from(
            kind_children(el.nodes@, ChildKind::Platform)[j],
        )
    &&& x.requirements@.len() == count_kind(el.nodes@, ChildKind::Requires)
    &&& forall|j: int|
        0 <= j < x.requirements@.len() ==> (#[trigger] x.requirements@[j]).built_from(
            kind_children(el.nodes@, ChildKind::Requires)[j],
        )
    &&& x.conflicts@.len() == count_kind(el.nodes@, ChildKind::Conflicts)
    &&& forall|j: int|
        0 <= j < x.conflicts@.len() ==> (#[trigger] x.conflicts@[j]).built_from(
            kind_children(el.nodes@, ChildKind::Conflicts)[j],
        )
    &&& x.values@.len() == count_kind(el.nodes@, ChildKind::Value)
    &&& forall|j: int|
        0 <= j < x.values@.len() ==> (#[trigger] x.values@[j]).built_from(
            kind_children(el.nodes@, ChildKind::Value)[j],
        )
    &&& x.groups@.len() == count_kind(el.nodes@, ChildKind::Group)
    &&& forall|i: int|
        0 <= i < el.nodes@.len() && #[trigger] el.nodes@[i] is Element && kind_of(
            el.nodes@[i]->Element_0.name@,
        ) is Group ==> group_model(
            el.nodes@[i]->Element_0,
            x.groups@[count_kind(el.nodes@.take(i), ChildKind::Group) as int],
        )
    &&& x.rules@.len() == count_kind(el.nodes@, ChildKind::Rule)
    &&& forall|j: int|
        0 <= j < x.rules@.len() ==> (#[trigger] x.rules@[j]).built_from(
            kind_children(el.nodes@, ChildKind::Rule)[j],
        )
}

impl Group {
    /// Whether this value holds what the element `el` says.
    pub open spec fn built_from(self, el: XmlElement) -> bool {
        group_model(el, self)
    }
}

impl Group {
    /// Maps the element and everything nested in it; the first violation found is returned.
    pub fn from_xml(el: &XmlElement) -> (r: Result<Group, String>)
        ensures
            !has_attr(*el, "id"@) ==> err_is(r, missing_attr_msg(el.name@, "id"@)),
            !group_ok(*el) ==> err_is(r, group_err(*el)),
            r is Ok <==> group_ok(*el),
            r matches Ok(x) ==> group_model(*el, x),
        decreases el,
    {
        let id = match require_attr(el, "id") {
            Ok(v) => v,
            Err(e) => {
                return Err(e);
            },
        };
        let abstract_ = match get_attr_default(el, "abstract", false) {
            Ok(v) => v,
            Err(e) => {
                return Err(e);
            },
        };
        let cluster_id = get_attr(el, "cluster-id");
        let extends = get_attr(el, "extends");
        let hidden = match get_attr_default(el, "hidden", false) {
            Ok(v) => v,
            Err(e) => {
                return Err(e);
            },
        };
        let prohibit_changes = match get_attr_default(el, "prohibitChanges", false) {
            Ok(v) => v,
            Err(e) => {
                return Err(e);
            },
        };
        let selected = match get_attr_default(el, "selected", true) {
            Ok(v) => v,
            Err(e) => {
                return Err(e);
            },
        };
        let weight = match get_attr_default(el, "weight", Weight::one()) {
            Ok(v) => v,
            Err(e) => {
                return Err(e);
            },
        };
        let mut statuses: Vec<Status> = Vec::new();
        let mut version: Option<Version> = None;
        let mut titles: Vec<Title> = Vec::new();
        let mut descriptions: Vec<Description> = Vec::new();
        let mut warnings: Vec<Warning> = Vec::new();
        let mut questions: Vec<Question> = Vec::new();
        let mut references: Vec<Reference> = Vec::new();
        let mut metadata: Vec<Metadata> = Vec::new();
        let mut rationales: Vec<Rationale> = Vec::new();
        let mut platforms: Vec<Platform> = Vec::new();
        let mut requirements: Vec<Requires> = Vec::new();
        let mut conflicts: Vec<Conflicts> = Vec::new();
        let mut values: Vec<Value> = Vec::new();
        let mut groups: Vec<Group> = Vec::new();
        let mut rules: Vec<Rule> = Vec::new();
        let mut i: usize = 0;
        while i < el.nodes.len()
            invariant
                i <= el.nodes@.len(),
                attr_spec(*el, "id"@) == Some(id@),
                forall|j: int|
                    0 <= j < i && #[trigger] el.nodes@[j] is Element ==> {
                        let c = el.nodes@[j]->Element_0;
                        group_child_ok(c)
                    },
                group_attrs_ok(*el),
                forall|j: int| 0 <= j < i ==> !(#[trigger] group_fails_at(*el, j)),
                statuses@.len() == count_kind(el.nodes@.take(i as int), ChildKind::Status),
                forall|j: int|
                    0 <= j < statuses@.len() ==> (#[trigger] statuses@[j]).built_from(
                        kind_children(el.nodes@.take(i as int), ChildKind::Status)[j],
                    ),
                version is Some <==> count_kind(
                    el.nodes@.take(i as int),
                    ChildKind::Version,
                ) >= 1,
                count_kind(el.nodes@.take(i as int), ChildKind::Version) <= 1,
                version matches Some(v) ==> v.built_from(
                    kind_children(el.nodes@.take(i as int), ChildKind::Version)[0],
                ),
                titles@.len() == count_kind(el.nodes@.take(i as int), ChildKind::Title),
                forall|j: int|
                    0 <= j < titles@.len() ==> (#[trigger] titles@[j]).built_from(
                        kind_children(el.nodes@.take(i as int), ChildKind::Title)[j],
                    ),
                descriptions@.len() == count_kind(el.nodes@.take(i as int), ChildKind::Description),
                forall|j: int|
                    0 <= j < descriptions@.len() ==> (#[trigger] descriptions@[j]).built_from(
                        kind_children(el.nodes@.take(i as int), ChildKind::Description)[j],
                    ),
                warnings@.len() == count_kind(el.nodes@.take(i as int), ChildKind::Warning),
                forall|j: int|
                    0 <= j < warnings@.len() ==> (#[trigger] warnings@[j]).built_from(
                        kind_children(el.nodes@.take(i as int), ChildKind::Warning)[j],
                    ),
                questions@.len() == count_kind(el.nodes@.take(i as int), ChildKind::Question),
                forall|j: int|
                    0 <= j < questions@.len() ==> (#[trigger] questions@[j]).built_from(
                        kind_children(el.nodes@.take(i as int), ChildKind::Question)[j],
                    ),
                references@.len() == count_kind(el.nodes@.take(i as int), ChildKind::Reference),
                forall|j: int|
                    0 <= j < references@.len() ==> (#[trigger] references@[j]).built_from(
                        kind_children(el.nodes@.take(i as int), ChildKind::Reference)[j],
                    ),
                metadata@.len() == count_kind(el.nodes@.take(i as int), ChildKind::Metadata),
                forall|j: int|
                    0 <= j < metadata@.len() ==> (#[trigger] metadata@[j]).built_from(
                        kind_children(el.nodes@.take(i as int), ChildKind::Metadata)[j],
                    ),
                rationales@.len() == count_kind(el.nodes@.take(i as int), ChildKind::Rationale),
                forall|j: int|
                    0 <= j < rationales@.len() ==> (#[trigger] rationales@[j]).built_from(
                        kind_children(el.nodes@.take(i as int), ChildKind::Rationale)[j],
                    ),
                platforms@.len() == count_kind(el.nodes@.take(i as int), ChildKind::Platform),
                forall|j: int|
                    0 <= j < platforms@.len() ==> (#[trigger] platforms@[j]).built_from(
                        kind_children(el.nodes@.take(i as int), ChildKind::Platform)[j],
                    ),
                requirements@.len() == count_kind(el.nodes@.take(i as int), ChildKind::Requires),
                forall|j: int|
                    0 <= j < requirements@.len() ==> (#[trigger] requirements@[j]).built_from(
                        kind_children(el.nodes@.take(i as int), ChildKind::Requires)[j],
                    ),
                conflicts@.len() == count_kind(el.nodes@.take(i as int), ChildKind::Conflicts),
                forall|j: int|
                    0 <= j < conflicts@.len() ==> (#[trigger] conflicts@[j]).built_from(
                        kind_children(el.nodes@.take(i as int), ChildKind::Conflicts)[j],
                    ),
                values@.len() == count_kind(el.nodes@.take(i as int), ChildKind::Value),
                forall|j: int|
                    0 <= j < values@.len() ==> (#[trigger] values@[j]).built_from(
                        kind_children(el.nodes@.take(i as int), ChildKind::Value)[j],
                    ),
                groups@.len() == count_kind(el.nodes@.take(i as int), ChildKind::Group),
                forall|k: int|
                    0 <= k < i && #[trigger] el.nodes@[k] is Element && kind_of(
                        el.nodes@[k]->Element_0.name@,
                    ) is Group ==> count_kind(el.nodes@.take(k), ChildKind::Group) < groups@.len()
                        && group_model(
                        el.nodes@[k]->Element_0,
                        groups@[count_kind(el.nodes@.take(k), ChildKind::Group) as int],
                    ),
                rules@.len() == count_kind(el.nodes@.take(i as int), ChildKind::Rule),
                forall|j: int|
                    0 <= j < rules@.len() ==> (#[trigger] rules@[j]).built_from(
                        kind_children(el.nodes@.take(i as int), ChildKind::Rule)[j],
                    ),
            decreases el.nodes@.len() - i,
        {
            proof {
                lemma_take_last(el.nodes@, i as int);
            }
            if let XmlNode::Element(child) = &el.nodes[i] {
                match child_kind(child.name.as_str()) {
                    ChildKind::Status => match Status::from_xml(child) {
                        Ok(x) => statuses.push(x),
                        Err(e) => {
                            proof {
                                lemma_group_first_fail(*el, i as int);
                            }
                            return Err(e);
                        },
                    },
                    ChildKind::Version => {
                        if version.is_some() {
                            proof {
                                lemma_count_prefix(
                                    el.nodes@,
                                    i + 1,
                                    ChildKind::Version,
                                );
                                lemma_group_first_fail(*el, i as int);
                            }
                            return Err(String::from_str("Duplicate version elements"));
                        }
                        match Version::from_xml(child) {
                            Ok(x) => {
                                version = Some(x);
                            },
                            Err(e) => {
                                proof {
                                    lemma_group_first_fail(*el, i as int);
                                }
                                return Err(e);
                            },
                        }
                    },
                    ChildKind::Title => match Title::from_xml(child) {
                        Ok(x) => titles.push(x),
                        Err(e) => {
                            proof {
                                lemma_group_first_fail(*el, i as int);
                            }
                            return Err(e);
                        },
                    },
                    ChildKind::Description => match Description::from_xml(child) {
                        Ok(x) => descriptions.push(x),
                        Err(e) => {
                            proof {
                                lemma_group_first_fail(*el, i as int);
                            }
                            return Err(e);
                        },
                    },
                    ChildKind::Warning => match Warning::from_xml(child) {
                        Ok(x) => warnings.push(x),
                        Err(e) => {
                            proof {
                                lemma_group_first_fail(*el, i as int);
                            }
                            return Err(e);
                        },
                    },
                    ChildKind::Question => match Question::from_xml(child) {
                        Ok(x) => questions.push(x),
                        Err(e) => {
                            proof {
                                lemma_group_first_fail(*el, i as int);
                            }
                            return Err(e);
                        },
                    },
                    ChildKind::Reference => match Reference::from_xml(child) {
                        Ok(x) => references.push(x),
                        Err(e) => {
                            proof {
                                lemma_group_first_fail(*el, i as int);
                            }
                            return Err(e);
                        },
                    },
                    ChildKind::Metadata => match Metadata::from_xml(child) {
                        Ok(x) => metadata.push(x),
                        Err(e) => {
                            proof {
                                lemma_group_first_fail(*el, i as int);
                            }
                            return Err(e);
                        },
                    },
                    ChildKind::Rationale => match Rationale::from_xml(child) {
                        Ok(x) => rationales.push(x),
                        Err(e) => {
                            proof {
                                lemma_group_first_fail(*el, i as int);
                            }
                            return Err(e);
                        },
                    },
                    ChildKind::Platform => match Platform::from_xml(child) {
                        Ok(x) => platforms.push(x),
                        Err(e) => {
                            proof {
                                lemma_group_first_fail(*el, i as int);
                            }
                            return Err(e);
                        },
                    },
                    ChildKind::Requires => match Requires::from_xml(child) {
                        Ok(x) => requirements.push(x),
                        Err(e) => {
                            proof {
                                lemma_group_first_fail(*el, i as int);
                            }
                            return Err(e);
                        },
                    },
                    ChildKind::Conflicts => match Conflicts::from_xml(child) {
                        Ok(x) => conflicts.push(x),
                        Err(e) => {
                            proof {
                                lemma_group_first_fail(*el, i as int);
                            }
                            return Err(e);
                        },
                    },
                    ChildKind::Value => match Value::from_xml(child) {
                        Ok(x) => values.push(x),
                        Err(e) => {
                            proof {
                                lemma_group_first_fail(*el, i as int);
                            }
                            return Err(e);
                        },
                    },
                    ChildKind::Group => match Group::from_xml(child) {
                        Ok(x) => groups.push(x),
                        Err(e) => {
                            proof {
                                lemma_group_first_fail(*el, i as int);
                            }
                            return Err(e);
                        },
                    },
                    ChildKind::Rule => match Rule::from_xml(child) {
                        Ok(x) => rules.push(x),
                        Err(e) => {
                            proof {
                                lemma_group_first_fail(*el, i as int);
                            }
                            return Err(e);
                        },
                    },
                    _ => {
                        proof {
                            lemma_group_first_fail(*el, i as int);
                        }
                        return Err(unexpected_in("Group", id.as_str(), child.name()));
                    },
                }
            }
            i = i + 1;
        }
        proof {
            assert(el.nodes@.take(el.nodes@.len() as int) =~= el.nodes@);
        }
        Ok(
            Group {
                id,
                abstract_,
                cluster_id,
                extends,
                hidden,
                prohibit_changes,
                selected,
                weight,
                statuses,
                version,
                titles,
                descriptions,
                warnings,
                questions,
                references,
                metadata,
                rationales,
                platforms,
                requirements,
                conflicts,
                values,
                groups,
                rules,
            },
        )
    }
}

/// Whether the attributes of a `Rule` element are well formed.
pub open spec fn rule_attrs_ok(el: XmlElement) -> bool {
    item_attrs_ok(el) && one_of(attr_or(el, "role"@, "full"@), role_values()) && one_of(
        attr_or(el, "severity"@, "unknown"@),
        severity_values(),
    ) && bool_attr_ok(el, "multiple"@)
}

/// Whether the child at position `i` of a `Rule` element is where mapping stops.
pub open spec fn rule_fails_at(el: XmlElement, i: int) -> bool {
    &&& 0 <= i < el.nodes@.len()
    &&& el.nodes@[i] is Element
    &&& {
        let c = el.nodes@[i]->Element_0;
        let k = kind_of(c.name@);
        (k is Version && count_kind(el.nodes@.take(i), ChildKind::Version) >= 1) || !(in_rule(kind_of(c.name@)) && leaf_ok(kind_of(c.name@), c))
    }
}

/// Whether `i` is the first position at which mapping a `Rule` element stops.
pub open spec fn rule_first_fail(el: XmlElement, i: int) -> bool {
    rule_fails_at(el, i) && forall|j: int| 0 <= j < i ==> !(#[trigger] rule_fails_at(el, j))
}

/// The message that mapping a `Rule` element stops with at the child at position `i`.
pub open spec fn rule_fail_msg(el: XmlElement, i: int) -> Seq<char> {
    if 0 <= i < el.nodes@.len() && el.nodes@[i] is Element {
        let c = el.nodes@[i]->Element_0;
        let k = kind_of(c.name@);
        if k is Version && count_kind(el.nodes@.take(i), ChildKind::Version) >= 1 {
            "Duplicate version elements"@
        } else if !in_rule(k) {
            unexpected_msg("Rule"@, attr_text(el, "id"@), c.name@)
        } else {
            leaf_err(k, c)
        }
    } else {
        Seq::empty()
    }
}

/// The message that mapping a `Rule` element that is not well formed fails with.
pub open spec fn rule_err(el: XmlElement) -> Seq<char> {
    if !item_attrs_ok(el) {
        item_attrs_err(el)
    } else if !one_of(attr_or(el, "role"@, "full"@), role_values()) {
        not_allowed_msg(el.name@, "role"@, attr_or(el, "role"@, "full"@), role_values())
    } else if !one_of(attr_or(el, "severity"@, "unknown"@), severity_values()) {
        not_allowed_msg(el.name@, "severity"@, attr_or(el, "severity"@, "unknown"@), severity_values())
    } else if !bool_attr_ok(el, "multiple"@) {
        bool_attr_err(el, "multiple"@)
    } else if exists|i: int| rule_first_fail(el, i) {
        rule_fail_msg(el, choose|i: int| rule_first_fail(el, i))
    } else {
        Seq::empty()
    }
}

proof fn lemma_rule_first_fail(el: XmlElement, i: int)
    requires
        rule_fails_at(el, i),
        forall|j: int| 0 <= j < i ==> !(#[trigger] rule_fails_at(el, j)),
    ensures
        exists|j: int| rule_first_fail(el, j),
        (choose|j: int| rule_first_fail(el, j)) == i,
{
    assert(rule_first_fail(el, i));
    let j = choose|j: int| rule_first_fail(el, j);
    if j < i {
        assert(!rule_fails_at(el, j));
    } else if j > i {
        assert(!rule_fails_at(el, i));
    }
}

/// A single check of the checklist, with its checks and fixes.
#[derive(Debug, PartialEq)]
pub struct Rule {
    pub id: String,
    pub abstract_: bool,
    pub cluster_id: Option<String>,
    pub extends: Option<String>,
    pub hidden: bool,
    pub prohibit_changes: bool,
    pub selected: bool,
    pub weight: Weight,
    pub role: String,
    pub severity: String,
    pub multiple: bool,
    pub statuses: Vec<Status>,
    pub version: Option<Version>,
    pub titles: Vec<Title>,
    pub descriptions: Vec<Description>,
    pub warnings: Vec<Warning>,
    pub questions: Vec<Question>,
    pub references: Vec<Reference>,
    pub metadata: Vec<Metadata>,
    pub rationales: Vec<Rationale>,
    pub platforms: Vec<Platform>,
    pub requirements: Vec<Requires>,
    pub conflicts: Vec<Conflicts>,
    pub idents: Vec<Ident>,
    pub profile_notes: Vec<ProfileNote>,
    pub fixtexts: Vec<FixText>,
    pub fixes: Vec<Fix>,
    pub checks: Vec<Check>,
    pub complex_checks: Vec<ComplexCheck>,
}

/// What a `Rule` built from `el` holds.
pub open spec fn rule_model(el: XmlElement, x: Rule) -> bool {
    &&& attr_spec(el, "id"@) == Some(x.id@)
    &&& x.abstract_ == bool_attr(el, "abstract"@, false)
    &&& opt_view(x.cluster_id) == attr_spec(el, "cluster-id"@)
    &&& opt_view(x.extends) == attr_spec(el, "extends"@)
    &&& x.hidden == bool_attr(el, "hidden"@, false)
    &&& x.prohibit_changes == bool_attr(el, "prohibitChanges"@, false)
    &&& x.selected == bool_attr(el, "selected"@, true)
    &&& x.weight.text@ == attr_or(el, "weight"@, "1.0"@)
    &&& x.role@ == attr_or(el, "role"@, "full"@)
    &&& x.severity@ == attr_or(el, "severity"@, "unknown"@)
    &&& x.multiple == bool_attr(el, "multiple"@, false)
    &&& x.statuses@.len() == count_kind(el.nodes@, ChildKind::Status)
    &&& forall|j: int|
        0 <= j < x.statuses@.len() ==> (#[trigger] x.statuses@[j]).built_from(
            kind_children(el.nodes@, ChildKind::Status)[j],
        )
    &&& (x.version is Some <==> count_kind(
        el.nodes@,
        ChildKind::Version,
    ) == 1)
    &&& (x.version matches Some(v) ==> v.built_from(
        kind_children(el.nodes@, ChildKind::Version)[0],
    ))
    &&& x.titles@.len() == count_kind(el.nodes@, ChildKind::Title)
    &&& forall|j: int|
        0 <= j < x.titles@.len() ==> (#[trigger] x.titles@[j]).built_from(
            kind_children(el.nodes@, ChildKind::Title)[j],
        )
    &&& x.descriptions@.len() == count_kind(el.nodes@, ChildKind::Description)
    &&& forall|j: int|
        0 <= j < x.descriptions@.len() ==> (#[trigger] x.descriptions@[j]).built_from(
            kind_children(el.nodes@, ChildKind::Description)[j],
        )
    &&& x.warnings@.len() == count_kind(el.nodes@, ChildKind::Warning)
    &&& forall|j: int|
        0 <= j < x.warnings@.len() ==> (#[trigger] x.warnings@[j]).built_from(
            kind_children(el.nodes@, ChildKind::Warning)[j],
        )
    &&& x.questions@.len() == count_kind(el.nodes@, ChildKind::Question)
    &&& forall|j: int|
        0 <= j < x.questions@.len() ==> (#[trigger] x.questions@[j]).built_from(
            kind_children(el.nodes@, ChildKind::Question)[j],
        )
    &&& x.references@.len() == count_kind(el.nodes@, ChildKind::Reference)
    &&& forall|j: int|
        0 <= j < x.references@.len() ==> (#[trigger] x.references@[j]).built_from(
            kind_children(el.nodes@, ChildKind::Reference)[j],
        )
    &&& x.metadata@.len() == count_kind(el.nodes@, ChildKind::Metadata)
    &&& forall|j: int|
        0 <= j < x.metadata@.len() ==> (#[trigger] x.metadata@[j]).built_from(
            kind_children(el.nodes@, ChildKind::Metadata)[j],
        )
    &&& x.rationales@.len() == count_kind(el.nodes@, ChildKind::Rationale)
    &&& forall|j: int|
        0 <= j < x.rationales@.len() ==> (#[trigger] x.rationales@[j]).built_from(
            kind_children(el.nodes@, ChildKind::Rationale)[j],
        )
    &&& x.platforms@.len() == count_kind(el.nodes@, ChildKind::Platform)
    &&& forall|j: int|
        0 <= j < x.platforms@.len() ==> (#[trigger] x.platforms@[j]).built_from(
            kind_children(el.nodes@, ChildKind::Platform)[j],
        )
    &&& x.requirements@.len() == count_kind(el.nodes@, ChildKind::Requires)
    &&& forall|j: int|
        0 <= j < x.requirements@.len() ==> (#[trigger] x.requirements@[j]).built_from(
            kind_children(el.nodes@, ChildKind::Requires)[j],
        )
    &&& x.conflicts@.len() == count_kind(el.nodes@, ChildKind::Conflicts)
    &&& forall|j: int|
        0 <= j < x.conflicts@.len() ==> (#[trigger] x.conflicts@[j]).built_from(
            kind_children(el.nodes@, ChildKind::Conflicts)[j],
        )
    &&& x.idents@.len() == count_kind(el.nodes@, ChildKind::Ident)
    &&& forall|j: int|
        0 <= j < x.idents@.len() ==> (#[trigger] x.idents@[j]).built_from(
            kind_children(el.nodes@, ChildKind::Ident)[j],
        )
    &&& x.profile_notes@.len() == count_kind(el.nodes@, ChildKind::ProfileNote)
    &&& forall|j: int|
        0 <= j < x.profile_notes@.len() ==> (#[trigger] x.profile_notes@[j]).built_from(
            kind_children(el.nodes@, ChildKind::ProfileNote)[j],
        )
    &&& x.fixtexts@.len() == count_kind(el.nodes@, ChildKind::FixText)
    &&& forall|j: int|
        0 <= j < x.fixtexts@.len() ==> (#[trigger] x.fixtexts@[j]).built_from(
            kind_children(el.nodes@, ChildKind::FixText)[j],
        )
    &&& x.fixes@.len() == count_kind(el.nodes@, ChildKind::Fix)
    &&& forall|j: int|
        0 <= j < x.fixes@.len() ==> (#[trigger] x.fixes@[j]).built_from(
            kind_children(el.nodes@, ChildKind::Fix)[j],
        )
    &&& x.checks@.len() == count_kind(el.nodes@, ChildKind::Check)
    &&& forall|j: int|
        0 <= j < x.checks@.len() ==> (#[trigger] x.checks@[j]).built_from(
            kind_children(el.nodes@, ChildKind::Check)[j],
        )
    &&& x.complex_checks@.len() == count_kind(el.nodes@, ChildKind::ComplexCheck)
    &&& forall|j: int|
        0 <= j < x.complex_checks@.len() ==> (#[trigger] x.complex_checks@[j]).built_from(
            kind_children(el.nodes@, ChildKind::ComplexCheck)[j],
        )
}

impl Rule {
    /// Whether this value holds what the element `el` says.
    pub open spec fn built_from(self, el: XmlElement) -> bool {
        rule_model(el, self)
    }
}

impl Rule {
    /// Maps the element and everything nested in it; the first violation found is returned.
    pub fn from_xml(el: &XmlElement) -> (r: Result<Rule, String>)
        ensures
            !has_attr(*el, "id"@) ==> err_is(r, missing_attr_msg(el.name@, "id"@)),
            !rule_ok(*el) ==> err_is(r, rule_err(*el)),
            r is Ok <==> rule_ok(*el),
            r matches Ok(x) ==> rule_model(*el, x),
    {
        let id = match require_attr(el, "id") {
            Ok(v) => v,
            Err(e) => {
                return Err(e);
            },
        };
        let abstract_ = match get_attr_default(el, "abstract", false) {
            Ok(v) => v,
            Err(e) => {
                return Err(e);
            },
        };
        let cluster_id = get_attr(el, "cluster-id");
        let extends = get_attr(el, "extends");
        let hidden = match get_attr_default(el, "hidden", false) {
            Ok(v) => v,
            Err(e) => {
                return Err(e);
            },
        };
        let prohibit_changes = match get_attr_default(el, "prohibitChanges", false) {
            Ok(v) => v,
            Err(e) => {
                return Err(e);
            },
        };
        let selected = match get_attr_default(el, "selected", true) {
            Ok(v) => v,
            Err(e) => {
                return Err(e);
            },
        };
        let weight = match get_attr_default(el, "weight", Weight::one()) {
            Ok(v) => v,
            Err(e) => {
                return Err(e);
            },
        };
        let role = match get_attr_default_options(
            el,
            "role",
            String::from_str("full"),
            role_options(),
        ) {
            Ok(v) => v,
            Err(e) => {
                return Err(e);
            },
        };
        let severity = match get_attr_default_options(
            el,
            "severity",
            String::from_str("unknown"),
            severity_options(),
        ) {
            Ok(v) => v,
            Err(e) => {
                return Err(e);
            },
        };
        let multiple = match get_attr_default(el, "multiple", false) {
            Ok(v) => v,
            Err(e) => {
                return Err(e);
            },
        };
        let mut statuses: Vec<Status> = Vec::new();
        let mut version: Option<Version> = None;
        let mut titles: Vec<Title> = Vec::new();
        let mut descriptions: Vec<Description> = Vec::new();
        let mut warnings: Vec<Warning> = Vec::new();
        let mut questions: Vec<Question> = Vec::new();
        let mut references: Vec<Reference> = Vec::new();
        let mut metadata: Vec<Metadata> = Vec::new();
        let mut rationales: Vec<Rationale> = Vec::new();
        let mut platforms: Vec<Platform> = Vec::new();
        let mut requirements: Vec<Requires> = Vec::new();
        let mut conflicts: Vec<Conflicts> = Vec::new();
        let mut idents: Vec<Ident> = Vec::new();
        let mut profile_notes: Vec<ProfileNote> = Vec::new();
        let mut fixtexts: Vec<FixText> = Vec::new();
        let mut fixes: Vec<Fix> = Vec::new();
        let mut checks: Vec<Check> = Vec::new();
        let mut complex_checks: Vec<ComplexCheck> = Vec::new();
        let mut i: usize = 0;
        while i < el.nodes.len()
            invariant
                i <= el.nodes@.len(),
                attr_spec(*el, "id"@) == Some(id@),
                forall|j: int|
                    0 <= j < i && #[trigger] el.nodes@[j] is Element ==> {
                        let c = el.nodes@[j]->Element_0;
                        in_rule(kind_of(c.name@)) && leaf_ok(kind_of(c.name@), c)
                    },
                rule_attrs_ok(*el),
                forall|j: int| 0 <= j < i ==> !(#[trigger] rule_fails_at(*el, j)),
                statuses@.len() == count_kind(el.nodes@.take(i as int), ChildKind::Status),
                forall|j: int|
                    0 <= j < statuses@.len() ==> (#[trigger] statuses@[j]).built_from(
                        kind_children(el.nodes@.take(i as int), ChildKind::Status)[j],
                    ),
                version is Some <==> count_kind(
                    el.nodes@.take(i as int),
                    ChildKind::Version,
                ) >= 1,
                count_kind(el.nodes@.take(i as int), ChildKind::Version) <= 1,
                version matches Some(v) ==> v.built_from(
                    kind_children(el.nodes@.take(i as int), ChildKind::Version)[0],
                ),
                titles@.len() == count_kind(el.nodes@.take(i as int), ChildKind::Title),
                forall|j: int|
                    0 <= j < titles@.len() ==> (#[trigger] titles@[j]).built_from(
                        kind_children(el.nodes@.take(i as int), ChildKind::Title)[j],
                    ),
                descriptions@.len() == count_kind(el.nodes@.take(i as int), ChildKind::Description),
                forall|j: int|
                    0 <= j < descriptions@.len() ==> (#[trigger] descriptions@[j]).built_from(
                        kind_children(el.nodes@.take(i as int), ChildKind::Description)[j],
                    ),
                warnings@.len() == count_kind(el.nodes@.take(i as int), ChildKind::Warning),
                forall|j: int|
                    0 <= j < warnings@.len() ==> (#[trigger] warnings@[j]).built_from(
                        kind_children(el.nodes@.take(i as int), ChildKind::Warning)[j],
                    ),
                questions@.len() == count_kind(el.nodes@.take(i as int), ChildKind::Question),
                forall|j: int|
                    0 <= j < questions@.len() ==> (#[trigger] questions@[j]).built_from(
                        kind_children(el.nodes@.take(i as int), ChildKind::Question)[j],
                    ),
                references@.len() == count_kind(el.nodes@.take(i as int), ChildKind::Reference),
                forall|j: int|
                    0 <= j < references@.len() ==> (#[trigger] references@[j]).built_from(
                        kind_children(el.nodes@.take(i as int), ChildKind::Reference)[j],
                    ),
                metadata@.len() == count_kind(el.nodes@.take(i as int), ChildKind::Metadata),
                forall|j: int|
                    0 <= j < metadata@.len() ==> (#[trigger] metadata@[j]).built_from(
                        kind_children(el.nodes@.take(i as int), ChildKind::Metadata)[j],
                    ),
                rationales@.len() == count_kind(el.nodes@.take(i as int), ChildKind::Rationale),
                forall|j: int|
                    0 <= j < rationales@.len() ==> (#[trigger] rationales@[j]).built_from(
                        kind_children(el.nodes@.take(i as int), ChildKind::Rationale)[j],
                    ),
                platforms@.len() == count_kind(el.nodes@.take(i as int), ChildKind::Platform),
                forall|j: int|
                    0 <= j < platforms@.len() ==> (#[trigger] platforms@[j]).built_from(
                        kind_children(el.nodes@.take(i as int), ChildKind::Platform)[j],
                    ),
                requirements@.len() == count_kind(el.nodes@.take(i as int), ChildKind::Requires),
                forall|j: int|
                    0 <= j < requirements@.len() ==> (#[trigger] requirements@[j]).built_from(
                        kind_children(el.nodes@.take(i as int), ChildKind::Requires)[j],
                    ),
                conflicts@.len() == count_kind(el.nodes@.take(i as int), ChildKind::Conflicts),
                forall|j: int|
                    0 <= j < conflicts@.len() ==> (#[trigger] conflicts@[j]).built_from(
                        kind_children(el.nodes@.take(i as int), ChildKind::Conflicts)[j],
                    ),
                idents@.len() == count_kind(el.nodes@.take(i as int), ChildKind::Ident),
                forall|j: int|
                    0 <= j < idents@.len() ==> (#[trigger] idents@[j]).built_from(
                        kind_children(el.nodes@.take(i as int), ChildKind::Ident)[j],
                    ),
                profile_notes@.len() == count_kind(
                    el.nodes@.take(i as int),
                    ChildKind::ProfileNote,
                ),
                forall|j: int|
                    0 <= j < profile_notes@.len() ==> (#[trigger] profile_notes@[j]).built_from(
                        kind_children(el.nodes@.take(i as int), ChildKind::ProfileNote)[j],
                    ),
                fixtexts@.len() == count_kind(el.nodes@.take(i as int), ChildKind::FixText),
                forall|j: int|
                    0 <= j < fixtexts@.len() ==> (#[trigger] fixtexts@[j]).built_from(
                        kind_children(el.nodes@.take(i as int), ChildKind::FixText)[j],
                    ),
                fixes@.len() == count_kind(el.nodes@.take(i as int), ChildKind::Fix),
                forall|j: int|
                    0 <= j < fixes@.len() ==> (#[trigger] fixes@[j]).built_from(
                        kind_children(el.nodes@.take(i as int), ChildKind::Fix)[j],
                    ),
                checks@.len() == count_kind(el.nodes@.take(i as int), ChildKind::Check),
                forall|j: int|
                    0 <= j < checks@.len() ==> (#[trigger] checks@[j]).built_from(
                        kind_children(el.nodes@.take(i as int), ChildKind::Check)[j],
                    ),
                complex_checks@.len() == count_kind(
                    el.nodes@.take(i as int),
                    ChildKind::ComplexCheck,
                ),
                forall|j: int|
                    0 <= j < complex_checks@.len() ==> (#[trigger] complex_checks@[j]).built_from(
                        kind_children(el.nodes@.take(i as int), ChildKind::ComplexCheck)[j],
                    ),
            decreases el.nodes@.len() - i,
        {
            proof {
                lemma_take_last(el.nodes@, i as int);
            }
            if let XmlNode::Element(child) = &el.nodes[i] {
                match child_kind(child.name.as_str()) {
                    ChildKind::Status => match Status::from_xml(child) {
                        Ok(x) => statuses.push(x),
                        Err(e) => {
                            proof {
                                lemma_rule_first_fail(*el, i as int);
                            }
                            return Err(e);
                        },
                    },
                    ChildKind::Version => {
                        if version.is_some() {
                            proof {
                                lemma_count_prefix(
                                    el.nodes@,
                                    i + 1,
                                    ChildKind::Version,
                                );
                                lemma_rule_first_fail(*el, i as int);
                            }
                            return Err(String::from_str("Duplicate version elements"));
                        }
                        match Version::from_xml(child) {
                            Ok(x) => {
                                version = Some(x);
                            },
                            Err(e) => {
                                proof {
                                    lemma_rule_first_fail(*el, i as int);
                                }
                                return Err(e);
                            },
                        }
                    },
                    ChildKind::Title => match Title::from_xml(child) {
                        Ok(x) => titles.push(x),
                        Err(e) => {
                            proof {
                                lemma_rule_first_fail(*el, i as int);
                            }
                            return Err(e);
                        },
                    },
                    ChildKind::Description => match Description::from_xml(child) {
                        Ok(x) => descriptions.push(x),
                        Err(e) => {
                            proof {
                                lemma_rule_first_fail(*el, i as int);
                            }
                            return Err(e);
                        },
                    },
                    ChildKind::Warning => match Warning::from_xml(child) {
                        Ok(x) => warnings.push(x),
                        Err(e) => {
                            proof {
                                lemma_rule_first_fail(*el, i as int);
                            }
                            return Err(e);
                        },
                    },
                    ChildKind::Question => match Question::from_xml(child) {
                        Ok(x) => questions.push(x),
                        Err(e) => {
                            proof {
                                lemma_rule_first_fail(*el, i as int);
                            }
                            return Err(e);
                        },
                    },
                    ChildKind::Reference => match Reference::from_xml(child) {
                        Ok(x) => references.push(x),
                        Err(e) => {
                            proof {
                                lemma_rule_first_fail(*el, i as int);
                            }
                            return Err(e);
                        },
                    },
                    ChildKind::Metadata => match Metadata::from_xml(child) {
                        Ok(x) => metadata.push(x),
                        Err(e) => {
                            proof {
                                lemma_rule_first_fail(*el, i as int);
                            }
                            return Err(e);
                        },
                    },
                    ChildKind::Rationale => match Rationale::from_xml(child) {
                        Ok(x) => rationales.push(x),
                        Err(e) => {
                            proof {
                                lemma_rule_first_fail(*el, i as int);
                            }
                            return Err(e);
                        },
                    },
                    ChildKind::Platform => match Platform::from_xml(child) {
                        Ok(x) => platforms.push(x),
                        Err(e) => {
                            proof {
                                lemma_rule_first_fail(*el, i as int);
                            }
                            return Err(e);
                        },
                    },
                    ChildKind::Requires => match Requires::from_xml(child) {
                        Ok(x) => requirements.push(x),
                        Err(e) => {
                            proof {
                                lemma_rule_first_fail(*el, i as int);
                            }
                            return Err(e);
                        },
                    },
                    ChildKind::Conflicts => match Conflicts::from_xml(child) {
                        Ok(x) => conflicts.push(x),
                        Err(e) => {
                            proof {
                                lemma_rule_first_fail(*el, i as int);
                            }
                            return Err(e);
                        },
                    },
                    ChildKind::Ident => match Ident::from_xml(child) {
                        Ok(x) => idents.push(x),
                        Err(e) => {
                            proof {
                                lemma_rule_first_fail(*el, i as int);
                            }
                            return Err(e);
                        },
                    },
                    ChildKind::ProfileNote => match ProfileNote::from_xml(child) {
                        Ok(x) => profile_notes.push(x),
                        Err(e) => {
                            proof {
                                lemma_rule_first_fail(*el, i as int);
                            }
                            return Err(e);
                        },
                    },
                    ChildKind::FixText => match FixText::from_xml(child) {
                        Ok(x) => fixtexts.push(x),
                        Err(e) => {
                            proof {
                                lemma_rule_first_fail(*el, i as int);
                            }
                            return Err(e);
                        },
                    },
                    ChildKind::Fix => match Fix::from_xml(child) {
                        Ok(x) => fixes.push(x),
                        Err(e) => {
                            proof {
                                lemma_rule_first_fail(*el, i as int);
                            }
                            return Err(e);
                        },
                    },
                    ChildKind::Check => match Check::from_xml(child) {
                        Ok(x) => checks.push(x),
                        Err(e) => {
                            proof {
                                lemma_rule_first_fail(*el, i as int);
                            }
                            return Err(e);
                        },
                    },
                    ChildKind::ComplexCheck => match ComplexCheck::from_xml(child) {
                        Ok(x) => complex_checks.push(x),
                        Err(e) => {
                            proof {
                                lemma_rule_first_fail(*el, i as int);
                            }
                            return Err(e);
                        },
                    },
                    _ => {
                        proof {
                            lemma_rule_first_fail(*el, i as int);
                        }
                        return Err(unexpected_in("Rule", id.as_str(), child.name()));
                    },
                }
            }
            i = i + 1;
        }
        proof {
            assert(el.nodes@.take(el.nodes@.len() as int) =~= el.nodes@);
        }
        Ok(
            Rule {
                id,
                abstract_,
                cluster_id,
                extends,
                hidden,
                prohibit_changes,
                selected,
                weight,
                role,
                severity,
                multiple,
                statuses,
                version,
                titles,
                descriptions,
                warnings,
                questions,
                references,
                metadata,
                rationales,
                platforms,
                requirements,
                conflicts,
                idents,
                profile_notes,
                fixtexts,
                fixes,
                checks,
                complex_checks,
            },
        )
    }
}

} // verus!
