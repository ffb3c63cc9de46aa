//! A namespace-aware element tree: the input of every mapper.
use vstd::prelude::*;
use vstd::string::*;

verus! {

/// One attribute of an element, under its qualified name.
#[derive(Debug, PartialEq)]
pub struct XmlAttr {
    pub name: String,
    pub value: String,
}

/// A child of an element: a run of text or a nested element.
#[derive(Debug, PartialEq)]
pub enum XmlNode {
    Text(String),
    Element(XmlElement),
}

/// An element with its local name, namespace, attributes and ordered children.
#[derive(Debug, PartialEq)]
pub struct XmlElement {
    pub name: String,
    pub ns: String,
    pub attrs: Vec<XmlAttr>,
    pub nodes: Vec<XmlNode>,
}

/// Relies on `<str as PartialEq>::eq`: two string slices are equal exactly
/// when they hold the same characters.
#[verifier::external_body]
pub(crate) fn str_eq(a: &str, b: &str) -> (r: bool)
    ensures
        r == (a@ == b@),
{
    a == b
}

/// Relies on `String::push`: the character is appended at the end.
#[verifier::external_body]
pub(crate) fn push_char(s: &mut String, c: char)
    ensures
        final(s)@ == old(s)@.push(c),
{
    s.push(c)
}

/// The value of the first attribute named `name`, looking from position `i` on.
pub open spec fn attr_from(attrs: Seq<XmlAttr>, name: Seq<char>, i: int) -> Option<Seq<char>>
    decreases attrs.len() - i,
{
    if i < 0 || i >= attrs.len() {
        None
    } else if attrs[i].name@ == name {
        Some(attrs[i].value@)
    } else {
        attr_from(attrs, name, i + 1)
    }
}

/// The value of the attribute `name` of `el`, if it has one.
pub open spec fn attr_spec(el: XmlElement, name: Seq<char>) -> Option<Seq<char>> {
    attr_from(el.attrs@, name, 0)
}

/// The concatenation of the text nodes among `nodes`, in order.
pub open spec fn texts_of(nodes: Seq<XmlNode>) -> Seq<char>
    decreases nodes.len(),
{
    if nodes.len() == 0 {
        Seq::empty()
    } else {
        texts_of(nodes.drop_last()) + match nodes.last() {
            XmlNode::Text(t) => t@,
            XmlNode::Element(_) => Seq::empty(),
        }
    }
}

/// The direct text content of `el`: its text children, concatenated.
pub open spec fn text_spec(el: XmlElement) -> Seq<char> {
    texts_of(el.nodes@)
}

/// Whether `el` has local name `name` and namespace `ns`.
pub open spec fn is_spec(el: XmlElement, name: Seq<char>, ns: Seq<char>) -> bool {
    el.name@ == name && el.ns@ == ns
}

/// The first element among `nodes` from position `i` on with the given name and namespace.
pub open spec fn child_from(nodes: Seq<XmlNode>, name: Seq<char>, ns: Seq<char>, i: int) -> Option<
    XmlElement,
>
    decreases nodes.len() - i,
{
    if i < 0 || i >= nodes.len() {
        None
    } else if nodes[i] is Element && is_spec(nodes[i]->Element_0, name, ns) {
        Some(nodes[i]->Element_0)
    } else {
        child_from(nodes, name, ns, i + 1)
    }
}

/// The first element among `nodes` from position `i` on.
pub open spec fn first_elem_from(nodes: Seq<XmlNode>, i: int) -> Option<XmlElement>
    decreases nodes.len() - i,
{
    if i < 0 || i >= nodes.len() {
        None
    } else if nodes[i] is Element {
        Some(nodes[i]->Element_0)
    } else {
        first_elem_from(nodes, i + 1)
    }
}

/// Taking one more element of a sequence adds that element at the end.
pub proof fn lemma_take_last<A>(s: Seq<A>, i: int)
    requires
        0 <= i < s.len(),
    ensures
        s.take(i + 1).drop_last() == s.take(i),
        s.take(i + 1).last() == s[i],
{
    assert(s.take(i + 1).drop_last() =~= s.take(i));
}

impl XmlElement {
    /// An element with no attributes and no children.
    pub fn new(name: &str, ns: &str) -> (r: XmlElement)
        ensures
            r.name@ == name@,
            r.ns@ == ns@,
            r.attrs@.len() == 0,
            r.nodes@.len() == 0,
    {
        XmlElement {
            name: String::from_str(name),
            ns: String::from_str(ns),
            attrs: Vec::new(),
            nodes: Vec::new(),
        }
    }

    /// This element with one more attribute, placed after the others.
    pub fn with_attr(self, name: &str, value: &str) -> (r: XmlElement)
        ensures
            r.name == self.name,
            r.ns == self.ns,
            r.nodes == self.nodes,
            r.attrs@.len() == self.attrs@.len() + 1,
            r.attrs@.drop_last() == self.attrs@,
            r.attrs@.last().name@ == name@,
            r.attrs@.last().value@ == value@,
    {
        let mut r = self;
        r.attrs.push(XmlAttr { name: String::from_str(name), value: String::from_str(value) });
        proof {
            assert(r.attrs@.drop_last() =~= self.attrs@);
        }
        r
    }

    /// This element with a text node appended to its children.
    pub fn with_text(self, text: &str) -> (r: XmlElement)
        ensures
            r.name == self.name,
            r.ns == self.ns,
            r.attrs == self.attrs,
            r.nodes@.len() == self.nodes@.len() + 1,
            r.nodes@.drop_last() == self.nodes@,
            r.nodes@.last() matches XmlNode::Text(t) && t@ == text@,
    {
        let mut r = self;
        r.nodes.push(XmlNode::Text(String::from_str(text)));
        proof {
            assert(r.nodes@.drop_last() =~= self.nodes@);
        }
        r
    }

    /// This element with a child element appended to its children.
    pub fn with_child(self, child: XmlElement) -> (r: XmlElement)
        ensures
            r.name == self.name,
            r.ns == self.ns,
            r.attrs == self.attrs,
            r.nodes@ == self.nodes@.push(XmlNode::Element(child)),
    {
        let mut r = self;
        r.nodes.push(XmlNode::Element(child));
        r
    }

    /// The local name of this element.
    pub fn name(&self) -> (r: &str)
        ensures
            r@ == self.name@,
    {
        self.name.as_str()
    }

    /// Whether this element has the given local name and namespace.
    pub fn is(&self, name: &str, ns: &str) -> (r: bool)
        ensures
            r == is_spec(*self, name@, ns@),
    {
        str_eq(self.name.as_str(), name) && str_eq(self.ns.as_str(), ns)
    }

    /// The value of the attribute `name`, if present.
    pub fn attr(&self, name: &str) -> (r: Option<&String>)
        ensures
            r matches Some(v) ==> attr_spec(*self, name@) == Some(v@),
            r is None ==> attr_spec(*self, name@) is None,
    {
        let mut i: usize = 0;
        while i < self.attrs.len()
            invariant
                i <= self.attrs@.len(),
                attr_from(self.attrs@, name@, 0) == attr_from(self.attrs@, name@, i as int),
            decreases self.attrs@.len() - i,
        {
            if str_eq(self.attrs[i].name.as_str(), name) {
                return Some(&self.attrs[i].value);
            }
            i = i + 1;
        }
        None
    }

    /// The text children of this element, concatenated in order.
    pub fn text(&self) -> (r: String)
        ensures
            r@ == text_spec(*self),
    {
        let mut r = String::new();
        let mut i: usize = 0;
        while i < self.nodes.len()
            invariant
                i <= self.nodes@.len(),
                r@ == texts_of(self.nodes@.take(i as int)),
            decreases self.nodes@.len() - i,
        {
            proof {
                lemma_take_last(self.nodes@, i as int);
            }
            match &self.nodes[i] {
                XmlNode::Text(t) => r.append(t.as_str()),
                XmlNode::Element(_) => {},
            }
            i = i + 1;
        }
        proof {
            assert(self.nodes@.take(self.nodes@.len() as int) =~= self.nodes@);
        }
        r
    }

    /// The first child element with the given name and namespace.
    pub fn get_child(&self, name: &str, ns: &str) -> (r: Option<&XmlElement>)
        ensures
            r matches Some(c) ==> child_from(self.nodes@, name@, ns@, 0) == Some(*c),
            r is None ==> child_from(self.nodes@, name@, ns@, 0) is None,
    {
        let mut i: usize = 0;
        while i < self.nodes.len()
            invariant
                i <= self.nodes@.len(),
                child_from(self.nodes@, name@, ns@, 0) == child_from(
                    self.nodes@,
                    name@,
                    ns@,
                    i as int,
                ),
            decreases self.nodes@.len() - i,
        {
            match &self.nodes[i] {
                XmlNode::Element(e) => {
                    if e.is(name, ns) {
                        return Some(e);
                    }
                },
                XmlNode::Text(_) => {},
            }
            i = i + 1;
        }
        None
    }

    /// The first child element, whatever its name.
    pub fn first_child(&self) -> (r: Option<&XmlElement>)
        ensures
            r matches Some(c) ==> first_elem_from(self.nodes@, 0) == Some(*c),
            r is None ==> first_elem_from(self.nodes@, 0) is None,
    {
        let mut i: usize = 0;
        while i < self.nodes.len()
            invariant
                i <= self.nodes@.len(),
                first_elem_from(self.nodes@, 0) == first_elem_from(self.nodes@, i as int),
            decreases self.nodes@.len() - i,
        {
            match &self.nodes[i] {
                XmlNode::Element(e) => {
                    return Some(e);
                },
                XmlNode::Text(_) => {},
            }
            i = i + 1;
        }
        None
    }
}

} // verus!
