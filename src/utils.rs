//! Attribute lookup with defaults and allowed-value checks, and flattening
//! of restricted HTML content into plain text.
use vstd::prelude::*;
use vstd::string::*;
use crate::xml::{XmlElement, XmlNode, attr_spec, str_eq, push_char, lemma_take_last};

verus! {

/// A type whose values can be read from the text of an attribute.
pub trait AttrValue: Sized {
    /// Whether `s` is the text form of some value of this type.
    spec fn parses(s: Seq<char>) -> bool;

    /// Whether `v` is the value that the text `s` stands for.
    spec fn denotes(s: Seq<char>, v: Self) -> bool;

    fn parse_attr(s: &str) -> (r: Option<Self>)
        ensures
            r is Some <==> Self::parses(s@),
            r matches Some(v) ==> Self::denotes(s@, v),
    ;
}

impl AttrValue for String {
    open spec fn parses(s: Seq<char>) -> bool {
        true
    }

    open spec fn denotes(s: Seq<char>, v: String) -> bool {
        v@ == s
    }

    fn parse_attr(s: &str) -> (r: Option<String>) {
        Some(String::from_str(s))
    }
}

impl AttrValue for bool {
    open spec fn parses(s: Seq<char>) -> bool {
        s == "true"@ || s == "false"@
    }

    open spec fn denotes(s: Seq<char>, v: bool) -> bool {
        v == (s == "true"@)
    }

    fn parse_attr(s: &str) -> (r: Option<bool>) {
        if str_eq(s, "true") {
            Some(true)
        } else if str_eq(s, "false") {
            Some(false)
        } else {
            None
        }
    }
}

/// The optional value of a `String`, as characters.
pub open spec fn opt_view(o: Option<String>) -> Option<Seq<char>> {
    match o {
        Some(s) => Some(s@),
        None => None,
    }
}

/// Whether `c` is an ASCII decimal digit.
pub open spec fn is_digit(c: char) -> bool {
    '0' <= c <= '9'
}

/// Whether `s` is a non-empty run of decimal digits.
pub open spec fn all_digits(s: Seq<char>) -> bool {
    s.len() > 0 && forall|i: int| 0 <= i < s.len() ==> is_digit(#[trigger] s[i])
}

/// The number that a run of decimal digits stands for.
pub open spec fn digits_value(s: Seq<char>) -> int
    decreases s.len(),
{
    if s.len() == 0 {
        0
    } else {
        digits_value(s.drop_last()) * 10 + (s.last() as int - '0' as int)
    }
}

/// The integer written as digits with an optional leading sign.
pub open spec fn signed_value(s: Seq<char>) -> Option<int> {
    if s.len() > 0 && (s[0] == '-' || s[0] == '+') {
        if all_digits(s.drop_first()) {
            Some(
                if s[0] == '-' {
                    -digits_value(s.drop_first())
                } else {
                    digits_value(s.drop_first())
                },
            )
        } else {
            None
        }
    } else if all_digits(s) {
        Some(digits_value(s))
    } else {
        None
    }
}

proof fn lemma_digits_nonneg(s: Seq<char>)
    requires
        forall|i: int| 0 <= i < s.len() ==> is_digit(#[trigger] s[i]),
    ensures
        digits_value(s) >= 0,
    decreases s.len(),
{
    if s.len() > 0 {
        assert(s.last() == s[s.len() - 1]);
        lemma_digits_nonneg(s.drop_last());
    }
}

proof fn lemma_capped_step(v: int, d: int, cap: int)
    requires
        v >= 0,
        0 <= d <= 9,
        cap > 0,
    ensures
        (if v < cap { v } else { cap }) * 10 + d >= cap ==> v * 10 + d >= cap,
        v < cap ==> (if v < cap { v } else { cap }) * 10 + d == v * 10 + d,
        v >= cap ==> v * 10 + d >= cap,
{
    assert(v >= cap ==> v * 10 + d >= cap) by (nonlinear_arith)
        requires
            d >= 0,
            cap > 0,
    ;
}

/// One more than the largest magnitude an `i32` can hold.
const INT_CAP: u64 = 2147483649;

impl AttrValue for i32 {
    open spec fn parses(s: Seq<char>) -> bool {
        signed_value(s) matches Some(v) && i32::MIN <= v <= i32::MAX
    }

    open spec fn denotes(s: Seq<char>, v: i32) -> bool {
        signed_value(s) == Some(v as int)
    }

    fn parse_attr(s: &str) -> (r: Option<i32>) {
        let n = s.unicode_len();
        if n == 0 {
            return None;
        }
        let c0 = s.get_char(0);
        let neg = c0 == '-';
        let start: usize = if c0 == '-' || c0 == '+' { 1 } else { 0 };
        if start == n {
            return None;
        }
        let ghost body = s@.subrange(start as int, n as int);
        proof {
            if start == 1 {
                assert(body =~= s@.drop_first());
            } else {
                assert(body =~= s@);
            }
        }
        // `acc` is the value read so far, held at `INT_CAP` once it reaches it.
        let mut acc: u64 = 0;
        let mut i: usize = start;
        while i < n
            invariant
                n == s@.len(),
                n > 0,
                start == decimal_start(s@),
                neg == (s@[0] == '-'),
                start <= i <= n,
                body == s@.subrange(start as int, n as int),
                forall|k: int| start <= k < i ==> is_digit(#[trigger] s@[k]),
                acc as int == if digits_value(s@.subrange(start as int, i as int)) < INT_CAP {
                    digits_value(s@.subrange(start as int, i as int))
                } else {
                    INT_CAP as int
                },
            decreases n - i,
        {
            let c = s.get_char(i);
            if !('0' <= c && c <= '9') {
                proof {
                    assert(body[i - start] == c);
                    assert(!is_digit(body[i - start]));
                    assert(!all_digits(body));
                    if start == 1 {
                        assert(s@[0] == '-' || s@[0] == '+');
                        assert(!all_digits(s@.drop_first()));
                    } else {
                        assert(!(s@[0] == '-' || s@[0] == '+'));
                        assert(!all_digits(s@));
                    }
                }
                return None;
            }
            let d: u64 = (c as u32 - '0' as u32) as u64;
            let ghost pre = s@.subrange(start as int, i as int);
            proof {
                assert(s@.subrange(start as int, i + 1).drop_last() =~= pre);
                assert(s@.subrange(start as int, i + 1).last() == c);
                lemma_digits_nonneg(pre);
                lemma_capped_step(digits_value(pre), d as int, INT_CAP as int);
            }
            acc = acc * 10 + d;
            if acc > INT_CAP {
                acc = INT_CAP;
            }
            i = i + 1;
        }
        proof {
            assert(s@.subrange(start as int, n as int) == body);
            assert(all_digits(body));
        }
        if neg {
            if acc <= 2147483648 {
                Some((0 - (acc as i64)) as i32)
            } else {
                None
            }
        } else if acc <= 2147483647 {
            Some(acc as i32)
        } else {
            None
        }
    }
}

/// A weight, kept in the form it was written. XCCDF types weights as
/// decimals, so only plain decimal notation is accepted: exponent forms such
/// as `1e2`, and `inf` or `nan`, are rejected even though a general
/// floating-point reader would take them.
#[derive(Debug, PartialEq)]
pub struct Weight {
    pub text: String,
}

/// Where the digits of a decimal start, after an optional sign.
pub open spec fn decimal_start(s: Seq<char>) -> int {
    if s.len() > 0 && (s[0] == '-' || s[0] == '+') {
        1
    } else {
        0
    }
}

/// Whether `s` is a decimal: an optional sign, then digits with at most one
/// decimal point, at least one of them a digit.
pub open spec fn is_decimal(s: Seq<char>) -> bool {
    let b = decimal_start(s);
    &&& forall|i: int| b <= i < s.len() ==> is_digit(#[trigger] s[i]) || s[i] == '.'
    &&& forall|i: int, j: int|
        b <= i < s.len() && b <= j < s.len() && #[trigger] s[i] == '.' && #[trigger] s[j] == '.'
            ==> i == j
    &&& exists|i: int| b <= i < s.len() && is_digit(#[trigger] s[i])
}

impl Weight {
    /// The weight `1.0`.
    pub fn one() -> (r: Weight)
        ensures
            r.text@ == "1.0"@,
    {
        Weight { text: String::from_str("1.0") }
    }
}

impl AttrValue for Weight {
    open spec fn parses(s: Seq<char>) -> bool {
        is_decimal(s)
    }

    open spec fn denotes(s: Seq<char>, v: Weight) -> bool {
        v.text@ == s
    }

    fn parse_attr(s: &str) -> (r: Option<Weight>) {
        let n = s.unicode_len();
        let mut start: usize = 0;
        if n > 0 {
            let c0 = s.get_char(0);
            if c0 == '-' || c0 == '+' {
                start = 1;
            }
        }
        let mut seen_dot = false;
        let mut seen_digit = false;
        let mut i: usize = start;
        while i < n
            invariant
                n == s@.len(),
                start == decimal_start(s@),
                start <= i <= n,
                forall|k: int| start <= k < i ==> is_digit(#[trigger] s@[k]) || s@[k] == '.',
                forall|k: int, l: int|
                    start <= k < i && start <= l < i && #[trigger] s@[k] == '.' && #[trigger] s@[l]
                        == '.' ==> k == l,
                seen_dot <==> exists|k: int| start <= k < i && #[trigger] s@[k] == '.',
                seen_digit <==> exists|k: int| start <= k < i && is_digit(#[trigger] s@[k]),
            decreases n - i,
        {
            let c = s.get_char(i);
            if c == '.' {
                if seen_dot {
                    return None;
                }
                seen_dot = true;
            } else if '0' <= c && c <= '9' {
                seen_digit = true;
            } else {
                return None;
            }
            i = i + 1;
        }
        if !seen_digit {
            return None;
        }
        Some(Weight { text: String::from_str(s) })
    }
}

/// Whether `r` succeeded with the text `v`.
pub open spec fn ok_is(r: Result<String, String>, v: Seq<char>) -> bool {
    r matches Ok(x) && x@ == v
}

/// Whether `r` failed with the message `m`.
pub open spec fn err_is<T>(r: Result<T, String>, m: Seq<char>) -> bool {
    r matches Err(e) && e@ == m
}

/// The message for an attribute that is absent but required.
pub open spec fn missing_attr_msg(el: Seq<char>, attr: Seq<char>) -> Seq<char> {
    "Element '"@ + el + "' doesn't have required '"@ + attr + "' attribute"@
}

/// The message for an attribute whose text does not parse.
pub open spec fn unparsable_msg(el: Seq<char>, attr: Seq<char>, val: Seq<char>) -> Seq<char> {
    "Element '"@ + el + "' attribute '"@ + attr + "' can't parse value '"@ + val + "'."@
}

/// The message for an attribute value outside its allowed set.
pub open spec fn not_allowed_msg(
    el: Seq<char>,
    attr: Seq<char>,
    val: Seq<char>,
    options: Seq<&str>,
) -> Seq<char> {
    "Element '"@ + el + "' attribute '"@ + attr + "'='"@ + val + "', but expected one of "@
        + debug_list_of(views_of(options))
}

/// The characters of each string slice.
pub open spec fn views_of(options: Seq<&str>) -> Seq<Seq<char>> {
    options.map_values(|o: &str| o@)
}

/// Whether `v` is one of `options`.
pub open spec fn one_of(v: Seq<char>, options: Seq<&str>) -> bool {
    exists|i: int| 0 <= i < options.len() && options[i]@ == v
}

/// The debug rendering of a list of strings.
pub uninterp spec fn debug_list_of(items: Seq<Seq<char>>) -> Seq<char>;

/// Relies on the `Debug` formatting of a slice of string slices: the result
/// depends on the strings alone.
#[verifier::external_body]
fn debug_list(items: &Vec<&str>) -> (r: String)
    ensures
        r@ == debug_list_of(views_of(items@)),
{
    format!("{:?}", items)
}

/// The value of attribute `attr` of `el`, if present.
pub fn get_attr(el: &XmlElement, attr: &str) -> (r: Option<String>)
    ensures
        opt_view(r) == attr_spec(*el, attr@),
{
    match el.attr(attr) {
        Some(v) => Some(v.clone()),
        None => None,
    }
}

/// The value of attribute `name` of `el` read as a `T`, or `default` when absent.
pub fn get_attr_default<T: AttrValue>(el: &XmlElement, name: &str, default: T) -> (r: Result<
    T,
    String,
>)
    ensures
        attr_spec(*el, name@) is None ==> r == Ok::<T, String>(default),
        attr_spec(*el, name@) matches Some(s) ==> {
            &&& T::parses(s) ==> (r matches Ok(v) && T::denotes(s, v))
            &&& !T::parses(s) ==> err_is(r, unparsable_msg(el.name@, name@, s))
        },
{
    match el.attr(name) {
        Some(val) => match T::parse_attr(val.as_str()) {
            Some(x) => Ok(x),
            None => {
                let mut m = String::from_str("Element '");
                m.append(el.name.as_str());
                m.append("' attribute '");
                m.append(name);
                m.append("' can't parse value '");
                m.append(val.as_str());
                m.append("'.");
                Err(m)
            },
        },
        None => Ok(default),
    }
}

/// Whether `val` is one of `options`.
fn contains_str(options: &Vec<&str>, val: &str) -> (r: bool)
    ensures
        r == one_of(val@, options@),
{
    let mut i: usize = 0;
    while i < options.len()
        invariant
            i <= options@.len(),
            forall|j: int| 0 <= j < i ==> options@[j]@ != val@,
        decreases options@.len() - i,
    {
        if str_eq(options[i], val) {
            return true;
        }
        i = i + 1;
    }
    false
}

/// The message for `val` of attribute `attr` of `el` outside `options`.
fn not_allowed(el: &XmlElement, attr: &str, val: &str, options: &Vec<&str>) -> (r: String)
    ensures
        r@ == not_allowed_msg(el.name@, attr@, val@, options@),
{
    let mut m = String::from_str("Element '");
    m.append(el.name.as_str());
    m.append("' attribute '");
    m.append(attr);
    m.append("'='");
    m.append(val);
    m.append("', but expected one of ");
    let l = debug_list(options);
    m.append(l.as_str());
    m
}

/// The value of attribute `name` of `el`, or `default` when absent; the
/// value must be one of `options`.
pub fn get_attr_default_options(el: &XmlElement, name: &str, default: String, options: Vec<&str>) -> (r:
    Result<String, String>)
    ensures
        ({
            let v = match attr_spec(*el, name@) {
                Some(s) => s,
                None => default@,
            };
            &&& one_of(v, options@) ==> ok_is(r, v)
            &&& !one_of(v, options@) ==> err_is(r, not_allowed_msg(
                el.name@,
                name@,
                v,
                options@,
            ))
        }),
{
    let val = match get_attr_default(el, name, default) {
        Ok(v) => v,
        Err(e) => {
            return Err(e);
        },
    };
    if contains_str(&options, val.as_str()) {
        return Ok(val);
    }
    Err(not_allowed(el, name, val.as_str(), &options))
}

/// The value of attribute `attr` of `el`, which must be present.
pub fn require_attr(el: &XmlElement, attr: &str) -> (r: Result<String, String>)
    ensures
        attr_spec(*el, attr@) matches Some(v) ==> ok_is(r, v),
        attr_spec(*el, attr@) is None ==> err_is(r, missing_attr_msg(
            el.name@,
            attr@,
        )),
{
    match el.attr(attr) {
        Some(v) => Ok(v.clone()),
        None => {
            let mut m = String::from_str("Element '");
            m.append(el.name.as_str());
            m.append("' doesn't have required '");
            m.append(attr);
            m.append("' attribute");
            Err(m)
        },
    }
}

/// The value of attribute `attr` of `el`, which must be present and one of `options`.
pub fn require_attr_options(el: &XmlElement, attr: &str, options: Vec<&str>) -> (r: Result<
    String,
    String,
>)
    ensures
        attr_spec(*el, attr@) is None ==> err_is(r, missing_attr_msg(
            el.name@,
            attr@,
        )),
        attr_spec(*el, attr@) matches Some(v) ==> {
            &&& one_of(v, options@) ==> ok_is(r, v)
            &&& !one_of(v, options@) ==> err_is(r, not_allowed_msg(
                el.name@,
                attr@,
                v,
                options@,
            ))
        },
{
    let val = match require_attr(el, attr) {
        Ok(v) => v,
        Err(e) => {
            return Err(e);
        },
    };
    if contains_str(&options, val.as_str()) {
        return Ok(val);
    }
    Err(not_allowed(el, attr, val.as_str(), &options))
}

/// `s` with every newline replaced by a space.
pub open spec fn flat(s: Seq<char>) -> Seq<char> {
    s.map_values(|c: char| if c == '\n' { ' ' } else { c })
}

/// The flattened text of a run of children, in document order: text has its
/// newlines turned into spaces, a `br` element becomes a newline, and any
/// other element contributes its own flattened content.
pub open spec fn html_text(nodes: Seq<XmlNode>) -> Seq<char>
    decreases nodes,
{
    if nodes.len() == 0 {
        Seq::empty()
    } else {
        html_text(nodes.drop_last()) + match nodes.last() {
            XmlNode::Text(t) => flat(t@),
            XmlNode::Element(e) => if e.name@ == "br"@ {
                seq!['\n']
            } else {
                flat(html_text(e.nodes@))
            },
        }
    }
}

/// Appends `s` to `out` with newlines turned into spaces.
fn push_flat(out: &mut String, s: &str)
    ensures
        final(out)@ == old(out)@ + flat(s@),
{
    let ghost start = out@;
    let n = s.unicode_len();
    let mut i: usize = 0;
    while i < n
        invariant
            n == s@.len(),
            i <= n,
            out@ == start + flat(s@.take(i as int)),
        decreases n - i,
    {
        let c = s.get_char(i);
        push_char(out, if c == '\n' { ' ' } else { c });
        proof {
            assert(flat(s@.take(i + 1)) =~= flat(s@.take(i as int)).push(
                if c == '\n' { ' ' } else { c },
            ));
        }
        i = i + 1;
    }
    proof {
        assert(s@.take(n as int) =~= s@);
    }
}

/// Flattens restricted HTML content into plain text: newlines inside text
/// become spaces, a `br` child becomes a newline, and any other child
/// contributes its own content, flattened in the same way.
pub fn html_to_string(el: &XmlElement) -> (r: String)
    ensures
        r@ == html_text(el.nodes@),
    decreases el,
{
    let mut text = String::new();
    let mut i: usize = 0;
    while i < el.nodes.len()
        invariant
            i <= el.nodes@.len(),
            text@ == html_text(el.nodes@.take(i as int)),
        decreases el.nodes@.len() - i,
    {
        proof {
            lemma_take_last(el.nodes@, i as int);
        }
        match &el.nodes[i] {
            XmlNode::Text(x) => push_flat(&mut text, x.as_str()),
            XmlNode::Element(x) => {
                if str_eq(x.name.as_str(), "br") {
                    push_char(&mut text, '\n');
                } else {
                    let t = html_to_string(x);
                    push_flat(&mut text, t.as_str());
                }
            },
        }
        i = i + 1;
    }
    proof {
        assert(el.nodes@.take(el.nodes@.len() as int) =~= el.nodes@);
    }
    text
}

} // verus!
