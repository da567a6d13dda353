//! Access to an XML document through the `elementtree` crate: parsing a
//! document from bytes, looking up attributes of its root element, and
//! serializing the document back to bytes.
//!
//! An attribute key is a pair of an optional namespace URI and a local
//! name; the value is the attribute's text.

use vstd::prelude::*;

verus! {

/// The attribute map of the root element of the XML document that `bytes`
/// holds, or `None` when `bytes` is not a well-formed XML document. A key
/// pairs an optional namespace URI with a local name.
pub uninterp spec fn parsed_attrs(bytes: Seq<u8>) -> Option<
    Map<(Option<Seq<char>>, Seq<char>), Seq<char>>,
>;

/// The attributes that an `elementtree::Element` holds, keyed by optional
/// namespace URI and local name.
pub uninterp spec fn root_attrs(e: elementtree::Element) -> Map<
    (Option<Seq<char>>, Seq<char>),
    Seq<char>,
>;

/// Holds of an element that `elementtree::Element::from_reader` produced:
/// its tag, attribute names, namespace prefixes and text all came out of a
/// parsed document.
pub uninterp spec fn serializable(e: elementtree::Element) -> bool;

/// The namespace prefix the element names a URI with when writing, keyed
/// by URI: each registered binding (the first prefix registered for a URI
/// is kept) together with the built-in `xml` and `xmlns` prefixes.
pub uninterp spec fn ns_prefix(e: elementtree::Element) -> Map<Seq<char>, Seq<char>>;

/// A namespace URI that survives emission: the writer copies URIs into
/// quoted namespace declarations without escaping, so a quote, ampersand
/// or angle bracket inside one corrupts the output.
pub open spec fn uri_emit_safe(u: Seq<char>) -> bool {
    forall|i: int| 0 <= i < u.len() ==> u[i] != '"' && u[i] != '&' && u[i] != '<'
}

/// Holds when every element below this one also writes cleanly: each
/// descendant's declared URIs survive emission, and each descendant's
/// namespaced attributes lie in namespaces that the descendant writes
/// with a nonempty prefix, so that no dropped qualification can collide
/// with another attribute and no declaration can corrupt the document.
pub uninterp spec fn children_write_ok(e: elementtree::Element) -> bool;

/// Holds when writing the element keeps its root attributes: every URI
/// the element declares survives emission, every namespaced root
/// attribute lies in a namespace the element writes with a nonempty
/// prefix (one bound to the empty, default prefix is written unqualified,
/// which reads back as a different key), and the elements below write
/// cleanly too.
pub open spec fn writes_faithfully(e: elementtree::Element) -> bool {
    (forall|u: Seq<char>| #[trigger] ns_prefix(e).contains_key(u) ==> uri_emit_safe(u)) && (forall|
        k: (Option<Seq<char>>, Seq<char>),
    |
        #[trigger] root_attrs(e).contains_key(k) ==> match k.0 {
            None => true,
            Some(u) => ns_prefix(e).contains_key(u) && ns_prefix(e)[u].len() > 0,
        }) && children_write_ok(e)
}

#[verifier::external_type_specification]
#[verifier::external_body]
pub struct ExElement(elementtree::Element);

#[verifier::external_type_specification]
#[verifier::external_body]
pub struct ExXmlError(elementtree::Error);

/// Relies on `elementtree::Element::from_reader`: parses an XML document
/// from in-memory bytes, failing exactly when they are not well-formed XML,
/// and returns its root element with the document's attributes.
#[verifier::external_body]
pub(crate) fn parse_root(data: &[u8]) -> (r: Result<elementtree::Element, elementtree::Error>)
    ensures
        r is Ok <==> parsed_attrs(data@) is Some,
        r matches Ok(e) ==> parsed_attrs(data@) == Some(root_attrs(e)) && serializable(e),
{
    elementtree::Element::from_reader(data)
}

/// Relies on `elementtree::Element::get_attr` with a plain `&str` key: looks
/// up the attribute with that local name and no namespace. A key starting
/// with `'{'` would instead be read as a namespace-qualified name, so such
/// keys are excluded.
#[verifier::external_body]
pub(crate) fn attr_no_ns<'a>(e: &'a elementtree::Element, name: &'a str) -> (r: Option<&'a str>)
    requires
        name@.len() > 0 ==> name@[0] != '{',
    ensures
        match r {
            Some(v) => root_attrs(*e).contains_key((None::<Seq<char>>, name@)) && v@ == root_attrs(
                *e,
            )[(None::<Seq<char>>, name@)],
            None => !root_attrs(*e).contains_key((None::<Seq<char>>, name@)),
        },
{
    e.get_attr(name)
}

/// Relies on `elementtree::Element::get_attr` with a `(namespace, name)`
/// key: looks up the attribute with that local name in that namespace.
#[verifier::external_body]
pub(crate) fn attr_in_ns<'a>(e: &'a elementtree::Element, ns: &'a str, name: &'a str) -> (r: Option<
    &'a str,
>)
    ensures
        match r {
            Some(v) => root_attrs(*e).contains_key((Some(ns@), name@)) && v@ == root_attrs(
                *e,
            )[(Some(ns@), name@)],
            None => !root_attrs(*e).contains_key((Some(ns@), name@)),
        },
{
    e.get_attr((ns, name))
}

/// Relies on `elementtree::Element::to_writer`: writes the element as an
/// XML document to an in-memory buffer, which does not fail there (every
/// error path of the writer needs a failing output stream). For an
/// element that `from_reader` produced and that `writes_faithfully`, the
/// output parses back to the same root attributes; outside that condition
/// the writer can drop an attribute's qualification or corrupt the
/// document, and nothing is claimed.
#[verifier::external_body]
pub(crate) fn serialize_root(e: &elementtree::Element) -> (r: Result<
    Vec<u8>,
    elementtree::Error,
>)
    ensures
        r is Ok,
        r matches Ok(b) ==> (serializable(*e) && (forall|u: Seq<char>| #[trigger] ns_prefix(
            *e,
        ).contains_key(u) ==> uri_emit_safe(u)) && (forall|k: (Option<Seq<char>>, Seq<char>)|
            #[trigger] root_attrs(*e).contains_key(k) ==> match k.0 {
                None => true,
                Some(u) => ns_prefix(*e).contains_key(u) && ns_prefix(*e)[u].len() > 0,
            }) && children_write_ok(*e) ==> parsed_attrs(b@) == Some(root_attrs(*e))),
{
    let mut out: Vec<u8> = Vec::new();
    match e.to_writer(&mut out) {
        Ok(()) => Ok(out),
        Err(err) => Err(err),
    }
}

} // verus!
