//! XML documents as plain values: each node of a parsed document with what
//! the conversion reads of it, in document order.
use vstd::prelude::*;

use crate::text::{
    chars_eq_str, parse_i32, parse_i32_chars, parse_usize, parse_usize_chars, trim,
    trim_chars,
};

verus! {

/// `roxmltree::Document`, held only to be read node by node.
#[verifier::external_type_specification]
#[verifier::external_body]
pub struct ExDocument<'input>(roxmltree::Document<'input>);

/// One node of a parsed document.
pub struct XmlNodeView {
    /// Whether the node is an element.
    pub element: bool,
    /// Local name of an element; empty for other nodes.
    pub name: Seq<char>,
    /// `Node::text`: for an element, the text of its first child when that is a text node.
    pub text: Option<Seq<char>>,
    /// Attributes in order: namespace URI, local name and value.
    pub attributes: Seq<(Option<Seq<char>>, Seq<char>, Seq<char>)>,
    /// Indices of the child nodes, in order.
    pub children: Seq<usize>,
    /// Number of nodes in the node's subtree, itself included.
    pub subtree: nat,
}

/// The nodes of a parsed document, in document order; the root is first.
pub uninterp spec fn document_nodes(doc: roxmltree::Document) -> Seq<XmlNodeView>;

/// The nodes of the document that `Document::parse_with_options` reads from
/// a text with DTDs allowed, or nothing when it refuses the text.
pub uninterp spec fn xml_parse(text: Seq<char>) -> Option<Seq<XmlNodeView>>;

/// Parses a text with `Document::parse_with_options`, DTDs allowed. The
/// document it returns holds the nodes `xml_parse` names, no more than
/// `u32::MAX` of them (the parser's node limit).
#[verifier::external_body]
pub(crate) fn parse_document(text: &str) -> (r: Result<roxmltree::Document<'_>, roxmltree::Error>)
    ensures
        match r {
            Ok(doc) => xml_parse(text@) == Some(document_nodes(doc)) && document_nodes(doc).len() <= u32::MAX,
            Err(_) => xml_parse(text@) is None,
        },
{
    roxmltree::Document::parse_with_options(
        text,
        roxmltree::ParsingOptions { allow_dtd: true, ..roxmltree::ParsingOptions::default() },
    )
}

/// The number of nodes of a document, from `Document::descendants`.
#[verifier::external_body]
fn document_node_count(doc: &roxmltree::Document<'_>) -> (r: usize)
    ensures
        r == document_nodes(*doc).len(),
{
    doc.descendants().count()
}

/// `Node::is_element` of node `i`.
#[verifier::external_body]
fn node_is_element(doc: &roxmltree::Document<'_>, i: usize) -> (r: bool)
    requires
        i < document_nodes(*doc).len() <= u32::MAX,
    ensures
        r == document_nodes(*doc)[i as int].element,
{
    doc.get_node(roxmltree::NodeId::from(i)).unwrap().is_element()
}

/// The local part of `Node::tag_name` of node `i`.
#[verifier::external_body]
fn node_local_name(doc: &roxmltree::Document<'_>, i: usize) -> (r: Vec<char>)
    requires
        i < document_nodes(*doc).len() <= u32::MAX,
    ensures
        r@ == document_nodes(*doc)[i as int].name,
{
    doc.get_node(roxmltree::NodeId::from(i)).unwrap().tag_name().name().chars().collect()
}

/// `Node::text` of node `i`.
#[verifier::external_body]
fn node_own_text(doc: &roxmltree::Document<'_>, i: usize) -> (r: Option<Vec<char>>)
    requires
        i < document_nodes(*doc).len() <= u32::MAX,
    ensures
        crate::model::opt_view(r) == document_nodes(*doc)[i as int].text,
{
    doc.get_node(roxmltree::NodeId::from(i)).unwrap().text().map(|t| t.chars().collect())
}

/// `Node::attributes` of node `i`: namespace, local name and value of each.
#[verifier::external_body]
fn node_attributes(doc: &roxmltree::Document<'_>, i: usize) -> (r: Vec<XmlAttr>)
    requires
        i < document_nodes(*doc).len() <= u32::MAX,
    ensures
        attrs_view(r@) == document_nodes(*doc)[i as int].attributes,
{
    doc.get_node(roxmltree::NodeId::from(i)).unwrap().attributes().map(|a| XmlAttr {
        namespace: a.namespace().map(|n| n.chars().collect()),
        name: a.name().chars().collect(),
        value: a.value().chars().collect(),
    }).collect()
}

/// The indices of the nodes that `Node::children` yields for node `i`.
#[verifier::external_body]
fn node_children(doc: &roxmltree::Document<'_>, i: usize) -> (r: Vec<usize>)
    requires
        i < document_nodes(*doc).len() <= u32::MAX,
    ensures
        r@ == document_nodes(*doc)[i as int].children,
{
    doc.get_node(roxmltree::NodeId::from(i)).unwrap().children().map(|c| c.id().get_usize()).collect()
}

/// The number of nodes that `Node::descendants` yields for node `i`.
#[verifier::external_body]
fn node_subtree_size(doc: &roxmltree::Document<'_>, i: usize) -> (r: usize)
    requires
        i < document_nodes(*doc).len() <= u32::MAX,
    ensures
        r == document_nodes(*doc)[i as int].subtree,
{
    doc.get_node(roxmltree::NodeId::from(i)).unwrap().descendants().count()
}

/// An attribute of an element.
pub struct XmlAttr {
    pub namespace: Option<Vec<char>>,
    pub name: Vec<char>,
    pub value: Vec<char>,
}

pub open spec fn attrs_view(v: Seq<XmlAttr>) -> Seq<(Option<Seq<char>>, Seq<char>, Seq<char>)> {
    v.map_values(|a: XmlAttr| (crate::model::opt_view(a.namespace), a.name@, a.value@))
}

/// A node of a parsed document.
pub struct XmlNode {
    pub element: bool,
    pub name: Vec<char>,
    pub text: Option<Vec<char>>,
    pub attributes: Vec<XmlAttr>,
    pub children: Vec<usize>,
    pub subtree: usize,
}

impl View for XmlNode {
    type V = XmlNodeView;

    open spec fn view(&self) -> XmlNodeView {
        XmlNodeView {
            element: self.element,
            name: self.name@,
            text: crate::model::opt_view(self.text),
            attributes: attrs_view(self.attributes@),
            children: self.children@,
            subtree: self.subtree as nat,
        }
    }
}

pub open spec fn nodes_view(v: Seq<XmlNode>) -> Seq<XmlNodeView> {
    v.map_values(|n: XmlNode| n@)
}

/// Parses an XML text into its nodes.
pub fn read_xml(text: &str) -> (r: Result<Vec<XmlNode>, roxmltree::Error>)
    ensures
        match r {
            Ok(nodes) => xml_parse(text@) == Some(nodes_view(nodes@)),
            Err(_) => xml_parse(text@) is None,
        },
{
    let doc = parse_document(text)?;
    let n = document_node_count(&doc);
    let ghost all = document_nodes(doc);
    let mut nodes: Vec<XmlNode> = Vec::new();
    let mut i: usize = 0;
    while i < n
        invariant
            i <= n == all.len() <= u32::MAX,
            all == document_nodes(doc),
            nodes@.len() == i,
            forall|k: int| 0 <= k < i ==> (#[trigger] nodes@[k])@ == all[k],
        decreases n - i,
    {
        let node = XmlNode {
            element: node_is_element(&doc, i),
            name: node_local_name(&doc, i),
            text: node_own_text(&doc, i),
            attributes: node_attributes(&doc, i),
            children: node_children(&doc, i),
            subtree: node_subtree_size(&doc, i),
        };
        nodes.push(node);
        i += 1;
    }
    assert(nodes_view(nodes@) =~= all);
    Ok(nodes)
}

// ---------------------------------------------------------------------------
// Reading a document
// ---------------------------------------------------------------------------

/// Whether node `i` exists and is an element.
pub open spec fn is_elem(d: Seq<XmlNodeView>, i: int) -> bool {
    0 <= i < d.len() && d[i].element
}

/// Whether node `i` is an element with local name `tag`.
pub open spec fn has_tag(d: Seq<XmlNodeView>, i: int, tag: Seq<char>) -> bool {
    is_elem(d, i) && d[i].name == tag
}

/// The children of node `i`.
pub open spec fn kids(d: Seq<XmlNodeView>, i: int) -> Seq<usize> {
    if 0 <= i < d.len() {
        d[i].children
    } else {
        seq![]
    }
}

/// The first node of `ks[k..]` that is an element named `tag`.
pub open spec fn find_tagged(d: Seq<XmlNodeView>, ks: Seq<usize>, k: int, tag: Seq<char>) -> Option<int>
    decreases ks.len() - k,
{
    if k < 0 || k >= ks.len() {
        None
    } else if has_tag(d, ks[k] as int, tag) {
        Some(ks[k] as int)
    } else {
        find_tagged(d, ks, k + 1, tag)
    }
}

/// The first child element of node `i` named `tag`.
pub open spec fn first_child(d: Seq<XmlNodeView>, i: int, tag: Seq<char>) -> Option<int> {
    find_tagged(d, kids(d, i), 0, tag)
}

/// The text of a node, trimmed; nothing when it has none or only whitespace.
pub open spec fn node_text(d: Seq<XmlNodeView>, i: int) -> Option<Seq<char>> {
    if 0 <= i < d.len() {
        match d[i].text {
            Some(t) => if trim(t).len() == 0 {
                None
            } else {
                Some(trim(t))
            },
            None => None,
        }
    } else {
        None
    }
}

/// The text of the first child element of node `i` named `tag`.
pub open spec fn first_child_text(d: Seq<XmlNodeView>, i: int, tag: Seq<char>) -> Option<Seq<char>> {
    match first_child(d, i, tag) {
        Some(c) => node_text(d, c),
        None => None,
    }
}

/// That text read as an `i32`.
pub open spec fn first_child_i32(d: Seq<XmlNodeView>, i: int, tag: Seq<char>) -> Option<int> {
    match first_child_text(d, i, tag) {
        Some(t) => parse_i32(trim(t)),
        None => None,
    }
}

/// That text read as a `usize`.
pub open spec fn first_child_usize(d: Seq<XmlNodeView>, i: int, tag: Seq<char>) -> Option<int> {
    match first_child_text(d, i, tag) {
        Some(t) => parse_usize(trim(t)),
        None => None,
    }
}

/// The value of the first attribute of `attrs[k..]` without namespace named `name`.
pub open spec fn find_attr(attrs: Seq<(Option<Seq<char>>, Seq<char>, Seq<char>)>, k: int, name: Seq<char>) -> Option<
    Seq<char>,
>
    decreases attrs.len() - k,
{
    if k < 0 || k >= attrs.len() {
        None
    } else if attrs[k].0 is None && attrs[k].1 == name {
        Some(attrs[k].2)
    } else {
        find_attr(attrs, k + 1, name)
    }
}

/// `Node::attribute` with a plain name: the value of the attribute without
/// namespace of that name.
pub open spec fn attribute(d: Seq<XmlNodeView>, i: int, name: Seq<char>) -> Option<Seq<char>> {
    if 0 <= i < d.len() {
        find_attr(d[i].attributes, 0, name)
    } else {
        None
    }
}

/// One past the last descendant of node `i`: its descendants, itself first,
/// are the nodes from `i` on, as many as its subtree holds.
pub open spec fn desc_end(d: Seq<XmlNodeView>, i: int) -> int {
    if 0 <= i < d.len() {
        if i + d[i].subtree <= d.len() {
            i + d[i].subtree
        } else {
            d.len() as int
        }
    } else {
        i
    }
}

/// The first node of `[j, end)` that is an element named `tag`.
pub open spec fn find_in_range(d: Seq<XmlNodeView>, j: int, end: int, tag: Seq<char>) -> Option<int>
    decreases end - j,
{
    if j >= end {
        None
    } else if has_tag(d, j, tag) {
        Some(j)
    } else {
        find_in_range(d, j + 1, end, tag)
    }
}

/// The first element named `tag` among node `i` and its descendants.
pub open spec fn first_descendant(d: Seq<XmlNodeView>, i: int, tag: Seq<char>) -> Option<int> {
    find_in_range(d, i, desc_end(d, i), tag)
}

/// The text of the first element named `tag` among node `i` and its descendants.
pub open spec fn first_descendant_text(d: Seq<XmlNodeView>, i: int, tag: Seq<char>) -> Option<Seq<char>> {
    match first_descendant(d, i, tag) {
        Some(c) => node_text(d, c),
        None => None,
    }
}

/// How many of `ks[k..]` are elements named `tag`.
pub open spec fn count_tagged(d: Seq<XmlNodeView>, ks: Seq<usize>, k: int, tag: Seq<char>) -> nat
    decreases ks.len() - k,
{
    if k < 0 || k >= ks.len() {
        0
    } else {
        (if has_tag(d, ks[k] as int, tag) {
            1nat
        } else {
            0nat
        }) + count_tagged(d, ks, k + 1, tag)
    }
}

pub fn node_is_elem(nodes: &Vec<XmlNode>, i: usize) -> (r: bool)
    ensures
        r == is_elem(nodes_view(nodes@), i as int),
{
    i < nodes.len() && nodes[i].element
}

/// Whether node `i` is an element named `tag`.
pub fn node_has_tag(nodes: &Vec<XmlNode>, i: usize, tag: &str) -> (r: bool)
    ensures
        r == has_tag(nodes_view(nodes@), i as int, tag@),
{
    if i < nodes.len() && nodes[i].element {
        chars_eq_str(nodes[i].name.as_slice(), tag)
    } else {
        false
    }
}

/// The children of node `i`.
pub fn node_kids(nodes: &Vec<XmlNode>, i: usize) -> (r: &[usize])
    ensures
        r@ == kids(nodes_view(nodes@), i as int),
{
    if i < nodes.len() {
        nodes[i].children.as_slice()
    } else {
        &[]
    }
}

/// The first child element of node `i` named `tag`.
pub fn find_child(nodes: &Vec<XmlNode>, i: usize, tag: &str) -> (r: Option<usize>)
    ensures
        match r {
            Some(c) => first_child(nodes_view(nodes@), i as int, tag@) == Some(c as int),
            None => first_child(nodes_view(nodes@), i as int, tag@) is None,
        },
{
    let ghost d = nodes_view(nodes@);
    let ks = node_kids(nodes, i);
    let mut k: usize = 0;
    while k < ks.len()
        invariant
            k <= ks@.len(),
            d == nodes_view(nodes@),
            ks@ == kids(d, i as int),
            first_child(d, i as int, tag@) == find_tagged(d, ks@, k as int, tag@),
        decreases ks@.len() - k,
    {
        if node_has_tag(nodes, ks[k], tag) {
            return Some(ks[k]);
        }
        k += 1;
    }
    None
}

/// Whether node `i` has a child element named `tag`.
pub fn has_child(nodes: &Vec<XmlNode>, i: usize, tag: &str) -> (r: bool)
    ensures
        r == (first_child(nodes_view(nodes@), i as int, tag@) is Some),
{
    find_child(nodes, i, tag).is_some()
}

/// The text of node `i`, trimmed, if it has any besides whitespace.
pub fn text_of(nodes: &Vec<XmlNode>, i: usize) -> (r: Option<Vec<char>>)
    ensures
        crate::model::opt_view(r) == node_text(nodes_view(nodes@), i as int),
{
    if i < nodes.len() {
        match &nodes[i].text {
            Some(t) => {
                let tr = trim_chars(t.as_slice());
                if tr.len() == 0 {
                    None
                } else {
                    Some(tr)
                }
            },
            None => None,
        }
    } else {
        None
    }
}

/// The text of the first child element of node `i` named `tag`.
pub fn child_text(nodes: &Vec<XmlNode>, i: usize, tag: &str) -> (r: Option<Vec<char>>)
    ensures
        crate::model::opt_view(r) == first_child_text(nodes_view(nodes@), i as int, tag@),
{
    match find_child(nodes, i, tag) {
        Some(c) => text_of(nodes, c),
        None => None,
    }
}

/// The text of the first child element of node `i` named `tag`, as an `i32`.
pub fn child_i32(nodes: &Vec<XmlNode>, i: usize, tag: &str) -> (r: Option<i32>)
    ensures
        match r {
            Some(v) => first_child_i32(nodes_view(nodes@), i as int, tag@) == Some(v as int),
            None => first_child_i32(nodes_view(nodes@), i as int, tag@) is None,
        },
{
    match child_text(nodes, i, tag) {
        Some(t) => {
            let tr = trim_chars(t.as_slice());
            parse_i32_chars(tr.as_slice())
        },
        None => None,
    }
}

/// The text of the first child element of node `i` named `tag`, as a `usize`.
pub fn child_usize(nodes: &Vec<XmlNode>, i: usize, tag: &str) -> (r: Option<usize>)
    ensures
        match r {
            Some(v) => first_child_usize(nodes_view(nodes@), i as int, tag@) == Some(v as int),
            None => first_child_usize(nodes_view(nodes@), i as int, tag@) is None,
        },
{
    match child_text(nodes, i, tag) {
        Some(t) => {
            let tr = trim_chars(t.as_slice());
            parse_usize_chars(tr.as_slice())
        },
        None => None,
    }
}

/// The value of the attribute `name` (without namespace) of node `i`.
pub fn attribute_of(nodes: &Vec<XmlNode>, i: usize, name: &str) -> (r: Option<Vec<char>>)
    ensures
        crate::model::opt_view(r) == attribute(nodes_view(nodes@), i as int, name@),
{
    if i >= nodes.len() {
        return None;
    }
    let attrs = &nodes[i].attributes;
    let ghost av = attrs_view(attrs@);
    let mut k: usize = 0;
    while k < attrs.len()
        invariant
            i < nodes@.len(),
            k <= attrs@.len(),
            attrs == nodes@[i as int].attributes,
            av == attrs_view(attrs@),
            attribute(nodes_view(nodes@), i as int, name@) == find_attr(av, k as int, name@),
        decreases attrs@.len() - k,
    {
        let a = &attrs[k];
        if a.namespace.is_none() && chars_eq_str(a.name.as_slice(), name) {
            return Some(crate::text::copy_chars(a.value.as_slice()));
        }
        k += 1;
    }
    None
}

/// One past the last descendant of node `i`.
pub fn descendants_end(nodes: &Vec<XmlNode>, i: usize) -> (r: usize)
    ensures
        r == desc_end(nodes_view(nodes@), i as int),
{
    if i < nodes.len() {
        let size = nodes[i].subtree;
        if size <= nodes.len() - i {
            i + size
        } else {
            nodes.len()
        }
    } else {
        i
    }
}

/// The first element named `tag` among node `i` and its descendants.
pub fn find_descendant(nodes: &Vec<XmlNode>, i: usize, tag: &str) -> (r: Option<usize>)
    ensures
        match r {
            Some(c) => first_descendant(nodes_view(nodes@), i as int, tag@) == Some(c as int),
            None => first_descendant(nodes_view(nodes@), i as int, tag@) is None,
        },
{
    let ghost d = nodes_view(nodes@);
    let end = descendants_end(nodes, i);
    let mut j = i;
    while j < end
        invariant
            i <= j,
            d == nodes_view(nodes@),
            end == desc_end(d, i as int),
            first_descendant(d, i as int, tag@) == find_in_range(d, j as int, end as int, tag@),
        decreases end - j,
    {
        if node_has_tag(nodes, j, tag) {
            return Some(j);
        }
        j += 1;
    }
    None
}

/// The text of the first element named `tag` among node `i` and its descendants.
pub fn descendant_text(nodes: &Vec<XmlNode>, i: usize, tag: &str) -> (r: Option<Vec<char>>)
    ensures
        crate::model::opt_view(r) == first_descendant_text(nodes_view(nodes@), i as int, tag@),
{
    match find_descendant(nodes, i, tag) {
        Some(c) => text_of(nodes, c),
        None => None,
    }
}

/// How many child elements of node `i` are named `tag`.
pub fn count_children(nodes: &Vec<XmlNode>, i: usize, tag: &str) -> (r: usize)
    ensures
        r == count_tagged(nodes_view(nodes@), kids(nodes_view(nodes@), i as int), 0, tag@),
{
    let ghost d = nodes_view(nodes@);
    let ks = node_kids(nodes, i);
    let mut k = ks.len();
    let mut count: usize = 0;
    while k > 0
        invariant
            k <= ks@.len(),
            d == nodes_view(nodes@),
            ks@ == kids(d, i as int),
            count + k <= ks@.len(),
            count == count_tagged(d, ks@, k as int, tag@),
        decreases k,
    {
        k -= 1;
        if node_has_tag(nodes, ks[k], tag) {
            count += 1;
        }
    }
    count
}

} // verus!
