//! Parsed HTML documents (scraper), addressed through plain node handles.
//!
//! A `Document` is the parse of its source text. Every node of the parsed tree has
//! a handle: its position in the order in which the tree stores its nodes (`Tree::nodes`, the order
//! of insertion). Selections and element reads
//! are named results over the source text and the handles, so that the
//! extraction logic built on them is stated over plain values.
use std::collections::HashMap;

use ego_tree::NodeId;
use scraper::{ElementRef, Html, Selector};
use vstd::prelude::*;

use crate::text::opt_view;

verus! {

/// scraper's parsed document, carried opaquely.
#[verifier::external_type_specification]
#[verifier::external_body]
pub struct ExHtml(Html);

/// scraper's parsed CSS selector, carried opaquely.
#[verifier::external_type_specification]
#[verifier::external_body]
pub struct ExSelector(Selector);

/// ego-tree's node id, carried opaquely.
#[verifier::external_type_specification]
#[verifier::external_body]
pub struct ExNodeId(NodeId);

/// Whether `Selector::parse` accepts the CSS selector text.
pub uninterp spec fn css_parses(selector: Seq<char>) -> bool;

/// Handles of the elements that `Html::select` yields, in order, for the document
/// parsed from `html` and the selector parsed from `selector`.
pub uninterp spec fn doc_select(html: Seq<char>, selector: Seq<char>) -> Seq<usize>;

/// Handles of the elements that `ElementRef::select` yields below the element `scope`.
pub uninterp spec fn elem_select(html: Seq<char>, scope: usize, selector: Seq<char>) -> Seq<usize>;

/// The value of attribute `name` of element `el` (`ElementRef::attr`).
pub uninterp spec fn elem_attr(html: Seq<char>, el: usize, name: Seq<char>) -> Option<Seq<char>>;

/// The concatenated descendant text of element `el` (`ElementRef::text`).
pub uninterp spec fn elem_text(html: Seq<char>, el: usize) -> Seq<char>;

/// The inner HTML of element `el` (`ElementRef::inner_html`).
pub uninterp spec fn elem_inner_html(html: Seq<char>, el: usize) -> Seq<char>;

/// The outer HTML of element `el` (`ElementRef::html`).
pub uninterp spec fn elem_outer_html(html: Seq<char>, el: usize) -> Seq<char>;

/// Handles of the child nodes of node `node`, in order (`NodeRef::children`).
pub uninterp spec fn node_children(html: Seq<char>, node: usize) -> Seq<usize>;

/// The text of node `node` when it is a text node (`Node::as_text`).
pub uninterp spec fn node_text(html: Seq<char>, node: usize) -> Option<Seq<char>>;

/// A parsed HTML document together with its source text.
pub struct Document {
    source: String,
    html: Html,
    ids: Vec<NodeId>,
    index: HashMap<NodeId, usize>,
}

impl View for Document {
    type V = Seq<char>;

    closed spec fn view(&self) -> Seq<char> {
        self.source@
    }
}

/// A parsed CSS selector together with its text.
pub struct Css {
    text: String,
    sel: Selector,
}

impl View for Css {
    type V = Seq<char>;

    closed spec fn view(&self) -> Seq<char> {
        self.text@
    }
}

impl Document {
    /// Parses `source` as an HTML document (`Html::parse_document`, which never fails)
    /// and numbers its nodes in the order the tree stores them (`Tree::nodes`, insertion order).
    #[verifier::external_body]
    pub fn parse(source: &str) -> (d: Document)
        ensures
            d@ == source@,
    {
        let html = Html::parse_document(source);
        let ids: Vec<NodeId> = html.tree.nodes().map(|n| n.id()).collect();
        let index: HashMap<NodeId, usize> = ids.iter().enumerate().map(|(i, id)| (*id, i)).collect();
        Document { source: source.to_string(), html, ids, index }
    }
}

impl Css {
    /// Parses a CSS selector (`Selector::parse`); `None` when the selector is rejected.
    #[verifier::external_body]
    pub fn parse(text: &str) -> (r: Option<Css>)
        ensures
            r is Some == css_parses(text@),
            r matches Some(c) ==> c@ == text@,
    {
        Selector::parse(text).ok().map(|sel| Css { text: text.to_string(), sel })
    }
}

/// The elements of `doc` that match `css` (`Html::select`), as handles.
#[verifier::external_body]
pub fn select(doc: &Document, css: &Css) -> (r: Vec<usize>)
    ensures
        r@ == doc_select(doc@, css@),
{
    doc.html.select(&css.sel).map(|e| doc.index[&e.id()]).collect()
}

/// The elements below element `scope` that match `css` (`ElementRef::select`), as handles.
/// A handle that names no element selects nothing.
#[verifier::external_body]
pub(crate) fn select_in(doc: &Document, scope: usize, css: &Css) -> (r: Vec<usize>)
    ensures
        r@ == elem_select(doc@, scope, css@),
{
    let el = doc.ids.get(scope).and_then(|id| doc.html.tree.get(*id)).and_then(ElementRef::wrap);
    el.map(|e| e.select(&css.sel).map(|x| doc.index[&x.id()]).collect()).unwrap_or_default()
}

/// The value of attribute `name` of element `el` (`ElementRef::attr`).
#[verifier::external_body]
pub(crate) fn attr(doc: &Document, el: usize, name: &str) -> (r: Option<String>)
    ensures
        opt_view(r) == elem_attr(doc@, el, name@),
{
    let e = doc.ids.get(el).and_then(|id| doc.html.tree.get(*id)).and_then(ElementRef::wrap);
    e.and_then(|e| e.attr(name)).map(|s| s.to_string())
}

/// The descendant text of element `el`, concatenated (`ElementRef::text`).
#[verifier::external_body]
pub(crate) fn text(doc: &Document, el: usize) -> (r: String)
    ensures
        r@ == elem_text(doc@, el),
{
    let e = doc.ids.get(el).and_then(|id| doc.html.tree.get(*id)).and_then(ElementRef::wrap);
    e.map(|e| e.text().collect::<String>()).unwrap_or_default()
}

/// The inner HTML of element `el` (`ElementRef::inner_html`).
#[verifier::external_body]
pub(crate) fn inner_html(doc: &Document, el: usize) -> (r: String)
    ensures
        r@ == elem_inner_html(doc@, el),
{
    let e = doc.ids.get(el).and_then(|id| doc.html.tree.get(*id)).and_then(ElementRef::wrap);
    e.map(|e| e.inner_html()).unwrap_or_default()
}

/// The outer HTML of element `el` (`ElementRef::html`).
#[verifier::external_body]
pub(crate) fn outer_html(doc: &Document, el: usize) -> (r: String)
    ensures
        r@ == elem_outer_html(doc@, el),
{
    let e = doc.ids.get(el).and_then(|id| doc.html.tree.get(*id)).and_then(ElementRef::wrap);
    e.map(|e| e.html()).unwrap_or_default()
}

/// The child nodes of node `node`, as handles (`NodeRef::children`).
#[verifier::external_body]
pub(crate) fn children(doc: &Document, node: usize) -> (r: Vec<usize>)
    ensures
        r@ == node_children(doc@, node),
{
    let n = doc.ids.get(node).and_then(|id| doc.html.tree.get(*id));
    n.map(|n| n.children().map(|c| doc.index[&c.id()]).collect()).unwrap_or_default()
}

/// The text of node `node` when it is a text node (`Node::as_text`).
#[verifier::external_body]
pub(crate) fn node_text_of(doc: &Document, node: usize) -> (r: Option<String>)
    ensures
        opt_view(r) == node_text(doc@, node),
{
    let n = doc.ids.get(node).and_then(|id| doc.html.tree.get(*id));
    n.and_then(|n| n.value().as_text().map(|t| t.to_string()))
}

} // verus!
