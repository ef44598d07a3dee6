//! Querying HTML documents with the `scraper` crate.
//!
//! Parsing HTML and matching CSS selectors is the crate's work; its results are
//! named here and the pages' own structure is read, verified, from what comes back.
use vstd::prelude::*;

verus! {

/// One matched element: the values of the attributes that were asked for (in the
/// order asked, `None` where absent) and the element's text nodes, in document order.
pub struct HtmlNode {
    pub attrs: Vec<Option<String>>,
    pub text: Vec<String>,
}

pub type NodeView = (Seq<Option<Seq<char>>>, Seq<Seq<char>>);

pub open spec fn opt_view(o: Option<String>) -> Option<Seq<char>> {
    match o {
        Some(s) => Some(s@),
        None => None,
    }
}

pub open spec fn node_view(n: HtmlNode) -> NodeView {
    (Seq::new(n.attrs@.len(), |i: int| opt_view(n.attrs@[i])), Seq::new(n.text@.len(), |i: int| n.text@[i]@))
}

pub open spec fn nodes_view(v: Seq<HtmlNode>) -> Seq<NodeView> {
    Seq::new(v.len(), |i: int| node_view(v[i]))
}

pub open spec fn node_lists_view(v: Seq<Vec<HtmlNode>>) -> Seq<Seq<NodeView>> {
    Seq::new(v.len(), |i: int| nodes_view(v[i]@))
}

pub open spec fn strs_view(v: Seq<&str>) -> Seq<Seq<char>> {
    Seq::new(v.len(), |i: int| v[i]@)
}

/// The elements of the document `html` that match `selector`, in document order,
/// with the attributes `attr_names` of each.
pub uninterp spec fn html_select(html: Seq<char>, selector: Seq<char>, attr_names: Seq<Seq<char>>) -> Seq<NodeView>;

/// For each element of the document `html` that matches `outer`, in document order,
/// its descendants that match `inner`, with the attributes `attr_names` of each.
pub uninterp spec fn html_select_within(
    html: Seq<char>,
    outer: Seq<char>,
    inner: Seq<char>,
    attr_names: Seq<Seq<char>>,
) -> Seq<Seq<NodeView>>;

/// Parses `html` with `scraper::Html::parse_document` and lists what
/// `Html::select` finds for `selector` (nothing where the selector does not parse),
/// reading each attribute with `Element::attr` and the text with `ElementRef::text`.
/// The result is `html_select` of the arguments.
#[verifier::external_body]
pub(crate) fn select(html: &str, selector: &str, attr_names: &Vec<&str>) -> (r: Vec<HtmlNode>)
    ensures
        nodes_view(r@) == html_select(html@, selector@, strs_view(attr_names@)),
{
    let document = scraper::Html::parse_document(html);
    let selector = match scraper::Selector::parse(selector) {
        Ok(s) => s,
        Err(_) => return Vec::new(),
    };
    document.select(&selector).map(|el| HtmlNode {
        attrs: attr_names.iter().map(|name| el.value().attr(name).map(|v| v.to_string())).collect(),
        text: el.text().map(|t| t.to_string()).collect(),
    }).collect()
}

/// Parses `html` as `select` does and, for each element matching `outer`, lists what
/// `ElementRef::select` finds under it for `inner`. The result is
/// `html_select_within` of the arguments.
#[verifier::external_body]
pub(crate) fn select_within(html: &str, outer: &str, inner: &str, attr_names: &Vec<&str>) -> (r: Vec<Vec<HtmlNode>>)
    ensures
        node_lists_view(r@) == html_select_within(html@, outer@, inner@, strs_view(attr_names@)),
{
    let document = scraper::Html::parse_document(html);
    let (outer, inner) = match (scraper::Selector::parse(outer), scraper::Selector::parse(inner)) {
        (Ok(o), Ok(i)) => (o, i),
        _ => return Vec::new(),
    };
    document.select(&outer).map(|el| el.select(&inner).map(|c| HtmlNode {
        attrs: attr_names.iter().map(|name| c.value().attr(name).map(|v| v.to_string())).collect(),
        text: c.text().map(|t| t.to_string()).collect(),
    }).collect()).collect()
}

} // verus!
