//! A document tree of elements and text, and the extraction of the visible
//! text beneath a node.
//!
//! The tree holds, as plain values, exactly what the rest of the pipeline
//! reads from a parsed HTML page: each element's tag name, its `class`
//! attribute, and its children in document order.

use crate::strutil::string_eq_str;
use kuchiki::traits::TendrilSink;
use vstd::prelude::*;
use vstd::string::StringExecFns;

verus! {

/// kuchiki's reference-counted handle to one node of a parsed document.
#[verifier::external_type_specification]
#[verifier::external_body]
pub struct ExNodeRef(kuchiki::NodeRef);

/// The document tree that parsing a given markup text yields.  HTML parsing
/// is a function of the markup text alone, so the tree may be named here;
/// nothing further is assumed about its shape.
pub uninterp spec fn parsed_dom(markup: Seq<char>) -> DomNode;

/// Relies on kuchiki::parse_html, an HTML5 parser: the resulting document
/// tree depends on the markup text alone.  The tree is carried over node by
/// node through `convert_node`.
#[verifier::external_body]
pub(crate) fn parse_markup(markup: &str) -> (r: DomNode)
    ensures
        r == parsed_dom(markup@),
{
    let document = kuchiki::parse_html().one(markup.to_string());
    convert_node(&document)
}

/// Relies on kuchiki's document tree: `as_text` and `as_element` tell the
/// node kinds apart, `name.local` is the tag, `attributes` holds `class`,
/// and `children` yields the child nodes in document order.  Each node is
/// carried over one for one; a node that is neither text nor an element
/// (the document root, a comment, a doctype) becomes an element with an
/// empty tag, which no later step matches.
#[verifier::external_body]
fn convert_node(node: &kuchiki::NodeRef) -> (r: DomNode) {
    if let Some(text) = node.as_text() {
        return DomNode::Text { text: text.borrow().clone() };
    }
    let (tag, class_attr) = match node.as_element() {
        Some(el) => (
            el.name.local.to_string(),
            el.attributes.borrow().get("class").unwrap_or("").to_string(),
        ),
        None => (String::new(), String::new()),
    };
    let children = node.children().map(|c| convert_node(&c)).collect();
    DomNode::Element { tag, class_attr, children }
}

/// One node of a parsed document: an element with its tag name, its `class`
/// attribute (empty when absent) and its children in document order, or a
/// run of text.
pub enum DomNode {
    Element { tag: String, class_attr: String, children: Vec<DomNode> },
    Text { text: String },
}

/// Tags whose whole subtree carries no visible text.
pub open spec fn spec_hidden_tag(t: Seq<char>) -> bool {
    t == "script"@ || t == "style"@ || t == "noscript"@
}

/// A child that contributes nothing to the visible text: an element whose
/// tag marks non-renderable content.
pub open spec fn spec_hidden_node(n: DomNode) -> bool {
    match n {
        DomNode::Element { tag, .. } => spec_hidden_tag(tag@),
        DomNode::Text { .. } => false,
    }
}

/// The visible text beneath a node: the concatenation of all descendant
/// text runs in document order, where the subtree of any hidden element
/// is left out.  The node's own tag is not examined.
pub open spec fn visible_text(n: DomNode) -> Seq<char>
    decreases n,
{
    match n {
        DomNode::Text { text } => text@,
        DomNode::Element { children, .. } => visible_text_of_children(children@),
    }
}

/// The concatenated visible text of a sequence of sibling nodes, hidden
/// elements contributing nothing.
pub open spec fn visible_text_of_children(cs: Seq<DomNode>) -> Seq<char>
    decreases cs,
{
    if cs.len() == 0 {
        Seq::empty()
    } else {
        visible_text_of_children(cs.drop_last()) + (if spec_hidden_node(cs.last()) {
            Seq::empty()
        } else {
            visible_text(cs.last())
        })
    }
}

impl DomNode {
    /// Whether this node is an element with the given tag.
    pub fn is_element_with_tag(&self, tag: &str) -> (b: bool)
        ensures
            b == (self matches DomNode::Element { tag: t, .. } && t@ == tag@),
    {
        match self {
            DomNode::Element { tag: t, .. } => string_eq_str(t, tag),
            DomNode::Text { .. } => false,
        }
    }

    /// Whether this child node is hidden, so that its subtree carries no
    /// visible text.
    pub fn is_hidden(&self) -> (b: bool)
        ensures
            b == spec_hidden_node(*self),
    {
        match self {
            DomNode::Element { tag, .. } => string_eq_str(tag, "script") || string_eq_str(
                tag,
                "style",
            ) || string_eq_str(tag, "noscript"),
            DomNode::Text { .. } => false,
        }
    }

    /// Appends the visible text beneath this node to `out`.
    #[verifier::loop_isolation(false)]
    pub fn append_visible_text(&self, out: &mut String)
        ensures
            final (out)@ == old(out)@ + visible_text(*self),
        decreases *self,
    {
        match self {
            DomNode::Text { text } => {
                out.append(text.as_str());
            },
            DomNode::Element { children, .. } => {
                let ghost start = out@;
                let n = children.len();
                for i in 0..n
                    invariant
                        n == children@.len(),
                        out@ == start + visible_text_of_children(children@.take(i as int)),
                    decreases n - i,
                {
                    let child = &children[i];
                    if !child.is_hidden() {
                        child.append_visible_text(out);
                    }
                    proof {
                        assert(children@.take(i + 1 as int).drop_last() =~= children@.take(
                            i as int,
                        ));
                        assert(children@.take(i + 1 as int).last() == children@[i as int]);
                    }
                }
                proof {
                    assert(children@.take(n as int) =~= children@);
                }
            },
        }
    }

    /// The visible text beneath this node, as a fresh string.
    pub fn extract_visible_text(&self) -> (r: String)
        ensures
            r@ == visible_text(*self),
    {
        let mut out = String::new();
        self.append_visible_text(&mut out);
        out
    }
}

} // verus!
