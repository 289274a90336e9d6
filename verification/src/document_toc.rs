//! The table of contents: walk a markdown syntax tree, gather each
//! heading's inline text, slug it, and list the headings in document
//! order. Parsing markdown into the tree is outside work; the walk and
//! its ordering are proved here.

use vstd::prelude::*;
use vstd::string::StringExecFns;

use crate::document::Heading;

verus! {

/// The node classes the walk distinguishes: text and inline code carry
/// their own text; headings are collected; everything else only passes
/// its children's text through.
#[derive(Debug, Clone, PartialEq, Eq, Structural)]
pub enum MdNodeKind {
    Text,
    Code,
    Heading,
    Other,
}

/// One node of the markdown syntax tree, reduced to what the walk reads:
/// its class, its own text, its heading depth, and its children.
pub struct MdNode {
    pub kind: MdNodeKind,
    pub value: String,
    pub depth: u8,
    pub children: Vec<MdNode>,
}

/// The inline text of a node: its own value for text and code, its
/// children's text in order for everything else.
pub open spec fn node_text(n: MdNode) -> Seq<char>
    decreases n, 0int,
{
    match n.kind {
        MdNodeKind::Text => n.value@,
        MdNodeKind::Code => n.value@,
        _ => children_text(n.children@, n.children@.len() as int),
    }
}

/// The concatenated text of the first `k` children.
pub open spec fn children_text(s: Seq<MdNode>, k: int) -> Seq<char>
    decreases s, k,
{
    if k <= 0 || k > s.len() {
        Seq::empty()
    } else {
        children_text(s, k - 1) + node_text(s[k - 1])
    }
}

/// What the slug engine yields for a heading text: a function of the
/// text alone.
pub uninterp spec fn slug_crate_of(s: Seq<char>) -> Seq<char>;

/// Relies on slug::slugify: the URL-safe slug of the text, a function of
/// its characters alone.
#[verifier::external_body]
fn heading_slug(s: &str) -> (r: String)
    ensures
        r@ == slug_crate_of(s@),
{
    slug::slugify(s)
}

/// The headings below (and including) a node, in document order: each
/// heading whose slug is non-empty, as its depth and inline text.
pub open spec fn headings_of(n: MdNode) -> Seq<(u8, Seq<char>)>
    decreases n, 1int,
{
    (if n.kind is Heading && slug_crate_of(node_text(n)).len() > 0 {
        seq![(n.depth, node_text(n))]
    } else {
        Seq::empty()
    }) + children_headings(n.children@, n.children@.len() as int)
}

/// The headings below the first `k` children, in order.
pub open spec fn children_headings(s: Seq<MdNode>, k: int) -> Seq<(u8, Seq<char>)>
    decreases s, k,
{
    if k <= 0 || k > s.len() {
        Seq::empty()
    } else {
        children_headings(s, k - 1) + headings_of(s[k - 1])
    }
}

/// Whether a gathered heading entry renders one of the spec's: same
/// depth, same text, and the slug the slug engine gives that text.
pub open spec fn heading_matches(h: Heading, e: (u8, Seq<char>)) -> bool {
    h.depth == e.0 && h.text@ == e.1 && h.slug@ == slug_crate_of(e.1)
}

/// Recursively extract the raw inline text of a node.
pub fn extract_text_from_mdast_inline(node: &MdNode) -> (r: String)
    ensures
        r@ == node_text(*node),
    decreases *node,
{
    match node.kind {
        MdNodeKind::Text => node.value.clone(),
        MdNodeKind::Code => node.value.clone(),
        _ => {
            let mut text = String::new();
            let mut i: usize = 0;
            while i < node.children.len()
                invariant
                    0 <= i <= node.children@.len(),
                    text@ == children_text(node.children@, i as int),
                decreases node.children@.len() - i,
            {
                let piece = extract_text_from_mdast_inline(&node.children[i]);
                text.append(piece.as_str());
                i += 1;
            }
            text
        },
    }
}

/// Append the headings below `node` to `out`, in document order.
#[verifier::loop_isolation(false)]
pub fn collect_headings(node: &MdNode, out: &mut Vec<Heading>)
    ensures
        final(out)@.len() == old(out)@.len() + headings_of(*node).len(),
        forall|i: int| 0 <= i < old(out)@.len() ==> final(out)@[i] == old(out)@[i],
        forall|i: int|
            0 <= i < headings_of(*node).len() ==> heading_matches(
                final(out)@[old(out)@.len() + i],
                #[trigger] headings_of(*node)[i],
            ),
    decreases *node,
{
    let ghost base = out@;
    let ghost own = if node.kind is Heading && slug_crate_of(node_text(*node)).len() > 0 {
        seq![(node.depth, node_text(*node))]
    } else {
        Seq::<(u8, Seq<char>)>::empty()
    };
    if matches!(node.kind, MdNodeKind::Heading) {
        let mut text = String::new();
        let mut i: usize = 0;
        while i < node.children.len()
            invariant
                0 <= i <= node.children@.len(),
                text@ == children_text(node.children@, i as int),
            decreases node.children@.len() - i,
        {
            let piece = extract_text_from_mdast_inline(&node.children[i]);
            text.append(piece.as_str());
            i += 1;
        }
        proof {
            assert(text@ == node_text(*node));
        }
        let slug = heading_slug(text.as_str());
        if !slug.as_str().is_empty() {
            let h = Heading { depth: node.depth, text, slug };
            out.push(h);
        }
    }
    proof {
        assert(out@.len() == base.len() + own.len());
        assert forall|i: int| 0 <= i < own.len() implies heading_matches(
            out@[base.len() + i],
            #[trigger] own[i],
        ) by {}
    }
    let ghost mid = out@;
    let mut c: usize = 0;
    while c < node.children.len()
        invariant
            0 <= c <= node.children@.len(),
            out@.len() == mid.len() + children_headings(node.children@, c as int).len(),
            forall|i: int| 0 <= i < mid.len() ==> out@[i] == mid[i],
            forall|i: int|
                0 <= i < children_headings(node.children@, c as int).len() ==> heading_matches(
                    out@[mid.len() + i],
                    #[trigger] children_headings(node.children@, c as int)[i],
                ),
        decreases node.children@.len() - c,
    {
        collect_headings(&node.children[c], out);
        c += 1;
    }
    proof {
        assert(headings_of(*node) == own + children_headings(
            node.children@,
            node.children@.len() as int,
        ));
        assert forall|i: int| 0 <= i < base.len() implies out@[i] == base[i] by {
            assert(out@[i] == mid[i]);
            assert(mid[i] == base[i]);
        }
    }
}

/// The table of contents of a parsed document: its headings in document
/// order, each with the slug the slug engine gives its text.
pub fn toc_from_tree(root: &MdNode) -> (toc: Vec<Heading>)
    ensures
        toc@.len() == headings_of(*root).len(),
        forall|i: int|
            0 <= i < headings_of(*root).len() ==> heading_matches(
                toc@[i],
                #[trigger] headings_of(*root)[i],
            ),
{
    let mut toc: Vec<Heading> = Vec::new();
    collect_headings(root, &mut toc);
    toc
}

} // verus!
