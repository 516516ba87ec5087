//! The template AST consumed by the resolver.

use vstd::prelude::*;

verus! {

/// One unit of parsed template structure: literal text, or a variable
/// reference whose key is itself an ordered sequence of nodes.
pub enum TemplateNode {
    /// A literal text segment.
    Text(String),
    /// A variable segment; the nodes inside the `{{ ... }}` delimiters.
    Variable(Vec<TemplateNode>),
}

/// The mathematical shape of a [`TemplateNode`]: text as a sequence of characters,
/// a variable as the sequence of shapes of its key expression.
pub ghost enum NodeS {
    /// A literal text segment.
    Text(Seq<char>),
    /// A variable segment.
    Variable(Seq<NodeS>),
}

/// The shape of one node.
pub open spec fn node_view(n: TemplateNode) -> NodeS
    decreases n,
{
    match n {
        TemplateNode::Text(s) => NodeS::Text(s@),
        TemplateNode::Variable(parts) => NodeS::Variable(nodes_view(parts@)),
    }
}

/// The shapes of a sequence of nodes, in order.
pub open spec fn nodes_view(ns: Seq<TemplateNode>) -> Seq<NodeS>
    decreases ns,
{
    if ns.len() == 0 {
        Seq::empty()
    } else {
        seq![node_view(ns[0])] + nodes_view(ns.drop_first())
    }
}

/// The tree that plain literal text parses to: one text node holding the
/// whole template, or no node at all when the template is empty.
pub open spec fn plain_text_nodes(t: Seq<char>) -> Seq<NodeS> {
    if t.len() == 0 {
        Seq::empty()
    } else {
        seq![NodeS::Text(t)]
    }
}

/// `nodes_view` maps each element through `node_view` and keeps the order.
pub proof fn lemma_nodes_view_index(ns: Seq<TemplateNode>)
    ensures
        nodes_view(ns).len() == ns.len(),
        forall|i: int| 0 <= i < ns.len() ==> nodes_view(ns)[i] == node_view(ns[i]),
    decreases ns.len(),
{
    if ns.len() > 0 {
        lemma_nodes_view_index(ns.drop_first());
        assert forall|i: int| 0 <= i < ns.len() implies nodes_view(ns)[i] == node_view(ns[i]) by {
            if i > 0 {
                assert(nodes_view(ns)[i] == nodes_view(ns.drop_first())[i - 1]);
                assert(ns.drop_first()[i - 1] == ns[i]);
            }
        }
    }
}

} // verus!
