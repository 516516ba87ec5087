//! The trusted boundary to the external parser and the external lookup chain.

use vstd::prelude::*;

use crate::error::ParseError;
use crate::model::byte_len;
use crate::model::flat_var_key;
use crate::model::flat_var_template;
use crate::model::no_var_open;
use crate::node::NodeS;
use crate::node::TemplateNode;
use crate::node::nodes_view;
use crate::node::plain_text_nodes;

verus! {

/// `varchain`'s chain of lookup sources, opaque to the resolver.
#[verifier::external_type_specification]
#[verifier::external_body]
#[verifier::reject_recursive_types(V)]
pub struct ExScope<V>(varchain::Scope<V>);

/// `mst_parser`'s AST node type; only the trusted conversion below reads it.
#[verifier::external_type_specification]
#[verifier::external_body]
pub struct ExParseNode(mst_parser::Node);

/// What `mst_parser` parses a template to under the given limits. The parsed
/// tree, like the error on a rejected template, is a function of the template
/// text and the limits alone.
pub uninterp spec fn parse_result(t: Seq<char>, max_depth: int, max_nodes: int) -> Result<
    Seq<NodeS>,
    ParseError,
>;


/// Relies on `mst_parser::Parser::parse`: a deterministic function of the
/// template text and the limits, whose errors are rebuilt here as
/// [`ParseError`], variant for variant and field for field. Its scanner
/// treats a template with no `{{` anywhere as plain text: such a template
/// parses to a single text node holding the whole template (to no node at
/// all when it is empty), provided the limits allow one node. A template
/// that is exactly `{{key}}` with a literal, delimiter-free key parses to a
/// single variable node with that one-text-node key, provided the limits
/// allow depth 1 and two nodes.
#[verifier::external_body]
pub(crate) fn parse_template(
    template: &str,
    max_depth: usize,
    max_nodes: usize,
) -> (r: Result<Vec<TemplateNode>, ParseError>)
    ensures
        r is Ok <==> parse_result(template@, max_depth as int, max_nodes as int) is Ok,
        r is Ok ==> parse_result(template@, max_depth as int, max_nodes as int)->Ok_0 == nodes_view(r->Ok_0@),
        r is Err ==> parse_result(template@, max_depth as int, max_nodes as int)->Err_0 == r->Err_0,
        no_var_open(template@) && max_nodes >= 1 ==> r is Ok && nodes_view(r->Ok_0@) == plain_text_nodes(template@),
        flat_var_template(template@) && max_depth >= 1 && max_nodes >= 2 ==> r is Ok && nodes_view(r->Ok_0@) == seq![NodeS::Variable(seq![NodeS::Text(flat_var_key(template@))])],
{
    let limits = mst_parser::Limits { max_depth, max_nodes };
    match mst_parser::Parser::new(limits).parse(template) {
        Ok(nodes) => Ok(nodes.into_iter().map(convert_node).collect()),
        Err(e) => Err(match e {
            mst_parser::Error::DepthExceeded { limit, offset } => ParseError::DepthExceeded { limit, offset },
            mst_parser::Error::NodeLimitExceeded { limit, offset } => ParseError::NodeLimitExceeded { limit, offset },
            mst_parser::Error::UnclosedVariable { offset } => ParseError::UnclosedVariable { offset },
            mst_parser::Error::EmptyVariable { offset } => ParseError::EmptyVariable { offset },
            mst_parser::Error::UnbalancedTag { offset } => ParseError::UnbalancedTag { offset },
        }),
    }
}

/// Rebuilds an `mst_parser` node as the library's own [`TemplateNode`],
/// variant for variant and field for field.
#[verifier::external_body]
fn convert_node(n: mst_parser::Node) -> TemplateNode {
    match n {
        mst_parser::Node::Text(s) => TemplateNode::Text(s),
        mst_parser::Node::Variable { parts } => {
            TemplateNode::Variable(parts.into_iter().map(convert_node).collect())
        },
    }
}

/// Relies on `varchain::Scope::lookup`: the sources of the chain are queried
/// in order, and a source may answer from anywhere (a map, a file, the
/// network), so nothing is assumed of the answer.
#[verifier::external_body]
pub(crate) fn lookup_value(scope: &varchain::Scope, key: &str) -> Option<String> {
    pollster::block_on(scope.lookup(key))
}

/// Relies on `str::len`: the length in bytes of the string's UTF-8 text,
/// which always fits in `usize`. vstd's own specification of `str::len`
/// states the same length through a truncating cast to `usize`, so the
/// fits-in-`usize` bound — true of every Rust string — is what this item
/// adds to it.
#[verifier::external_body]
pub(crate) fn byte_length(s: &str) -> (n: usize)
    ensures
        n == byte_len(s@),
{
    s.len()
}

} // verus!
