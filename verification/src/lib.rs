//! Resolves mustache-style template strings (`{{key}}`) against a chain of
//! key/value sources, supporting nested variable references whose keys are
//! themselves templates, such as `{{host_{{env}}}}`.
//!
//! A variable's key expression is fully resolved before it is used: resolved
//! keys are checked for smuggled `{` / `}` delimiters, nesting is bounded by
//! a recursion-depth ceiling, and every append to an output accumulator is
//! bounded by a byte-size ceiling. Unresolved variables follow a configurable
//! not-found policy. The walk itself is specified by [`model::run_nodes`],
//! against a trace of the answers the external lookup chain gave.

use vstd::prelude::*;

pub mod config;
pub mod error;
pub mod laws;
pub mod model;
pub mod node;
pub mod outside;

pub use config::Config;
pub use config::NotFound;
pub use config::ParseLimits;
pub use config::CfgS;
pub use config::default_cfg;
pub use error::Error;
pub use error::ErrS;
pub use error::ParseError;
pub use error::err_view;
pub use model::LookupTrace;
pub use model::RunS;
pub use node::NodeS;
pub use node::TemplateNode;
pub use outside::parse_result;

use crate::model::append_s;
use crate::model::byte_len;
use crate::model::close_braces;
use crate::model::has_brace;
use crate::laws::lemma_depth_zero_rejects_variable;
use crate::laws::top_text_len;
use crate::model::flat_var_key;
use crate::model::flat_var_template;
use crate::model::is_brace;
use crate::model::lemma_prefix_append;
use crate::model::lemma_prefix_refl;
use crate::model::lemma_prefix_trans;
use crate::model::lemma_trace_cons;
use crate::model::no_var_open;
use crate::model::open_braces;
use crate::model::resolve_model;
use crate::model::result_matches;
use crate::model::run_node;
use crate::model::run_nodes;
use crate::model::run_not_found;
use crate::node::lemma_nodes_view_index;
use crate::node::node_view;
use crate::node::nodes_view;
use crate::node::plain_text_nodes;
use crate::outside::byte_length;
use crate::outside::lookup_value;
use crate::outside::parse_template;
use vstd::string::StrSliceExecFns;
use vstd::string::StringExecFns;

verus! {

/// Append `s` to `out`, rejecting (not truncating) the append if the result
/// would exceed `limit` bytes.
pub fn append_with_limit(out: &mut String, s: &str, limit: usize) -> (r: Result<(), Error>)
    ensures
        append_s(old(out)@, s@, limit as int) is Ok ==> r is Ok && final(out)@ == old(out)@ + s@,
        append_s(old(out)@, s@, limit as int) is Err ==> r is Err && err_view(r->Err_0)
            == append_s(old(out)@, s@, limit as int)->Err_0 && final(out)@ == old(out)@,
{
    let s_len = byte_length(s);
    let out_len = byte_length(out.as_str());
    if s_len > limit || out_len > limit - s_len {
        Err(Error::SizeExceeded { limit })
    } else {
        out.append(s);
        Ok(())
    }
}

/// Whether `s` contains a `{` or `}` character.
fn contains_brace(s: &str) -> (r: bool)
    ensures
        r == has_brace(s@),
{
    let n = s.unicode_len();
    let mut i: usize = 0;
    while i < n
        invariant
            n == s@.len(),
            i <= n,
            forall|j: int| 0 <= j < i ==> !is_brace(s@[j]),
        decreases n - i,
    {
        let c = s.get_char(i);
        if c == '{' || c == '}' {
            assert(is_brace(s@[i as int]));
            return true;
        }
        i = i + 1;
    }
    false
}

/// Resolve one node at `depth`, appending to `out`; the second component is
/// the trace of lookup answers the external chain gave during the call.
fn resolve_node(
    node: &TemplateNode,
    scope: &varchain::Scope,
    config: &Config,
    depth: usize,
    out: &mut String,
) -> (r: (Result<(), Error>, Ghost<LookupTrace>))
    ensures
        r.0 is Ok ==> forall|t: LookupTrace|
            run_node(node_view(*node), config@, depth as int, old(out)@, r.1@ + t) == (RunS::Done {
                out: final(out)@,
                rest: t,
            }),
        r.0 is Err ==> forall|t: LookupTrace|
            run_node(node_view(*node), config@, depth as int, old(out)@, r.1@ + t) == (RunS::Fail {
                err: err_view(r.0->Err_0),
            }),
        old(out)@.is_prefix_of(final(out)@),
    decreases node_view(*node),
{
    let ghost empty_tr: LookupTrace = Seq::empty();
    match node {
        TemplateNode::Text(s) => {
            let res = append_with_limit(out, s.as_str(), config.max_result_size);
            match res {
                Ok(()) => {
                    proof {
                        assert forall|t: LookupTrace|
                            run_node(node_view(*node), config@, depth as int, old(out)@, empty_tr + t)
                                == (RunS::Done { out: out@, rest: t }) by {
                            assert(empty_tr + t =~= t);
                        }
                        lemma_prefix_append(old(out)@, s@);
                    }
                    (Ok(()), Ghost(empty_tr))
                },
                Err(e) => {
                    proof {
                        assert forall|t: LookupTrace|
                            run_node(node_view(*node), config@, depth as int, old(out)@, empty_tr + t)
                                == (RunS::Fail { err: err_view(e) }) by {
                            assert(empty_tr + t =~= t);
                        }
                        lemma_prefix_refl(old(out)@);
                    }
                    (Err(e), Ghost(empty_tr))
                },
            }
        },
        TemplateNode::Variable(parts) => {
            if depth >= config.max_resolve_depth {
                let e = Error::DepthExceeded { limit: config.max_resolve_depth };
                proof {
                    assert forall|t: LookupTrace|
                        run_node(node_view(*node), config@, depth as int, old(out)@, empty_tr + t)
                            == (RunS::Fail { err: err_view(e) }) by {
                        assert(empty_tr + t =~= t);
                        assert(run_nodes(nodes_view(parts@), config@, depth as int + 1, Seq::empty(), t)
                            == (RunS::Fail { err: ErrS::DepthExceeded { limit: config@.max_depth } }));
                    }
                    lemma_prefix_refl(old(out)@);
                }
                (Err(e), Ghost(empty_tr))
            } else {
                proof {
                    assert(decreases_to!(node_view(*node) => node_view(*node)->Variable_0));
                }
                let mut key = String::new();
                let (kr, Ghost(tr_key)) = resolve_nodes(parts, scope, config, depth + 1, &mut key);
                match kr {
                    Err(e) => {
                        proof {
                            assert forall|t: LookupTrace|
                                run_node(node_view(*node), config@, depth as int, old(out)@, tr_key + t)
                                    == (RunS::Fail { err: err_view(e) }) by {}
                            lemma_prefix_refl(old(out)@);
                        }
                        (Err(e), Ghost(tr_key))
                    },
                    Ok(()) => {
                        if contains_brace(key.as_str()) {
                            let ghost k = key@;
                            let e = Error::Injection { key };
                            proof {
                                assert forall|t: LookupTrace|
                                    run_node(node_view(*node), config@, depth as int, old(out)@, tr_key + t)
                                        == (RunS::Fail { err: err_view(e) }) by {
                                    assert(run_nodes(nodes_view(parts@), config@, depth as int + 1, Seq::empty(), tr_key + t)
                                        == (RunS::Done { out: k, rest: t }));
                                }
                                lemma_prefix_refl(old(out)@);
                            }
                            (Err(e), Ghost(tr_key))
                        } else {
                            let ghost k = key@;
                            let ans = lookup_value(scope, key.as_str());
                            let ghost ans_v: Option<Seq<char>> = match &ans {
                                Some(v) => Some(v@),
                                None => None,
                            };
                            let ghost tr_all: LookupTrace = tr_key.push(ans_v);
                            proof {
                                assert forall|t: LookupTrace|
                                    run_nodes(nodes_view(parts@), config@, depth as int + 1, Seq::empty(), tr_all + t)
                                        == (RunS::Done { out: k, rest: seq![ans_v] + t }) by {
                                    assert(tr_all + t =~= tr_key + (seq![ans_v] + t));
                                }
                            }
                            match ans {
                                Some(val) => {
                                    let res = append_with_limit(out, val.as_str(), config.max_result_size);
                                    proof {
                                        assert forall|t: LookupTrace|
                                            run_node(node_view(*node), config@, depth as int, old(out)@, tr_all + t)
                                                == (if res is Ok {
                                                RunS::Done { out: out@, rest: t }
                                            } else {
                                                RunS::Fail { err: err_view(res->Err_0) }
                                            }) by {
                                            assert(run_nodes(nodes_view(parts@), config@, depth as int + 1, Seq::empty(), tr_all + t)
                                                == (RunS::Done { out: k, rest: seq![ans_v] + t }));
                                            lemma_trace_cons(ans_v, t);
                                        }
                                        if res is Ok {
                                            lemma_prefix_append(old(out)@, val@);
                                        } else {
                                            lemma_prefix_refl(old(out)@);
                                        }
                                    }
                                    match res {
                                        Ok(()) => (Ok(()), Ghost(tr_all)),
                                        Err(e) => (Err(e), Ghost(tr_all)),
                                    }
                                },
                                None => {
                                    match config.not_found {
                                        NotFound::ReturnOriginal => {
                                            proof {
                                                reveal_strlit("{{");
                                                reveal_strlit("}}");
                                                assert("{{"@ =~= open_braces());
                                                assert("}}"@ =~= close_braces());
                                            }
                                            let r1 = append_with_limit(out, "{{", config.max_result_size);
                                            if let Err(e) = r1 {
                                                proof {
                                                    assert forall|t: LookupTrace|
                                                        run_node(node_view(*node), config@, depth as int, old(out)@, tr_all + t)
                                                            == (RunS::Fail { err: err_view(e) }) by {
                                                        assert(run_nodes(nodes_view(parts@), config@, depth as int + 1, Seq::empty(), tr_all + t)
                                                            == (RunS::Done { out: k, rest: seq![ans_v] + t }));
                                                        lemma_trace_cons(ans_v, t);
                                                    }
                                                    lemma_prefix_refl(old(out)@);
                                                }
                                                return (Err(e), Ghost(tr_all));
                                            }
                                            let ghost o1 = out@;
                                            proof {
                                                lemma_prefix_append(old(out)@, "{{"@);
                                            }
                                            let r2 = append_with_limit(out, key.as_str(), config.max_result_size);
                                            if let Err(e) = r2 {
                                                proof {
                                                    assert forall|t: LookupTrace|
                                                        run_node(node_view(*node), config@, depth as int, old(out)@, tr_all + t)
                                                            == (RunS::Fail { err: err_view(e) }) by {
                                                        assert(run_nodes(nodes_view(parts@), config@, depth as int + 1, Seq::empty(), tr_all + t)
                                                            == (RunS::Done { out: k, rest: seq![ans_v] + t }));
                                                        lemma_trace_cons(ans_v, t);
                                                    }
                                                }
                                                return (Err(e), Ghost(tr_all));
                                            }
                                            let ghost o2 = out@;
                                            proof {
                                                lemma_prefix_append(o1, k);
                                                lemma_prefix_trans(old(out)@, o1, o2);
                                            }
                                            let r3 = append_with_limit(out, "}}", config.max_result_size);
                                            if let Err(e) = r3 {
                                                proof {
                                                    assert forall|t: LookupTrace|
                                                        run_node(node_view(*node), config@, depth as int, old(out)@, tr_all + t)
                                                            == (RunS::Fail { err: err_view(e) }) by {
                                                        assert(run_nodes(nodes_view(parts@), config@, depth as int + 1, Seq::empty(), tr_all + t)
                                                            == (RunS::Done { out: k, rest: seq![ans_v] + t }));
                                                        lemma_trace_cons(ans_v, t);
                                                    }
                                                }
                                                return (Err(e), Ghost(tr_all));
                                            }
                                            proof {
                                                assert forall|t: LookupTrace|
                                                    run_node(node_view(*node), config@, depth as int, old(out)@, tr_all + t)
                                                        == (RunS::Done { out: out@, rest: t }) by {
                                                    assert(run_nodes(nodes_view(parts@), config@, depth as int + 1, Seq::empty(), tr_all + t)
                                                        == (RunS::Done { out: k, rest: seq![ans_v] + t }));
                                                    lemma_trace_cons(ans_v, t);
                                                }
                                                lemma_prefix_append(o2, "}}"@);
                                                lemma_prefix_trans(old(out)@, o2, out@);
                                            }
                                            (Ok(()), Ghost(tr_all))
                                        },
                                        NotFound::ReturnEmpty => {
                                            proof {
                                                assert forall|t: LookupTrace|
                                                    run_node(node_view(*node), config@, depth as int, old(out)@, tr_all + t)
                                                        == (RunS::Done { out: out@, rest: t }) by {
                                                    assert(run_nodes(nodes_view(parts@), config@, depth as int + 1, Seq::empty(), tr_all + t)
                                                        == (RunS::Done { out: k, rest: seq![ans_v] + t }));
                                                    lemma_trace_cons(ans_v, t);
                                                }
                                                lemma_prefix_refl(old(out)@);
                                            }
                                            (Ok(()), Ghost(tr_all))
                                        },
                                        NotFound::Error => {
                                            let e = Error::NotFound { key };
                                            proof {
                                                assert forall|t: LookupTrace|
                                                    run_node(node_view(*node), config@, depth as int, old(out)@, tr_all + t)
                                                        == (RunS::Fail { err: err_view(e) }) by {
                                                    assert(run_nodes(nodes_view(parts@), config@, depth as int + 1, Seq::empty(), tr_all + t)
                                                        == (RunS::Done { out: k, rest: seq![ans_v] + t }));
                                                    lemma_trace_cons(ans_v, t);
                                                }
                                                lemma_prefix_refl(old(out)@);
                                            }
                                            (Err(e), Ghost(tr_all))
                                        },
                                    }
                                },
                            }
                        }
                    },
                }
            }
        },
    }
}

/// Resolve a node sequence left to right at `depth`, appending to `out`; the
/// second component is the trace of lookup answers given during the walk.
fn resolve_nodes(
    nodes: &Vec<TemplateNode>,
    scope: &varchain::Scope,
    config: &Config,
    depth: usize,
    out: &mut String,
) -> (r: (Result<(), Error>, Ghost<LookupTrace>))
    ensures
        r.0 is Ok ==> forall|t: LookupTrace|
            run_nodes(nodes_view(nodes@), config@, depth as int, old(out)@, r.1@ + t) == (RunS::Done {
                out: final(out)@,
                rest: t,
            }),
        r.0 is Err ==> forall|t: LookupTrace|
            run_nodes(nodes_view(nodes@), config@, depth as int, old(out)@, r.1@ + t) == (RunS::Fail {
                err: err_view(r.0->Err_0),
            }),
        old(out)@.is_prefix_of(final(out)@),
        depth > config.max_resolve_depth ==> r.0 is Err && err_view(r.0->Err_0) == (ErrS::DepthExceeded { limit: config@.max_depth }) && final(out)@ == old(out)@ && r.1@ == Seq::<Option<Seq<char>>>::empty(),
    decreases nodes_view(nodes@),
{
    let ghost full = nodes_view(nodes@);
    proof {
        lemma_nodes_view_index(nodes@);
    }
    if depth > config.max_resolve_depth {
        let e = Error::DepthExceeded { limit: config.max_resolve_depth };
        proof {
            assert forall|t: LookupTrace|
                run_nodes(full, config@, depth as int, old(out)@, Seq::<Option<Seq<char>>>::empty() + t)
                    == (RunS::Fail { err: err_view(e) }) by {
                assert(Seq::<Option<Seq<char>>>::empty() + t =~= t);
            }
            lemma_prefix_refl(old(out)@);
        }
        return (Err(e), Ghost(Seq::empty()));
    }
    let ghost mut tr: LookupTrace = Seq::empty();
    let mut i: usize = 0;
    proof {
        assert forall|t: LookupTrace|
            run_nodes(full, config@, depth as int, old(out)@, tr + t) == run_nodes(
                full.skip(0),
                config@,
                depth as int,
                out@,
                t,
            ) by {
            assert(tr + t =~= t);
            assert(full.skip(0) =~= full);
        }
    }
    while i < nodes.len()
        invariant
            i <= nodes.len(),
            depth <= config.max_resolve_depth,
            full == nodes_view(nodes@),
            full.len() == nodes@.len(),
            old(out)@.is_prefix_of(out@),
            forall|j: int| 0 <= j < nodes@.len() ==> full[j] == node_view(nodes@[j]),
            forall|t: LookupTrace|
                run_nodes(full, config@, depth as int, old(out)@, tr + t) == run_nodes(
                    full.skip(i as int),
                    config@,
                    depth as int,
                    out@,
                    t,
                ),
        decreases nodes@.len() - i,
    {
        proof {
            assert(decreases_to!(full => full[i as int]));
        }
        let ghost out_pre = out@;
        let ghost tr_pre = tr;
        let (res, Ghost(tr_i)) = resolve_node(&nodes[i], scope, config, depth, out);
        match res {
            Err(e) => {
                proof {
                    assert forall|t: LookupTrace|
                        run_nodes(full, config@, depth as int, old(out)@, (tr_pre + tr_i) + t)
                            == (RunS::Fail { err: err_view(e) }) by {
                        let t2 = tr_i + t;
                        assert((tr_pre + tr_i) + t =~= tr_pre + t2);
                        assert(run_nodes(full, config@, depth as int, old(out)@, tr_pre + t2)
                            == run_nodes(full.skip(i as int), config@, depth as int, out_pre, t2));
                        assert(full.skip(i as int)[0] == full[i as int]);
                        assert(run_node(node_view(nodes@[i as int]), config@, depth as int, out_pre, tr_i + t)
                            == (RunS::Fail { err: err_view(e) }));
                    }
                    lemma_prefix_trans(old(out)@, out_pre, out@);
                }
                return (Err(e), Ghost(tr_pre + tr_i));
            },
            Ok(()) => {
                proof {
                    assert forall|t: LookupTrace|
                        run_nodes(full, config@, depth as int, old(out)@, (tr_pre + tr_i) + t)
                            == run_nodes(full.skip(i as int + 1), config@, depth as int, out@, t) by {
                        let t2 = tr_i + t;
                        assert((tr_pre + tr_i) + t =~= tr_pre + t2);
                        assert(run_nodes(full, config@, depth as int, old(out)@, tr_pre + t2)
                            == run_nodes(full.skip(i as int), config@, depth as int, out_pre, t2));
                        assert(full.skip(i as int)[0] == full[i as int]);
                        assert(run_node(node_view(nodes@[i as int]), config@, depth as int, out_pre, tr_i + t)
                            == (RunS::Done { out: out@, rest: t }));
                        assert(full.skip(i as int).drop_first() =~= full.skip(i as int + 1));
                    }
                    lemma_prefix_trans(old(out)@, out_pre, out@);
                    tr = tr_pre + tr_i;
                }
                i = i + 1;
            },
        }
    }
    proof {
        assert forall|t: LookupTrace|
            run_nodes(full, config@, depth as int, old(out)@, tr + t) == (RunS::Done {
                out: out@,
                rest: t,
            }) by {
            assert(run_nodes(full, config@, depth as int, old(out)@, tr + t) == run_nodes(
                full.skip(i as int),
                config@,
                depth as int,
                out@,
                t,
            ));
            assert(full.skip(i as int) =~= Seq::<NodeS>::empty());
        }
    }
    (Ok(()), Ghost(tr))
}

/// Resolve a template string using `scope` for variable lookup.
///
/// The template is parsed under the configuration's parser limits, then its
/// nodes are walked at depth 0 into a fresh accumulator. The outcome is
/// exactly [`resolve_model`] for the trace of answers the lookup chain gave;
/// in particular a template with no `{{` anywhere comes back unchanged
/// whenever it fits the size limit and the parser may produce a node.
pub fn resolve(template: &str, scope: &varchain::Scope, config: &Config) -> (r: Result<
    String,
    Error,
>)
    ensures
        exists|tr: LookupTrace| result_matches(r, resolve_model(template@, config@, tr)),
        no_var_open(template@) && config@.parse_max_nodes >= 1 && byte_len(template@)
            <= config@.max_size ==> r is Ok && r->Ok_0@ == template@,
        flat_var_template(template@) && config@.parse_max_depth >= 1 && config@.parse_max_nodes
            >= 2 && config@.max_depth == 0 ==> r is Err && err_view(r->Err_0)
            == (ErrS::DepthExceeded { limit: 0 }),
{
    let nodes = match parse_template(template, config.parse.max_depth, config.parse.max_nodes) {
        Ok(nodes) => nodes,
        Err(e) => {
            proof {
                let tr0: LookupTrace = Seq::empty();
                assert(result_matches(Err(Error::Parse(e)), resolve_model(template@, config@, tr0)));
            }
            return Err(Error::Parse(e));
        },
    };
    let mut out = String::new();
    let (res, Ghost(tr)) = resolve_nodes(&nodes, scope, config, 0, &mut out);
    proof {
        if no_var_open(template@) && config@.parse_max_nodes >= 1 && byte_len(template@)
            <= config@.max_size {
            crate::laws::lemma_plain_text_run(template@, config@, tr + Seq::empty());
        }
        if flat_var_template(template@) && config@.parse_max_depth >= 1 && config@.parse_max_nodes
            >= 2 && config@.max_depth == 0 {
            let vns = seq![NodeS::Variable(seq![NodeS::Text(flat_var_key(template@))])];
            assert(nodes_view(nodes@) == vns);
            assert(vns[0] is Variable);
            assert(vns.drop_first() =~= Seq::<NodeS>::empty());
            assert(top_text_len(Seq::<NodeS>::empty()) == 0);
            assert(top_text_len(vns) == 0);
            assert(byte_len(Seq::<char>::empty()) == 0);
            lemma_depth_zero_rejects_variable(vns, config@, Seq::empty(), tr + Seq::empty());
        }
    }
    match res {
        Ok(()) => {
            proof {
                assert(run_nodes(nodes_view(nodes@), config@, 0, Seq::empty(), tr + Seq::empty())
                    == (RunS::Done { out: out@, rest: Seq::<Option<Seq<char>>>::empty() }));
                assert(tr + Seq::<Option<Seq<char>>>::empty() =~= tr);
                assert(result_matches(Ok(out), resolve_model(template@, config@, tr)));
            }
            Ok(out)
        },
        Err(e) => {
            proof {
                assert(run_nodes(nodes_view(nodes@), config@, 0, Seq::empty(), tr + Seq::empty())
                    == (RunS::Fail { err: err_view(e) }));
                assert(tr + Seq::<Option<Seq<char>>>::empty() =~= tr);
                assert(result_matches(Err(e), resolve_model(template@, config@, tr)));
            }
            Err(e)
        },
    }
}

/// Resolve with the default configuration, [`default_cfg`] in the model.
pub fn resolve_default(template: &str, scope: &varchain::Scope) -> (r: Result<String, Error>)
    ensures
        exists|tr: LookupTrace| result_matches(r, resolve_model(template@, default_cfg(), tr)),
        no_var_open(template@) && byte_len(template@) <= 65536 ==> r is Ok && r->Ok_0@
            == template@,
{
    let config = Config::default();
    resolve(template, scope, &config)
}

} // verus!
