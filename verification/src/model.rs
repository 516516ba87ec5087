//! The mathematical model of resolution.
//!
//! The external lookup chain may answer a query from anywhere, so the model
//! takes the answers as a *trace*: a sequence of optional values, consumed
//! one per lookup, in the order the resolver queries the chain. Everything
//! else — the walk order, the depth ceiling, the byte-size ceiling, the
//! injection check and the not-found policy — is a function of the template
//! tree, the configuration and that trace.

use vstd::prelude::*;

use crate::config::CfgS;
use crate::config::NotFound;
use crate::error::ErrS;
use crate::error::Error;
use crate::node::NodeS;

verus! {

/// The length in bytes of the UTF-8 encoding of a character sequence.
pub open spec fn byte_len(s: Seq<char>) -> int {
    vstd::utf8::encode_utf8(s).len() as int
}

/// One append under the size ceiling: the append is rejected, not truncated,
/// when the result would exceed `limit` bytes.
pub open spec fn append_s(acc: Seq<char>, s: Seq<char>, limit: int) -> Result<Seq<char>, ErrS> {
    if byte_len(acc) + byte_len(s) > limit {
        Err(ErrS::SizeExceeded { limit })
    } else {
        Ok(acc + s)
    }
}

/// Whether `c` is a template delimiter character.
pub open spec fn is_brace(c: char) -> bool {
    c == '{' || c == '}'
}

/// Whether `s` contains a template delimiter character.
pub open spec fn has_brace(s: Seq<char>) -> bool {
    exists|i: int| 0 <= i < s.len() && is_brace(s[i])
}

/// Whether the template text contains no `{{` anywhere; such a template is
/// plain literal text to the parser.
pub open spec fn no_var_open(t: Seq<char>) -> bool {
    forall|i: int| 0 <= i < t.len() - 1 ==> !((#[trigger] t[i]) == '{' && t[i + 1] == '{')
}

/// Whether the template text is exactly one variable reference with a
/// literal, delimiter-free, non-empty key: `{{key}}` and nothing else.
pub open spec fn flat_var_template(t: Seq<char>) -> bool {
    t.len() >= 5 && t[0] == '{' && t[1] == '{' && t[t.len() - 2] == '}' && t[t.len() - 1] == '}'
        && !has_brace(t.subrange(2, t.len() - 2))
}

/// The key of a [`flat_var_template`]: the text between the delimiters.
pub open spec fn flat_var_key(t: Seq<char>) -> Seq<char> {
    t.subrange(2, t.len() - 2)
}

/// The answers of the external lookup chain, in the order the resolver
/// queries it.
pub type LookupTrace = Seq<Option<Seq<char>>>;

/// The head answer of a trace; an exhausted trace reads as a miss.
pub open spec fn head_answer(tr: LookupTrace) -> Option<Seq<char>> {
    if tr.len() == 0 {
        None
    } else {
        tr[0]
    }
}

/// The trace after consuming one answer.
pub open spec fn tail_trace(tr: LookupTrace) -> LookupTrace {
    if tr.len() == 0 {
        tr
    } else {
        tr.drop_first()
    }
}

/// The opening delimiter, `{{`.
pub open spec fn open_braces() -> Seq<char> {
    seq!['{', '{']
}

/// The closing delimiter, `}}`.
pub open spec fn close_braces() -> Seq<char> {
    seq!['}', '}']
}

/// The outcome of a walk: the accumulator's final contents together with the
/// unconsumed rest of the trace, or the error that ended the walk.
pub ghost enum RunS {
    /// The walk completed; `out` holds the accumulator, `rest` the trace left.
    Done { out: Seq<char>, rest: LookupTrace },
    /// The walk failed with `err`; nothing of it is kept.
    Fail { err: ErrS },
}

/// The not-found policy applied for a missing `key`, writing onto `acc`.
pub open spec fn run_not_found(key: Seq<char>, c: CfgS, acc: Seq<char>, rest: LookupTrace) -> RunS {
    match c.not_found {
        NotFound::ReturnOriginal => match append_s(acc, open_braces(), c.max_size) {
            Err(e) => RunS::Fail { err: e },
            Ok(a1) => match append_s(a1, key, c.max_size) {
                Err(e) => RunS::Fail { err: e },
                Ok(a2) => match append_s(a2, close_braces(), c.max_size) {
                    Err(e) => RunS::Fail { err: e },
                    Ok(out) => RunS::Done { out, rest },
                },
            },
        },
        NotFound::ReturnEmpty => RunS::Done { out: acc, rest },
        NotFound::Error => RunS::Fail { err: ErrS::NotFound { key } },
    }
}

/// Resolution of one node at `depth`, writing onto `acc` and drawing lookup
/// answers from `tr`. A variable's key expression is resolved first, at
/// `depth + 1` into its own empty accumulator — where the entry guard of
/// [`run_nodes`] bounds the nesting — and is checked for delimiter
/// characters before it is used as a lookup key.
pub open spec fn run_node(n: NodeS, c: CfgS, depth: int, acc: Seq<char>, tr: LookupTrace) -> RunS
    decreases n,
{
    match n {
        NodeS::Text(s) => match append_s(acc, s, c.max_size) {
            Ok(out) => RunS::Done { out, rest: tr },
            Err(e) => RunS::Fail { err: e },
        },
        NodeS::Variable(parts) => match run_nodes(parts, c, depth + 1, Seq::empty(), tr) {
            RunS::Fail { err } => RunS::Fail { err },
            RunS::Done { out: key, rest } => {
                if has_brace(key) {
                    RunS::Fail { err: ErrS::Injection { key } }
                } else {
                    match head_answer(rest) {
                        Some(val) => match append_s(acc, val, c.max_size) {
                            Ok(out) => RunS::Done { out, rest: tail_trace(rest) },
                            Err(e) => RunS::Fail { err: e },
                        },
                        None => run_not_found(key, c, acc, tail_trace(rest)),
                    }
                }
            },
        },
    }
}

/// Resolution of a node sequence, left to right, threading the accumulator
/// and the trace. The depth guard stands at entry, before any per-node work:
/// at excess depth the walk fails even for an empty or text-only sequence.
pub open spec fn run_nodes(ns: Seq<NodeS>, c: CfgS, depth: int, acc: Seq<char>, tr: LookupTrace) -> RunS
    decreases ns,
{
    if depth > c.max_depth {
        RunS::Fail { err: ErrS::DepthExceeded { limit: c.max_depth } }
    } else if ns.len() == 0 {
        RunS::Done { out: acc, rest: tr }
    } else {
        match run_node(ns[0], c, depth, acc, tr) {
            RunS::Fail { err } => RunS::Fail { err },
            RunS::Done { out, rest } => run_nodes(ns.drop_first(), c, depth, out, rest),
        }
    }
}

/// The outcome of one `resolve` call: parse the template under the
/// configuration's parser limits, then walk the tree at depth 0 into an
/// empty accumulator.
pub open spec fn resolve_model(t: Seq<char>, c: CfgS, tr: LookupTrace) -> Result<Seq<char>, ErrS> {
    match crate::outside::parse_result(t, c.parse_max_depth, c.parse_max_nodes) {
        Err(e) => Err(ErrS::Parse { err: e }),
        Ok(ns) => match run_nodes(ns, c, 0, Seq::empty(), tr) {
            RunS::Done { out, .. } => Ok(out),
            RunS::Fail { err } => Err(err),
        },
    }
}

/// Whether the executable result `r` carries exactly the modeled outcome `m`.
pub open spec fn result_matches(r: Result<String, Error>, m: Result<Seq<char>, ErrS>) -> bool {
    match (r, m) {
        (Ok(s), Ok(out)) => s@ == out,
        (Err(e), Err(err)) => crate::error::err_view(e) == err,
        _ => false,
    }
}

/// Consuming the head of a trace that starts with `x` yields `x` and leaves
/// the rest.
pub proof fn lemma_trace_cons(x: Option<Seq<char>>, t: LookupTrace)
    ensures
        head_answer(seq![x] + t) == x,
        tail_trace(seq![x] + t) == t,
{
    assert((seq![x] + t)[0] == x);
    assert((seq![x] + t).drop_first() =~= t);
}

/// A sequence is a prefix of itself.
pub proof fn lemma_prefix_refl(a: Seq<char>)
    ensures
        a.is_prefix_of(a),
{
    assert(a =~= a.subrange(0, a.len() as int));
}

/// A sequence is a prefix of itself extended by anything.
pub proof fn lemma_prefix_append(a: Seq<char>, b: Seq<char>)
    ensures
        a.is_prefix_of(a + b),
{
    assert(a =~= (a + b).subrange(0, a.len() as int));
}

/// Being a prefix is transitive.
pub proof fn lemma_prefix_trans(a: Seq<char>, b: Seq<char>, c: Seq<char>)
    requires
        a.is_prefix_of(b),
        b.is_prefix_of(c),
    ensures
        a.is_prefix_of(c),
{
    assert(a =~= c.subrange(0, a.len() as int));
}

/// Encoding distributes over concatenation, so byte lengths add.
pub proof fn lemma_byte_len_concat(a: Seq<char>, b: Seq<char>)
    ensures
        byte_len(a + b) == byte_len(a) + byte_len(b),
    decreases a.len(),
{
    if a.len() == 0 {
        assert(a + b =~= b);
    } else {
        assert((a + b).drop_first() =~= a.drop_first() + b);
        assert((a + b)[0] == a[0]);
        lemma_byte_len_concat(a.drop_first(), b);
    }
}

/// Every character encodes to at least one byte.
pub proof fn lemma_byte_len_lower(s: Seq<char>)
    ensures
        byte_len(s) >= s.len(),
    decreases s.len(),
{
    if s.len() > 0 {
        lemma_byte_len_lower(s.drop_first());
        assert(vstd::utf8::encode_scalar(s[0] as u32).len() >= 1);
    }
}

} // verus!
