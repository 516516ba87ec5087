//! General laws of the resolution model, proved once and for all traces of
//! lookup answers.

use vstd::prelude::*;

use crate::config::CfgS;
use crate::config::NotFound;
use crate::error::ErrS;
use crate::model::LookupTrace;
use crate::model::RunS;
use crate::model::byte_len;
use crate::model::has_brace;
use crate::model::head_answer;
use crate::model::lemma_byte_len_concat;
use crate::model::lemma_byte_len_lower;
use crate::model::run_node;
use crate::model::run_nodes;
use crate::model::tail_trace;
use crate::node::NodeS;
use crate::node::plain_text_nodes;

verus! {

/// Whether some node of `ns` is a variable reference.
pub open spec fn has_variable(ns: Seq<NodeS>) -> bool {
    exists|i: int| 0 <= i < ns.len() && ns[i] is Variable
}

/// Whether every node of `ns` is literal text.
pub open spec fn all_text(ns: Seq<NodeS>) -> bool {
    forall|i: int| 0 <= i < ns.len() ==> ns[i] is Text
}

/// The total byte length of the top-level text nodes of `ns`.
pub open spec fn top_text_len(ns: Seq<NodeS>) -> int
    decreases ns,
{
    if ns.len() == 0 {
        0
    } else {
        (match ns[0] {
            NodeS::Text(s) => byte_len(s),
            _ => 0,
        }) + top_text_len(ns.drop_first())
    }
}

/// The concatenation of the text contents of an all-text node sequence.
pub open spec fn texts_concat(ns: Seq<NodeS>) -> Seq<char>
    decreases ns,
{
    if ns.len() == 0 {
        Seq::empty()
    } else {
        (match ns[0] {
            NodeS::Text(s) => s,
            _ => Seq::empty(),
        }) + texts_concat(ns.drop_first())
    }
}

/// Top-level text never has negative length.
pub proof fn lemma_top_text_len_nonneg(ns: Seq<NodeS>)
    ensures
        top_text_len(ns) >= 0,
    decreases ns,
{
    if ns.len() > 0 {
        lemma_top_text_len_nonneg(ns.drop_first());
    }
}

/// An all-text node sequence resolves to the concatenation of its texts,
/// appended to the accumulator, for every trace — no lookup answer is
/// consumed — whenever the result fits the size limit.
pub proof fn lemma_all_text_run(ns: Seq<NodeS>, c: CfgS, depth: int, acc: Seq<char>, tr: LookupTrace)
    requires
        all_text(ns),
        depth <= c.max_depth,
        byte_len(acc) + top_text_len(ns) <= c.max_size,
    ensures
        run_nodes(ns, c, depth, acc, tr) == (RunS::Done { out: acc + texts_concat(ns), rest: tr }),
    decreases ns,
{
    if ns.len() == 0 {
        assert(acc + texts_concat(ns) =~= acc);
    } else {
        let s = ns[0]->Text_0;
        assert(ns[0] is Text);
        assert(all_text(ns.drop_first()));
        assert(top_text_len(ns) == byte_len(s) + top_text_len(ns.drop_first()));
        assert(texts_concat(ns) == s + texts_concat(ns.drop_first()));
        lemma_top_text_len_nonneg(ns.drop_first());
        assert(byte_len(acc) + byte_len(s) <= c.max_size);
        lemma_byte_len_concat(acc, s);
        assert(run_node(ns[0], c, depth, acc, tr) == (RunS::Done { out: acc + s, rest: tr }));
        assert(run_nodes(ns, c, depth, acc, tr) == run_nodes(ns.drop_first(), c, depth, acc + s, tr));
        lemma_all_text_run(ns.drop_first(), c, depth, acc + s, tr);
        assert((acc + s) + texts_concat(ns.drop_first()) =~= acc + texts_concat(ns));
    }
}

/// A template that is plain literal text resolves to itself, unchanged, for
/// every configuration whose size limit admits it and for every trace of
/// lookup answers: no answer is ever consumed.
pub proof fn lemma_plain_text_run(t: Seq<char>, c: CfgS, tr: LookupTrace)
    requires
        0 <= c.max_depth,
        byte_len(t) <= c.max_size,
    ensures
        run_nodes(plain_text_nodes(t), c, 0, Seq::empty(), tr) == (RunS::Done { out: t, rest: tr }),
{
    let ns = plain_text_nodes(t);
    if t.len() == 0 {
        assert(t =~= Seq::<char>::empty());
    } else {
        assert(ns[0] == NodeS::Text(t));
        assert(ns.drop_first() =~= Seq::<NodeS>::empty());
        assert(top_text_len(ns.drop_first()) == 0);
        assert(texts_concat(ns.drop_first()) == Seq::<char>::empty());
        assert(top_text_len(ns) == byte_len(t));
        assert(texts_concat(ns) =~= t);
        assert(byte_len(Seq::<char>::empty()) == 0);
        lemma_all_text_run(ns, c, 0, Seq::empty(), tr);
        assert(Seq::<char>::empty() + texts_concat(ns) =~= t);
    }
}

/// With a resolution depth limit of 0, a node sequence holding a variable
/// reference fails with `DepthExceeded { limit: 0 }`, for every trace,
/// whenever the text before the variable fits the size limit: depth-0
/// resolution is text-only.
pub proof fn lemma_depth_zero_rejects_variable(ns: Seq<NodeS>, c: CfgS, acc: Seq<char>, tr: LookupTrace)
    requires
        c.max_depth == 0,
        has_variable(ns),
        byte_len(acc) + top_text_len(ns) <= c.max_size,
    ensures
        run_nodes(ns, c, 0, acc, tr) == (RunS::Fail { err: ErrS::DepthExceeded { limit: 0 } }),
    decreases ns,
{
    let iv = choose|i: int| 0 <= i < ns.len() && ns[i] is Variable;
    if ns[0] is Variable {
        assert(run_node(ns[0], c, 0, acc, tr) == (RunS::Fail {
            err: ErrS::DepthExceeded { limit: 0 },
        }));
    } else {
        let s = ns[0]->Text_0;
        lemma_top_text_len_nonneg(ns.drop_first());
        assert(byte_len(acc) + byte_len(s) <= c.max_size);
        lemma_byte_len_concat(acc, s);
        assert(ns.drop_first()[iv - 1] is Variable);
        lemma_depth_zero_rejects_variable(ns.drop_first(), c, acc + s, tr);
    }
}

/// On success, the output never exceeds the size limit: the check happens
/// before every append, so the limit is not exceeded even transiently.
/// Stated for one node.
pub proof fn lemma_node_output_within_limit(n: NodeS, c: CfgS, depth: int, acc: Seq<char>, tr: LookupTrace)
    requires
        byte_len(acc) <= c.max_size,
    ensures
        run_node(n, c, depth, acc, tr) matches RunS::Done { out, .. } ==> byte_len(out)
            <= c.max_size,
    decreases n,
{
    match n {
        NodeS::Text(s) => {
            if byte_len(acc) + byte_len(s) <= c.max_size {
                lemma_byte_len_concat(acc, s);
            }
        },
        NodeS::Variable(parts) => {
            match run_nodes(parts, c, depth + 1, Seq::empty(), tr) {
                RunS::Fail { .. } => {},
                RunS::Done { out: key, rest } => {
                    if !has_brace(key) {
                        match head_answer(rest) {
                            Some(val) => {
                                if byte_len(acc) + byte_len(val) <= c.max_size {
                                    lemma_byte_len_concat(acc, val);
                                }
                            },
                            None => {
                                lemma_not_found_output_within_limit(key, c, acc, tail_trace(rest));
                            },
                        }
                    }
                },
            }
        },
    }
}

/// On success, the output never exceeds the size limit. Stated for the
/// not-found policy's own appends.
proof fn lemma_not_found_output_within_limit(key: Seq<char>, c: CfgS, acc: Seq<char>, rest: LookupTrace)
    requires
        byte_len(acc) <= c.max_size,
    ensures
        crate::model::run_not_found(key, c, acc, rest) matches RunS::Done { out, .. } ==> byte_len(
            out,
        ) <= c.max_size,
{
    let o = crate::model::open_braces();
    let cl = crate::model::close_braces();
    if byte_len(acc) + byte_len(o) <= c.max_size {
        lemma_byte_len_concat(acc, o);
        if byte_len(acc + o) + byte_len(key) <= c.max_size {
            lemma_byte_len_concat(acc + o, key);
            if byte_len((acc + o) + key) + byte_len(cl) <= c.max_size {
                lemma_byte_len_concat((acc + o) + key, cl);
            }
        }
    }
}

/// On success, the output never exceeds the size limit. Stated for a node
/// sequence: the invariant of the accumulator holds at every step.
pub proof fn lemma_output_within_limit(ns: Seq<NodeS>, c: CfgS, depth: int, acc: Seq<char>, tr: LookupTrace)
    requires
        byte_len(acc) <= c.max_size,
    ensures
        run_nodes(ns, c, depth, acc, tr) matches RunS::Done { out, .. } ==> byte_len(out)
            <= c.max_size,
    decreases ns,
{
    if depth <= c.max_depth && ns.len() > 0 {
        lemma_node_output_within_limit(ns[0], c, depth, acc, tr);
        match run_node(ns[0], c, depth, acc, tr) {
            RunS::Fail { .. } => {},
            RunS::Done { out, rest } => {
                lemma_output_within_limit(ns.drop_first(), c, depth, out, rest);
            },
        }
    }
}

/// With a size limit of 0, only empty output is possible: a successful
/// resolution of any node sequence yields the empty string, and the empty
/// node sequence does succeed with it.
pub proof fn lemma_size_zero(ns: Seq<NodeS>, c: CfgS, tr: LookupTrace)
    requires
        c.max_size == 0,
        0 <= c.max_depth,
    ensures
        run_nodes(ns, c, 0, Seq::empty(), tr) matches RunS::Done { out, .. } ==> out
            == Seq::<char>::empty(),
        run_nodes(Seq::<NodeS>::empty(), c, 0, Seq::empty(), tr) == (RunS::Done {
            out: Seq::<char>::empty(),
            rest: tr,
        }),
{
    assert(byte_len(Seq::<char>::empty()) == 0);
    lemma_output_within_limit(ns, c, 0, Seq::empty(), tr);
    match run_nodes(ns, c, 0, Seq::empty(), tr) {
        RunS::Fail { .. } => {},
        RunS::Done { out, .. } => {
            lemma_byte_len_lower(out);
            assert(out =~= Seq::<char>::empty());
        },
    }
}

/// With a size limit of 0, a node sequence of non-empty literal text fails
/// with `SizeExceeded { limit: 0 }`, for every trace.
pub proof fn lemma_size_zero_rejects_text(ns: Seq<NodeS>, c: CfgS, acc: Seq<char>, tr: LookupTrace)
    requires
        c.max_size == 0,
        0 <= c.max_depth,
        all_text(ns),
        top_text_len(ns) > 0,
        acc == Seq::<char>::empty(),
    ensures
        run_nodes(ns, c, 0, acc, tr) == (RunS::Fail { err: ErrS::SizeExceeded { limit: 0 } }),
    decreases ns,
{
    assert(byte_len(acc) == 0);
    let s = ns[0]->Text_0;
    if byte_len(s) > 0 {
        assert(run_node(ns[0], c, 0, acc, tr) == (RunS::Fail {
            err: ErrS::SizeExceeded { limit: 0 },
        }));
    } else {
        lemma_byte_len_lower(s);
        assert(s =~= Seq::<char>::empty());
        assert(acc + s =~= Seq::<char>::empty());
        lemma_size_zero_rejects_text(ns.drop_first(), c, acc + s, tr);
    }
}

/// Whether `n` resolves at face value: literal text, or a variable whose key
/// expression is all literal text with no delimiter character in it.
pub open spec fn flat_node(n: NodeS) -> bool {
    match n {
        NodeS::Text(_) => true,
        NodeS::Variable(parts) => all_text(parts) && !has_brace(texts_concat(parts)),
    }
}

/// Whether every node of `ns` is flat.
pub open spec fn all_flat(ns: Seq<NodeS>) -> bool {
    forall|i: int| 0 <= i < ns.len() ==> flat_node(ns[i])
}

/// Whether every answer of the trace is a miss.
pub open spec fn all_missing(tr: LookupTrace) -> bool {
    forall|j: int| 0 <= j < tr.len() ==> tr[j] is None
}

/// The template text that a `ReturnOriginal` resolution of `ns` emits when
/// every key is missing: text as it stands, a variable as `{{key}}`.
pub open spec fn render(ns: Seq<NodeS>) -> Seq<char>
    decreases ns,
{
    if ns.len() == 0 {
        Seq::empty()
    } else {
        (match ns[0] {
            NodeS::Text(s) => s,
            NodeS::Variable(parts) => crate::model::open_braces() + texts_concat(parts)
                + crate::model::close_braces(),
        }) + render(ns.drop_first())
    }
}

/// Each delimiter pair is two bytes.
proof fn lemma_braces_len()
    ensures
        byte_len(crate::model::open_braces()) == 2,
        byte_len(crate::model::close_braces()) == 2,
{
    reveal_with_fuel(vstd::utf8::encode_utf8, 3);
    assert(vstd::utf8::encode_scalar('{' as u32).len() == 1);
    assert(vstd::utf8::encode_scalar('}' as u32).len() == 1);
    assert(crate::model::open_braces().drop_first() =~= seq!['{']);
    assert(seq!['{'].drop_first() =~= Seq::<char>::empty());
    assert(crate::model::close_braces().drop_first() =~= seq!['}']);
    assert(seq!['}'].drop_first() =~= Seq::<char>::empty());
}

/// Under the `ReturnOriginal` policy, a flat node sequence whose keys are all
/// missing resolves to its own rendering appended to the accumulator: text
/// stays as it stands and every variable comes back as the literal
/// `{{key}}`, whenever the rendering and each key buffer fit the size limit.
pub proof fn lemma_return_original_renders(ns: Seq<NodeS>, c: CfgS, acc: Seq<char>, tr: LookupTrace)
    requires
        c.not_found == NotFound::ReturnOriginal,
        c.max_depth >= 1,
        all_flat(ns),
        all_missing(tr),
        byte_len(acc) + byte_len(render(ns)) <= c.max_size,
        forall|i: int| 0 <= i < ns.len() && ns[i] is Variable ==> top_text_len(
            #[trigger] ns[i]->Variable_0,
        ) <= c.max_size,
    ensures
        run_nodes(ns, c, 0, acc, tr) matches RunS::Done { out, rest } && out == acc + render(ns)
            && all_missing(rest),
    decreases ns,
{
    if ns.len() == 0 {
        assert(acc + render(ns) =~= acc);
    } else {
        let rest_ns = ns.drop_first();
        assert(flat_node(ns[0]));
        assert(all_flat(rest_ns));
        assert(forall|i: int|
            0 <= i < rest_ns.len() && rest_ns[i] is Variable ==> top_text_len(
                #[trigger] rest_ns[i]->Variable_0,
            ) <= c.max_size);
        match ns[0] {
            NodeS::Text(s) => {
                assert(render(ns) == s + render(rest_ns));
                lemma_byte_len_concat(s, render(rest_ns));
                lemma_byte_len_concat(acc, s);
                assert(run_node(ns[0], c, 0, acc, tr) == (RunS::Done { out: acc + s, rest: tr }));
                lemma_return_original_renders(rest_ns, c, acc + s, tr);
                assert((acc + s) + render(rest_ns) =~= acc + render(ns));
            },
            NodeS::Variable(parts) => {
                let o = crate::model::open_braces();
                let cl = crate::model::close_braces();
                let key = texts_concat(parts);
                let piece = o + key + cl;
                assert(render(ns) == piece + render(rest_ns));
                lemma_braces_len();
                lemma_byte_len_concat(piece, render(rest_ns));
                lemma_byte_len_concat(o + key, cl);
                lemma_byte_len_concat(o, key);
                assert(byte_len(piece) == 4 + byte_len(key));
                lemma_top_text_len_nonneg(parts);
                lemma_all_text_run(parts, c, 1, Seq::empty(), tr);
                assert(Seq::<char>::empty() + key =~= key);
                assert(run_nodes(parts, c, 1, Seq::empty(), tr) == (RunS::Done {
                    out: key,
                    rest: tr,
                }));
                assert(head_answer(tr) is None);
                let tr2 = tail_trace(tr);
                assert(all_missing(tr2));
                lemma_byte_len_concat(acc, o);
                lemma_byte_len_concat(acc + o, key);
                lemma_byte_len_concat((acc + o) + key, cl);
                assert(run_node(ns[0], c, 0, acc, tr) == (RunS::Done {
                    out: ((acc + o) + key) + cl,
                    rest: tr2,
                }));
                lemma_return_original_renders(rest_ns, c, ((acc + o) + key) + cl, tr2);
                assert((((acc + o) + key) + cl) + render(rest_ns) =~= acc + render(ns));
            },
        }
    }
}

/// The string-level fixed point of `ReturnOriginal`: the first resolution of
/// a flat tree with every key missing emits its rendering; re-parsing that
/// text yields some tree that renders back to the very same text, and the
/// second resolution — of any such tree, under the same still-missing scope —
/// emits it again, unchanged.
pub proof fn lemma_return_original_fixed_point(
    ns1: Seq<NodeS>,
    ns2: Seq<NodeS>,
    c: CfgS,
    tr1: LookupTrace,
    tr2: LookupTrace,
)
    requires
        c.not_found == NotFound::ReturnOriginal,
        c.max_depth >= 1,
        all_flat(ns1),
        all_flat(ns2),
        all_missing(tr1),
        all_missing(tr2),
        render(ns2) == render(ns1),
        byte_len(render(ns1)) <= c.max_size,
        forall|i: int| 0 <= i < ns1.len() && ns1[i] is Variable ==> top_text_len(
            #[trigger] ns1[i]->Variable_0,
        ) <= c.max_size,
        forall|i: int| 0 <= i < ns2.len() && ns2[i] is Variable ==> top_text_len(
            #[trigger] ns2[i]->Variable_0,
        ) <= c.max_size,
    ensures
        run_nodes(ns1, c, 0, Seq::empty(), tr1) matches RunS::Done { out, .. } && out == render(
            ns1,
        ),
        run_nodes(ns2, c, 0, Seq::empty(), tr2) matches RunS::Done { out, .. } && out == render(
            ns1,
        ),
{
    assert(byte_len(Seq::<char>::empty()) == 0);
    lemma_return_original_renders(ns1, c, Seq::empty(), tr1);
    lemma_return_original_renders(ns2, c, Seq::empty(), tr2);
    assert(Seq::<char>::empty() + render(ns1) =~= render(ns1));
    assert(Seq::<char>::empty() + render(ns2) =~= render(ns2));
}

/// A resolved key that contains a `{` or `}` character is rejected as an
/// injection before any lookup: the variable fails with `Injection { key }`
/// and consumes no answer of the trace.
pub proof fn lemma_injection_rejected(
    parts: Seq<NodeS>,
    c: CfgS,
    depth: int,
    acc: Seq<char>,
    tr: LookupTrace,
    key: Seq<char>,
    rest: LookupTrace,
)
    requires
        run_nodes(parts, c, depth + 1, Seq::empty(), tr) == (RunS::Done { out: key, rest }),
        has_brace(key),
    ensures
        run_node(NodeS::Variable(parts), c, depth, acc, tr) == (RunS::Fail {
            err: ErrS::Injection { key },
        }),
{
}

/// A looked-up value that is used only as output text is appended unchanged
/// and is never checked for delimiter characters: the resolution succeeds
/// even when `has_brace(val)` holds, provided the value fits the size limit.
pub proof fn lemma_value_not_scanned(
    parts: Seq<NodeS>,
    c: CfgS,
    depth: int,
    acc: Seq<char>,
    tr: LookupTrace,
    key: Seq<char>,
    val: Seq<char>,
    rest: LookupTrace,
)
    requires
        run_nodes(parts, c, depth + 1, Seq::empty(), tr) == (RunS::Done { out: key, rest }),
        !has_brace(key),
        head_answer(rest) == Some(val),
        byte_len(acc) + byte_len(val) <= c.max_size,
    ensures
        run_node(NodeS::Variable(parts), c, depth, acc, tr) == (RunS::Done {
            out: acc + val,
            rest: tail_trace(rest),
        }),
{
}

} // verus!
