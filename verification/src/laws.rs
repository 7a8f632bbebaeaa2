use crate::ast::Node;
use crate::function::{FunS, NativeKind, ValueS, sval_truth};
use crate::number::{NUM_SCALE, sp_num_of_lit, sp_num_text};
use crate::sem::{StS, arity_err, sp_check_arity, sp_eval, sp_native};
use crate::token::{TokenKind, TokenS};
use vstd::prelude::*;

verus! {

// The language's cross-cutting guarantees, stated and proved against the
// big-step semantics that the interpreter is verified to implement.
/// Truthiness: `nil` and `false` are the only falsy values; every other
/// value, among them the number zero and the empty string, is truthy.
pub proof fn lemma_truthiness(v: ValueS)
    ensures
        sval_truth(v) <==> !(v == ValueS::Nil || v == ValueS::Bool(false)),
        sval_truth(ValueS::Num(0)),
        sval_truth(ValueS::Str(Seq::empty())),
{
}

/// An expression that contains no call and no statement form: evaluating it
/// can read and write variables but can never raise or consume a break or
/// return signal.
pub open spec fn no_call_expr(n: Node) -> bool
    decreases n,
{
    match n {
        Node::Literal { tok: _t } => true,
        Node::Group { inner } => no_call_expr(*inner),
        Node::Unary { op: _o, operand } => no_call_expr(*operand),
        Node::Binary { op: _o, lhs, rhs } => no_call_expr(*lhs) && no_call_expr(*rhs),
        Node::Assign { target: _t, rhs } => no_call_expr(*rhs),
        Node::FunDef { params: _p, body: _b } => true,
        _ => false,
    }
}

/// Evaluating a call-free expression leaves the break and return signals
/// exactly as it found them, whether it succeeds or fails.
pub proof fn lemma_pure_eval_signals(st: StS, n: Node, fuel: nat)
    requires
        no_call_expr(n),
    ensures
        sp_eval(st, n, fuel).0.breaking == st.breaking,
        sp_eval(st, n, fuel).0.returning == st.returning,
    decreases fuel,
{
    if fuel > 0 {
        let f = (fuel - 1) as nat;
        match n {
            Node::Group { inner } => {
                lemma_pure_eval_signals(st, *inner, f);
            },
            Node::Unary { op: _o, operand } => {
                lemma_pure_eval_signals(st, *operand, f);
            },
            Node::Binary { op, lhs, rhs } => {
                lemma_pure_eval_signals(st, *lhs, f);
                let (st1, _r1) = sp_eval(st, *lhs, f);
                lemma_pure_eval_signals(st1, *rhs, f);
            },
            Node::Assign { target: _t, rhs } => {
                lemma_pure_eval_signals(st, *rhs, f);
            },
            _ => {},
        }
    }
}

/// Break scoping: a `while` whose condition is call-free consumes any break
/// raised in its body; when the loop completes normally, no break signal is
/// left for an enclosing loop, so `break` ends only the innermost `while`.
pub proof fn lemma_break_innermost(st: StS, cond: Node, body: Node, fuel: nat)
    requires
        st.breaking is None,
        no_call_expr(cond),
    ensures
        ({
            let (st1, r) = sp_eval(
                st,
                Node::While { cond: Box::new(cond), body: Box::new(body) },
                fuel,
            );
            r is Ok ==> st1.breaking is None
        }),
    decreases fuel,
{
    if fuel > 0 {
        let f = (fuel - 1) as nat;
        lemma_pure_eval_signals(st, cond, f);
        let (st1, r) = sp_eval(st, cond, f);
        match r {
            Ok(c) => {
                if sval_truth(c) {
                    let (st2, r2) = sp_eval(st1, body, f);
                    match r2 {
                        Ok(_v) => {
                            if st2.breaking is Some {
                            } else if st2.returning is Some {
                            } else {
                                lemma_break_innermost(
                                    st2,
                                    cond,
                                    body,
                                    f,
                                );
                            }
                        },
                        Err(_e) => {},
                    }
                }
            },
            Err(_e) => {},
        }
    }
}

/// Lookups depend only on the frames a chain can reach: two arenas that
/// agree on every frame up to `fi` resolve every name identically from `fi`.
pub proof fn lemma_lookup_agrees(
    frames1: Seq<crate::environment::FrameS>,
    frames2: Seq<crate::environment::FrameS>,
    fi: int,
    name: Seq<char>,
)
    requires
        crate::environment::wf_frames(frames1),
        crate::environment::wf_frames(frames2),
        0 <= fi < frames1.len(),
        fi < frames2.len(),
        forall|j: int| 0 <= j <= fi ==> frames1[j] == frames2[j],
    ensures
        crate::environment::env_lookup(frames1, fi, name) == crate::environment::env_lookup(
            frames2,
            fi,
            name,
        ),
    decreases fi,
{
    if crate::environment::frame_lookup(frames1[fi].entries, name) is None {
        match frames1[fi].parent {
            Some(p) => {
                lemma_lookup_agrees(frames1, frames2, p, name);
            },
            None => {},
        }
    }
}

/// Declaring binds in the innermost frame: after `var name = v` in frame
/// `fi`, looking `name` up from `fi` yields `v`, whatever any enclosing
/// frame binds — the inner declaration shadows the outer ones.
pub proof fn lemma_define_shadows(
    frames: Seq<crate::environment::FrameS>,
    fi: int,
    name: Seq<char>,
    v: ValueS,
)
    requires
        crate::environment::wf_frames(frames),
        0 <= fi < frames.len(),
    ensures
        crate::environment::env_lookup(
            crate::environment::env_define(frames, fi, name, v),
            fi,
            name,
        ) == Some(v),
{
    let frames1 = crate::environment::env_define(frames, fi, name, v);
    assert(frames1[fi].entries.last() == (name, v));
}

/// Declaring one name leaves every other name's resolution untouched.
pub proof fn lemma_define_preserves_others(
    frames: Seq<crate::environment::FrameS>,
    fi: int,
    name: Seq<char>,
    v: ValueS,
    other: Seq<char>,
)
    requires
        crate::environment::wf_frames(frames),
        0 <= fi < frames.len(),
        other != name,
    ensures
        crate::environment::env_lookup(
            crate::environment::env_define(frames, fi, name, v),
            fi,
            other,
        ) == crate::environment::env_lookup(frames, fi, other),
{
    let frames1 = crate::environment::env_define(frames, fi, name, v);
    assert(frames1[fi].entries.last().0 != other);
    assert(frames1[fi].entries.drop_last() =~= frames[fi].entries);
    crate::environment::last_match_props(frames[fi].entries, other);
    assert(crate::environment::frame_lookup(frames1[fi].entries, other)
        == crate::environment::frame_lookup(frames[fi].entries, other));
    if crate::environment::frame_lookup(frames[fi].entries, other) is None {
        match frames[fi].parent {
            Some(p) => {
                lemma_lookup_agrees(frames, frames1, p, other);
            },
            None => {},
        }
    }
}

/// Closure capture: a fresh frame opened under `parent` resolves every name
/// exactly as `parent` does, so a body evaluated in a frame chained to its
/// defining scope observes the captured bindings — also after the scope that
/// pushed them is no longer the active one, since frames never move.
pub proof fn lemma_capture_resolves_through_parent(
    frames: Seq<crate::environment::FrameS>,
    parent: int,
    name: Seq<char>,
)
    requires
        crate::environment::wf_frames(frames),
        0 <= parent < frames.len(),
    ensures
        crate::environment::wf_frames(crate::environment::env_push(frames, parent)),
        crate::environment::env_lookup(
            crate::environment::env_push(frames, parent),
            frames.len() as int,
            name,
        ) == crate::environment::env_lookup(frames, parent, name),
{
    let frames1 = crate::environment::env_push(frames, parent);
    assert(crate::environment::wf_frames(frames1)) by {
        assert forall|i: int| 1 <= i < frames1.len() implies ((#[trigger] frames1[i].parent)
            matches Some(p) && 0 <= p < i) by {
            if i < frames.len() {
                assert((frames[i].parent matches Some(p) && 0 <= p < i));
            }
        }
    }
    let ni = frames.len() as int;
    assert(crate::environment::frame_lookup(frames1[ni].entries, name) is None);
    lemma_lookup_agrees(frames, frames1, parent, name);
}

/// Arity mismatch: calling a function whose required parameter count does
/// not admit the argument count fails at once with the arity error, before
/// any argument or any of the body is evaluated, so the call produces no
/// side effect beyond evaluating the callee: the state, its output included,
/// is exactly the state after the callee expression.
pub proof fn lemma_arity_mismatch(
    st: StS,
    callee: Node,
    args: Seq<Node>,
    line: nat,
    fuel: nat,
    fv: FunS,
    pcount: nat,
)
    requires
        fuel > 0,
        sp_eval(st, callee, (fuel - 1) as nat).1 == Result::<ValueS, crate::error::ErrS>::Ok(
            ValueS::Fun(fv),
        ),
        sp_check_arity(fv.params, args.len()) == Some(pcount),
    ensures
        ({
            let st1 = sp_eval(st, callee, (fuel - 1) as nat).0;
            sp_eval(st, Node::Call { callee: Box::new(callee), args, line }, fuel) == (
                st1,
                Result::<ValueS, crate::error::ErrS>::Err(arity_err(line, args.len(), pcount)),
            )
        }),
{
}

/// The `clock` built-in is monotonically non-decreasing within a run: its
/// value is pinned to the run's starting reading, so across two successive
/// calls the first value never exceeds the second, and the state is
/// untouched.
pub proof fn lemma_clock_monotone(st: StS, vals1: Seq<ValueS>, vals2: Seq<ValueS>)
    ensures
        ({
            let (s1, r1) = sp_native(st, NativeKind::Clock, vals1);
            let (s2, r2) = sp_native(s1, NativeKind::Clock, vals2);
            &&& s1 == st
            &&& s2 == st
            &&& r1 == Result::<ValueS, crate::error::ErrS>::Ok(
                ValueS::Num(st.start_ms * (NUM_SCALE as int)),
            )
            &&& r2 == r1
        }),
{
}

/// Numeric round trip: printing a canonically written numeric literal
/// outputs exactly the literal's own text — the pipeline neither loses nor
/// reshapes the decimal value it parsed.
pub proof fn lemma_print_canonical_literal(st: StS, tok: TokenS, fuel: nat)
    requires
        fuel >= 2,
        tok.kind == TokenKind::Number,
        crate::number::canonical_lit(tok.text),
    ensures
        ({
            let (st1, r) = sp_eval(
                st,
                Node::PrintStmt { inner: Box::new(Node::Literal { tok }) },
                fuel,
            );
            st1 == (StS { out: st.out.push(tok.text), ..st }) && r
                == Result::<ValueS, crate::error::ErrS>::Ok(ValueS::Nil)
        }),
{
    crate::number::lemma_lit_text_round_trip(tok.text);
    let v = sp_num_of_lit(tok.text)->0;
    lemma_print_numeric_literal(st, tok, fuel, v);
}

/// Printing a numeric literal outputs exactly the decimal text of the value
/// the literal parses to, and nothing else changes but the output.
pub proof fn lemma_print_numeric_literal(st: StS, tok: TokenS, fuel: nat, v: int)
    requires
        fuel >= 2,
        tok.kind == TokenKind::Number,
        sp_num_of_lit(tok.text) == Some(v),
    ensures
        ({
            let (st1, r) = sp_eval(
                st,
                Node::PrintStmt { inner: Box::new(Node::Literal { tok }) },
                fuel,
            );
            st1 == (StS { out: st.out.push(sp_num_text(v)), ..st }) && r
                == Result::<ValueS, crate::error::ErrS>::Ok(ValueS::Nil)
        }),
{
    let inner = Node::Literal { tok };
    let f = (fuel - 1) as nat;
    assert(sp_eval(st, inner, f).1 == Result::<ValueS, crate::error::ErrS>::Ok(ValueS::Num(v)));
}

} // verus!
