use crate::ast::Node;
use crate::environment::{FrameS, env_assign, env_define, env_lookup, env_push};
use crate::error::ErrS;
use crate::function::{FunS, ImplS, NativeKind, ValueS, sval_eq, sval_text, sval_truth};
use crate::number::{
    NUM_SCALE, dec_text, sp_num_add, sp_num_div, sp_num_mul, sp_num_neg, sp_num_of_lit, sp_num_sub,
};
use crate::token::{TokenKind, TokenS};
use vstd::prelude::*;

verus! {

// The meaning of a program, as one mathematical big-step evaluator.  A state
// carries the scope frames, the index of the active frame, the two in-flight
// control signals (break and return), the output printed so far, and the
// wall-clock reading the run started with.  `sp_eval` takes a step budget:
// every recursive step spends one unit, so the function is total, and a run
// that exhausts the budget reports it as an error; the executable interpreter
// is proved to return exactly `sp_eval`'s result for the budget it is given.
#[verifier::ext_equal]
pub struct StS {
    pub frames: Seq<FrameS>,
    pub cur: int,
    pub breaking: Option<TokenS>,
    pub returning: Option<(TokenS, ValueS)>,
    pub out: Seq<Seq<char>>,
    pub start_ms: int,
}

pub type EvalR = (StS, Result<ValueS, ErrS>);

pub open spec fn rerr(line: nat, msg: Seq<char>) -> ErrS {
    ErrS { line, msg }
}

/// The error reported when the step budget runs out.
pub open spec fn fuel_err() -> ErrS {
    rerr(0, "evaluation budget exhausted"@)
}

pub open spec fn undef_var_err(tok: TokenS) -> ErrS {
    rerr(tok.line, "undefined variable '"@ + tok.text + "'"@)
}

/// A stored string literal keeps its delimiting quotes; its value is the text
/// between them.
pub open spec fn strip_quotes(s: Seq<char>) -> Seq<char> {
    if s.len() >= 2 {
        s.subrange(1, s.len() - 1)
    } else {
        Seq::empty()
    }
}

/// The required parameter count a call fails against, if its argument count
/// is wrong: a trailing empty-string sentinel parameter marks a variadic
/// function, which requires only a minimum; any other function requires an
/// exact match.  `None` means the call is admitted.
pub open spec fn sp_check_arity(params: Seq<Seq<char>>, argc: nat) -> Option<nat> {
    if params.len() > 0 && params.last() == Seq::<char>::empty() {
        if argc < params.len() - 1 {
            Some((params.len() - 1) as nat)
        } else {
            None
        }
    } else {
        if argc != params.len() {
            Some(params.len())
        } else {
            None
        }
    }
}

pub open spec fn arity_err(line: nat, argc: nat, pcount: nat) -> ErrS {
    rerr(
        line,
        "invalid number of arguments ("@ + dec_text(argc)
            + ") passed to function which takes "@ + dec_text(pcount) + " params"@,
    )
}

/// The bindings of a fresh call frame: parameters paired with arguments,
/// position by position, up to the shorter list.
pub open spec fn bind_params(params: Seq<Seq<char>>, argvals: Seq<ValueS>) -> Seq<
    (Seq<char>, ValueS),
> {
    Seq::new(
        if params.len() <= argvals.len() {
            params.len()
        } else {
            argvals.len()
        },
        |i: int| (params[i], argvals[i]),
    )
}

/// What evaluating a literal token yields in state `st`.
pub open spec fn sp_literal(st: StS, tok: TokenS) -> Result<ValueS, ErrS> {
    if tok.kind == TokenKind::Nil {
        Ok(ValueS::Nil)
    } else if tok.kind == TokenKind::True {
        Ok(ValueS::Bool(true))
    } else if tok.kind == TokenKind::False {
        Ok(ValueS::Bool(false))
    } else if tok.kind == TokenKind::Number {
        match sp_num_of_lit(tok.text) {
            Some(u) => Ok(ValueS::Num(u)),
            None => Err(rerr(tok.line, "invalid number ("@ + tok.text + ")"@)),
        }
    } else if tok.kind == TokenKind::String {
        Ok(ValueS::Str(strip_quotes(tok.text)))
    } else if tok.kind == TokenKind::Identifier {
        match env_lookup(st.frames, st.cur, tok.text) {
            Some(v) => Ok(v),
            None => Err(undef_var_err(tok)),
        }
    } else {
        Err(rerr(tok.line, "invalid literal"@))
    }
}

/// What a unary operator yields on an operand value.
pub open spec fn sp_apply_unary(op: TokenS, v: ValueS) -> Result<ValueS, ErrS> {
    if op.kind == TokenKind::Bang {
        Ok(ValueS::Bool(!sval_truth(v)))
    } else {
        match v {
            ValueS::Num(x) => match sp_num_neg(x) {
                Some(u) => Ok(ValueS::Num(u)),
                None => Err(rerr(op.line, "number overflow"@)),
            },
            _ => Err(rerr(op.line, "expected number after '-'"@)),
        }
    }
}

/// What an arithmetic or comparison operator yields on two operand values.
/// `+` adds numbers or concatenates strings; the other operators demand
/// numbers; an unrepresentable result or a zero divisor is an error.
pub open spec fn sp_apply_binary(op: TokenS, a: ValueS, b: ValueS) -> Result<ValueS, ErrS> {
    if op.kind == TokenKind::Plus {
        match (a, b) {
            (ValueS::Num(x), ValueS::Num(y)) => match sp_num_add(x, y) {
                Some(u) => Ok(ValueS::Num(u)),
                None => Err(rerr(op.line, "number overflow"@)),
            },
            (ValueS::Str(x), ValueS::Str(y)) => Ok(ValueS::Str(x + y)),
            _ => Err(rerr(op.line, "operator '+' can only be used on 2 numbers or 2 strings"@)),
        }
    } else {
        match (a, b) {
            (ValueS::Num(x), ValueS::Num(y)) => {
                if op.kind == TokenKind::Star {
                    match sp_num_mul(x, y) {
                        Some(u) => Ok(ValueS::Num(u)),
                        None => Err(rerr(op.line, "number overflow"@)),
                    }
                } else if op.kind == TokenKind::Slash {
                    match sp_num_div(x, y) {
                        Some(u) => Ok(ValueS::Num(u)),
                        None => if y == 0 {
                            Err(rerr(op.line, "division by zero"@))
                        } else {
                            Err(rerr(op.line, "number overflow"@))
                        },
                    }
                } else if op.kind == TokenKind::Minus {
                    match sp_num_sub(x, y) {
                        Some(u) => Ok(ValueS::Num(u)),
                        None => Err(rerr(op.line, "number overflow"@)),
                    }
                } else if op.kind == TokenKind::GreaterEqual {
                    Ok(ValueS::Bool(x >= y))
                } else if op.kind == TokenKind::LessEqual {
                    Ok(ValueS::Bool(x <= y))
                } else if op.kind == TokenKind::Less {
                    Ok(ValueS::Bool(x < y))
                } else if op.kind == TokenKind::Greater {
                    Ok(ValueS::Bool(x > y))
                } else {
                    Err(rerr(op.line, "invalid operator"@))
                }
            },
            _ => Err(rerr(op.line, "arithmetic operators can only be used on numbers"@)),
        }
    }
}

/// The one output line the `log` built-in prints: each argument's text
/// followed by a space.
pub open spec fn log_line(vals: Seq<ValueS>) -> Seq<char>
    decreases vals.len(),
{
    if vals.len() == 0 {
        Seq::empty()
    } else {
        log_line(vals.drop_last()) + sval_text(vals.last()) + " "@
    }
}

/// What a native call does to the state: `log` prints its arguments, and
/// `clock` returns the run's starting wall-clock reading, in milliseconds,
/// as a Number.
pub open spec fn sp_native(st: StS, k: NativeKind, vals: Seq<ValueS>) -> EvalR {
    match k {
        NativeKind::Log => (
            StS { out: st.out.push(log_line(vals)), ..st },
            Ok(ValueS::Nil),
        ),
        NativeKind::Clock => (st, Ok(ValueS::Num(st.start_ms * (NUM_SCALE as int)))),
    }
}

/// The big-step evaluation of one node: the state after it and the value it
/// produced, or the error that aborted it.  Statements produce `nil`.
pub open spec fn sp_eval(st: StS, n: Node, fuel: nat) -> EvalR
    decreases fuel,
{
    if fuel == 0 {
        (st, Err(fuel_err()))
    } else {
        let f = (fuel - 1) as nat;
        match n {
            Node::Literal { tok } => (st, sp_literal(st, tok)),
            Node::Group { inner } => sp_eval(st, *inner, f),
            Node::Unary { op, operand } => {
                let (st1, r) = sp_eval(st, *operand, f);
                match r {
                    Ok(v) => (st1, sp_apply_unary(op, v)),
                    Err(e) => (st1, Err(e)),
                }
            },
            Node::Binary { op, lhs, rhs } => {
                if op.kind == TokenKind::And {
                    let (st1, r) = sp_eval(st, *lhs, f);
                    match r {
                        Ok(v) => if !sval_truth(v) {
                            (st1, Ok(ValueS::Bool(false)))
                        } else {
                            sp_eval(st1, *rhs, f)
                        },
                        Err(e) => (st1, Err(e)),
                    }
                } else if op.kind == TokenKind::Or {
                    let (st1, r) = sp_eval(st, *lhs, f);
                    match r {
                        Ok(v) => if sval_truth(v) {
                            (st1, Ok(ValueS::Bool(true)))
                        } else {
                            sp_eval(st1, *rhs, f)
                        },
                        Err(e) => (st1, Err(e)),
                    }
                } else if op.kind == TokenKind::EqualEqual || op.kind == TokenKind::BangEqual {
                    let (st1, r1) = sp_eval(st, *lhs, f);
                    match r1 {
                        Ok(a) => {
                            let (st2, r2) = sp_eval(st1, *rhs, f);
                            match r2 {
                                Ok(b) => (
                                    st2,
                                    Ok(
                                        ValueS::Bool(
                                            if op.kind == TokenKind::EqualEqual {
                                                sval_eq(a, b)
                                            } else {
                                                !sval_eq(a, b)
                                            },
                                        ),
                                    ),
                                ),
                                Err(e) => (st2, Err(e)),
                            }
                        },
                        Err(e) => (st1, Err(e)),
                    }
                } else {
                    let (st1, r1) = sp_eval(st, *lhs, f);
                    match r1 {
                        Ok(a) => {
                            let (st2, r2) = sp_eval(st1, *rhs, f);
                            match r2 {
                                Ok(b) => (st2, sp_apply_binary(op, a, b)),
                                Err(e) => (st2, Err(e)),
                            }
                        },
                        Err(e) => (st1, Err(e)),
                    }
                }
            },
            Node::Assign { target, rhs } => {
                let (st1, r) = sp_eval(st, *rhs, f);
                match r {
                    Ok(v) => match env_assign(st1.frames, st1.cur, target.text, v) {
                        Some(fr) => (StS { frames: fr, ..st1 }, Ok(v)),
                        None => (st1, Err(undef_var_err(target))),
                    },
                    Err(e) => (st1, Err(e)),
                }
            },
            Node::ExprStmt { inner } => {
                let (st1, r) = sp_eval(st, *inner, f);
                match r {
                    Ok(_v) => (st1, Ok(ValueS::Nil)),
                    Err(e) => (st1, Err(e)),
                }
            },
            Node::PrintStmt { inner } => {
                let (st1, r) = sp_eval(st, *inner, f);
                match r {
                    Ok(v) => (StS { out: st1.out.push(sval_text(v)), ..st1 }, Ok(ValueS::Nil)),
                    Err(e) => (st1, Err(e)),
                }
            },
            Node::VarDecl { name, init } => {
                match init {
                    Some(e) => {
                        let (st1, r) = sp_eval(st, *e, f);
                        match r {
                            Ok(v) => (
                                StS {
                                    frames: env_define(st1.frames, st1.cur, name.text, v),
                                    ..st1
                                },
                                Ok(ValueS::Nil),
                            ),
                            Err(er) => (st1, Err(er)),
                        }
                    },
                    None => (
                        StS {
                            frames: env_define(st.frames, st.cur, name.text, ValueS::Nil),
                            ..st
                        },
                        Ok(ValueS::Nil),
                    ),
                }
            },
            Node::If { cond, stmt, els } => {
                let (st1, r) = sp_eval(st, *cond, f);
                match r {
                    Ok(c) => if sval_truth(c) {
                        let (st2, r2) = sp_eval(st1, *stmt, f);
                        match r2 {
                            Ok(_v) => (st2, Ok(ValueS::Nil)),
                            Err(e) => (st2, Err(e)),
                        }
                    } else {
                        match els {
                            Some(e) => {
                                let (st2, r2) = sp_eval(st1, *e, f);
                                match r2 {
                                    Ok(_v) => (st2, Ok(ValueS::Nil)),
                                    Err(er) => (st2, Err(er)),
                                }
                            },
                            None => (st1, Ok(ValueS::Nil)),
                        }
                    },
                    Err(e) => (st1, Err(e)),
                }
            },
            Node::While { cond, body } => {
                let (st1, r) = sp_eval(st, *cond, f);
                match r {
                    Ok(c) => if !sval_truth(c) {
                        (st1, Ok(ValueS::Nil))
                    } else {
                        let (st2, r2) = sp_eval(st1, *body, f);
                        match r2 {
                            Ok(_v) => if st2.breaking is Some {
                                (StS { breaking: None, ..st2 }, Ok(ValueS::Nil))
                            } else if st2.returning is Some {
                                (st2, Ok(ValueS::Nil))
                            } else {
                                sp_eval(st2, n, f)
                            },
                            Err(e) => (st2, Err(e)),
                        }
                    },
                    Err(e) => (st1, Err(e)),
                }
            },
            Node::Break { tok } => (StS { breaking: Some(tok), ..st }, Ok(ValueS::Nil)),
            Node::Return { tok, value } => {
                match value {
                    Some(e) => {
                        let (st1, r) = sp_eval(st, *e, f);
                        match r {
                            Ok(v) => (
                                StS { returning: Some((tok, v)), ..st1 },
                                Ok(ValueS::Nil),
                            ),
                            Err(er) => (st1, Err(er)),
                        }
                    },
                    None => (
                        StS { returning: Some((tok, ValueS::Nil)), ..st },
                        Ok(ValueS::Nil),
                    ),
                }
            },
            Node::Block { decs } => {
                let parent = st.cur;
                let frames1 = env_push(st.frames, st.cur);
                let st1 = StS { frames: frames1, cur: frames1.len() - 1, ..st };
                let (st2, r) = sp_eval_seq(st1, decs, f);
                match r {
                    Ok(_v) => (StS { cur: parent, ..st2 }, Ok(ValueS::Nil)),
                    Err(e) => (st2, Err(e)),
                }
            },
            Node::Program { decs } => {
                let (st1, r) = sp_eval_seq(st, decs, f);
                match r {
                    Ok(_v) => (st1, Ok(ValueS::Nil)),
                    Err(e) => (st1, Err(e)),
                }
            },
            Node::FunDecl { name, params, body } => {
                let fv = ValueS::Fun(
                    FunS {
                        params: params.map_values(|t: TokenS| t.text),
                        code: ImplS::Lox(body),
                        closure: Some(st.cur),
                    },
                );
                (
                    StS { frames: env_define(st.frames, st.cur, name.text, fv), ..st },
                    Ok(ValueS::Nil),
                )
            },
            Node::FunDef { params, body } => (
                st,
                Ok(
                    ValueS::Fun(
                        FunS {
                            params: params.map_values(|t: TokenS| t.text),
                            code: ImplS::Lox(body),
                            closure: Some(st.cur),
                        },
                    ),
                ),
            ),
            Node::Call { callee, args, line } => {
                let (st1, r) = sp_eval(st, *callee, f);
                match r {
                    Ok(cv) => match cv {
                        ValueS::Fun(fv) => match sp_check_arity(fv.params, args.len()) {
                            Some(pcount) => (st1, Err(arity_err(line, args.len(), pcount))),
                            None => {
                                let (st2, ra) = sp_eval_args(st1, args, f);
                                match ra {
                                    Ok(vals) => match fv.code {
                                        ImplS::Native(k) => sp_native(st2, k, vals),
                                        ImplS::Lox(body) => {
                                            // A closure index always points into the arena;
                                            // the guard keeps the function total on the
                                            // states no run produces.
                                            let parent0 = match fv.closure {
                                                Some(c) => c,
                                                None => 0,
                                            };
                                            let parent = if 0 <= parent0
                                                < st2.frames.len() {
                                                parent0
                                            } else {
                                                0
                                            };
                                            let ni = st2.frames.len() as int;
                                            let frames2 = st2.frames.push(
                                                FrameS {
                                                    entries: bind_params(fv.params, vals),
                                                    parent: Some(parent),
                                                },
                                            );
                                            let st3 = StS { frames: frames2, cur: ni, ..st2 };
                                            let (st4, rb) = sp_eval(st3, *body, f);
                                            match rb {
                                                Ok(_v) => {
                                                    let st5 = StS { cur: st2.cur, ..st4 };
                                                    match st5.returning {
                                                        Some((_t, v)) => (
                                                            StS { returning: None, ..st5 },
                                                            Ok(v),
                                                        ),
                                                        None => (st5, Ok(ValueS::Nil)),
                                                    }
                                                },
                                                Err(e) => (st4, Err(e)),
                                            }
                                        },
                                    },
                                    Err(e) => (st2, Err(e)),
                                }
                            },
                        },
                        _ => (st1, Err(rerr(line, sval_text(cv) + " is not callable"@))),
                    },
                    Err(e) => (st1, Err(e)),
                }
            },
        }
    }
}

/// Evaluates declarations in order, stopping early, without clearing them,
/// when a break or return signal becomes set.
pub open spec fn sp_eval_seq(st: StS, decs: Seq<Node>, fuel: nat) -> EvalR
    decreases fuel,
{
    if decs.len() == 0 {
        (st, Ok(ValueS::Nil))
    } else if fuel == 0 {
        (st, Err(fuel_err()))
    } else {
        let f = (fuel - 1) as nat;
        let (st1, r) = sp_eval(st, decs[0], f);
        match r {
            Ok(_v) => if st1.breaking is Some || st1.returning is Some {
                (st1, Ok(ValueS::Nil))
            } else {
                sp_eval_seq(st1, decs.drop_first(), f)
            },
            Err(e) => (st1, Err(e)),
        }
    }
}

/// Evaluates call arguments left to right.
pub open spec fn sp_eval_args(st: StS, args: Seq<Node>, fuel: nat) -> (StS, Result<
    Seq<ValueS>,
    ErrS,
>)
    decreases fuel,
{
    if args.len() == 0 {
        (st, Ok(Seq::empty()))
    } else if fuel == 0 {
        (st, Err(fuel_err()))
    } else {
        let f = (fuel - 1) as nat;
        let (st1, r) = sp_eval(st, args[0], f);
        match r {
            Ok(v) => {
                let (st2, r2) = sp_eval_args(st1, args.drop_first(), f);
                match r2 {
                    Ok(vs) => (st2, Ok(seq![v] + vs)),
                    Err(e) => (st2, Err(e)),
                }
            },
            Err(e) => (st1, Err(e)),
        }
    }
}

/// The global frame every run starts with: the native functions, `log`
/// (variadic) and `clock`.
pub open spec fn initial_frame() -> FrameS {
    FrameS {
        entries: seq![
            (
                "log"@,
                ValueS::Fun(
                    FunS {
                        params: seq![Seq::<char>::empty()],
                        code: ImplS::Native(NativeKind::Log),
                        closure: None,
                    },
                ),
            ),
            (
                "clock"@,
                ValueS::Fun(
                    FunS {
                        params: Seq::empty(),
                        code: ImplS::Native(NativeKind::Clock),
                        closure: None,
                    },
                ),
            ),
        ],
        parent: None,
    }
}

pub open spec fn init_state(start_ms: int) -> StS {
    StS {
        frames: seq![initial_frame()],
        cur: 0,
        breaking: None,
        returning: None,
        out: Seq::empty(),
        start_ms,
    }
}

/// What one whole run produces: the root's value when everything went well,
/// the output printed along the way, and the error that ended the run early,
/// a break or return that survived to the top counting as one.
#[verifier::ext_equal]
pub struct RunS {
    pub value: Option<ValueS>,
    pub out: Seq<Seq<char>>,
    pub err: Option<ErrS>,
}

pub open spec fn sp_interpret_fuel(root: Node, start_ms: int, fuel: nat) -> RunS {
    let (st, r) = sp_eval(init_state(start_ms), root, fuel);
    match r {
        Err(e) => RunS { value: None, out: st.out, err: Some(e) },
        Ok(v) => match st.breaking {
            Some(tok) => RunS {
                value: None,
                out: st.out,
                err: Some(rerr(tok.line, "break statement out of loop"@)),
            },
            None => match st.returning {
                Some((tok, _rv)) => RunS {
                    value: None,
                    out: st.out,
                    err: Some(rerr(tok.line, "return statement out of function"@)),
                },
                None => RunS { value: Some(v), out: st.out, err: None },
            },
        },
    }
}

/// The meaning of interpreting a tree with the step budget the interpreter
/// actually runs with.
pub open spec fn sp_interpret(root: Node, start_ms: int) -> RunS {
    sp_interpret_fuel(root, start_ms, u64::MAX as nat)
}

} // verus!
