use crate::ast::{
    AssignExpr, Ast, AstNode, AstNodeRef, BinaryExpr, Block, BreakStmt, ExprStmt, FunCall,
    FunDecl, FunDef, GroupExpr, IfStmt, LiteralExpr, Node, PrintStmt, Program, ReturnStmt,
    UnaryExpr, VarDecl, WhileStmt, nodes_view, nodes_view_empty, nodes_view_push,
};
use crate::error::{ErrS, LoxError};
use crate::token::{
    Token, TokenKind, TokenS, spec_describe_kind, toks_view, toks_view_empty, toks_view_push,
};
use vstd::prelude::*;

verus! {

// Recursive-descent, precedence-climbing parser.  The `sp_*` spec functions
// below state the grammar as a mathematical function from a token sequence
// and a position to the parsed node and the position that follows it (or the
// error reported); the executable parser is proved to return exactly their
// result.  Precedence, lowest to highest: assignment, logic-or, logic-and,
// equality, comparison, term, factor, unary, call, primary.
//
// A parse position always sits on a token, and the token list always ends
// with the end-of-input marker, which is never stepped past.
pub open spec fn wf_toks(ts: Seq<TokenS>) -> bool {
    ts.len() > 0 && ts[ts.len() - 1].kind == TokenKind::EOF
}

/// The position after consuming the token at `cur`.
pub open spec fn sp_adv(ts: Seq<TokenS>, cur: int) -> int {
    if ts[cur].kind == TokenKind::EOF {
        cur
    } else {
        cur + 1
    }
}

/// Guard used by the grammar functions when they continue at a position a
/// sub-parse returned: in every reachable case the sub-parse has moved
/// strictly forward and the guard hands back `c_new` unchanged; it exists so
/// that each grammar function visibly decreases.
pub open spec fn step_pos(c_new: int, c_old: int, len: int) -> int {
    if c_old < c_new && c_new < len {
        c_new
    } else {
        c_old + 1
    }
}

pub open spec fn expect_err(ts: Seq<TokenS>, cur: int, kind: TokenKind) -> ErrS {
    ErrS { line: ts[cur].line, msg: "expected "@ + spec_describe_kind(kind) }
}

/// Consuming one token of the given kind: the token and the next position,
/// or the error naming what was expected.
pub open spec fn sp_consume(ts: Seq<TokenS>, cur: int, kind: TokenKind) -> Result<
    (TokenS, int),
    ErrS,
> {
    if ts[cur].kind == kind {
        Ok((ts[cur], sp_adv(ts, cur)))
    } else {
        Err(expect_err(ts, cur, kind))
    }
}

pub type SpParsed = Result<(Node, int), ErrS>;

/// primary: literal, grouping, or an anonymous function expression.
pub open spec fn sp_primary(ts: Seq<TokenS>, cur: int) -> SpParsed
    decreases ts.len() - cur, 10int,
        when wf_toks(ts) && 0 <= cur < ts.len()
{
    let k = ts[cur].kind;
    if k == TokenKind::True || k == TokenKind::False || k == TokenKind::Number || k
        == TokenKind::String || k == TokenKind::Identifier || k == TokenKind::Nil {
        Ok((Node::Literal { tok: ts[cur] }, cur + 1))
    } else if k == TokenKind::LeftParen {
        match sp_expression(ts, cur + 1) {
            Ok((inner, c1)) => {
                let c1g = step_pos(c1, cur, ts.len() as int);
                match sp_consume(ts, c1g, TokenKind::RightParen) {
                    Ok((_t, c2)) => Ok((Node::Group { inner: Box::new(inner) }, c2)),
                    Err(e) => Err(e),
                }
            },
            Err(e) => Err(e),
        }
    } else if k == TokenKind::Fun {
        match sp_fun_tail(ts, cur + 1) {
            Ok(((params, body), c1)) => Ok((Node::FunDef { params, body: Box::new(body) }, c1)),
            Err(e) => Err(e),
        }
    } else {
        Err(ErrS { line: ts[cur].line, msg: "expression expected"@ })
    }
}

/// The parenthesized parameter list and block body shared by named and
/// anonymous functions; `cur` stands just after the `fun` keyword or the
/// declared name.
pub open spec fn sp_fun_tail(ts: Seq<TokenS>, cur: int) -> Result<((Seq<TokenS>, Node), int), ErrS>
    decreases ts.len() - cur, 96int,
        when wf_toks(ts) && 0 <= cur < ts.len()
{
    match sp_consume(ts, cur, TokenKind::LeftParen) {
        Ok((_lp, c1)) => match sp_params(ts, c1, Seq::empty()) {
            Ok((params, c2)) => {
                let c2g = step_pos(c2, cur, ts.len() as int);
                match sp_block(ts, c2g) {
                    Ok((body, c3)) => Ok(((params, body), c3)),
                    Err(e) => Err(e),
                }
            },
            Err(e) => Err(e),
        },
        Err(e) => Err(e),
    }
}

/// Parameter names up to the closing parenthesis, `acc` holding those already
/// read.
pub open spec fn sp_params(ts: Seq<TokenS>, cur: int, acc: Seq<TokenS>) -> Result<
    (Seq<TokenS>, int),
    ErrS,
>
    decreases ts.len() - cur, 1int,
        when wf_toks(ts) && 0 <= cur < ts.len()
{
    if ts[cur].kind == TokenKind::RightParen {
        Ok((acc, cur + 1))
    } else if acc.len() == 0 {
        if ts[cur].kind == TokenKind::Identifier {
            sp_params(ts, cur + 1, acc.push(ts[cur]))
        } else {
            Err(expect_err(ts, cur, TokenKind::Identifier))
        }
    } else {
        if ts[cur].kind == TokenKind::Comma {
            if ts[cur + 1].kind == TokenKind::Identifier {
                sp_params(ts, cur + 2, acc.push(ts[cur + 1]))
            } else {
                Err(expect_err(ts, cur + 1, TokenKind::Identifier))
            }
        } else {
            Err(expect_err(ts, cur, TokenKind::Comma))
        }
    }
}

/// Call-argument expressions up to the closing parenthesis.
pub open spec fn sp_args(ts: Seq<TokenS>, cur: int, acc: Seq<Node>) -> Result<
    (Seq<Node>, int),
    ErrS,
>
    decreases ts.len() - cur, 95int,
        when wf_toks(ts) && 0 <= cur < ts.len()
{
    if ts[cur].kind == TokenKind::RightParen {
        Ok((acc, cur + 1))
    } else if acc.len() == 0 {
        match sp_expression(ts, cur) {
            Ok((a, c1)) => {
                let c1g = step_pos(c1, cur, ts.len() as int);
                sp_args(ts, c1g, acc.push(a))
            },
            Err(e) => Err(e),
        }
    } else {
        if ts[cur].kind == TokenKind::Comma {
            match sp_expression(ts, cur + 1) {
                Ok((a, c2)) => {
                    let c2g = step_pos(c2, cur, ts.len() as int);
                    sp_args(ts, c2g, acc.push(a))
                },
                Err(e) => Err(e),
            }
        } else {
            Err(expect_err(ts, cur, TokenKind::Comma))
        }
    }
}

/// Zero or more `(...)` call suffixes applied to `acc`.
pub open spec fn sp_call_chain(ts: Seq<TokenS>, cur: int, acc: Node) -> SpParsed
    decreases ts.len() - cur, 1int,
        when wf_toks(ts) && 0 <= cur < ts.len()
{
    if ts[cur].kind == TokenKind::LeftParen {
        let line = ts[cur].line;
        match sp_args(ts, cur + 1, Seq::empty()) {
            Ok((args, c1)) => {
                let c1g = step_pos(c1, cur, ts.len() as int);
                sp_call_chain(ts, c1g, Node::Call { callee: Box::new(acc), args, line })
            },
            Err(e) => Err(e),
        }
    } else {
        Ok((acc, cur))
    }
}

/// call: a primary followed by any number of call suffixes.
pub open spec fn sp_call(ts: Seq<TokenS>, cur: int) -> SpParsed
    decreases ts.len() - cur, 20int,
        when wf_toks(ts) && 0 <= cur < ts.len()
{
    match sp_primary(ts, cur) {
        Ok((n, c1)) => {
            let c1g = step_pos(c1, cur, ts.len() as int);
            sp_call_chain(ts, c1g, n)
        },
        Err(e) => Err(e),
    }
}

/// unary: `!` or `-` applied to a unary, else a call.
pub open spec fn sp_unary(ts: Seq<TokenS>, cur: int) -> SpParsed
    decreases ts.len() - cur, 21int,
        when wf_toks(ts) && 0 <= cur < ts.len()
{
    let k = ts[cur].kind;
    if k == TokenKind::Minus || k == TokenKind::Bang {
        match sp_unary(ts, cur + 1) {
            Ok((n, c1)) => Ok((Node::Unary { op: ts[cur], operand: Box::new(n) }, c1)),
            Err(e) => Err(e),
        }
    } else {
        sp_call(ts, cur)
    }
}

pub open spec fn sp_factor_chain(ts: Seq<TokenS>, cur: int, acc: Node) -> SpParsed
    decreases ts.len() - cur, 1int,
        when wf_toks(ts) && 0 <= cur < ts.len()
{
    let k = ts[cur].kind;
    if k == TokenKind::Slash || k == TokenKind::Star {
        match sp_unary(ts, cur + 1) {
            Ok((rhs, c1)) => {
                let c1g = step_pos(c1, cur, ts.len() as int);
                sp_factor_chain(ts, c1g, Node::Binary {
                    op: ts[cur],
                    lhs: Box::new(acc),
                    rhs: Box::new(rhs),
                })
            },
            Err(e) => Err(e),
        }
    } else {
        Ok((acc, cur))
    }
}

pub open spec fn sp_factor(ts: Seq<TokenS>, cur: int) -> SpParsed
    decreases ts.len() - cur, 22int,
        when wf_toks(ts) && 0 <= cur < ts.len()
{
    match sp_unary(ts, cur) {
        Ok((n, c1)) => sp_factor_chain(ts, step_pos(c1, cur, ts.len() as int), n),
        Err(e) => Err(e),
    }
}

pub open spec fn sp_term_chain(ts: Seq<TokenS>, cur: int, acc: Node) -> SpParsed
    decreases ts.len() - cur, 1int,
        when wf_toks(ts) && 0 <= cur < ts.len()
{
    let k = ts[cur].kind;
    if k == TokenKind::Plus || k == TokenKind::Minus {
        match sp_factor(ts, cur + 1) {
            Ok((rhs, c1)) => {
                let c1g = step_pos(c1, cur, ts.len() as int);
                sp_term_chain(ts, c1g, Node::Binary {
                    op: ts[cur],
                    lhs: Box::new(acc),
                    rhs: Box::new(rhs),
                })
            },
            Err(e) => Err(e),
        }
    } else {
        Ok((acc, cur))
    }
}

pub open spec fn sp_term(ts: Seq<TokenS>, cur: int) -> SpParsed
    decreases ts.len() - cur, 25int,
        when wf_toks(ts) && 0 <= cur < ts.len()
{
    match sp_factor(ts, cur) {
        Ok((n, c1)) => sp_term_chain(ts, step_pos(c1, cur, ts.len() as int), n),
        Err(e) => Err(e),
    }
}

pub open spec fn sp_comparison_chain(ts: Seq<TokenS>, cur: int, acc: Node) -> SpParsed
    decreases ts.len() - cur, 1int,
        when wf_toks(ts) && 0 <= cur < ts.len()
{
    let k = ts[cur].kind;
    if k == TokenKind::GreaterEqual || k == TokenKind::Greater || k == TokenKind::Less || k
        == TokenKind::LessEqual {
        match sp_term(ts, cur + 1) {
            Ok((rhs, c1)) => {
                let c1g = step_pos(c1, cur, ts.len() as int);
                sp_comparison_chain(ts, c1g, Node::Binary {
                    op: ts[cur],
                    lhs: Box::new(acc),
                    rhs: Box::new(rhs),
                })
            },
            Err(e) => Err(e),
        }
    } else {
        Ok((acc, cur))
    }
}

pub open spec fn sp_comparison(ts: Seq<TokenS>, cur: int) -> SpParsed
    decreases ts.len() - cur, 30int,
        when wf_toks(ts) && 0 <= cur < ts.len()
{
    match sp_term(ts, cur) {
        Ok((n, c1)) => sp_comparison_chain(ts, step_pos(c1, cur, ts.len() as int), n),
        Err(e) => Err(e),
    }
}

pub open spec fn sp_equality_chain(ts: Seq<TokenS>, cur: int, acc: Node) -> SpParsed
    decreases ts.len() - cur, 1int,
        when wf_toks(ts) && 0 <= cur < ts.len()
{
    let k = ts[cur].kind;
    if k == TokenKind::EqualEqual || k == TokenKind::BangEqual {
        match sp_comparison(ts, cur + 1) {
            Ok((rhs, c1)) => {
                let c1g = step_pos(c1, cur, ts.len() as int);
                sp_equality_chain(ts, c1g, Node::Binary {
                    op: ts[cur],
                    lhs: Box::new(acc),
                    rhs: Box::new(rhs),
                })
            },
            Err(e) => Err(e),
        }
    } else {
        Ok((acc, cur))
    }
}

pub open spec fn sp_equality(ts: Seq<TokenS>, cur: int) -> SpParsed
    decreases ts.len() - cur, 35int,
        when wf_toks(ts) && 0 <= cur < ts.len()
{
    match sp_comparison(ts, cur) {
        Ok((n, c1)) => sp_equality_chain(ts, step_pos(c1, cur, ts.len() as int), n),
        Err(e) => Err(e),
    }
}

pub open spec fn sp_logic_and_chain(ts: Seq<TokenS>, cur: int, acc: Node) -> SpParsed
    decreases ts.len() - cur, 1int,
        when wf_toks(ts) && 0 <= cur < ts.len()
{
    if ts[cur].kind == TokenKind::And {
        match sp_equality(ts, cur + 1) {
            Ok((rhs, c1)) => {
                let c1g = step_pos(c1, cur, ts.len() as int);
                sp_logic_and_chain(ts, c1g, Node::Binary {
                    op: ts[cur],
                    lhs: Box::new(acc),
                    rhs: Box::new(rhs),
                })
            },
            Err(e) => Err(e),
        }
    } else {
        Ok((acc, cur))
    }
}

pub open spec fn sp_logic_and(ts: Seq<TokenS>, cur: int) -> SpParsed
    decreases ts.len() - cur, 40int,
        when wf_toks(ts) && 0 <= cur < ts.len()
{
    match sp_equality(ts, cur) {
        Ok((n, c1)) => sp_logic_and_chain(ts, step_pos(c1, cur, ts.len() as int), n),
        Err(e) => Err(e),
    }
}

pub open spec fn sp_logic_or_chain(ts: Seq<TokenS>, cur: int, acc: Node) -> SpParsed
    decreases ts.len() - cur, 1int,
        when wf_toks(ts) && 0 <= cur < ts.len()
{
    if ts[cur].kind == TokenKind::Or {
        match sp_logic_and(ts, cur + 1) {
            Ok((rhs, c1)) => {
                let c1g = step_pos(c1, cur, ts.len() as int);
                sp_logic_or_chain(ts, c1g, Node::Binary {
                    op: ts[cur],
                    lhs: Box::new(acc),
                    rhs: Box::new(rhs),
                })
            },
            Err(e) => Err(e),
        }
    } else {
        Ok((acc, cur))
    }
}

pub open spec fn sp_logic_or(ts: Seq<TokenS>, cur: int) -> SpParsed
    decreases ts.len() - cur, 45int,
        when wf_toks(ts) && 0 <= cur < ts.len()
{
    match sp_logic_and(ts, cur) {
        Ok((n, c1)) => sp_logic_or_chain(ts, step_pos(c1, cur, ts.len() as int), n),
        Err(e) => Err(e),
    }
}

/// The `= logic-or` repetitions after the first operand of an assignment:
/// each pair holds the line of its `=` and the operand that follows it.
pub open spec fn sp_assign_tail(ts: Seq<TokenS>, cur: int, acc: Seq<(nat, Node)>) -> Result<
    (Seq<(nat, Node)>, int),
    ErrS,
>
    decreases ts.len() - cur, 1int,
        when wf_toks(ts) && 0 <= cur < ts.len()
{
    if ts[cur].kind == TokenKind::Equal {
        let line = ts[cur].line;
        match sp_logic_or(ts, cur + 1) {
            Ok((n, c1)) => {
                let c1g = step_pos(c1, cur, ts.len() as int);
                sp_assign_tail(ts, c1g, acc.push((line, n)))
            },
            Err(e) => Err(e),
        }
    } else {
        Ok((acc, cur))
    }
}

/// assignment: a logic-or chain joined by `=`, right-associative, each
/// left-hand side required to be a bare identifier.
pub open spec fn sp_assignment(ts: Seq<TokenS>, cur: int) -> SpParsed
    decreases ts.len() - cur, 50int,
        when wf_toks(ts) && 0 <= cur < ts.len()
{
    match sp_logic_or(ts, cur) {
        Ok((first, c1)) => {
            let c1g = step_pos(c1, cur, ts.len() as int);
            let first_line = ts[c1g].line;
            match sp_assign_tail(ts, c1g, Seq::empty()) {
                Ok((pairs, c2)) => match sp_assign_fold(first, first_line, pairs) {
                    Ok(n) => Ok((n, c2)),
                    Err(e) => Err(e),
                },
                Err(e) => Err(e),
            }
        },
        Err(e) => Err(e),
    }
}

/// Right-fold of the assignment chain `first (=_l1 n1) (=_l2 n2) ...`: the
/// rightmost operand is the assigned value; walking leftward, each operand
/// must be a bare identifier and becomes an assignment target.  The line
/// reported for an invalid target left of `=` number `j` is the line paired
/// with it: for the very first operand that is the line of the first `=`.
pub open spec fn sp_assign_fold(first: Node, first_line: nat, pairs: Seq<(nat, Node)>) -> Result<
    Node,
    ErrS,
>
    decreases pairs.len(),
{
    if pairs.len() == 0 {
        Ok(first)
    } else {
        match sp_assign_fold_inner(pairs) {
            Ok(rhs) => match first {
                Node::Literal { tok } => {
                    if tok.kind == TokenKind::Identifier {
                        Ok(Node::Assign { target: tok, rhs: Box::new(rhs) })
                    } else {
                        Err(ErrS { line: first_line, msg: "invalid l-value"@ })
                    }
                },
                _ => Err(ErrS { line: first_line, msg: "invalid l-value"@ }),
            },
            Err(e) => Err(e),
        }
    }
}

/// The value side of the fold: all pairs but the last must also be bare
/// identifiers, nested right-associatively around the final operand.
pub open spec fn sp_assign_fold_inner(pairs: Seq<(nat, Node)>) -> Result<Node, ErrS>
    decreases pairs.len(),
{
    if pairs.len() == 1 {
        Ok(pairs[0].1)
    } else if pairs.len() > 1 {
        match sp_assign_fold_inner(pairs.drop_first()) {
            Ok(rhs) => {
                let head = pairs[0];
                match head.1 {
                    Node::Literal { tok } => {
                        if tok.kind == TokenKind::Identifier {
                            Ok(Node::Assign { target: tok, rhs: Box::new(rhs) })
                        } else {
                            Err(ErrS { line: head.0, msg: "invalid l-value"@ })
                        }
                    },
                    _ => Err(ErrS { line: head.0, msg: "invalid l-value"@ }),
                }
            },
            Err(e) => Err(e),
        }
    } else {
        Err(ErrS { line: 0, msg: "invalid l-value"@ })
    }
}

pub open spec fn sp_expression(ts: Seq<TokenS>, cur: int) -> SpParsed
    decreases ts.len() - cur, 60int,
        when wf_toks(ts) && 0 <= cur < ts.len()
{
    sp_assignment(ts, cur)
}

/// block: `{ declaration* }`.
pub open spec fn sp_block(ts: Seq<TokenS>, cur: int) -> SpParsed
    decreases ts.len() - cur, 70int,
        when wf_toks(ts) && 0 <= cur < ts.len()
{
    match sp_consume(ts, cur, TokenKind::LeftBrace) {
        Ok((_lb, c1)) => sp_block_items(ts, c1, Seq::empty()),
        Err(e) => Err(e),
    }
}

pub open spec fn sp_block_items(ts: Seq<TokenS>, cur: int, acc: Seq<Node>) -> SpParsed
    decreases ts.len() - cur, 95int,
        when wf_toks(ts) && 0 <= cur < ts.len()
{
    if ts[cur].kind == TokenKind::RightBrace {
        Ok((Node::Block { decs: acc }, cur + 1))
    } else {
        match sp_declaration(ts, cur) {
            Ok((d, c1)) => {
                let c1g = step_pos(c1, cur, ts.len() as int);
                sp_block_items(ts, c1g, acc.push(d))
            },
            Err(e) => Err(e),
        }
    }
}

/// var declaration: `var name ( = expression )? ;`.
pub open spec fn sp_var_decl(ts: Seq<TokenS>, cur: int) -> SpParsed
    decreases ts.len() - cur, 68int,
        when wf_toks(ts) && 0 <= cur < ts.len() && ts[cur].kind == TokenKind::Var
{
    match sp_consume(ts, cur + 1, TokenKind::Identifier) {
        Ok((id, c2)) => {
            if ts[c2].kind == TokenKind::Equal {
                match sp_expression(ts, c2 + 1) {
                    Ok((e, c3)) => {
                        let c3g = step_pos(c3, cur, ts.len() as int);
                        match sp_consume(ts, c3g, TokenKind::Semicolon) {
                            Ok((_s, c4)) => Ok(
                                (Node::VarDecl { name: id, init: Some(Box::new(e)) }, c4),
                            ),
                            Err(er) => Err(er),
                        }
                    },
                    Err(er) => Err(er),
                }
            } else {
                match sp_consume(ts, c2, TokenKind::Semicolon) {
                    Ok((_s, c3)) => Ok((Node::VarDecl { name: id, init: None }, c3)),
                    Err(er) => Err(er),
                }
            }
        },
        Err(e) => Err(e),
    }
}

/// function declaration: `fun name ( params ) block`.
pub open spec fn sp_fun_decl(ts: Seq<TokenS>, cur: int) -> SpParsed
    decreases ts.len() - cur, 70int,
        when wf_toks(ts) && 0 <= cur < ts.len() && ts[cur].kind == TokenKind::Fun
{
    match sp_consume(ts, cur + 1, TokenKind::Identifier) {
        Ok((name, c2)) => match sp_fun_tail(ts, c2) {
            Ok(((params, body), c3)) => Ok(
                (Node::FunDecl { name, params, body: Box::new(body) }, c3),
            ),
            Err(e) => Err(e),
        },
        Err(e) => Err(e),
    }
}

/// if statement: `if ( expression ) statement ( else statement )?`.
pub open spec fn sp_if_stmt(ts: Seq<TokenS>, cur: int) -> SpParsed
    decreases ts.len() - cur, 70int,
        when wf_toks(ts) && 0 <= cur < ts.len() && ts[cur].kind == TokenKind::If
{
    match sp_consume(ts, cur + 1, TokenKind::LeftParen) {
        Ok((_lp, c2)) => match sp_expression(ts, c2) {
            Ok((cond, c3)) => {
                let c3g = step_pos(c3, cur, ts.len() as int);
                match sp_consume(ts, c3g, TokenKind::RightParen) {
                    Ok((_rp, c4)) => match sp_stmt(ts, c4) {
                        Ok((body, c5)) => {
                            let c5g = step_pos(c5, cur, ts.len() as int);
                            if ts[c5g].kind == TokenKind::Else {
                                match sp_stmt(ts, c5g + 1) {
                                    Ok((els, c6)) => Ok(
                                        (
                                            Node::If {
                                                cond: Box::new(cond),
                                                stmt: Box::new(body),
                                                els: Some(Box::new(els)),
                                            },
                                            c6,
                                        ),
                                    ),
                                    Err(e) => Err(e),
                                }
                            } else {
                                Ok(
                                    (
                                        Node::If {
                                            cond: Box::new(cond),
                                            stmt: Box::new(body),
                                            els: None,
                                        },
                                        c5g,
                                    ),
                                )
                            }
                        },
                        Err(e) => Err(e),
                    },
                    Err(e) => Err(e),
                }
            },
            Err(e) => Err(e),
        },
        Err(e) => Err(e),
    }
}

/// while statement: `while ( expression ) statement`.
pub open spec fn sp_while_stmt(ts: Seq<TokenS>, cur: int) -> SpParsed
    decreases ts.len() - cur, 70int,
        when wf_toks(ts) && 0 <= cur < ts.len() && ts[cur].kind == TokenKind::While
{
    match sp_consume(ts, cur + 1, TokenKind::LeftParen) {
        Ok((_lp, c2)) => match sp_expression(ts, c2) {
            Ok((cond, c3)) => {
                let c3g = step_pos(c3, cur, ts.len() as int);
                match sp_consume(ts, c3g, TokenKind::RightParen) {
                    Ok((_rp, c4)) => match sp_stmt(ts, c4) {
                        Ok((body, c5)) => Ok(
                            (Node::While { cond: Box::new(cond), body: Box::new(body) }, c5),
                        ),
                        Err(e) => Err(e),
                    },
                    Err(e) => Err(e),
                }
            },
            Err(e) => Err(e),
        },
        Err(e) => Err(e),
    }
}

/// The token a desugared `for` uses when the loop gives no condition.
pub open spec fn true_token() -> TokenS {
    TokenS { kind: TokenKind::True, text: "true"@, line: 0 }
}

/// `for` is rewritten at parse time into `{ init; while (cond) { body;
/// increment; } }`: the increment runs at the end of each iteration body,
/// inside the loop's per-iteration scope, a missing condition defaults to the
/// literal `true`, and a missing init or increment is simply omitted.
pub open spec fn sp_desugar_for(
    init: Option<Node>,
    cond: Option<Node>,
    inc: Option<Node>,
    body: Node,
) -> Node {
    let condn = match cond {
        Some(c) => c,
        None => Node::Literal { tok: true_token() },
    };
    let body1 = match inc {
        Some(i) => Node::Block { decs: seq![body, i] },
        None => body,
    };
    let wh = Node::While { cond: Box::new(condn), body: Box::new(body1) };
    match init {
        Some(i) => Node::Block { decs: seq![i, wh] },
        None => wh,
    }
}

/// for statement, desugared: `for ( init? ; cond? ; inc? ) statement`.
pub open spec fn sp_for_stmt(ts: Seq<TokenS>, cur: int) -> SpParsed
    decreases ts.len() - cur, 70int,
        when wf_toks(ts) && 0 <= cur < ts.len() && ts[cur].kind == TokenKind::For
{
    match sp_consume(ts, cur + 1, TokenKind::LeftParen) {
        Ok((_lp, c2)) => match sp_for_init(ts, c2) {
            Ok((init, c3)) => {
                let c3g = step_pos(c3, cur, ts.len() as int);
                match sp_for_cond(ts, c3g) {
                    Ok((cond, c4)) => {
                        let c4g = step_pos(c4, cur, ts.len() as int);
                        match sp_for_inc(ts, c4g) {
                            Ok((inc, c5)) => {
                                let c5g = step_pos(c5, cur, ts.len() as int);
                                match sp_consume(ts, c5g, TokenKind::RightParen) {
                                    Ok((_rp, c6)) => match sp_stmt(ts, c6) {
                                        Ok((body, c7)) => Ok(
                                            (sp_desugar_for(init, cond, inc, body), c7),
                                        ),
                                        Err(e) => Err(e),
                                    },
                                    Err(e) => Err(e),
                                }
                            },
                            Err(e) => Err(e),
                        }
                    },
                    Err(e) => Err(e),
                }
            },
            Err(e) => Err(e),
        },
        Err(e) => Err(e),
    }
}

/// The initializer clause of a `for`, including its semicolon.
pub open spec fn sp_for_init(ts: Seq<TokenS>, cur: int) -> Result<(Option<Node>, int), ErrS>
    decreases ts.len() - cur, 69int,
        when wf_toks(ts) && 0 <= cur < ts.len()
{
    if ts[cur].kind == TokenKind::Semicolon {
        Ok((None, cur + 1))
    } else if ts[cur].kind == TokenKind::Var {
        match sp_var_decl(ts, cur) {
            Ok((n, c1)) => Ok((Some(n), c1)),
            Err(e) => Err(e),
        }
    } else {
        match sp_expression(ts, cur) {
            Ok((n, c1)) => {
                let c1g = step_pos(c1, cur, ts.len() as int);
                match sp_consume(ts, c1g, TokenKind::Semicolon) {
                    Ok((_s, c2)) => Ok((Some(n), c2)),
                    Err(e) => Err(e),
                }
            },
            Err(e) => Err(e),
        }
    }
}

/// The condition clause of a `for`, including its semicolon.
pub open spec fn sp_for_cond(ts: Seq<TokenS>, cur: int) -> Result<(Option<Node>, int), ErrS>
    decreases ts.len() - cur, 69int,
        when wf_toks(ts) && 0 <= cur < ts.len()
{
    if ts[cur].kind == TokenKind::Semicolon {
        Ok((None, cur + 1))
    } else {
        match sp_expression(ts, cur) {
            Ok((n, c1)) => {
                let c1g = step_pos(c1, cur, ts.len() as int);
                match sp_consume(ts, c1g, TokenKind::Semicolon) {
                    Ok((_s, c2)) => Ok((Some(n), c2)),
                    Err(e) => Err(e),
                }
            },
            Err(e) => Err(e),
        }
    }
}

/// The increment clause of a `for`, up to the closing parenthesis.
pub open spec fn sp_for_inc(ts: Seq<TokenS>, cur: int) -> Result<(Option<Node>, int), ErrS>
    decreases ts.len() - cur, 69int,
        when wf_toks(ts) && 0 <= cur < ts.len()
{
    if ts[cur].kind == TokenKind::RightParen {
        Ok((None, cur))
    } else {
        match sp_expression(ts, cur) {
            Ok((n, c1)) => Ok((Some(n), c1)),
            Err(e) => Err(e),
        }
    }
}

/// statement: if, while, break, for, return, print, block, or an expression
/// statement; every form that is not a block ends in `;`.
pub open spec fn sp_stmt(ts: Seq<TokenS>, cur: int) -> SpParsed
    decreases ts.len() - cur, 80int,
        when wf_toks(ts) && 0 <= cur < ts.len()
{
    let k = ts[cur].kind;
    if k == TokenKind::If {
        sp_if_stmt(ts, cur)
    } else if k == TokenKind::While {
        sp_while_stmt(ts, cur)
    } else if k == TokenKind::Break {
        match sp_consume(ts, cur + 1, TokenKind::Semicolon) {
            Ok((_s, c2)) => Ok((Node::Break { tok: ts[cur] }, c2)),
            Err(e) => Err(e),
        }
    } else if k == TokenKind::For {
        sp_for_stmt(ts, cur)
    } else if k == TokenKind::Return {
        if ts[cur + 1].kind == TokenKind::Semicolon {
            Ok((Node::Return { tok: ts[cur], value: None }, cur + 2))
        } else {
            match sp_expression(ts, cur + 1) {
                Ok((e, c2)) => {
                    let c2g = step_pos(c2, cur, ts.len() as int);
                    match sp_consume(ts, c2g, TokenKind::Semicolon) {
                        Ok((_s, c3)) => Ok(
                            (Node::Return { tok: ts[cur], value: Some(Box::new(e)) }, c3),
                        ),
                        Err(er) => Err(er),
                    }
                },
                Err(er) => Err(er),
            }
        }
    } else if k == TokenKind::Print {
        match sp_expression(ts, cur + 1) {
            Ok((e, c2)) => {
                let c2g = step_pos(c2, cur, ts.len() as int);
                match sp_consume(ts, c2g, TokenKind::Semicolon) {
                    Ok((_s, c3)) => Ok((Node::PrintStmt { inner: Box::new(e) }, c3)),
                    Err(er) => Err(er),
                }
            },
            Err(er) => Err(er),
        }
    } else if k == TokenKind::LeftBrace {
        sp_block(ts, cur)
    } else {
        match sp_expression(ts, cur) {
            Ok((e, c1)) => {
                let c1g = step_pos(c1, cur, ts.len() as int);
                match sp_consume(ts, c1g, TokenKind::Semicolon) {
                    Ok((_s, c2)) => Ok((Node::ExprStmt { inner: Box::new(e) }, c2)),
                    Err(er) => Err(er),
                }
            },
            Err(er) => Err(er),
        }
    }
}

/// declaration: a var declaration, a function declaration, or a statement.
pub open spec fn sp_declaration(ts: Seq<TokenS>, cur: int) -> SpParsed
    decreases ts.len() - cur, 90int,
        when wf_toks(ts) && 0 <= cur < ts.len()
{
    if ts[cur].kind == TokenKind::Var {
        sp_var_decl(ts, cur)
    } else if ts[cur].kind == TokenKind::Fun {
        sp_fun_decl(ts, cur)
    } else {
        sp_stmt(ts, cur)
    }
}

/// program: declarations until end of input.
pub open spec fn sp_program_items(ts: Seq<TokenS>, cur: int, acc: Seq<Node>) -> SpParsed
    decreases ts.len() - cur, 95int,
        when wf_toks(ts) && 0 <= cur < ts.len()
{
    if ts[cur].kind == TokenKind::EOF {
        Ok((Node::Program { decs: acc }, cur))
    } else {
        match sp_declaration(ts, cur) {
            Ok((d, c1)) => {
                let c1g = step_pos(c1, cur, ts.len() as int);
                sp_program_items(ts, c1g, acc.push(d))
            },
            Err(e) => Err(e),
        }
    }
}

/// What parsing a whole source produces: the program node, or the error.
pub open spec fn sp_parse_program(ts: Seq<TokenS>) -> Result<Node, ErrS> {
    match sp_program_items(ts, 0, Seq::empty()) {
        Ok((n, _c)) => Ok(n),
        Err(e) => Err(e),
    }
}

/// What parsing a single expression produces: the expression node, which must
/// be followed directly by the end of input, or the error.
pub open spec fn sp_parse_expression(ts: Seq<TokenS>) -> Result<Node, ErrS> {
    match sp_expression(ts, 0) {
        Ok((n, c)) => {
            if 0 <= c < ts.len() && ts[c].kind == TokenKind::EOF {
                Ok(n)
            } else {
                Err(ErrS { line: 0, msg: "unexpected end of expression"@ })
            }
        },
        Err(e) => Err(e),
    }
}

/// The views of an assignment-chain pair list.
pub open spec fn pairs_view(s: Seq<(usize, AstNodeRef)>) -> Seq<(nat, Node)> {
    s.map_values(|p: (usize, AstNodeRef)| (p.0 as nat, p.1@))
}

pub proof fn pairs_view_push(s: Seq<(usize, AstNodeRef)>, p: (usize, AstNodeRef))
    ensures
        pairs_view(s.push(p)) == pairs_view(s).push((p.0 as nat, p.1@)),
{
    assert(pairs_view(s.push(p)) =~= pairs_view(s).push((p.0 as nat, p.1@)));
}

pub proof fn pairs_view_empty()
    ensures
        pairs_view(Seq::<(usize, AstNodeRef)>::empty()) == Seq::<(nat, Node)>::empty(),
{
    assert(pairs_view(Seq::<(usize, AstNodeRef)>::empty()) =~= Seq::<(nat, Node)>::empty());
}

pub open spec fn opt_ref_view(o: Option<AstNodeRef>) -> Option<Node> {
    match o {
        Some(n) => Some(n@),
        None => None,
    }
}

/// Builds the `while` form a `for` statement stands for; see
/// `sp_desugar_for` for the exact shape.
pub fn desugar_for(
    initialize: Option<AstNodeRef>,
    condition: Option<AstNodeRef>,
    increment: Option<AstNodeRef>,
    stmt: AstNodeRef,
) -> (r: AstNodeRef)
    ensures
        r@ == sp_desugar_for(
            opt_ref_view(initialize),
            opt_ref_view(condition),
            opt_ref_view(increment),
            stmt@,
        ),
{
    let condition = match condition {
        Some(c) => c,
        None => LiteralExpr::create(Token::new(TokenKind::True, String::from_str("true"), 0)),
    };
    let body = match increment {
        Some(inc) => {
            let ghost sv = stmt@;
            let ghost iv = inc@;
            let mut v: Vec<AstNodeRef> = Vec::new();
            let ghost e0 = v@;
            v.push(stmt);
            let ghost e1 = v@;
            v.push(inc);
            proof {
                nodes_view_empty();
                nodes_view_push(e0, e1.last());
                nodes_view_push(e1, v@.last());
                assert(nodes_view(v@) =~= seq![sv, iv]);
            }
            Block::create(v)
        },
        None => stmt,
    };
    let whloop = WhileStmt::create(condition, body);
    match initialize {
        Some(init) => {
            let ghost nv = init@;
            let ghost wv = whloop@;
            let mut v: Vec<AstNodeRef> = Vec::new();
            let ghost e0 = v@;
            v.push(init);
            let ghost e1 = v@;
            v.push(whloop);
            proof {
                nodes_view_empty();
                nodes_view_push(e0, e1.last());
                nodes_view_push(e1, v@.last());
                assert(nodes_view(v@) =~= seq![nv, wv]);
            }
            Block::create(v)
        },
        None => whloop,
    }
}

/// The recursive-descent parser state: the token list and the position of
/// the next token to examine.
pub struct Parser {
    pub current: usize,
    pub tokens: Vec<Token>,
}

impl Parser {
    pub open spec fn tv(&self) -> Seq<TokenS> {
        toks_view(self.tokens@)
    }

    pub open spec fn pos(&self) -> int {
        self.current as int
    }

    pub open spec fn wf(&self) -> bool {
        wf_toks(self.tv()) && self.current < self.tokens@.len()
    }

    fn check(&self, kind: TokenKind) -> (r: bool)
        requires
            self.wf(),
        ensures
            r == (self.tv()[self.pos()].kind == kind),
    {
        self.tokens[self.current].kind == kind
    }

    fn peek_line(&self) -> (r: usize)
        requires
            self.wf(),
        ensures
            r as nat == self.tv()[self.pos()].line,
    {
        self.tokens[self.current].line
    }

    fn advance(&mut self) -> (t: Token)
        requires
            old(self).wf(),
        ensures
            final(self).wf(),
            final(self).tokens@ == old(self).tokens@,
            t@ == old(self).tv()[old(self).pos()],
            final(self).pos() == sp_adv(old(self).tv(), old(self).pos()),
    {
        let t = self.tokens[self.current].duplicate();
        let len = self.tokens.len();
        if !(self.tokens[self.current].kind == TokenKind::EOF) {
            self.current = self.current + 1;
        }
        t
    }

    fn consume(&mut self, kind: TokenKind) -> (r: Result<Token, LoxError>)
        requires
            old(self).wf(),
        ensures
            final(self).wf(),
            final(self).tokens@ == old(self).tokens@,
            match r {
                Ok(t) => sp_consume(old(self).tv(), old(self).pos(), kind) == Ok::<
                    (TokenS, int),
                    ErrS,
                >((t@, final(self).pos())),
                Err(e) => sp_consume(old(self).tv(), old(self).pos(), kind) == Err::<
                    (TokenS, int),
                    ErrS,
                >(e@) && final(self).pos() == old(self).pos(),
            },
    {
        if self.check(kind) {
            Ok(self.advance())
        } else {
            let line = self.peek_line();
            let mut m = String::from_str("expected ");
            m.append(Token::describe_kind(kind).as_str());
            Err(LoxError::new(line, m))
        }
    }

    fn parse_primary(&mut self) -> (r: Result<AstNodeRef, LoxError>)
        requires
            old(self).wf(),
        ensures
            final(self).wf(),
            final(self).tokens@ == old(self).tokens@,
            match r {
                Ok(n) => sp_primary(old(self).tv(), old(self).pos()) == Ok::<(Node, int), ErrS>(
                    (n@, final(self).pos()),
                ) && old(self).pos() < final(self).pos(),
                Err(e) => sp_primary(old(self).tv(), old(self).pos()) == Err::<(Node, int), ErrS>(
                    e@,
                ),
            },
        decreases self.tokens@.len() - self.current, 10int,
    {
        let k = self.tokens[self.current].kind;
        if k == TokenKind::True || k == TokenKind::False || k == TokenKind::Number || k
            == TokenKind::String || k == TokenKind::Identifier || k == TokenKind::Nil {
            let t = self.advance();
            Ok(LiteralExpr::create(t))
        } else if k == TokenKind::LeftParen {
            let _lp = self.advance();
            let inner = match self.parse_expression() {
                Ok(n) => n,
                Err(e) => {
                    return Err(e);
                },
            };
            match self.consume(TokenKind::RightParen) {
                Ok(_t) => Ok(GroupExpr::create(inner)),
                Err(e) => Err(e),
            }
        } else if k == TokenKind::Fun {
            let _f = self.advance();
            match self.parse_fun_tail() {
                Ok((params, body)) => Ok(FunDef::create(params, body)),
                Err(e) => Err(e),
            }
        } else {
            let line = self.peek_line();
            Err(LoxError::new(line, String::from_str("expression expected")))
        }
    }

    fn parse_fun_tail(&mut self) -> (r: Result<(Vec<Token>, AstNodeRef), LoxError>)
        requires
            old(self).wf(),
        ensures
            final(self).wf(),
            final(self).tokens@ == old(self).tokens@,
            match r {
                Ok((params, body)) => sp_fun_tail(old(self).tv(), old(self).pos()) == Ok::<
                    ((Seq<TokenS>, Node), int),
                    ErrS,
                >(((toks_view(params@), body@), final(self).pos())) && old(self).pos()
                    < final(self).pos(),
                Err(e) => sp_fun_tail(old(self).tv(), old(self).pos()) == Err::<
                    ((Seq<TokenS>, Node), int),
                    ErrS,
                >(e@),
            },
        decreases self.tokens@.len() - self.current, 96int,
    {
        match self.consume(TokenKind::LeftParen) {
            Ok(_lp) => {},
            Err(e) => {
                return Err(e);
            },
        }
        proof {
            toks_view_empty();
        }
        let params = match self.parse_params(Vec::new()) {
            Ok(ps) => ps,
            Err(e) => {
                return Err(e);
            },
        };
        match self.parse_block() {
            Ok(body) => Ok((params, body)),
            Err(e) => Err(e),
        }
    }

    fn parse_params(&mut self, acc: Vec<Token>) -> (r: Result<Vec<Token>, LoxError>)
        requires
            old(self).wf(),
        ensures
            final(self).wf(),
            final(self).tokens@ == old(self).tokens@,
            match r {
                Ok(ps) => sp_params(old(self).tv(), old(self).pos(), toks_view(acc@)) == Ok::<
                    (Seq<TokenS>, int),
                    ErrS,
                >((toks_view(ps@), final(self).pos())) && old(self).pos() < final(self).pos(),
                Err(e) => sp_params(old(self).tv(), old(self).pos(), toks_view(acc@)) == Err::<
                    (Seq<TokenS>, int),
                    ErrS,
                >(e@),
            },
        decreases self.tokens@.len() - self.current, 1int,
    {
        let mut acc = acc;
        if self.check(TokenKind::RightParen) {
            let _rp = self.advance();
            Ok(acc)
        } else if acc.len() == 0 {
            if self.check(TokenKind::Identifier) {
                let ghost acc0 = acc@;
                let p = self.advance();
                acc.push(p);
                proof {
                    toks_view_push(acc0, p);
                }
                self.parse_params(acc)
            } else {
                let line = self.peek_line();
                let mut m = String::from_str("expected ");
                m.append(Token::describe_kind(TokenKind::Identifier).as_str());
                Err(LoxError::new(line, m))
            }
        } else {
            if self.check(TokenKind::Comma) {
                let _c = self.advance();
                if self.check(TokenKind::Identifier) {
                    let ghost acc0 = acc@;
                    let p = self.advance();
                    acc.push(p);
                    proof {
                        toks_view_push(acc0, p);
                    }
                    self.parse_params(acc)
                } else {
                    let line = self.peek_line();
                    let mut m = String::from_str("expected ");
                    m.append(Token::describe_kind(TokenKind::Identifier).as_str());
                    Err(LoxError::new(line, m))
                }
            } else {
                let line = self.peek_line();
                let mut m = String::from_str("expected ");
                m.append(Token::describe_kind(TokenKind::Comma).as_str());
                Err(LoxError::new(line, m))
            }
        }
    }

    fn parse_args(&mut self, acc: Vec<AstNodeRef>) -> (r: Result<Vec<AstNodeRef>, LoxError>)
        requires
            old(self).wf(),
        ensures
            final(self).wf(),
            final(self).tokens@ == old(self).tokens@,
            match r {
                Ok(args) => sp_args(old(self).tv(), old(self).pos(), nodes_view(acc@)) == Ok::<
                    (Seq<Node>, int),
                    ErrS,
                >((nodes_view(args@), final(self).pos())) && old(self).pos() < final(self).pos(),
                Err(e) => sp_args(old(self).tv(), old(self).pos(), nodes_view(acc@)) == Err::<
                    (Seq<Node>, int),
                    ErrS,
                >(e@),
            },
        decreases self.tokens@.len() - self.current, 95int,
    {
        let mut acc = acc;
        if self.check(TokenKind::RightParen) {
            let _rp = self.advance();
            Ok(acc)
        } else if acc.len() == 0 {
            let a = match self.parse_expression() {
                Ok(a) => a,
                Err(e) => {
                    return Err(e);
                },
            };
            let ghost acc0 = acc@;
            acc.push(a);
            proof {
                nodes_view_push(acc0, acc@.last());
            }
            self.parse_args(acc)
        } else {
            if self.check(TokenKind::Comma) {
                let _c = self.advance();
                let a = match self.parse_expression() {
                    Ok(a) => a,
                    Err(e) => {
                        return Err(e);
                    },
                };
                let ghost acc0 = acc@;
                acc.push(a);
                proof {
                    nodes_view_push(acc0, acc@.last());
                }
                self.parse_args(acc)
            } else {
                let line = self.peek_line();
                let mut m = String::from_str("expected ");
                m.append(Token::describe_kind(TokenKind::Comma).as_str());
                Err(LoxError::new(line, m))
            }
        }
    }

    fn parse_call_chain(&mut self, acc: AstNodeRef) -> (r: Result<AstNodeRef, LoxError>)
        requires
            old(self).wf(),
        ensures
            final(self).wf(),
            final(self).tokens@ == old(self).tokens@,
            match r {
                Ok(n) => sp_call_chain(old(self).tv(), old(self).pos(), acc@) == Ok::<
                    (Node, int),
                    ErrS,
                >((n@, final(self).pos())) && old(self).pos() <= final(self).pos(),
                Err(e) => sp_call_chain(old(self).tv(), old(self).pos(), acc@) == Err::<
                    (Node, int),
                    ErrS,
                >(e@),
            },
        decreases self.tokens@.len() - self.current, 1int,
    {
        if self.check(TokenKind::LeftParen) {
            let line = self.peek_line();
            let _lp = self.advance();
            proof {
                nodes_view_empty();
            }
            let args = match self.parse_args(Vec::new()) {
                Ok(a) => a,
                Err(e) => {
                    return Err(e);
                },
            };
            self.parse_call_chain(FunCall::create(acc, args, line))
        } else {
            Ok(acc)
        }
    }

    fn parse_call(&mut self) -> (r: Result<AstNodeRef, LoxError>)
        requires
            old(self).wf(),
        ensures
            final(self).wf(),
            final(self).tokens@ == old(self).tokens@,
            match r {
                Ok(n) => sp_call(old(self).tv(), old(self).pos()) == Ok::<(Node, int), ErrS>(
                    (n@, final(self).pos()),
                ) && old(self).pos() < final(self).pos(),
                Err(e) => sp_call(old(self).tv(), old(self).pos()) == Err::<(Node, int), ErrS>(e@),
            },
        decreases self.tokens@.len() - self.current, 20int,
    {
        let n = match self.parse_primary() {
            Ok(n) => n,
            Err(e) => {
                return Err(e);
            },
        };
        self.parse_call_chain(n)
    }

    fn parse_unary(&mut self) -> (r: Result<AstNodeRef, LoxError>)
        requires
            old(self).wf(),
        ensures
            final(self).wf(),
            final(self).tokens@ == old(self).tokens@,
            match r {
                Ok(n) => sp_unary(old(self).tv(), old(self).pos()) == Ok::<(Node, int), ErrS>(
                    (n@, final(self).pos()),
                ) && old(self).pos() < final(self).pos(),
                Err(e) => sp_unary(old(self).tv(), old(self).pos()) == Err::<(Node, int), ErrS>(
                    e@,
                ),
            },
        decreases self.tokens@.len() - self.current, 21int,
    {
        let k = self.tokens[self.current].kind;
        if k == TokenKind::Minus || k == TokenKind::Bang {
            let op = self.advance();
            match self.parse_unary() {
                Ok(n) => Ok(UnaryExpr::create(op, n)),
                Err(e) => Err(e),
            }
        } else {
            self.parse_call()
        }
    }

    fn parse_factor_chain(&mut self, acc: AstNodeRef) -> (r: Result<AstNodeRef, LoxError>)
        requires
            old(self).wf(),
        ensures
            final(self).wf(),
            final(self).tokens@ == old(self).tokens@,
            match r {
                Ok(n) => sp_factor_chain(old(self).tv(), old(self).pos(), acc@) == Ok::<
                    (Node, int),
                    ErrS,
                >((n@, final(self).pos())) && old(self).pos() <= final(self).pos(),
                Err(e) => sp_factor_chain(old(self).tv(), old(self).pos(), acc@) == Err::<
                    (Node, int),
                    ErrS,
                >(e@),
            },
        decreases self.tokens@.len() - self.current, 1int,
    {
        let k = self.tokens[self.current].kind;
        if k == TokenKind::Slash || k == TokenKind::Star {
            let op = self.advance();
            let rhs = match self.parse_unary() {
                Ok(n) => n,
                Err(e) => {
                    return Err(e);
                },
            };
            self.parse_factor_chain(BinaryExpr::create(op, acc, rhs))
        } else {
            Ok(acc)
        }
    }

    fn parse_factor(&mut self) -> (r: Result<AstNodeRef, LoxError>)
        requires
            old(self).wf(),
        ensures
            final(self).wf(),
            final(self).tokens@ == old(self).tokens@,
            match r {
                Ok(n) => sp_factor(old(self).tv(), old(self).pos()) == Ok::<(Node, int), ErrS>(
                    (n@, final(self).pos()),
                ) && old(self).pos() < final(self).pos(),
                Err(e) => sp_factor(old(self).tv(), old(self).pos()) == Err::<(Node, int), ErrS>(
                    e@,
                ),
            },
        decreases self.tokens@.len() - self.current, 22int,
    {
        let n = match self.parse_unary() {
            Ok(n) => n,
            Err(e) => {
                return Err(e);
            },
        };
        self.parse_factor_chain(n)
    }

    fn parse_term_chain(&mut self, acc: AstNodeRef) -> (r: Result<AstNodeRef, LoxError>)
        requires
            old(self).wf(),
        ensures
            final(self).wf(),
            final(self).tokens@ == old(self).tokens@,
            match r {
                Ok(n) => sp_term_chain(old(self).tv(), old(self).pos(), acc@) == Ok::<
                    (Node, int),
                    ErrS,
                >((n@, final(self).pos())) && old(self).pos() <= final(self).pos(),
                Err(e) => sp_term_chain(old(self).tv(), old(self).pos(), acc@) == Err::<
                    (Node, int),
                    ErrS,
                >(e@),
            },
        decreases self.tokens@.len() - self.current, 1int,
    {
        let k = self.tokens[self.current].kind;
        if k == TokenKind::Plus || k == TokenKind::Minus {
            let op = self.advance();
            let rhs = match self.parse_factor() {
                Ok(n) => n,
                Err(e) => {
                    return Err(e);
                },
            };
            self.parse_term_chain(BinaryExpr::create(op, acc, rhs))
        } else {
            Ok(acc)
        }
    }

    fn parse_term(&mut self) -> (r: Result<AstNodeRef, LoxError>)
        requires
            old(self).wf(),
        ensures
            final(self).wf(),
            final(self).tokens@ == old(self).tokens@,
            match r {
                Ok(n) => sp_term(old(self).tv(), old(self).pos()) == Ok::<(Node, int), ErrS>(
                    (n@, final(self).pos()),
                ) && old(self).pos() < final(self).pos(),
                Err(e) => sp_term(old(self).tv(), old(self).pos()) == Err::<(Node, int), ErrS>(e@),
            },
        decreases self.tokens@.len() - self.current, 25int,
    {
        let n = match self.parse_factor() {
            Ok(n) => n,
            Err(e) => {
                return Err(e);
            },
        };
        self.parse_term_chain(n)
    }

    fn parse_comparison_chain(&mut self, acc: AstNodeRef) -> (r: Result<AstNodeRef, LoxError>)
        requires
            old(self).wf(),
        ensures
            final(self).wf(),
            final(self).tokens@ == old(self).tokens@,
            match r {
                Ok(n) => sp_comparison_chain(old(self).tv(), old(self).pos(), acc@) == Ok::<
                    (Node, int),
                    ErrS,
                >((n@, final(self).pos())) && old(self).pos() <= final(self).pos(),
                Err(e) => sp_comparison_chain(old(self).tv(), old(self).pos(), acc@) == Err::<
                    (Node, int),
                    ErrS,
                >(e@),
            },
        decreases self.tokens@.len() - self.current, 1int,
    {
        let k = self.tokens[self.current].kind;
        if k == TokenKind::GreaterEqual || k == TokenKind::Greater || k == TokenKind::Less || k
            == TokenKind::LessEqual {
            let op = self.advance();
            let rhs = match self.parse_term() {
                Ok(n) => n,
                Err(e) => {
                    return Err(e);
                },
            };
            self.parse_comparison_chain(BinaryExpr::create(op, acc, rhs))
        } else {
            Ok(acc)
        }
    }

    fn parse_comparison(&mut self) -> (r: Result<AstNodeRef, LoxError>)
        requires
            old(self).wf(),
        ensures
            final(self).wf(),
            final(self).tokens@ == old(self).tokens@,
            match r {
                Ok(n) => sp_comparison(old(self).tv(), old(self).pos()) == Ok::<(Node, int), ErrS>(
                    (n@, final(self).pos()),
                ) && old(self).pos() < final(self).pos(),
                Err(e) => sp_comparison(old(self).tv(), old(self).pos()) == Err::<
                    (Node, int),
                    ErrS,
                >(e@),
            },
        decreases self.tokens@.len() - self.current, 30int,
    {
        let n = match self.parse_term() {
            Ok(n) => n,
            Err(e) => {
                return Err(e);
            },
        };
        self.parse_comparison_chain(n)
    }

    fn parse_equality_chain(&mut self, acc: AstNodeRef) -> (r: Result<AstNodeRef, LoxError>)
        requires
            old(self).wf(),
        ensures
            final(self).wf(),
            final(self).tokens@ == old(self).tokens@,
            match r {
                Ok(n) => sp_equality_chain(old(self).tv(), old(self).pos(), acc@) == Ok::<
                    (Node, int),
                    ErrS,
                >((n@, final(self).pos())) && old(self).pos() <= final(self).pos(),
                Err(e) => sp_equality_chain(old(self).tv(), old(self).pos(), acc@) == Err::<
                    (Node, int),
                    ErrS,
                >(e@),
            },
        decreases self.tokens@.len() - self.current, 1int,
    {
        let k = self.tokens[self.current].kind;
        if k == TokenKind::EqualEqual || k == TokenKind::BangEqual {
            let op = self.advance();
            let rhs = match self.parse_comparison() {
                Ok(n) => n,
                Err(e) => {
                    return Err(e);
                },
            };
            self.parse_equality_chain(BinaryExpr::create(op, acc, rhs))
        } else {
            Ok(acc)
        }
    }

    fn parse_equality(&mut self) -> (r: Result<AstNodeRef, LoxError>)
        requires
            old(self).wf(),
        ensures
            final(self).wf(),
            final(self).tokens@ == old(self).tokens@,
            match r {
                Ok(n) => sp_equality(old(self).tv(), old(self).pos()) == Ok::<(Node, int), ErrS>(
                    (n@, final(self).pos()),
                ) && old(self).pos() < final(self).pos(),
                Err(e) => sp_equality(old(self).tv(), old(self).pos()) == Err::<(Node, int), ErrS>(
                    e@,
                ),
            },
        decreases self.tokens@.len() - self.current, 35int,
    {
        let n = match self.parse_comparison() {
            Ok(n) => n,
            Err(e) => {
                return Err(e);
            },
        };
        self.parse_equality_chain(n)
    }

    fn parse_logic_and_chain(&mut self, acc: AstNodeRef) -> (r: Result<AstNodeRef, LoxError>)
        requires
            old(self).wf(),
        ensures
            final(self).wf(),
            final(self).tokens@ == old(self).tokens@,
            match r {
                Ok(n) => sp_logic_and_chain(old(self).tv(), old(self).pos(), acc@) == Ok::<
                    (Node, int),
                    ErrS,
                >((n@, final(self).pos())) && old(self).pos() <= final(self).pos(),
                Err(e) => sp_logic_and_chain(old(self).tv(), old(self).pos(), acc@) == Err::<
                    (Node, int),
                    ErrS,
                >(e@),
            },
        decreases self.tokens@.len() - self.current, 1int,
    {
        if self.check(TokenKind::And) {
            let op = self.advance();
            let rhs = match self.parse_equality() {
                Ok(n) => n,
                Err(e) => {
                    return Err(e);
                },
            };
            self.parse_logic_and_chain(BinaryExpr::create(op, acc, rhs))
        } else {
            Ok(acc)
        }
    }

    fn parse_logic_and(&mut self) -> (r: Result<AstNodeRef, LoxError>)
        requires
            old(self).wf(),
        ensures
            final(self).wf(),
            final(self).tokens@ == old(self).tokens@,
            match r {
                Ok(n) => sp_logic_and(old(self).tv(), old(self).pos()) == Ok::<(Node, int), ErrS>(
                    (n@, final(self).pos()),
                ) && old(self).pos() < final(self).pos(),
                Err(e) => sp_logic_and(old(self).tv(), old(self).pos()) == Err::<
                    (Node, int),
                    ErrS,
                >(e@),
            },
        decreases self.tokens@.len() - self.current, 40int,
    {
        let n = match self.parse_equality() {
            Ok(n) => n,
            Err(e) => {
                return Err(e);
            },
        };
        self.parse_logic_and_chain(n)
    }

    fn parse_logic_or_chain(&mut self, acc: AstNodeRef) -> (r: Result<AstNodeRef, LoxError>)
        requires
            old(self).wf(),
        ensures
            final(self).wf(),
            final(self).tokens@ == old(self).tokens@,
            match r {
                Ok(n) => sp_logic_or_chain(old(self).tv(), old(self).pos(), acc@) == Ok::<
                    (Node, int),
                    ErrS,
                >((n@, final(self).pos())) && old(self).pos() <= final(self).pos(),
                Err(e) => sp_logic_or_chain(old(self).tv(), old(self).pos(), acc@) == Err::<
                    (Node, int),
                    ErrS,
                >(e@),
            },
        decreases self.tokens@.len() - self.current, 1int,
    {
        if self.check(TokenKind::Or) {
            let op = self.advance();
            let rhs = match self.parse_logic_and() {
                Ok(n) => n,
                Err(e) => {
                    return Err(e);
                },
            };
            self.parse_logic_or_chain(BinaryExpr::create(op, acc, rhs))
        } else {
            Ok(acc)
        }
    }

    fn parse_logic_or(&mut self) -> (r: Result<AstNodeRef, LoxError>)
        requires
            old(self).wf(),
        ensures
            final(self).wf(),
            final(self).tokens@ == old(self).tokens@,
            match r {
                Ok(n) => sp_logic_or(old(self).tv(), old(self).pos()) == Ok::<(Node, int), ErrS>(
                    (n@, final(self).pos()),
                ) && old(self).pos() < final(self).pos(),
                Err(e) => sp_logic_or(old(self).tv(), old(self).pos()) == Err::<(Node, int), ErrS>(
                    e@,
                ),
            },
        decreases self.tokens@.len() - self.current, 45int,
    {
        let n = match self.parse_logic_and() {
            Ok(n) => n,
            Err(e) => {
                return Err(e);
            },
        };
        self.parse_logic_or_chain(n)
    }

    fn parse_assign_tail(&mut self, acc: Vec<(usize, AstNodeRef)>) -> (r: Result<
        Vec<(usize, AstNodeRef)>,
        LoxError,
    >)
        requires
            old(self).wf(),
        ensures
            final(self).wf(),
            final(self).tokens@ == old(self).tokens@,
            match r {
                Ok(ps) => sp_assign_tail(old(self).tv(), old(self).pos(), pairs_view(acc@)) == Ok::<
                    (Seq<(nat, Node)>, int),
                    ErrS,
                >((pairs_view(ps@), final(self).pos())) && old(self).pos() <= final(self).pos(),
                Err(e) => sp_assign_tail(old(self).tv(), old(self).pos(), pairs_view(acc@))
                    == Err::<(Seq<(nat, Node)>, int), ErrS>(e@),
            },
        decreases self.tokens@.len() - self.current, 1int,
    {
        let mut acc = acc;
        if self.check(TokenKind::Equal) {
            let line = self.peek_line();
            let _eq = self.advance();
            let n = match self.parse_logic_or() {
                Ok(n) => n,
                Err(e) => {
                    return Err(e);
                },
            };
            let ghost acc0 = acc@;
            acc.push((line, n));
            proof {
                pairs_view_push(acc0, acc@.last());
            }
            self.parse_assign_tail(acc)
        } else {
            Ok(acc)
        }
    }

    fn parse_assignment(&mut self) -> (r: Result<AstNodeRef, LoxError>)
        requires
            old(self).wf(),
        ensures
            final(self).wf(),
            final(self).tokens@ == old(self).tokens@,
            match r {
                Ok(n) => sp_assignment(old(self).tv(), old(self).pos()) == Ok::<(Node, int), ErrS>(
                    (n@, final(self).pos()),
                ) && old(self).pos() < final(self).pos(),
                Err(e) => sp_assignment(old(self).tv(), old(self).pos()) == Err::<
                    (Node, int),
                    ErrS,
                >(e@),
            },
        decreases self.tokens@.len() - self.current, 50int,
    {
        let first = match self.parse_logic_or() {
            Ok(n) => n,
            Err(e) => {
                return Err(e);
            },
        };
        let first_line = self.peek_line();
        proof {
            pairs_view_empty();
        }
        let pairs = match self.parse_assign_tail(Vec::new()) {
            Ok(ps) => ps,
            Err(e) => {
                return Err(e);
            },
        };
        assign_fold(first, first_line, pairs)
    }

    fn parse_block(&mut self) -> (r: Result<AstNodeRef, LoxError>)
        requires
            old(self).wf(),
        ensures
            final(self).wf(),
            final(self).tokens@ == old(self).tokens@,
            match r {
                Ok(n) => sp_block(old(self).tv(), old(self).pos()) == Ok::<(Node, int), ErrS>(
                    (n@, final(self).pos()),
                ) && old(self).pos() < final(self).pos(),
                Err(e) => sp_block(old(self).tv(), old(self).pos()) == Err::<(Node, int), ErrS>(
                    e@,
                ),
            },
        decreases self.tokens@.len() - self.current, 70int,
    {
        match self.consume(TokenKind::LeftBrace) {
            Ok(_lb) => {},
            Err(e) => {
                return Err(e);
            },
        }
        proof {
            nodes_view_empty();
        }
        self.parse_block_items(Vec::new())
    }

    fn parse_block_items(&mut self, acc: Vec<AstNodeRef>) -> (r: Result<AstNodeRef, LoxError>)
        requires
            old(self).wf(),
        ensures
            final(self).wf(),
            final(self).tokens@ == old(self).tokens@,
            match r {
                Ok(n) => sp_block_items(old(self).tv(), old(self).pos(), nodes_view(acc@)) == Ok::<
                    (Node, int),
                    ErrS,
                >((n@, final(self).pos())) && old(self).pos() < final(self).pos(),
                Err(e) => sp_block_items(old(self).tv(), old(self).pos(), nodes_view(acc@))
                    == Err::<(Node, int), ErrS>(e@),
            },
        decreases self.tokens@.len() - self.current, 95int,
    {
        let mut acc = acc;
        if self.check(TokenKind::RightBrace) {
            let _rb = self.advance();
            Ok(Block::create(acc))
        } else {
            let d = match self.parse_declaration() {
                Ok(d) => d,
                Err(e) => {
                    return Err(e);
                },
            };
            let ghost acc0 = acc@;
            acc.push(d);
            proof {
                nodes_view_push(acc0, acc@.last());
            }
            self.parse_block_items(acc)
        }
    }

    fn parse_var_decl(&mut self) -> (r: Result<AstNodeRef, LoxError>)
        requires
            old(self).wf(),
            old(self).tv()[old(self).pos()].kind == TokenKind::Var,
        ensures
            final(self).wf(),
            final(self).tokens@ == old(self).tokens@,
            match r {
                Ok(n) => sp_var_decl(old(self).tv(), old(self).pos()) == Ok::<(Node, int), ErrS>(
                    (n@, final(self).pos()),
                ) && old(self).pos() < final(self).pos(),
                Err(e) => sp_var_decl(old(self).tv(), old(self).pos()) == Err::<(Node, int), ErrS>(
                    e@,
                ),
            },
        decreases self.tokens@.len() - self.current, 68int,
    {
        let _var = self.advance();
        let id = match self.consume(TokenKind::Identifier) {
            Ok(t) => t,
            Err(e) => {
                return Err(e);
            },
        };
        let mut init: Option<AstNodeRef> = None;
        if self.check(TokenKind::Equal) {
            let _eq = self.advance();
            match self.parse_expression() {
                Ok(n) => {
                    init = Some(n);
                },
                Err(e) => {
                    return Err(e);
                },
            }
        }
        match self.consume(TokenKind::Semicolon) {
            Ok(_s) => Ok(VarDecl::create(id, init)),
            Err(e) => Err(e),
        }
    }

    fn parse_fun_decl(&mut self) -> (r: Result<AstNodeRef, LoxError>)
        requires
            old(self).wf(),
            old(self).tv()[old(self).pos()].kind == TokenKind::Fun,
        ensures
            final(self).wf(),
            final(self).tokens@ == old(self).tokens@,
            match r {
                Ok(n) => sp_fun_decl(old(self).tv(), old(self).pos()) == Ok::<(Node, int), ErrS>(
                    (n@, final(self).pos()),
                ) && old(self).pos() < final(self).pos(),
                Err(e) => sp_fun_decl(old(self).tv(), old(self).pos()) == Err::<(Node, int), ErrS>(
                    e@,
                ),
            },
        decreases self.tokens@.len() - self.current, 70int,
    {
        let _fun = self.advance();
        let name = match self.consume(TokenKind::Identifier) {
            Ok(t) => t,
            Err(e) => {
                return Err(e);
            },
        };
        match self.parse_fun_tail() {
            Ok((params, body)) => Ok(FunDecl::create(name, params, body)),
            Err(e) => Err(e),
        }
    }

    fn parse_if_stmt(&mut self) -> (r: Result<AstNodeRef, LoxError>)
        requires
            old(self).wf(),
            old(self).tv()[old(self).pos()].kind == TokenKind::If,
        ensures
            final(self).wf(),
            final(self).tokens@ == old(self).tokens@,
            match r {
                Ok(n) => sp_if_stmt(old(self).tv(), old(self).pos()) == Ok::<(Node, int), ErrS>(
                    (n@, final(self).pos()),
                ) && old(self).pos() < final(self).pos(),
                Err(e) => sp_if_stmt(old(self).tv(), old(self).pos()) == Err::<(Node, int), ErrS>(
                    e@,
                ),
            },
        decreases self.tokens@.len() - self.current, 70int,
    {
        let _if = self.advance();
        match self.consume(TokenKind::LeftParen) {
            Ok(_lp) => {},
            Err(e) => {
                return Err(e);
            },
        }
        let cond = match self.parse_expression() {
            Ok(n) => n,
            Err(e) => {
                return Err(e);
            },
        };
        match self.consume(TokenKind::RightParen) {
            Ok(_rp) => {},
            Err(e) => {
                return Err(e);
            },
        }
        let body = match self.parse_stmt() {
            Ok(n) => n,
            Err(e) => {
                return Err(e);
            },
        };
        if self.check(TokenKind::Else) {
            let _else = self.advance();
            match self.parse_stmt() {
                Ok(els) => Ok(IfStmt::create(cond, body, Some(els))),
                Err(e) => Err(e),
            }
        } else {
            Ok(IfStmt::create(cond, body, None))
        }
    }

    fn parse_while_stmt(&mut self) -> (r: Result<AstNodeRef, LoxError>)
        requires
            old(self).wf(),
            old(self).tv()[old(self).pos()].kind == TokenKind::While,
        ensures
            final(self).wf(),
            final(self).tokens@ == old(self).tokens@,
            match r {
                Ok(n) => sp_while_stmt(old(self).tv(), old(self).pos()) == Ok::<(Node, int), ErrS>(
                    (n@, final(self).pos()),
                ) && old(self).pos() < final(self).pos(),
                Err(e) => sp_while_stmt(old(self).tv(), old(self).pos()) == Err::<
                    (Node, int),
                    ErrS,
                >(e@),
            },
        decreases self.tokens@.len() - self.current, 70int,
    {
        let _while = self.advance();
        match self.consume(TokenKind::LeftParen) {
            Ok(_lp) => {},
            Err(e) => {
                return Err(e);
            },
        }
        let cond = match self.parse_expression() {
            Ok(n) => n,
            Err(e) => {
                return Err(e);
            },
        };
        match self.consume(TokenKind::RightParen) {
            Ok(_rp) => {},
            Err(e) => {
                return Err(e);
            },
        }
        match self.parse_stmt() {
            Ok(body) => Ok(WhileStmt::create(cond, body)),
            Err(e) => Err(e),
        }
    }

    fn parse_for_init(&mut self) -> (r: Result<Option<AstNodeRef>, LoxError>)
        requires
            old(self).wf(),
        ensures
            final(self).wf(),
            final(self).tokens@ == old(self).tokens@,
            match r {
                Ok(n) => sp_for_init(old(self).tv(), old(self).pos()) == Ok::<
                    (Option<Node>, int),
                    ErrS,
                >((opt_ref_view(n), final(self).pos())) && old(self).pos() < final(self).pos(),
                Err(e) => sp_for_init(old(self).tv(), old(self).pos()) == Err::<
                    (Option<Node>, int),
                    ErrS,
                >(e@),
            },
        decreases self.tokens@.len() - self.current, 69int,
    {
        if self.check(TokenKind::Semicolon) {
            let _s = self.advance();
            Ok(None)
        } else if self.check(TokenKind::Var) {
            match self.parse_var_decl() {
                Ok(n) => Ok(Some(n)),
                Err(e) => Err(e),
            }
        } else {
            let n = match self.parse_expression() {
                Ok(n) => n,
                Err(e) => {
                    return Err(e);
                },
            };
            match self.consume(TokenKind::Semicolon) {
                Ok(_s) => Ok(Some(n)),
                Err(e) => Err(e),
            }
        }
    }

    fn parse_for_cond(&mut self) -> (r: Result<Option<AstNodeRef>, LoxError>)
        requires
            old(self).wf(),
        ensures
            final(self).wf(),
            final(self).tokens@ == old(self).tokens@,
            match r {
                Ok(n) => sp_for_cond(old(self).tv(), old(self).pos()) == Ok::<
                    (Option<Node>, int),
                    ErrS,
                >((opt_ref_view(n), final(self).pos())) && old(self).pos() < final(self).pos(),
                Err(e) => sp_for_cond(old(self).tv(), old(self).pos()) == Err::<
                    (Option<Node>, int),
                    ErrS,
                >(e@),
            },
        decreases self.tokens@.len() - self.current, 69int,
    {
        if self.check(TokenKind::Semicolon) {
            let _s = self.advance();
            Ok(None)
        } else {
            let n = match self.parse_expression() {
                Ok(n) => n,
                Err(e) => {
                    return Err(e);
                },
            };
            match self.consume(TokenKind::Semicolon) {
                Ok(_s) => Ok(Some(n)),
                Err(e) => Err(e),
            }
        }
    }

    fn parse_for_inc(&mut self) -> (r: Result<Option<AstNodeRef>, LoxError>)
        requires
            old(self).wf(),
        ensures
            final(self).wf(),
            final(self).tokens@ == old(self).tokens@,
            match r {
                Ok(n) => sp_for_inc(old(self).tv(), old(self).pos()) == Ok::<
                    (Option<Node>, int),
                    ErrS,
                >((opt_ref_view(n), final(self).pos())) && old(self).pos() <= final(self).pos(),
                Err(e) => sp_for_inc(old(self).tv(), old(self).pos()) == Err::<
                    (Option<Node>, int),
                    ErrS,
                >(e@),
            },
        decreases self.tokens@.len() - self.current, 69int,
    {
        if self.check(TokenKind::RightParen) {
            Ok(None)
        } else {
            match self.parse_expression() {
                Ok(n) => Ok(Some(n)),
                Err(e) => Err(e),
            }
        }
    }

    fn parse_for_stmt(&mut self) -> (r: Result<AstNodeRef, LoxError>)
        requires
            old(self).wf(),
            old(self).tv()[old(self).pos()].kind == TokenKind::For,
        ensures
            final(self).wf(),
            final(self).tokens@ == old(self).tokens@,
            match r {
                Ok(n) => sp_for_stmt(old(self).tv(), old(self).pos()) == Ok::<(Node, int), ErrS>(
                    (n@, final(self).pos()),
                ) && old(self).pos() < final(self).pos(),
                Err(e) => sp_for_stmt(old(self).tv(), old(self).pos()) == Err::<(Node, int), ErrS>(
                    e@,
                ),
            },
        decreases self.tokens@.len() - self.current, 70int,
    {
        let _for = self.advance();
        match self.consume(TokenKind::LeftParen) {
            Ok(_lp) => {},
            Err(e) => {
                return Err(e);
            },
        }
        let init = match self.parse_for_init() {
            Ok(n) => n,
            Err(e) => {
                return Err(e);
            },
        };
        let cond = match self.parse_for_cond() {
            Ok(n) => n,
            Err(e) => {
                return Err(e);
            },
        };
        let inc = match self.parse_for_inc() {
            Ok(n) => n,
            Err(e) => {
                return Err(e);
            },
        };
        match self.consume(TokenKind::RightParen) {
            Ok(_rp) => {},
            Err(e) => {
                return Err(e);
            },
        }
        match self.parse_stmt() {
            Ok(body) => Ok(desugar_for(init, cond, inc, body)),
            Err(e) => Err(e),
        }
    }

    fn parse_stmt(&mut self) -> (r: Result<AstNodeRef, LoxError>)
        requires
            old(self).wf(),
        ensures
            final(self).wf(),
            final(self).tokens@ == old(self).tokens@,
            match r {
                Ok(n) => sp_stmt(old(self).tv(), old(self).pos()) == Ok::<(Node, int), ErrS>(
                    (n@, final(self).pos()),
                ) && old(self).pos() < final(self).pos(),
                Err(e) => sp_stmt(old(self).tv(), old(self).pos()) == Err::<(Node, int), ErrS>(e@),
            },
        decreases self.tokens@.len() - self.current, 80int,
    {
        let k = self.tokens[self.current].kind;
        if k == TokenKind::If {
            self.parse_if_stmt()
        } else if k == TokenKind::While {
            self.parse_while_stmt()
        } else if k == TokenKind::Break {
            let tok = self.advance();
            match self.consume(TokenKind::Semicolon) {
                Ok(_s) => Ok(BreakStmt::create(tok)),
                Err(e) => Err(e),
            }
        } else if k == TokenKind::For {
            self.parse_for_stmt()
        } else if k == TokenKind::Return {
            let tok = self.advance();
            if self.check(TokenKind::Semicolon) {
                let _s = self.advance();
                Ok(ReturnStmt::create(tok, None))
            } else {
                let e = match self.parse_expression() {
                    Ok(n) => n,
                    Err(er) => {
                        return Err(er);
                    },
                };
                match self.consume(TokenKind::Semicolon) {
                    Ok(_s) => Ok(ReturnStmt::create(tok, Some(e))),
                    Err(er) => Err(er),
                }
            }
        } else if k == TokenKind::Print {
            let _p = self.advance();
            let e = match self.parse_expression() {
                Ok(n) => n,
                Err(er) => {
                    return Err(er);
                },
            };
            match self.consume(TokenKind::Semicolon) {
                Ok(_s) => Ok(PrintStmt::create(e)),
                Err(er) => Err(er),
            }
        } else if k == TokenKind::LeftBrace {
            self.parse_block()
        } else {
            let e = match self.parse_expression() {
                Ok(n) => n,
                Err(er) => {
                    return Err(er);
                },
            };
            match self.consume(TokenKind::Semicolon) {
                Ok(_s) => Ok(ExprStmt::create(e)),
                Err(er) => Err(er),
            }
        }
    }

    fn parse_declaration(&mut self) -> (r: Result<AstNodeRef, LoxError>)
        requires
            old(self).wf(),
        ensures
            final(self).wf(),
            final(self).tokens@ == old(self).tokens@,
            match r {
                Ok(n) => sp_declaration(old(self).tv(), old(self).pos()) == Ok::<
                    (Node, int),
                    ErrS,
                >((n@, final(self).pos())) && old(self).pos() < final(self).pos(),
                Err(e) => sp_declaration(old(self).tv(), old(self).pos()) == Err::<
                    (Node, int),
                    ErrS,
                >(e@),
            },
        decreases self.tokens@.len() - self.current, 90int,
    {
        if self.check(TokenKind::Var) {
            self.parse_var_decl()
        } else if self.check(TokenKind::Fun) {
            self.parse_fun_decl()
        } else {
            self.parse_stmt()
        }
    }

    fn parse_program_items(&mut self, acc: Vec<AstNodeRef>) -> (r: Result<AstNodeRef, LoxError>)
        requires
            old(self).wf(),
        ensures
            final(self).wf(),
            final(self).tokens@ == old(self).tokens@,
            match r {
                Ok(n) => sp_program_items(old(self).tv(), old(self).pos(), nodes_view(acc@))
                    == Ok::<(Node, int), ErrS>((n@, final(self).pos())),
                Err(e) => sp_program_items(old(self).tv(), old(self).pos(), nodes_view(acc@))
                    == Err::<(Node, int), ErrS>(e@),
            },
        decreases self.tokens@.len() - self.current, 95int,
    {
        let mut acc = acc;
        if self.check(TokenKind::EOF) {
            Ok(Program::create(acc))
        } else {
            let d = match self.parse_declaration() {
                Ok(d) => d,
                Err(e) => {
                    return Err(e);
                },
            };
            let ghost acc0 = acc@;
            acc.push(d);
            proof {
                nodes_view_push(acc0, acc@.last());
            }
            self.parse_program_items(acc)
        }
    }

    fn parse_expression(&mut self) -> (r: Result<AstNodeRef, LoxError>)
        requires
            old(self).wf(),
        ensures
            final(self).wf(),
            final(self).tokens@ == old(self).tokens@,
            match r {
                Ok(n) => sp_expression(old(self).tv(), old(self).pos()) == Ok::<(Node, int), ErrS>(
                    (n@, final(self).pos()),
                ) && old(self).pos() < final(self).pos(),
                Err(e) => sp_expression(old(self).tv(), old(self).pos()) == Err::<
                    (Node, int),
                    ErrS,
                >(e@),
            },
        decreases self.tokens@.len() - self.current, 60int,
    {
        self.parse_assignment()
    }
}

/// The right fold of a permissively parsed assignment chain; see
/// `sp_assign_fold`.
fn assign_fold(first: AstNodeRef, first_line: usize, pairs: Vec<(usize, AstNodeRef)>) -> (r:
    Result<AstNodeRef, LoxError>)
    ensures
        match r {
            Ok(n) => sp_assign_fold(first@, first_line as nat, pairs_view(pairs@)) == Ok::<
                Node,
                ErrS,
            >(n@),
            Err(e) => sp_assign_fold(first@, first_line as nat, pairs_view(pairs@)) == Err::<
                Node,
                ErrS,
            >(e@),
        },
{
    if pairs.len() == 0 {
        Ok(first)
    } else {
        let rhs = match assign_fold_inner(pairs) {
            Ok(n) => n,
            Err(e) => {
                return Err(e);
            },
        };
        match *first {
            AstNode::LiteralExpr(lit) => {
                if lit.token.kind == TokenKind::Identifier {
                    Ok(AssignExpr::create(lit.token, rhs))
                } else {
                    Err(LoxError::new(first_line, String::from_str("invalid l-value")))
                }
            },
            _ => Err(LoxError::new(first_line, String::from_str("invalid l-value"))),
        }
    }
}

/// Parses a whole program: declarations until end of input.  The token list
/// must be scanner-shaped: nonempty with the end-of-input marker last.
/// On success the tree is exactly what the grammar derives; the error
/// carries the line and the expectation that failed.
pub fn parse_source_result(tokens: Vec<Token>) -> (r: Result<Ast, LoxError>)
    requires
        wf_toks(toks_view(tokens@)),
    ensures
        match r {
            Ok(ast) => sp_parse_program(toks_view(tokens@)) == Ok::<Node, ErrS>(ast@),
            Err(e) => sp_parse_program(toks_view(tokens@)) == Err::<Node, ErrS>(e@),
        },
{
    let mut parser = Parser { current: 0, tokens };
    proof {
        nodes_view_empty();
    }
    match parser.parse_program_items(Vec::new()) {
        Ok(root) => Ok(Ast::create(root)),
        Err(e) => Err(e),
    }
}

/// Parses a single expression, which must be followed directly by the end of
/// input; used for one-shot evaluation of a line.
pub fn parse_expresssion_result(tokens: Vec<Token>) -> (r: Result<Ast, LoxError>)
    requires
        wf_toks(toks_view(tokens@)),
    ensures
        match r {
            Ok(ast) => sp_parse_expression(toks_view(tokens@)) == Ok::<Node, ErrS>(ast@),
            Err(e) => sp_parse_expression(toks_view(tokens@)) == Err::<Node, ErrS>(e@),
        },
{
    let mut parser = Parser { current: 0, tokens };
    match parser.parse_expression() {
        Ok(root) => {
            if parser.check(TokenKind::EOF) {
                Ok(Ast::create(root))
            } else {
                Err(LoxError::new(0, String::from_str("unexpected end of expression")))
            }
        },
        Err(e) => Err(e),
    }
}

/// `parse_source_result` with the error dropped.
pub fn parse_source(tokens: Vec<Token>) -> (r: Option<Ast>)
    requires
        wf_toks(toks_view(tokens@)),
    ensures
        match r {
            Some(ast) => sp_parse_program(toks_view(tokens@)) == Ok::<Node, ErrS>(ast@),
            None => sp_parse_program(toks_view(tokens@) ) is Err,
        },
{
    match parse_source_result(tokens) {
        Ok(ast) => Some(ast),
        Err(_e) => None,
    }
}

/// `parse_expresssion_result` with the error dropped.
pub fn parse_expresssion(tokens: Vec<Token>) -> (r: Option<Ast>)
    requires
        wf_toks(toks_view(tokens@)),
    ensures
        match r {
            Some(ast) => sp_parse_expression(toks_view(tokens@)) == Ok::<Node, ErrS>(ast@),
            None => sp_parse_expression(toks_view(tokens@)) is Err,
        },
{
    match parse_expresssion_result(tokens) {
        Ok(ast) => Some(ast),
        Err(_e) => None,
    }
}

fn assign_fold_inner(pairs: Vec<(usize, AstNodeRef)>) -> (r: Result<AstNodeRef, LoxError>)
    requires
        pairs@.len() >= 1,
    ensures
        match r {
            Ok(n) => sp_assign_fold_inner(pairs_view(pairs@)) == Ok::<Node, ErrS>(n@),
            Err(e) => sp_assign_fold_inner(pairs_view(pairs@)) == Err::<Node, ErrS>(e@),
        },
    decreases pairs@.len(),
{
    let mut pairs = pairs;
    if pairs.len() == 1 {
        let p = match pairs.pop() {
            Some(p) => p,
            None => {
                return Err(LoxError::new(0, String::from_str("invalid l-value")));
            },
        };
        Ok(p.1)
    } else {
        let ghost pairs0 = pairs@;
        let head = pairs.remove(0);
        proof {
            assert(pairs_view(pairs@) =~= pairs_view(pairs0).drop_first());
        }
        let rhs = match assign_fold_inner(pairs) {
            Ok(n) => n,
            Err(e) => {
                return Err(e);
            },
        };
        match *head.1 {
            AstNode::LiteralExpr(lit) => {
                if lit.token.kind == TokenKind::Identifier {
                    Ok(AssignExpr::create(lit.token, rhs))
                } else {
                    Err(LoxError::new(head.0, String::from_str("invalid l-value")))
                }
            },
            _ => Err(LoxError::new(head.0, String::from_str("invalid l-value"))),
        }
    }
}

} // verus!
