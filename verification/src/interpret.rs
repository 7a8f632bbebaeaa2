use crate::ast::{
    AssignExpr, Ast, AstNode, AstNodeRef, BinaryExpr, Block, BreakStmt, ExprStmt, FunCall, FunDecl,
    FunDef, GroupExpr, IfStmt, LiteralExpr, Node, PrintStmt, Program, ReturnStmt, UnaryExpr,
    VarDecl, WhileStmt, nodes_view, nodes_view_index, nodes_view_len,
};
use crate::environment::Environment;
use crate::error::{ErrS, LoxError};
use crate::function::{
    Function, ImplS, Implementation, NativeKind, Value, ValueS, clone_node, dup_value, strings_view,
    value_eq,
};
use crate::number::{NUM_SCALE, chars_to_string, num_add, num_div, num_mul, num_neg, num_of_lit,
    num_sub, text_chars, usize_text};
use crate::sem::{
    RunS, StS, bind_params, log_line, sp_check_arity, sp_eval, sp_eval_args, sp_eval_seq,
    sp_interpret, sp_native, strip_quotes,
};
use crate::token::{Token, TokenKind, TokenS};
use vstd::prelude::*;

verus! {

// The evaluator walks the tree recursively, holding one mutable state: the
// scope frames, the active frame, the break/return signals, the output so
// far, and the run's starting clock reading.  Every method is proved to
// produce exactly what the big-step semantics `sp_eval` says, for the step
// budget it is given; the public entry point supplies a budget that no real
// program exhausts.
pub open spec fn res_view(r: Result<Value, LoxError>) -> Result<ValueS, ErrS> {
    match r {
        Ok(v) => Ok(v@),
        Err(e) => Err(e@),
    }
}

pub open spec fn opt_tok_view(o: Option<Token>) -> Option<TokenS> {
    match o {
        Some(t) => Some(t@),
        None => None,
    }
}

pub open spec fn opt_ret_view(o: Option<(Token, Value)>) -> Option<(TokenS, ValueS)> {
    match o {
        Some(p) => Some((p.0@, p.1@)),
        None => None,
    }
}

pub open spec fn vals_view(s: Seq<Value>) -> Seq<ValueS> {
    s.map_values(|v: Value| v@)
}

/// The evaluator's state for one run.
pub struct Interpretor {
    pub env: Environment,
    pub cur: usize,
    pub breaking: Option<Token>,
    pub returning: Option<(Token, Value)>,
    pub output: Vec<String>,
    pub start_ms: u64,
}

impl View for Interpretor {
    type V = StS;

    open spec fn view(&self) -> StS {
        StS {
            frames: self.env@,
            cur: self.cur as int,
            breaking: opt_tok_view(self.breaking),
            returning: opt_ret_view(self.returning),
            out: strings_view(self.output@),
            start_ms: self.start_ms as int,
        }
    }
}

/// The message the evaluator reports when the step budget runs out.
fn fuel_error() -> (r: LoxError)
    ensures
        r@ == crate::sem::fuel_err(),
{
    LoxError::new(0, String::from_str("evaluation budget exhausted"))
}

/// The required parameter count a call fails against, if its argument count
/// is wrong; see `sp_check_arity`.
pub fn check_arity(params: &Vec<String>, arg_count: usize) -> (r: Option<usize>)
    ensures
        match r {
            Some(p) => sp_check_arity(strings_view(params@), arg_count as nat) == Some(p as nat),
            None => sp_check_arity(strings_view(params@), arg_count as nat) is None,
        },
{
    let n = params.len();
    let variadic = n > 0 && params[n - 1].as_str().is_empty();
    proof {
        if n > 0 {
            assert(strings_view(params@).last() == params@[n - 1]@);
            if params@[n - 1]@.len() == 0 {
                assert(params@[n - 1]@ =~= Seq::<char>::empty());
            } else {
                assert(params@[n - 1]@ != Seq::<char>::empty());
            }
        }
    }
    if variadic {
        if arg_count < n - 1 {
            Some(n - 1)
        } else {
            None
        }
    } else {
        if arg_count != n {
            Some(n)
        } else {
            None
        }
    }
}

/// The text between a stored string literal's delimiting quotes.
fn strip_quotes_x(s: &String) -> (r: String)
    ensures
        r@ == strip_quotes(s@),
{
    let cs = text_chars(s);
    if cs.len() >= 2 {
        let mut out: Vec<char> = Vec::new();
        let mut i: usize = 1;
        while i < cs.len() - 1
            invariant
                1 <= i <= cs.len() - 1,
                cs@ == s@,
                cs@.len() >= 2,
                out@ == s@.subrange(1, i as int),
            decreases cs.len() - i,
        {
            out.push(cs[i]);
            proof {
                assert(out@ =~= s@.subrange(1, i + 1));
            }
            i = i + 1;
        }
        chars_to_string(&out)
    } else {
        proof {
            assert(strip_quotes(s@) =~= Seq::<char>::empty());
        }
        String::new()
    }
}

impl Interpretor {
    pub open spec fn wf(&self) -> bool {
        self.env.wf() && (self.cur as int) < self.env@.len()
    }

    /// Evaluates one node; the state moves exactly as `sp_eval` says.
    pub fn interpret_node(&mut self, n: &AstNode, fuel: u64) -> (r: Result<Value, LoxError>)
        requires
            old(self).wf(),
        ensures
            final(self).wf(),
            old(self)@.frames.len() <= final(self)@.frames.len(),
            sp_eval(old(self)@, n@, fuel as nat) == (final(self)@, res_view(r)),
        decreases fuel, 1int,
    {
        match n {
            AstNode::LiteralExpr(node) => self.interpret_literal(node, fuel),
            AstNode::GroupExpr(node) => self.interpret_group(node, fuel),
            AstNode::UnaryExpr(node) => self.interpret_unary(node, fuel),
            AstNode::BinaryExpr(node) => self.interpret_binary(node, fuel),
            AstNode::AssignExpr(node) => self.interpret_assignment(node, fuel),
            AstNode::ExprStmt(node) => self.interpret_expr_stmt(node, fuel),
            AstNode::PrintStmt(node) => self.interpret_print_stmt(node, fuel),
            AstNode::VarDecl(node) => self.interpret_var_decl(node, fuel),
            AstNode::IfStmt(node) => self.interpret_if_stmt(node, fuel),
            AstNode::WhileStmt(node) => self.interpret_while_stmt(node, fuel),
            AstNode::BreakStmt(node) => self.interpret_break_stmt(node, fuel),
            AstNode::ReturnStmt(node) => self.interpret_return_stmt(node, fuel),
            AstNode::Block(node) => self.interpret_block(node, fuel),
            AstNode::Program(node) => self.interpret_program(node, fuel),
            AstNode::FunDecl(node) => self.interpret_fun_decl(node, fuel),
            AstNode::FunDef(node) => self.interpret_fun_def(node, fuel),
            AstNode::FunCall(node) => self.interpret_fun_call(node, fuel),
        }
    }

    pub fn interpret_literal(&mut self, node: &LiteralExpr, fuel: u64) -> (r: Result<
        Value,
        LoxError,
    >)
        requires
            old(self).wf(),
        ensures
            final(self).wf(),
            old(self)@.frames.len() <= final(self)@.frames.len(),
            sp_eval(old(self)@, Node::Literal { tok: node.token@ }, fuel as nat) == (
                final(self)@,
                res_view(r),
            ),
        decreases fuel, 0int,
    {
        if fuel == 0 {
            return Err(fuel_error());
        }
        let k = node.token.kind;
        if k == TokenKind::Nil {
            Ok(Value::Nil)
        } else if k == TokenKind::True {
            Ok(Value::Boolean(true))
        } else if k == TokenKind::False {
            Ok(Value::Boolean(false))
        } else if k == TokenKind::Number {
            let cs = text_chars(&node.token.text);
            match num_of_lit(&cs) {
                Some(u) => Ok(Value::Number(u)),
                None => {
                    let mut m = String::from_str("invalid number (");
                    m.append(node.token.text.as_str());
                    m.append(")");
                    Err(LoxError::new(node.token.line, m))
                },
            }
        } else if k == TokenKind::String {
            Ok(Value::String(strip_quotes_x(&node.token.text)))
        } else if k == TokenKind::Identifier {
            match self.env.get(self.cur, &node.token.text) {
                Some(v) => Ok(v),
                None => {
                    let mut m = String::from_str("undefined variable '");
                    m.append(node.token.text.as_str());
                    m.append("'");
                    Err(LoxError::new(node.token.line, m))
                },
            }
        } else {
            Err(LoxError::new(node.token.line, String::from_str("invalid literal")))
        }
    }

    pub fn interpret_group(&mut self, node: &GroupExpr, fuel: u64) -> (r: Result<Value, LoxError>)
        requires
            old(self).wf(),
        ensures
            final(self).wf(),
            old(self)@.frames.len() <= final(self)@.frames.len(),
            sp_eval(
                old(self)@,
                Node::Group { inner: Box::new(node.expr@) },
                fuel as nat,
            ) == (final(self)@, res_view(r)),
        decreases fuel, 0int,
    {
        if fuel == 0 {
            return Err(fuel_error());
        }
        self.interpret_node(&node.expr, fuel - 1)
    }

    pub fn interpret_unary(&mut self, node: &UnaryExpr, fuel: u64) -> (r: Result<Value, LoxError>)
        requires
            old(self).wf(),
        ensures
            final(self).wf(),
            old(self)@.frames.len() <= final(self)@.frames.len(),
            sp_eval(
                old(self)@,
                Node::Unary { op: node.token@, operand: Box::new(node.expr@) },
                fuel as nat,
            ) == (final(self)@, res_view(r)),
        decreases fuel, 0int,
    {
        if fuel == 0 {
            return Err(fuel_error());
        }
        let v = match self.interpret_node(&node.expr, fuel - 1) {
            Ok(v) => v,
            Err(e) => {
                return Err(e);
            },
        };
        if node.token.kind == TokenKind::Bang {
            Ok(Value::Boolean(!v.truth()))
        } else {
            match v {
                Value::Number(x) => match num_neg(x) {
                    Some(u) => Ok(Value::Number(u)),
                    None => Err(LoxError::new(node.token.line, String::from_str(
                        "number overflow",
                    ))),
                },
                _ => Err(LoxError::new(node.token.line, String::from_str(
                    "expected number after '-'",
                ))),
            }
        }
    }

    pub fn interpret_binary(&mut self, node: &BinaryExpr, fuel: u64) -> (r: Result<
        Value,
        LoxError,
    >)
        requires
            old(self).wf(),
        ensures
            final(self).wf(),
            old(self)@.frames.len() <= final(self)@.frames.len(),
            sp_eval(
                old(self)@,
                Node::Binary {
                    op: node.token@,
                    lhs: Box::new(node.lexpr@),
                    rhs: Box::new(node.rexpr@),
                },
                fuel as nat,
            ) == (final(self)@, res_view(r)),
        decreases fuel, 0int,
    {
        if fuel == 0 {
            return Err(fuel_error());
        }
        let k = node.token.kind;
        if k == TokenKind::And {
            let v = match self.interpret_node(&node.lexpr, fuel - 1) {
                Ok(v) => v,
                Err(e) => {
                    return Err(e);
                },
            };
            if !v.truth() {
                Ok(Value::Boolean(false))
            } else {
                self.interpret_node(&node.rexpr, fuel - 1)
            }
        } else if k == TokenKind::Or {
            let v = match self.interpret_node(&node.lexpr, fuel - 1) {
                Ok(v) => v,
                Err(e) => {
                    return Err(e);
                },
            };
            if v.truth() {
                Ok(Value::Boolean(true))
            } else {
                self.interpret_node(&node.rexpr, fuel - 1)
            }
        } else if k == TokenKind::EqualEqual || k == TokenKind::BangEqual {
            let a = match self.interpret_node(&node.lexpr, fuel - 1) {
                Ok(v) => v,
                Err(e) => {
                    return Err(e);
                },
            };
            let b = match self.interpret_node(&node.rexpr, fuel - 1) {
                Ok(v) => v,
                Err(e) => {
                    return Err(e);
                },
            };
            let same = value_eq(&a, &b);
            if k == TokenKind::EqualEqual {
                Ok(Value::Boolean(same))
            } else {
                Ok(Value::Boolean(!same))
            }
        } else {
            let a = match self.interpret_node(&node.lexpr, fuel - 1) {
                Ok(v) => v,
                Err(e) => {
                    return Err(e);
                },
            };
            let b = match self.interpret_node(&node.rexpr, fuel - 1) {
                Ok(v) => v,
                Err(e) => {
                    return Err(e);
                },
            };
            apply_binary_x(&node.token, a, b)
        }
    }

    pub fn interpret_assignment(&mut self, node: &AssignExpr, fuel: u64) -> (r: Result<
        Value,
        LoxError,
    >)
        requires
            old(self).wf(),
        ensures
            final(self).wf(),
            old(self)@.frames.len() <= final(self)@.frames.len(),
            sp_eval(
                old(self)@,
                Node::Assign { target: node.variable@, rhs: Box::new(node.expr@) },
                fuel as nat,
            ) == (final(self)@, res_view(r)),
        decreases fuel, 0int,
    {
        if fuel == 0 {
            return Err(fuel_error());
        }
        let v = match self.interpret_node(&node.expr, fuel - 1) {
            Ok(v) => v,
            Err(e) => {
                return Err(e);
            },
        };
        let stored = dup_value(&v);
        if self.env.assign(self.cur, &node.variable.text, stored) {
            Ok(v)
        } else {
            let mut m = String::from_str("undefined variable '");
            m.append(node.variable.text.as_str());
            m.append("'");
            Err(LoxError::new(node.variable.line, m))
        }
    }

    pub fn interpret_expr_stmt(&mut self, node: &ExprStmt, fuel: u64) -> (r: Result<
        Value,
        LoxError,
    >)
        requires
            old(self).wf(),
        ensures
            final(self).wf(),
            old(self)@.frames.len() <= final(self)@.frames.len(),
            sp_eval(
                old(self)@,
                Node::ExprStmt { inner: Box::new(node.expr@) },
                fuel as nat,
            ) == (final(self)@, res_view(r)),
        decreases fuel, 0int,
    {
        if fuel == 0 {
            return Err(fuel_error());
        }
        match self.interpret_node(&node.expr, fuel - 1) {
            Ok(_v) => Ok(Value::Nil),
            Err(e) => Err(e),
        }
    }

    pub fn interpret_print_stmt(&mut self, node: &PrintStmt, fuel: u64) -> (r: Result<
        Value,
        LoxError,
    >)
        requires
            old(self).wf(),
        ensures
            final(self).wf(),
            old(self)@.frames.len() <= final(self)@.frames.len(),
            sp_eval(
                old(self)@,
                Node::PrintStmt { inner: Box::new(node.expr@) },
                fuel as nat,
            ) == (final(self)@, res_view(r)),
        decreases fuel, 0int,
    {
        if fuel == 0 {
            return Err(fuel_error());
        }
        let v = match self.interpret_node(&node.expr, fuel - 1) {
            Ok(v) => v,
            Err(e) => {
                return Err(e);
            },
        };
        let ghost mid = self@;
        self.output.push(v.to_text());
        proof {
            assert(strings_view(self.output@) =~= mid.out.push(crate::function::sval_text(v@)));
            assert(self@ =~~= (StS { out: mid.out.push(crate::function::sval_text(v@)), ..mid }));
        }
        Ok(Value::Nil)
    }

    pub fn interpret_var_decl(&mut self, node: &VarDecl, fuel: u64) -> (r: Result<Value, LoxError>)
        requires
            old(self).wf(),
        ensures
            final(self).wf(),
            old(self)@.frames.len() <= final(self)@.frames.len(),
            sp_eval(
                old(self)@,
                Node::VarDecl { name: node.variable@, init: crate::ast::opt_node_view(node.expr) },
                fuel as nat,
            ) == (final(self)@, res_view(r)),
        decreases fuel, 0int,
    {
        if fuel == 0 {
            return Err(fuel_error());
        }
        let v = match &node.expr {
            Some(e) => match self.interpret_node(e, fuel - 1) {
                Ok(v) => v,
                Err(er) => {
                    return Err(er);
                },
            },
            None => Value::Nil,
        };
        let ghost mid = self@;
        let ghost vv = v@;
        self.env.init(self.cur, node.variable.text.clone(), v);
        proof {
            assert(self@ =~~= (StS {
                frames: crate::environment::env_define(mid.frames, mid.cur, node.variable@.text, vv),
                ..mid
            }));
        }
        Ok(Value::Nil)
    }

    pub fn interpret_break_stmt(&mut self, node: &BreakStmt, fuel: u64) -> (r: Result<
        Value,
        LoxError,
    >)
        requires
            old(self).wf(),
        ensures
            final(self).wf(),
            old(self)@.frames.len() <= final(self)@.frames.len(),
            sp_eval(old(self)@, Node::Break { tok: node.token@ }, fuel as nat) == (
                final(self)@,
                res_view(r),
            ),
        decreases fuel, 0int,
    {
        if fuel == 0 {
            return Err(fuel_error());
        }
        self.breaking = Some(node.token.duplicate());
        proof {
            assert(self@ =~~= (StS { breaking: Some(node.token@), ..old(self)@ }));
        }
        Ok(Value::Nil)
    }

    pub fn interpret_return_stmt(&mut self, node: &ReturnStmt, fuel: u64) -> (r: Result<
        Value,
        LoxError,
    >)
        requires
            old(self).wf(),
        ensures
            final(self).wf(),
            old(self)@.frames.len() <= final(self)@.frames.len(),
            sp_eval(
                old(self)@,
                Node::Return { tok: node.token@, value: crate::ast::opt_node_view(node.expr) },
                fuel as nat,
            ) == (final(self)@, res_view(r)),
        decreases fuel, 0int,
    {
        if fuel == 0 {
            return Err(fuel_error());
        }
        let v = match &node.expr {
            Some(e) => match self.interpret_node(e, fuel - 1) {
                Ok(v) => v,
                Err(er) => {
                    return Err(er);
                },
            },
            None => Value::Nil,
        };
        let ghost mid = self@;
        let ghost vv = v@;
        self.returning = Some((node.token.duplicate(), v));
        proof {
            assert(self@ =~~= (StS { returning: Some((node.token@, vv)), ..mid }));
        }
        Ok(Value::Nil)
    }

    pub fn interpret_if_stmt(&mut self, node: &IfStmt, fuel: u64) -> (r: Result<Value, LoxError>)
        requires
            old(self).wf(),
        ensures
            final(self).wf(),
            old(self)@.frames.len() <= final(self)@.frames.len(),
            sp_eval(
                old(self)@,
                Node::If {
                    cond: Box::new(node.expr@),
                    stmt: Box::new(node.stmt@),
                    els: crate::ast::opt_node_view(node.elstmt),
                },
                fuel as nat,
            ) == (final(self)@, res_view(r)),
        decreases fuel, 0int,
    {
        if fuel == 0 {
            return Err(fuel_error());
        }
        let c = match self.interpret_node(&node.expr, fuel - 1) {
            Ok(v) => v,
            Err(e) => {
                return Err(e);
            },
        };
        if c.truth() {
            match self.interpret_node(&node.stmt, fuel - 1) {
                Ok(_v) => Ok(Value::Nil),
                Err(e) => Err(e),
            }
        } else {
            match &node.elstmt {
                Some(e) => match self.interpret_node(e, fuel - 1) {
                    Ok(_v) => Ok(Value::Nil),
                    Err(er) => Err(er),
                },
                None => Ok(Value::Nil),
            }
        }
    }

    pub fn interpret_while_stmt(&mut self, node: &WhileStmt, fuel: u64) -> (r: Result<
        Value,
        LoxError,
    >)
        requires
            old(self).wf(),
        ensures
            final(self).wf(),
            old(self)@.frames.len() <= final(self)@.frames.len(),
            sp_eval(
                old(self)@,
                Node::While { cond: Box::new(node.expr@), body: Box::new(node.stmt@) },
                fuel as nat,
            ) == (final(self)@, res_view(r)),
        decreases fuel, 0int,
    {
        if fuel == 0 {
            return Err(fuel_error());
        }
        let c = match self.interpret_node(&node.expr, fuel - 1) {
            Ok(v) => v,
            Err(e) => {
                return Err(e);
            },
        };
        if !c.truth() {
            return Ok(Value::Nil);
        }
        match self.interpret_node(&node.stmt, fuel - 1) {
            Ok(_v) => {},
            Err(e) => {
                return Err(e);
            },
        }
        if self.breaking.is_some() {
            let ghost mid = self@;
            self.breaking = None;
            proof {
                assert(self@ =~~= (StS { breaking: None, ..mid }));
            }
            Ok(Value::Nil)
        } else if self.returning.is_some() {
            Ok(Value::Nil)
        } else {
            self.interpret_while_stmt(node, fuel - 1)
        }
    }

    pub fn interpret_block(&mut self, node: &Block, fuel: u64) -> (r: Result<Value, LoxError>)
        requires
            old(self).wf(),
        ensures
            final(self).wf(),
            old(self)@.frames.len() <= final(self)@.frames.len(),
            sp_eval(
                old(self)@,
                Node::Block { decs: nodes_view(node.decs@) },
                fuel as nat,
            ) == (final(self)@, res_view(r)),
        decreases fuel, 0int,
    {
        if fuel == 0 {
            return Err(fuel_error());
        }
        let saved = self.cur;
        let ni = self.env.push_frame(self.cur);
        self.cur = ni;
        proof {
            assert(self@ =~~= (StS {
                frames: crate::environment::env_push(old(self)@.frames, old(self)@.cur),
                cur: old(self)@.frames.len() as int,
                ..old(self)@
            }));
        }
        proof {
            assert(nodes_view(node.decs@).skip(0) =~= nodes_view(node.decs@));
        }
        match self.interpret_seq(&node.decs, 0, fuel - 1) {
            Ok(_v) => {
                let ghost mid = self@;
                self.cur = saved;
                proof {
                    assert(self@ =~~= (StS { cur: saved as int, ..mid }));
                }
                Ok(Value::Nil)
            },
            Err(e) => Err(e),
        }
    }

    pub fn interpret_program(&mut self, node: &Program, fuel: u64) -> (r: Result<Value, LoxError>)
        requires
            old(self).wf(),
        ensures
            final(self).wf(),
            old(self)@.frames.len() <= final(self)@.frames.len(),
            sp_eval(
                old(self)@,
                Node::Program { decs: nodes_view(node.decs@) },
                fuel as nat,
            ) == (final(self)@, res_view(r)),
        decreases fuel, 0int,
    {
        if fuel == 0 {
            return Err(fuel_error());
        }
        proof {
            assert(nodes_view(node.decs@).skip(0) =~= nodes_view(node.decs@));
        }
        match self.interpret_seq(&node.decs, 0, fuel - 1) {
            Ok(_v) => Ok(Value::Nil),
            Err(e) => Err(e),
        }
    }

    /// Evaluates `decs[i..]` in order, stopping early on a signal; mirrors
    /// `sp_eval_seq` on the remaining suffix.
    fn interpret_seq(&mut self, decs: &Vec<AstNodeRef>, i: usize, fuel: u64) -> (r: Result<
        Value,
        LoxError,
    >)
        requires
            old(self).wf(),
            i <= decs.len(),
        ensures
            final(self).wf(),
            old(self)@.frames.len() <= final(self)@.frames.len(),
            sp_eval_seq(old(self)@, nodes_view(decs@).skip(i as int), fuel as nat) == (
                final(self)@,
                res_view(r),
            ),
        decreases fuel, 0int,
    {
        proof {
            nodes_view_len(decs@);
        }
        let ghost rest = nodes_view(decs@).skip(i as int);
        if i == decs.len() {
            proof {
                assert(rest.len() == 0);
            }
            Ok(Value::Nil)
        } else if fuel == 0 {
            Err(fuel_error())
        } else {
            proof {
                nodes_view_index(decs@, i as int);
                assert(rest[0] == nodes_view(decs@)[i as int]);
            }
            match self.interpret_node(&decs[i], fuel - 1) {
                Ok(_v) => {},
                Err(e) => {
                    return Err(e);
                },
            }
            if self.breaking.is_some() || self.returning.is_some() {
                Ok(Value::Nil)
            } else {
                proof {
                    assert(rest.drop_first() =~= nodes_view(decs@).skip(i + 1));
                }
                self.interpret_seq(decs, i + 1, fuel - 1)
            }
        }
    }

    pub fn interpret_fun_decl(&mut self, node: &FunDecl, fuel: u64) -> (r: Result<Value, LoxError>)
        requires
            old(self).wf(),
        ensures
            final(self).wf(),
            old(self)@.frames.len() <= final(self)@.frames.len(),
            sp_eval(
                old(self)@,
                Node::FunDecl {
                    name: node.name@,
                    params: crate::token::toks_view(node.params@),
                    body: Box::new(node.block@),
                },
                fuel as nat,
            ) == (final(self)@, res_view(r)),
        decreases fuel, 0int,
    {
        if fuel == 0 {
            return Err(fuel_error());
        }
        let fv = Value::Function(
            Function {
                params: param_names(&node.params),
                code: Implementation::LoxImpl(clone_node(&node.block)),
                closure: Some(self.cur),
            },
        );
        let ghost mid = self@;
        let ghost vv = fv@;
        self.env.init(self.cur, node.name.text.clone(), fv);
        proof {
            assert(self@ =~~= (StS {
                frames: crate::environment::env_define(mid.frames, mid.cur, node.name@.text, vv),
                ..mid
            }));
        }
        Ok(Value::Nil)
    }

    pub fn interpret_fun_def(&mut self, node: &FunDef, fuel: u64) -> (r: Result<Value, LoxError>)
        requires
            old(self).wf(),
        ensures
            final(self).wf(),
            old(self)@.frames.len() <= final(self)@.frames.len(),
            sp_eval(
                old(self)@,
                Node::FunDef {
                    params: crate::token::toks_view(node.params@),
                    body: Box::new(node.block@),
                },
                fuel as nat,
            ) == (final(self)@, res_view(r)),
        decreases fuel, 0int,
    {
        if fuel == 0 {
            return Err(fuel_error());
        }
        Ok(
            Value::Function(
                Function {
                    params: param_names(&node.params),
                    code: Implementation::LoxImpl(clone_node(&node.block)),
                    closure: Some(self.cur),
                },
            ),
        )
    }

    /// Evaluates `args[i..]` left to right; mirrors `sp_eval_args`.
    fn interpret_args(&mut self, args: &Vec<AstNodeRef>, i: usize, fuel: u64) -> (r: Result<
        Vec<Value>,
        LoxError,
    >)
        requires
            old(self).wf(),
            i <= args.len(),
        ensures
            final(self).wf(),
            old(self)@.frames.len() <= final(self)@.frames.len(),
            match r {
                Ok(vals) => sp_eval_args(old(self)@, nodes_view(args@).skip(i as int), fuel as nat)
                    == (final(self)@, Ok::<Seq<ValueS>, ErrS>(vals_view(vals@))),
                Err(e) => sp_eval_args(old(self)@, nodes_view(args@).skip(i as int), fuel as nat)
                    == (final(self)@, Err::<Seq<ValueS>, ErrS>(e@)),
            },
        decreases fuel, 0int,
    {
        proof {
            nodes_view_len(args@);
        }
        let ghost rest = nodes_view(args@).skip(i as int);
        if i == args.len() {
            proof {
                assert(rest.len() == 0);
                assert(vals_view(Seq::<Value>::empty()) =~= Seq::<ValueS>::empty());
            }
            Ok(Vec::new())
        } else if fuel == 0 {
            Err(fuel_error())
        } else {
            proof {
                nodes_view_index(args@, i as int);
                assert(rest[0] == nodes_view(args@)[i as int]);
            }
            let v = match self.interpret_node(&args[i], fuel - 1) {
                Ok(v) => v,
                Err(e) => {
                    return Err(e);
                },
            };
            proof {
                assert(rest.drop_first() =~= nodes_view(args@).skip(i + 1));
            }
            let mut vs = match self.interpret_args(args, i + 1, fuel - 1) {
                Ok(vs) => vs,
                Err(e) => {
                    return Err(e);
                },
            };
            let ghost tail = vals_view(vs@);
            let ghost vv = v@;
            vs.insert(0, v);
            proof {
                assert(vals_view(vs@) =~= seq![vv] + tail);
            }
            Ok(vs)
        }
    }

    /// Runs a native built-in on evaluated arguments; mirrors `sp_native`.
    fn run_native(&mut self, k: NativeKind, vals: &Vec<Value>) -> (r: Result<Value, LoxError>)
        requires
            old(self).wf(),
        ensures
            final(self).wf(),
            old(self)@.frames.len() <= final(self)@.frames.len(),
            sp_native(old(self)@, k, vals_view(vals@)) == (final(self)@, res_view(r)),
    {
        match k {
            NativeKind::Log => {
                let mut line = String::new();
                let mut i: usize = 0;
                while i < vals.len()
                    invariant
                        i <= vals.len(),
                        line@ == log_line(vals_view(vals@).subrange(0, i as int)),
                    decreases vals.len() - i,
                {
                    let ghost pfx = vals_view(vals@).subrange(0, i as int);
                    line.append(vals[i].to_text().as_str());
                    line.append(" ");
                    proof {
                        let pfx1 = vals_view(vals@).subrange(0, i + 1);
                        assert(pfx1.drop_last() =~= pfx);
                        assert(pfx1.last() == vals@[i as int]@);
                    }
                    i = i + 1;
                }
                proof {
                    assert(vals_view(vals@).subrange(0, vals@.len() as int) =~= vals_view(vals@));
                }
                let ghost mid = self@;
                let ghost linev = line@;
                self.output.push(line);
                proof {
                    assert(strings_view(self.output@) =~= mid.out.push(linev));
                    assert(self@ =~~= (StS { out: mid.out.push(linev), ..mid }));
                }
                Ok(Value::Nil)
            },
            NativeKind::Clock => {
                let ms = self.start_ms as i128;
                Ok(Value::Number(ms * NUM_SCALE))
            },
        }
    }

    pub fn interpret_fun_call(&mut self, node: &FunCall, fuel: u64) -> (r: Result<Value, LoxError>)
        requires
            old(self).wf(),
        ensures
            final(self).wf(),
            old(self)@.frames.len() <= final(self)@.frames.len(),
            sp_eval(
                old(self)@,
                Node::Call {
                    callee: Box::new(node.callee@),
                    args: nodes_view(node.args@),
                    line: node.line as nat,
                },
                fuel as nat,
            ) == (final(self)@, res_view(r)),
        decreases fuel, 0int,
    {
        if fuel == 0 {
            return Err(fuel_error());
        }
        let cv = match self.interpret_node(&node.callee, fuel - 1) {
            Ok(v) => v,
            Err(e) => {
                return Err(e);
            },
        };
        let callee = match cv {
            Value::Function(f) => f,
            other => {
                let mut m = other.to_text();
                m.append(" is not callable");
                return Err(LoxError::new(node.line, m));
            },
        };
        if let Some(pcount) = check_arity(&callee.params, node.args.len()) {
            proof {
                nodes_view_len(node.args@);
            }
            let mut m = String::from_str("invalid number of arguments (");
            m.append(usize_text(node.args.len()).as_str());
            m.append(") passed to function which takes ");
            m.append(usize_text(pcount).as_str());
            m.append(" params");
            return Err(LoxError::new(node.line, m));
        }
        proof {
            nodes_view_len(node.args@);
            assert(nodes_view(node.args@).skip(0) =~= nodes_view(node.args@));
        }
        let vals = match self.interpret_args(&node.args, 0, fuel - 1) {
            Ok(vs) => vs,
            Err(e) => {
                return Err(e);
            },
        };
        match &callee.code {
            Implementation::NativeImpl(k) => self.run_native(*k, &vals),
            Implementation::LoxImpl(body) => {
                let flen = self.env.frames.len();
                proof {
                    assert(self.env@.len() == flen as int);
                }
                let parent = match callee.closure {
                    Some(c) => if c < flen {
                        c
                    } else {
                        0
                    },
                    None => 0,
                };
                let ghost st2 = self@;
                let ni = self.env.push_frame(parent);
                self.bind_args(ni, &callee.params, &vals);
                proof {
                    assert(self@.frames =~~= st2.frames.push(
                        crate::environment::FrameS {
                            entries: bind_params(strings_view(callee.params@), vals_view(vals@)),
                            parent: Some(parent as int),
                        },
                    ));
                }
                let saved = self.cur;
                self.cur = ni;
                proof {
                    assert(self@ =~~= (StS {
                        frames: st2.frames.push(
                            crate::environment::FrameS {
                                entries: bind_params(
                                    strings_view(callee.params@),
                                    vals_view(vals@),
                                ),
                                parent: Some(parent as int),
                            },
                        ),
                        cur: st2.frames.len() as int,
                        ..st2
                    }));
                }
                match self.interpret_node(body, fuel - 1) {
                    Ok(_v) => {},
                    Err(e) => {
                        return Err(e);
                    },
                }
                let ghost st4 = self@;
                self.cur = saved;
                proof {
                    assert(self@ =~~= (StS { cur: saved as int, ..st4 }));
                }
                let taken = self.returning.take();
                match taken {
                    Some((_t, v)) => {
                        proof {
                            assert(self@ =~~= (StS {
                                returning: None,
                                ..(StS { cur: saved as int, ..st4 })
                            }));
                        }
                        Ok(v)
                    },
                    None => Ok(Value::Nil),
                }
            },
        }
    }

    /// Binds parameters to argument values, position by position, in frame
    /// `ni`, which must be the freshly opened empty call frame.
    #[verifier::loop_isolation(false)]
    fn bind_args(&mut self, ni: usize, params: &Vec<String>, vals: &Vec<Value>)
        requires
            old(self).wf(),
            ni < old(self)@.frames.len(),
            old(self)@.frames[ni as int].entries == Seq::<(Seq<char>, ValueS)>::empty(),
        ensures
            final(self).wf(),
            final(self)@ == (StS {
                frames: old(self)@.frames.update(
                    ni as int,
                    crate::environment::FrameS {
                        entries: bind_params(strings_view(params@), vals_view(vals@)),
                        parent: old(self)@.frames[ni as int].parent,
                    },
                ),
                ..old(self)@
            }),
    {
        let n = if params.len() <= vals.len() {
            params.len()
        } else {
            vals.len()
        };
        let ghost target = bind_params(strings_view(params@), vals_view(vals@));
        proof {
            assert(target.subrange(0, 0) =~= Seq::<(Seq<char>, ValueS)>::empty());
            assert(old(self)@.frames.update(
                ni as int,
                crate::environment::FrameS {
                    entries: target.subrange(0, 0),
                    parent: old(self)@.frames[ni as int].parent,
                },
            ) =~~= old(self)@.frames);
        }
        let mut i: usize = 0;
        while i < n
            invariant
                old(self).wf(),
                self.wf(),
                ni < self@.frames.len(),
                n == if params@.len() <= vals@.len() {
                    params@.len() as int
                } else {
                    vals@.len() as int
                },
                i <= n,
                target == bind_params(strings_view(params@), vals_view(vals@)),
                target.len() == n,
                self@ == (StS {
                    frames: old(self)@.frames.update(
                        ni as int,
                        crate::environment::FrameS {
                            entries: target.subrange(0, i as int),
                            parent: old(self)@.frames[ni as int].parent,
                        },
                    ),
                    ..old(self)@
                }),
            decreases n - i,
    {
            let ghost pre = self@;
            self.env.init(ni, params[i].clone(), dup_value(&vals[i]));
            proof {
                assert(target.subrange(0, i + 1) =~= target.subrange(0, i as int).push(
                    (params@[i as int]@, vals@[i as int]@),
                ));
                assert(self@ =~~= (StS {
                    frames: old(self)@.frames.update(
                        ni as int,
                        crate::environment::FrameS {
                            entries: target.subrange(0, i + 1),
                            parent: old(self)@.frames[ni as int].parent,
                        },
                    ),
                    ..old(self)@
                }));
            }
            i = i + 1;
        }
        proof {
            assert(target.subrange(0, target.len() as int) =~= target);
            if n == 0 {
                assert(old(self)@.frames.update(
                    ni as int,
                    crate::environment::FrameS {
                        entries: target,
                        parent: old(self)@.frames[ni as int].parent,
                    },
                ) =~~= old(self)@.frames);
            }
            assert(self@ =~~= (StS {
                frames: old(self)@.frames.update(
                    ni as int,
                    crate::environment::FrameS {
                        entries: target,
                        parent: old(self)@.frames[ni as int].parent,
                    },
                ),
                ..old(self)@
            }));
        }
    }
}

/// What one run of a program produced: the root's value when everything went
/// well, every line printed along the way, and the error that ended the run
/// early, if one did.
pub struct RunOutcome {
    pub value: Option<Value>,
    pub output: Vec<String>,
    pub error: Option<LoxError>,
}

impl View for RunOutcome {
    type V = RunS;

    open spec fn view(&self) -> RunS {
        RunS {
            value: match self.value {
                Some(ref v) => Some(v@),
                None => None,
            },
            out: strings_view(self.output@),
            err: match self.error {
                Some(ref e) => Some(e@),
                None => None,
            },
        }
    }
}

/// Milliseconds since the Unix epoch, read once per run to give `clock` its
/// value.  Relies on `std::time::SystemTime::now` and
/// `duration_since(UNIX_EPOCH)`; nothing is assumed of the reading.
#[verifier::external_body]
fn now_millis() -> u64 {
    match std::time::SystemTime::now().duration_since(std::time::UNIX_EPOCH) {
        Ok(d) => {
            let ms = d.as_millis();
            if ms > u64::MAX as u128 {
                u64::MAX
            } else {
                ms as u64
            }
        },
        Err(_) => 0,
    }
}

/// Evaluates a tree with the given starting clock reading: the outcome is
/// exactly what the big-step semantics assigns the program.
pub fn interpret_at(ast: &Ast, start_millis: u64) -> (r: RunOutcome)
    ensures
        r@ == sp_interpret(ast@, start_millis as int),
{
    let mut env = Environment::new();
    let mut log_params: Vec<String> = Vec::new();
    log_params.push(String::new());
    let ghost lpv = log_params@;
    env.init(
        0,
        String::from_str("log"),
        Value::Function(
            Function {
                params: log_params,
                code: Implementation::NativeImpl(NativeKind::Log),
                closure: None,
            },
        ),
    );
    env.init(
        0,
        String::from_str("clock"),
        Value::Function(
            Function {
                params: Vec::new(),
                code: Implementation::NativeImpl(NativeKind::Clock),
                closure: None,
            },
        ),
    );
    let mut it = Interpretor {
        env,
        cur: 0,
        breaking: None,
        returning: None,
        output: Vec::new(),
        start_ms: start_millis,
    };
    proof {
        assert(strings_view(lpv) =~= seq![Seq::<char>::empty()]);
        assert(it@.frames[0].entries.len() == 2);
        assert(it@.frames[0].entries[0].0 == "log"@);
        assert(it@.frames[0].entries[1].0 == "clock"@);
        assert(it@.frames[0].entries[0].1 matches ValueS::Fun(f) && f.params
            == seq![Seq::<char>::empty()] && f.code == ImplS::Native(NativeKind::Log)
            && f.closure is None);
        assert(strings_view(Seq::<String>::empty()) =~= Seq::<Seq<char>>::empty());
        assert(it@.frames[0].entries[0].1 =~~= crate::sem::initial_frame().entries[0].1);
        assert(it@.frames[0].entries[1].1 =~~= crate::sem::initial_frame().entries[1].1);
        assert(it@.frames[0].entries =~~= crate::sem::initial_frame().entries);
        assert(it@.frames[0] =~~= crate::sem::initial_frame());
        assert(it@.frames =~~= crate::sem::init_state(start_millis as int).frames);
        assert(it@ =~~= crate::sem::init_state(start_millis as int));
    }
    let r = it.interpret_node(&ast.root, u64::MAX);
    match r {
        Err(e) => RunOutcome { value: None, output: it.output, error: Some(e) },
        Ok(v) => {
            if let Some(tok) = it.breaking {
                RunOutcome {
                    value: None,
                    output: it.output,
                    error: Some(
                        LoxError::new(tok.line, String::from_str("break statement out of loop")),
                    ),
                }
            } else if let Some((tok, _rv)) = it.returning {
                RunOutcome {
                    value: None,
                    output: it.output,
                    error: Some(
                        LoxError::new(
                            tok.line,
                            String::from_str("return statement out of function"),
                        ),
                    ),
                }
            } else {
                RunOutcome { value: Some(v), output: it.output, error: None }
            }
        },
    }
}

/// Evaluates a tree with the wall clock read at entry: the outcome is what
/// the semantics assigns the program for some starting reading.
pub fn interpret(ast: &Ast) -> (r: RunOutcome)
    ensures
        exists|t: u64| r@ == sp_interpret(ast@, t as int),
{
    let ms = now_millis();
    let r = interpret_at(ast, ms);
    proof {
        assert(r@ == sp_interpret(ast@, ms as int));
    }
    r
}

/// Runs the whole pipeline on a source text: scan, parse as a program,
/// evaluate.  Scan and parse failures come back as the error list; once
/// those passes succeed the outcome is the program's.
pub fn interpret_source(text: String) -> (r: Result<RunOutcome, Vec<LoxError>>)
    ensures
        match r {
            Ok(out) => {
                &&& crate::scan::sp_scan(text@, 0, 0).1.len() == 0
                &&& (crate::parse::sp_parse_program(crate::scan::sp_scan(text@, 0, 0).0)
                    matches Ok(n) && exists|t: u64| out@ == sp_interpret(n, t as int))
            },
            Err(es) => {
                ||| (crate::scan::sp_scan(text@, 0, 0).1.len() > 0 && crate::error::errs_view(es@)
                    == crate::scan::sp_scan(text@, 0, 0).1)
                ||| (crate::scan::sp_scan(text@, 0, 0).1.len() == 0
                    && (crate::parse::sp_parse_program(crate::scan::sp_scan(text@, 0, 0).0)
                    matches Err(e) && crate::error::errs_view(es@) =~= seq![e]))
            },
        },
{
    let chars = text_chars(&text);
    let tokens = match crate::scan::scan(chars) {
        Ok(ts) => ts,
        Err(es) => {
            return Err(es);
        },
    };
    proof {
        crate::scan::sp_scan_shape(text@, 0, 0);
    }
    match crate::parse::parse_source_result(tokens) {
        Ok(ast) => Ok(interpret_at(&ast, now_millis())),
        Err(e) => {
            let mut es: Vec<LoxError> = Vec::new();
            let ghost ev = e@;
            es.push(e);
            proof {
                assert(crate::error::errs_view(es@) =~= seq![ev]);
            }
            Err(es)
        },
    }
}

/// Runs the pipeline on one line holding a single expression; used for
/// one-shot evaluation, where the expression's own value is the interest.
pub fn interpret_line(text: String) -> (r: Result<RunOutcome, Vec<LoxError>>)
    ensures
        match r {
            Ok(out) => {
                &&& crate::scan::sp_scan(text@, 0, 0).1.len() == 0
                &&& (crate::parse::sp_parse_expression(crate::scan::sp_scan(text@, 0, 0).0)
                    matches Ok(n) && exists|t: u64| out@ == sp_interpret(n, t as int))
            },
            Err(es) => {
                ||| (crate::scan::sp_scan(text@, 0, 0).1.len() > 0 && crate::error::errs_view(es@)
                    == crate::scan::sp_scan(text@, 0, 0).1)
                ||| (crate::scan::sp_scan(text@, 0, 0).1.len() == 0
                    && (crate::parse::sp_parse_expression(crate::scan::sp_scan(text@, 0, 0).0)
                    matches Err(e) && crate::error::errs_view(es@) =~= seq![e]))
            },
        },
{
    let chars = text_chars(&text);
    let tokens = match crate::scan::scan(chars) {
        Ok(ts) => ts,
        Err(es) => {
            return Err(es);
        },
    };
    proof {
        crate::scan::sp_scan_shape(text@, 0, 0);
    }
    match crate::parse::parse_expresssion_result(tokens) {
        Ok(ast) => Ok(interpret_at(&ast, now_millis())),
        Err(e) => {
            let mut es: Vec<LoxError> = Vec::new();
            let ghost ev = e@;
            es.push(e);
            proof {
                assert(crate::error::errs_view(es@) =~= seq![ev]);
            }
            Err(es)
        },
    }
}

/// Applies an arithmetic or comparison operator; mirrors `sp_apply_binary`.
fn apply_binary_x(op: &Token, a: Value, b: Value) -> (r: Result<Value, LoxError>)
    ensures
        res_view(r) == crate::sem::sp_apply_binary(op@, a@, b@),
{
    let k = op.kind;
    if k == TokenKind::Plus {
        match (a, b) {
            (Value::Number(x), Value::Number(y)) => match num_add(x, y) {
                Some(u) => Ok(Value::Number(u)),
                None => Err(LoxError::new(op.line, String::from_str("number overflow"))),
            },
            (Value::String(x), Value::String(y)) => Ok(Value::String(x.concat(y.as_str()))),
            _ => Err(LoxError::new(op.line, String::from_str(
                "operator '+' can only be used on 2 numbers or 2 strings",
            ))),
        }
    } else {
        match (a, b) {
            (Value::Number(x), Value::Number(y)) => {
                if k == TokenKind::Star {
                    match num_mul(x, y) {
                        Some(u) => Ok(Value::Number(u)),
                        None => Err(LoxError::new(op.line, String::from_str("number overflow"))),
                    }
                } else if k == TokenKind::Slash {
                    match num_div(x, y) {
                        Some(u) => Ok(Value::Number(u)),
                        None => if y == 0 {
                            Err(LoxError::new(op.line, String::from_str("division by zero")))
                        } else {
                            Err(LoxError::new(op.line, String::from_str("number overflow")))
                        },
                    }
                } else if k == TokenKind::Minus {
                    match num_sub(x, y) {
                        Some(u) => Ok(Value::Number(u)),
                        None => Err(LoxError::new(op.line, String::from_str("number overflow"))),
                    }
                } else if k == TokenKind::GreaterEqual {
                    Ok(Value::Boolean(x >= y))
                } else if k == TokenKind::LessEqual {
                    Ok(Value::Boolean(x <= y))
                } else if k == TokenKind::Less {
                    Ok(Value::Boolean(x < y))
                } else if k == TokenKind::Greater {
                    Ok(Value::Boolean(x > y))
                } else {
                    Err(LoxError::new(op.line, String::from_str("invalid operator")))
                }
            },
            _ => Err(LoxError::new(op.line, String::from_str(
                "arithmetic operators can only be used on numbers",
            ))),
        }
    }
}

/// The parameter names of a declaration, as owned strings.
fn param_names(params: &Vec<Token>) -> (r: Vec<String>)
    ensures
        strings_view(r@) == crate::token::toks_view(params@).map_values(|t: TokenS| t.text),
{
    let mut out: Vec<String> = Vec::new();
    let mut i: usize = 0;
    while i < params.len()
        invariant
            i <= params.len(),
            out@.len() == i,
            forall|j: int| 0 <= j < i ==> out@[j]@ == params@[j]@.text,
        decreases params.len() - i,
    {
        out.push(params[i].text.clone());
        i = i + 1;
    }
    proof {
        assert(strings_view(out@) =~= crate::token::toks_view(params@).map_values(
            |t: TokenS| t.text,
        ));
    }
    out
}

} // verus!
