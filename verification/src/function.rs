use crate::ast::{AstNode, AstNodeRef, Node, node_view, nodes_view, nodes_view_index};
use crate::number::{num_text, sp_num_text};
use crate::token::{Token, streq, toks_view};
use vstd::prelude::*;

verus! {

// Runtime values and callable functions.  A user function pairs the shared
// body tree with the parameter names and the frame it was declared in (its
// closure); a native function is one of the built-ins the host supplies.
/// The closed set of native built-ins.
#[derive(PartialEq, Eq, Structural, Clone, Copy, Debug)]
pub enum NativeKind {
    Log,
    Clock,
}

/// What a callable runs: a host-provided native, or a user body tree.
pub enum Implementation {
    NativeImpl(NativeKind),
    LoxImpl(AstNodeRef),
}

/// A callable value: parameter names, the code, and for user functions the
/// index of the environment frame captured at declaration.  A trailing
/// empty-string parameter name marks the function as variadic.
pub struct Function {
    pub params: Vec<String>,
    pub code: Implementation,
    pub closure: Option<usize>,
}

/// A runtime value: number (in millionths), string, boolean, function or nil.
pub enum Value {
    Number(i128),
    String(String),
    Boolean(bool),
    Function(Function),
    Nil,
}

/// Mathematical images.
pub enum ImplS {
    Native(NativeKind),
    Lox(Box<Node>),
}

#[verifier::ext_equal]
pub struct FunS {
    pub params: Seq<Seq<char>>,
    pub code: ImplS,
    pub closure: Option<int>,
}

pub enum ValueS {
    Num(int),
    Str(Seq<char>),
    Bool(bool),
    Fun(FunS),
    Nil,
}

pub open spec fn strings_view(s: Seq<String>) -> Seq<Seq<char>> {
    s.map_values(|x: String| x@)
}

impl View for Implementation {
    type V = ImplS;

    open spec fn view(&self) -> ImplS {
        match self {
            Implementation::NativeImpl(k) => ImplS::Native(*k),
            Implementation::LoxImpl(body) => ImplS::Lox(Box::new(node_view(**body))),
        }
    }
}

impl View for Function {
    type V = FunS;

    open spec fn view(&self) -> FunS {
        FunS {
            params: strings_view(self.params@),
            code: self.code@,
            closure: match self.closure {
                Some(i) => Some(i as int),
                None => None,
            },
        }
    }
}

impl View for Value {
    type V = ValueS;

    open spec fn view(&self) -> ValueS {
        match self {
            Value::Number(u) => ValueS::Num(*u as int),
            Value::String(s) => ValueS::Str(s@),
            Value::Boolean(b) => ValueS::Bool(*b),
            Value::Function(f) => ValueS::Fun(f@),
            Value::Nil => ValueS::Nil,
        }
    }
}

/// Language truthiness: `nil` and `false` are the only falsy values; every
/// other value, including `0` and the empty string, is truthy.
pub open spec fn sval_truth(v: ValueS) -> bool {
    !(v == ValueS::Nil || v == ValueS::Bool(false))
}

/// Structural equality between values, with no coercion between kinds.
/// Functions are compared by their definition: same parameter names and the
/// same code; which frame a closure captured does not enter into it.
pub open spec fn sval_eq(a: ValueS, b: ValueS) -> bool {
    match (a, b) {
        (ValueS::Num(x), ValueS::Num(y)) => x == y,
        (ValueS::Str(x), ValueS::Str(y)) => x == y,
        (ValueS::Bool(x), ValueS::Bool(y)) => x == y,
        (ValueS::Nil, ValueS::Nil) => true,
        (ValueS::Fun(f), ValueS::Fun(g)) => f.params == g.params && f.code == g.code,
        _ => false,
    }
}

/// The printable representation of a value.
pub open spec fn sval_text(v: ValueS) -> Seq<char> {
    match v {
        ValueS::Num(u) => sp_num_text(u),
        ValueS::Str(s) => s,
        ValueS::Bool(b) => if b {
            "true"@
        } else {
            "false"@
        },
        ValueS::Nil => "NIL"@,
        ValueS::Fun(f) => match f.code {
            ImplS::Native(_) => "[Native Function]"@,
            ImplS::Lox(_) => "[Function]"@,
        },
    }
}

impl Value {
    /// Language truthiness of this value.
    pub fn truth(&self) -> (r: bool)
        ensures
            r == sval_truth(self@),
    {
        match self {
            Value::Nil => false,
            Value::Boolean(b) => *b,
            _ => true,
        }
    }

    /// The printable representation of this value.
    pub fn to_text(&self) -> (s: String)
        ensures
            s@ == sval_text(self@),
    {
        match self {
            Value::Number(u) => num_text(*u),
            Value::String(s) => s.clone(),
            Value::Boolean(b) => {
                if *b {
                    String::from_str("true")
                } else {
                    String::from_str("false")
                }
            },
            Value::Nil => String::from_str("NIL"),
            Value::Function(f) => match f.code {
                Implementation::NativeImpl(_) => String::from_str("[Native Function]"),
                Implementation::LoxImpl(_) => String::from_str("[Function]"),
            },
        }
    }
}

impl Function {
    pub fn create(code: Implementation, params: Vec<String>, closure: Option<usize>) -> (f:
        Function)
        ensures
            f == (Function { params, code, closure }),
    {
        Function { params, code, closure }
    }

    pub fn code(&self) -> (r: &Implementation)
        ensures
            r == &self.code,
    {
        &self.code
    }

    pub fn params(&self) -> (r: &Vec<String>)
        ensures
            r == &self.params,
    {
        &self.params
    }

    pub fn closure(&self) -> (r: Option<usize>)
        ensures
            r == self.closure,
    {
        self.closure
    }
}

/// An equal copy of a string list.
pub fn dup_strings(v: &Vec<String>) -> (r: Vec<String>)
    ensures
        strings_view(r@) == strings_view(v@),
{
    let mut out: Vec<String> = Vec::new();
    let mut i: usize = 0;
    while i < v.len()
        invariant
            i <= v.len(),
            out@.len() == i,
            forall|j: int| 0 <= j < i ==> out@[j]@ == v@[j]@,
        decreases v.len() - i,
    {
        out.push(v[i].clone());
        i = i + 1;
    }
    proof {
        assert(strings_view(out@) =~= strings_view(v@));
    }
    out
}

/// An equal copy of a syntax tree, used where a closure must own the body.
#[verifier::loop_isolation(false)]
pub fn clone_node(n: &AstNode) -> (r: Box<AstNode>)
    ensures
        r@ == n@,
    decreases *n,
{
    match n {
        AstNode::BinaryExpr(b) => Box::new(
            AstNode::BinaryExpr(
                crate::ast::BinaryExpr {
                    token: b.token.duplicate(),
                    lexpr: clone_node(&b.lexpr),
                    rexpr: clone_node(&b.rexpr),
                },
            ),
        ),
        AstNode::UnaryExpr(u) => Box::new(
            AstNode::UnaryExpr(
                crate::ast::UnaryExpr { token: u.token.duplicate(), expr: clone_node(&u.expr) },
            ),
        ),
        AstNode::GroupExpr(g) => Box::new(
            AstNode::GroupExpr(crate::ast::GroupExpr { expr: clone_node(&g.expr) }),
        ),
        AstNode::LiteralExpr(l) => Box::new(
            AstNode::LiteralExpr(crate::ast::LiteralExpr { token: l.token.duplicate() }),
        ),
        AstNode::AssignExpr(a) => Box::new(
            AstNode::AssignExpr(
                crate::ast::AssignExpr {
                    variable: a.variable.duplicate(),
                    expr: clone_node(&a.expr),
                },
            ),
        ),
        AstNode::ExprStmt(e) => Box::new(
            AstNode::ExprStmt(crate::ast::ExprStmt { expr: clone_node(&e.expr) }),
        ),
        AstNode::PrintStmt(p) => Box::new(
            AstNode::PrintStmt(crate::ast::PrintStmt { expr: clone_node(&p.expr) }),
        ),
        AstNode::VarDecl(v) => Box::new(
            AstNode::VarDecl(
                crate::ast::VarDecl {
                    variable: v.variable.duplicate(),
                    expr: clone_opt_node(&v.expr),
                },
            ),
        ),
        AstNode::Block(b) => Box::new(
            AstNode::Block(crate::ast::Block { decs: clone_nodes(&b.decs) }),
        ),
        AstNode::Program(p) => Box::new(
            AstNode::Program(crate::ast::Program { decs: clone_nodes(&p.decs) }),
        ),
        AstNode::IfStmt(i) => Box::new(
            AstNode::IfStmt(
                crate::ast::IfStmt {
                    expr: clone_node(&i.expr),
                    stmt: clone_node(&i.stmt),
                    elstmt: clone_opt_node(&i.elstmt),
                },
            ),
        ),
        AstNode::WhileStmt(w) => Box::new(
            AstNode::WhileStmt(
                crate::ast::WhileStmt { expr: clone_node(&w.expr), stmt: clone_node(&w.stmt) },
            ),
        ),
        AstNode::BreakStmt(b) => Box::new(
            AstNode::BreakStmt(crate::ast::BreakStmt { token: b.token.duplicate() }),
        ),
        AstNode::ReturnStmt(r) => Box::new(
            AstNode::ReturnStmt(
                crate::ast::ReturnStmt { token: r.token.duplicate(), expr: clone_opt_node(&r.expr) },
            ),
        ),
        AstNode::FunCall(c) => Box::new(
            AstNode::FunCall(
                crate::ast::FunCall {
                    line: c.line,
                    callee: clone_node(&c.callee),
                    args: clone_nodes(&c.args),
                },
            ),
        ),
        AstNode::FunDecl(f) => Box::new(
            AstNode::FunDecl(
                crate::ast::FunDecl {
                    name: f.name.duplicate(),
                    params: dup_tokens(&f.params),
                    block: clone_node(&f.block),
                },
            ),
        ),
        AstNode::FunDef(f) => Box::new(
            AstNode::FunDef(
                crate::ast::FunDef { params: dup_tokens(&f.params), block: clone_node(&f.block) },
            ),
        ),
    }
}

fn clone_opt_node(o: &Option<AstNodeRef>) -> (r: Option<AstNodeRef>)
    ensures
        crate::ast::opt_node_view(r) == crate::ast::opt_node_view(*o),
    decreases *o,
{
    match o {
        Some(n) => Some(clone_node(n)),
        None => None,
    }
}

#[verifier::loop_isolation(false)]
fn clone_nodes(v: &Vec<AstNodeRef>) -> (r: Vec<AstNodeRef>)
    ensures
        nodes_view(r@) == nodes_view(v@),
    decreases v@,
{
    let mut out: Vec<AstNodeRef> = Vec::new();
    let mut i: usize = 0;
    while i < v.len()
        invariant
            i <= v.len(),
            out@.len() == i,
            forall|j: int| 0 <= j < i ==> out@[j]@ == v@[j]@,
        decreases v.len() - i,
    {
        proof {
            assert(decreases_to!(v@ => v@[i as int]));
        }
        out.push(clone_node(&v[i]));
        i = i + 1;
    }
    proof {
        assert forall|j: int| 0 <= j < out@.len() implies nodes_view(out@)[j] == nodes_view(v@)[j]
        by {
            nodes_view_index(out@, j);
            nodes_view_index(v@, j);
        }
        if out@.len() > 0 {
            nodes_view_index(out@, 0);
            nodes_view_index(v@, 0);
        }
        assert(nodes_view(out@) =~= nodes_view(v@));
    }
    out
}

/// An equal copy of a token list.
pub fn dup_tokens(v: &Vec<Token>) -> (r: Vec<Token>)
    ensures
        toks_view(r@) == toks_view(v@),
{
    let mut out: Vec<Token> = Vec::new();
    let mut i: usize = 0;
    while i < v.len()
        invariant
            i <= v.len(),
            out@.len() == i,
            forall|j: int| 0 <= j < i ==> out@[j]@ == v@[j]@,
        decreases v.len() - i,
    {
        out.push(v[i].duplicate());
        i = i + 1;
    }
    proof {
        assert(toks_view(out@) =~= toks_view(v@));
    }
    out
}

/// Whether two string lists hold the same texts.
pub fn strings_eq(a: &Vec<String>, b: &Vec<String>) -> (r: bool)
    ensures
        r == (strings_view(a@) == strings_view(b@)),
{
    if a.len() != b.len() {
        proof {
            assert(strings_view(a@).len() != strings_view(b@).len());
        }
        return false;
    }
    let mut i: usize = 0;
    while i < a.len()
        invariant
            a@.len() == b@.len(),
            i <= a.len(),
            forall|j: int| 0 <= j < i ==> a@[j]@ == b@[j]@,
        decreases a.len() - i,
    {
        if !streq(&a[i], &b[i]) {
            proof {
                assert(strings_view(a@)[i as int] != strings_view(b@)[i as int]);
            }
            return false;
        }
        i = i + 1;
    }
    proof {
        assert(strings_view(a@) =~= strings_view(b@));
    }
    true
}

/// Whether two tokens are the same in kind, text and line.
pub fn token_eq(a: &Token, b: &Token) -> (r: bool)
    ensures
        r == (a@ == b@),
{
    a.kind == b.kind && streq(&a.text, &b.text) && a.line == b.line
}

/// Whether two token lists agree pointwise.
pub fn tokens_eq(a: &Vec<Token>, b: &Vec<Token>) -> (r: bool)
    ensures
        r == (toks_view(a@) == toks_view(b@)),
{
    if a.len() != b.len() {
        proof {
            assert(toks_view(a@).len() != toks_view(b@).len());
        }
        return false;
    }
    let mut i: usize = 0;
    while i < a.len()
        invariant
            a@.len() == b@.len(),
            i <= a.len(),
            forall|j: int| 0 <= j < i ==> a@[j]@ == b@[j]@,
        decreases a.len() - i,
    {
        if !token_eq(&a[i], &b[i]) {
            proof {
                assert(toks_view(a@)[i as int] != toks_view(b@)[i as int]);
            }
            return false;
        }
        i = i + 1;
    }
    proof {
        assert(toks_view(a@) =~= toks_view(b@));
    }
    true
}

/// Structural equality of two syntax trees: same shape, same tokens.
#[verifier::loop_isolation(false)]
pub fn node_eq(a: &AstNode, b: &AstNode) -> (r: bool)
    ensures
        r == (a@ == b@),
    decreases *a,
{
    match (a, b) {
        (AstNode::BinaryExpr(x), AstNode::BinaryExpr(y)) => token_eq(&x.token, &y.token)
            && node_eq(&x.lexpr, &y.lexpr) && node_eq(&x.rexpr, &y.rexpr),
        (AstNode::UnaryExpr(x), AstNode::UnaryExpr(y)) => token_eq(&x.token, &y.token) && node_eq(
            &x.expr,
            &y.expr,
        ),
        (AstNode::GroupExpr(x), AstNode::GroupExpr(y)) => node_eq(&x.expr, &y.expr),
        (AstNode::LiteralExpr(x), AstNode::LiteralExpr(y)) => token_eq(&x.token, &y.token),
        (AstNode::AssignExpr(x), AstNode::AssignExpr(y)) => token_eq(&x.variable, &y.variable)
            && node_eq(&x.expr, &y.expr),
        (AstNode::ExprStmt(x), AstNode::ExprStmt(y)) => node_eq(&x.expr, &y.expr),
        (AstNode::PrintStmt(x), AstNode::PrintStmt(y)) => node_eq(&x.expr, &y.expr),
        (AstNode::VarDecl(x), AstNode::VarDecl(y)) => token_eq(&x.variable, &y.variable)
            && opt_node_eq(&x.expr, &y.expr),
        (AstNode::Block(x), AstNode::Block(y)) => nodes_eq(&x.decs, &y.decs, 0),
        (AstNode::Program(x), AstNode::Program(y)) => nodes_eq(&x.decs, &y.decs, 0),
        (AstNode::IfStmt(x), AstNode::IfStmt(y)) => node_eq(&x.expr, &y.expr) && node_eq(
            &x.stmt,
            &y.stmt,
        ) && opt_node_eq(&x.elstmt, &y.elstmt),
        (AstNode::WhileStmt(x), AstNode::WhileStmt(y)) => node_eq(&x.expr, &y.expr) && node_eq(
            &x.stmt,
            &y.stmt,
        ),
        (AstNode::BreakStmt(x), AstNode::BreakStmt(y)) => token_eq(&x.token, &y.token),
        (AstNode::ReturnStmt(x), AstNode::ReturnStmt(y)) => token_eq(&x.token, &y.token)
            && opt_node_eq(&x.expr, &y.expr),
        (AstNode::FunCall(x), AstNode::FunCall(y)) => x.line == y.line && node_eq(
            &x.callee,
            &y.callee,
        ) && nodes_eq(&x.args, &y.args, 0),
        (AstNode::FunDecl(x), AstNode::FunDecl(y)) => token_eq(&x.name, &y.name) && tokens_eq(
            &x.params,
            &y.params,
        ) && node_eq(&x.block, &y.block),
        (AstNode::FunDef(x), AstNode::FunDef(y)) => tokens_eq(&x.params, &y.params) && node_eq(
            &x.block,
            &y.block,
        ),
        _ => false,
    }
}

fn opt_node_eq(a: &Option<AstNodeRef>, b: &Option<AstNodeRef>) -> (r: bool)
    ensures
        r == (crate::ast::opt_node_view(*a) == crate::ast::opt_node_view(*b)),
    decreases *a,
{
    match (a, b) {
        (Some(x), Some(y)) => node_eq(x, y),
        (None, None) => true,
        _ => false,
    }
}

fn nodes_eq(a: &Vec<AstNodeRef>, b: &Vec<AstNodeRef>, i: usize) -> (r: bool)
    requires
        i <= a.len(),
        i <= b.len(),
        forall|j: int| 0 <= j < i ==> nodes_view(a@)[j] == nodes_view(b@)[j],
    ensures
        r == (nodes_view(a@) == nodes_view(b@)),
    decreases a@, a@.len() - i,
{
    proof {
        crate::ast::nodes_view_len(a@);
        crate::ast::nodes_view_len(b@);
    }
    if a.len() != b.len() {
        proof {
            assert(nodes_view(a@).len() != nodes_view(b@).len());
        }
        false
    } else if i == a.len() {
        proof {
            assert forall|j: int| 0 <= j < nodes_view(a@).len() implies nodes_view(a@)[j]
                == nodes_view(b@)[j] by {}
            assert(nodes_view(a@) =~= nodes_view(b@));
        }
        true
    } else {
        proof {
            assert(decreases_to!(a@ => *a@[i as int]));
            nodes_view_index(a@, i as int);
            nodes_view_index(b@, i as int);
        }
        if node_eq(&a[i], &b[i]) {
            nodes_eq(a, b, i + 1)
        } else {
            proof {
                assert(nodes_view(a@)[i as int] != nodes_view(b@)[i as int]);
            }
            false
        }
    }
}

/// Whether two values are equal in the language's sense; see `sval_eq`.
pub fn value_eq(a: &Value, b: &Value) -> (r: bool)
    ensures
        r == sval_eq(a@, b@),
{
    match (a, b) {
        (Value::Number(x), Value::Number(y)) => x == y,
        (Value::String(x), Value::String(y)) => streq(x, y),
        (Value::Boolean(x), Value::Boolean(y)) => x == y,
        (Value::Nil, Value::Nil) => true,
        (Value::Function(f), Value::Function(g)) => {
            let params_same = strings_eq(&f.params, &g.params);
            let code_same = match (&f.code, &g.code) {
                (Implementation::NativeImpl(k1), Implementation::NativeImpl(k2)) => k1 == k2,
                (Implementation::LoxImpl(b1), Implementation::LoxImpl(b2)) => node_eq(b1, b2),
                _ => false,
            };
            params_same && code_same
        },
        _ => false,
    }
}

/// An equal copy of a value, used when a value is both stored and handed on.
pub fn dup_value(v: &Value) -> (r: Value)
    ensures
        r@ == v@,
{
    match v {
        Value::Number(u) => Value::Number(*u),
        Value::String(s) => Value::String(s.clone()),
        Value::Boolean(b) => Value::Boolean(*b),
        Value::Nil => Value::Nil,
        Value::Function(f) => Value::Function(
            Function {
                params: dup_strings(&f.params),
                code: match &f.code {
                    Implementation::NativeImpl(k) => Implementation::NativeImpl(*k),
                    Implementation::LoxImpl(body) => Implementation::LoxImpl(clone_node(body)),
                },
                closure: f.closure,
            },
        ),
    }
}

} // verus!
