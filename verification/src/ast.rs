use crate::token::{Token, TokenS, toks_view};
use vstd::prelude::*;

verus! {

/// A shared, immutable syntax-tree node.  Subtrees are owned through
/// `AstNodeRef`; a closure keeps its body alive by holding an equal copy.
pub type AstNodeRef = Box<AstNode>;

/// The closed set of syntax-tree node variants.
pub enum AstNode {
    BinaryExpr(BinaryExpr),
    UnaryExpr(UnaryExpr),
    GroupExpr(GroupExpr),
    LiteralExpr(LiteralExpr),
    ExprStmt(ExprStmt),
    PrintStmt(PrintStmt),
    VarDecl(VarDecl),
    Block(Block),
    Program(Program),
    IfStmt(IfStmt),
    WhileStmt(WhileStmt),
    AssignExpr(AssignExpr),
    BreakStmt(BreakStmt),
    ReturnStmt(ReturnStmt),
    FunCall(FunCall),
    FunDecl(FunDecl),
    FunDef(FunDef),
}

/// Mathematical image of a syntax tree.
pub enum Node {
    Binary { op: TokenS, lhs: Box<Node>, rhs: Box<Node> },
    Unary { op: TokenS, operand: Box<Node> },
    Group { inner: Box<Node> },
    Literal { tok: TokenS },
    Assign { target: TokenS, rhs: Box<Node> },
    ExprStmt { inner: Box<Node> },
    PrintStmt { inner: Box<Node> },
    VarDecl { name: TokenS, init: Option<Box<Node>> },
    Block { decs: Seq<Node> },
    Program { decs: Seq<Node> },
    If { cond: Box<Node>, stmt: Box<Node>, els: Option<Box<Node>> },
    While { cond: Box<Node>, body: Box<Node> },
    Break { tok: TokenS },
    Return { tok: TokenS, value: Option<Box<Node>> },
    Call { callee: Box<Node>, args: Seq<Node>, line: nat },
    FunDecl { name: TokenS, params: Seq<TokenS>, body: Box<Node> },
    FunDef { params: Seq<TokenS>, body: Box<Node> },
}

pub struct BinaryExpr {
    pub token: Token,
    pub rexpr: AstNodeRef,
    pub lexpr: AstNodeRef,
}

pub struct UnaryExpr {
    pub token: Token,
    pub expr: AstNodeRef,
}

pub struct LiteralExpr {
    pub token: Token,
}

pub struct GroupExpr {
    pub expr: AstNodeRef,
}

pub struct ExprStmt {
    pub expr: AstNodeRef,
}

pub struct PrintStmt {
    pub expr: AstNodeRef,
}

pub struct VarDecl {
    pub variable: Token,
    pub expr: Option<AstNodeRef>,
}

pub struct AssignExpr {
    pub variable: Token,
    pub expr: AstNodeRef,
}

pub struct Program {
    pub decs: Vec<AstNodeRef>,
}

pub struct Block {
    pub decs: Vec<AstNodeRef>,
}

pub struct IfStmt {
    pub expr: AstNodeRef,
    pub stmt: AstNodeRef,
    pub elstmt: Option<AstNodeRef>,
}

pub struct WhileStmt {
    pub expr: AstNodeRef,
    pub stmt: AstNodeRef,
}

pub struct BreakStmt {
    pub token: Token,
}

pub struct ReturnStmt {
    pub token: Token,
    pub expr: Option<AstNodeRef>,
}

pub struct FunCall {
    pub line: usize,
    pub callee: AstNodeRef,
    pub args: Vec<AstNodeRef>,
}

pub struct FunDecl {
    pub name: Token,
    pub params: Vec<Token>,
    pub block: AstNodeRef,
}

pub struct FunDef {
    pub params: Vec<Token>,
    pub block: AstNodeRef,
}

/// A whole parsed tree: the root node handed to the resolver or evaluator.
pub struct Ast {
    pub root: AstNodeRef,
}

pub open spec fn node_view(n: AstNode) -> Node
    decreases n,
{
    match n {
        AstNode::BinaryExpr(b) => Node::Binary {
            op: b.token@,
            lhs: Box::new(node_view(*b.lexpr)),
            rhs: Box::new(node_view(*b.rexpr)),
        },
        AstNode::UnaryExpr(u) => Node::Unary {
            op: u.token@,
            operand: Box::new(node_view(*u.expr)),
        },
        AstNode::GroupExpr(g) => Node::Group { inner: Box::new(node_view(*g.expr)) },
        AstNode::LiteralExpr(l) => Node::Literal { tok: l.token@ },
        AstNode::AssignExpr(a) => Node::Assign {
            target: a.variable@,
            rhs: Box::new(node_view(*a.expr)),
        },
        AstNode::ExprStmt(e) => Node::ExprStmt { inner: Box::new(node_view(*e.expr)) },
        AstNode::PrintStmt(p) => Node::PrintStmt { inner: Box::new(node_view(*p.expr)) },
        AstNode::VarDecl(v) => Node::VarDecl {
            name: v.variable@,
            init: opt_node_view(v.expr),
        },
        AstNode::Block(b) => Node::Block { decs: nodes_view(b.decs@) },
        AstNode::Program(p) => Node::Program { decs: nodes_view(p.decs@) },
        AstNode::IfStmt(i) => Node::If {
            cond: Box::new(node_view(*i.expr)),
            stmt: Box::new(node_view(*i.stmt)),
            els: opt_node_view(i.elstmt),
        },
        AstNode::WhileStmt(w) => Node::While {
            cond: Box::new(node_view(*w.expr)),
            body: Box::new(node_view(*w.stmt)),
        },
        AstNode::BreakStmt(b) => Node::Break { tok: b.token@ },
        AstNode::ReturnStmt(r) => Node::Return { tok: r.token@, value: opt_node_view(r.expr) },
        AstNode::FunCall(c) => Node::Call {
            callee: Box::new(node_view(*c.callee)),
            args: nodes_view(c.args@),
            line: c.line as nat,
        },
        AstNode::FunDecl(f) => Node::FunDecl {
            name: f.name@,
            params: toks_view(f.params@),
            body: Box::new(node_view(*f.block)),
        },
        AstNode::FunDef(f) => Node::FunDef {
            params: toks_view(f.params@),
            body: Box::new(node_view(*f.block)),
        },
    }
}

pub open spec fn nodes_view(s: Seq<Box<AstNode>>) -> Seq<Node>
    decreases s,
{
    if s.len() == 0 {
        Seq::empty()
    } else {
        nodes_view(s.drop_last()).push(node_view(*s.last()))
    }
}

pub open spec fn opt_node_view(o: Option<Box<AstNode>>) -> Option<Box<Node>>
    decreases o,
{
    match o {
        Option::None => Option::None,
        Option::Some(n) => Option::Some(Box::new(node_view(*n))),
    }
}

pub broadcast proof fn nodes_view_len(s: Seq<Box<AstNode>>)
    ensures
        (#[trigger] nodes_view(s)).len() == s.len(),
    decreases s.len(),
{
    if s.len() > 0 {
        nodes_view_len(s.drop_last());
    }
}

pub broadcast proof fn nodes_view_index(s: Seq<Box<AstNode>>, i: int)
    requires
        0 <= i < s.len(),
    ensures
        nodes_view(s).len() == s.len(),
        #[trigger] nodes_view(s)[i] == node_view(*s[i]),
    decreases s.len(),
{
    nodes_view_len(s);
    nodes_view_len(s.drop_last());
    if i < s.len() - 1 {
        nodes_view_index(s.drop_last(), i);
        assert(s.drop_last()[i] == s[i]);
    }
}

pub proof fn nodes_view_push(s: Seq<Box<AstNode>>, x: Box<AstNode>)
    ensures
        nodes_view(s.push(x)) == nodes_view(s).push(node_view(*x)),
{
    assert(s.push(x).drop_last() =~= s);
    assert(s.push(x).last() == x);
}

pub proof fn nodes_view_empty()
    ensures
        nodes_view(Seq::<Box<AstNode>>::empty()) == Seq::<Node>::empty(),
{
}

impl View for AstNode {
    type V = Node;

    open spec fn view(&self) -> Node {
        node_view(*self)
    }
}

impl View for Ast {
    type V = Node;

    open spec fn view(&self) -> Node {
        node_view(*self.root)
    }
}

impl BinaryExpr {
    pub fn create(token: Token, lexpr: AstNodeRef, rexpr: AstNodeRef) -> (r: AstNodeRef)
        ensures
            r@ == (Node::Binary {
                op: token@,
                lhs: Box::new(lexpr@),
                rhs: Box::new(rexpr@),
            }),
    {
        Box::new(AstNode::BinaryExpr(BinaryExpr { lexpr, rexpr, token }))
    }

    pub fn rexpr(&self) -> (r: &AstNodeRef)
        ensures
            r@ == self.rexpr@,
    {
        &self.rexpr
    }

    pub fn lexpr(&self) -> (r: &AstNodeRef)
        ensures
            r@ == self.lexpr@,
    {
        &self.lexpr
    }

    pub fn token(&self) -> (r: &Token)
        ensures
            r@ == self.token@,
    {
        &self.token
    }
}

impl UnaryExpr {
    pub fn create(token: Token, expr: AstNodeRef) -> (r: AstNodeRef)
        ensures
            r@ == (Node::Unary { op: token@, operand: Box::new(expr@) }),
    {
        Box::new(AstNode::UnaryExpr(UnaryExpr { expr, token }))
    }

    pub fn expr(&self) -> (r: &AstNodeRef)
        ensures
            r@ == self.expr@,
    {
        &self.expr
    }

    pub fn token(&self) -> (r: &Token)
        ensures
            r@ == self.token@,
    {
        &self.token
    }
}

impl LiteralExpr {
    pub fn create(token: Token) -> (r: AstNodeRef)
        ensures
            r@ == (Node::Literal { tok: token@ }),
    {
        Box::new(AstNode::LiteralExpr(LiteralExpr { token }))
    }

    pub fn token(&self) -> (r: &Token)
        ensures
            r@ == self.token@,
    {
        &self.token
    }
}

impl GroupExpr {
    pub fn create(expr: AstNodeRef) -> (r: AstNodeRef)
        ensures
            r@ == (Node::Group { inner: Box::new(expr@) }),
    {
        Box::new(AstNode::GroupExpr(GroupExpr { expr }))
    }

    pub fn expr(&self) -> (r: &AstNodeRef)
        ensures
            r@ == self.expr@,
    {
        &self.expr
    }
}

impl AssignExpr {
    pub fn create(variable: Token, expr: AstNodeRef) -> (r: AstNodeRef)
        ensures
            r@ == (Node::Assign { target: variable@, rhs: Box::new(expr@) }),
    {
        Box::new(AstNode::AssignExpr(AssignExpr { variable, expr }))
    }

    pub fn variable(&self) -> (r: &Token)
        ensures
            r@ == self.variable@,
    {
        &self.variable
    }

    pub fn expr(&self) -> (r: &AstNodeRef)
        ensures
            r@ == self.expr@,
    {
        &self.expr
    }
}

impl ExprStmt {
    pub fn create(expr: AstNodeRef) -> (r: AstNodeRef)
        ensures
            r@ == (Node::ExprStmt { inner: Box::new(expr@) }),
    {
        Box::new(AstNode::ExprStmt(ExprStmt { expr }))
    }

    pub fn expr(&self) -> (r: &AstNodeRef)
        ensures
            r@ == self.expr@,
    {
        &self.expr
    }
}

impl PrintStmt {
    pub fn create(expr: AstNodeRef) -> (r: AstNodeRef)
        ensures
            r@ == (Node::PrintStmt { inner: Box::new(expr@) }),
    {
        Box::new(AstNode::PrintStmt(PrintStmt { expr }))
    }

    pub fn expr(&self) -> (r: &AstNodeRef)
        ensures
            r@ == self.expr@,
    {
        &self.expr
    }
}

impl VarDecl {
    pub fn create(variable: Token, expr: Option<AstNodeRef>) -> (r: AstNodeRef)
        ensures
            r@ == (Node::VarDecl { name: variable@, init: opt_node_view(expr) }),
    {
        Box::new(AstNode::VarDecl(VarDecl { variable, expr }))
    }

    pub fn expr(&self) -> (r: Option<&AstNodeRef>)
        ensures
            match r {
                Option::Some(e) => self.expr is Some && e@ == self.expr->0@,
                Option::None => self.expr is None,
            },
    {
        self.expr.as_ref()
    }

    pub fn name(&self) -> (r: &Token)
        ensures
            r@ == self.variable@,
    {
        &self.variable
    }
}

impl Program {
    pub fn create(stmts: Vec<AstNodeRef>) -> (r: AstNodeRef)
        ensures
            r@ == (Node::Program { decs: nodes_view(stmts@) }),
    {
        Box::new(AstNode::Program(Program { decs: stmts }))
    }

    pub fn decs(&self) -> (r: &Vec<AstNodeRef>)
        ensures
            r@ == self.decs@,
    {
        &self.decs
    }
}

impl Block {
    pub fn create(decs: Vec<AstNodeRef>) -> (r: AstNodeRef)
        ensures
            r@ == (Node::Block { decs: nodes_view(decs@) }),
    {
        Box::new(AstNode::Block(Block { decs }))
    }

    pub fn decs(&self) -> (r: &Vec<AstNodeRef>)
        ensures
            r@ == self.decs@,
    {
        &self.decs
    }
}

impl IfStmt {
    pub fn create(expr: AstNodeRef, stmt: AstNodeRef, elstmt: Option<AstNodeRef>) -> (r:
        AstNodeRef)
        ensures
            r@ == (Node::If {
                cond: Box::new(expr@),
                stmt: Box::new(stmt@),
                els: opt_node_view(elstmt),
            }),
    {
        Box::new(AstNode::IfStmt(IfStmt { expr, stmt, elstmt }))
    }

    pub fn expr(&self) -> (r: &AstNodeRef)
        ensures
            r@ == self.expr@,
    {
        &self.expr
    }

    pub fn stmt(&self) -> (r: &AstNodeRef)
        ensures
            r@ == self.stmt@,
    {
        &self.stmt
    }

    pub fn elstmt(&self) -> (r: Option<&AstNodeRef>)
        ensures
            match r {
                Option::Some(e) => self.elstmt is Some && e@ == self.elstmt->0@,
                Option::None => self.elstmt is None,
            },
    {
        self.elstmt.as_ref()
    }
}

impl WhileStmt {
    pub fn create(expr: AstNodeRef, stmt: AstNodeRef) -> (r: AstNodeRef)
        ensures
            r@ == (Node::While { cond: Box::new(expr@), body: Box::new(stmt@) }),
    {
        Box::new(AstNode::WhileStmt(WhileStmt { expr, stmt }))
    }

    pub fn expr(&self) -> (r: &AstNodeRef)
        ensures
            r@ == self.expr@,
    {
        &self.expr
    }

    pub fn stmt(&self) -> (r: &AstNodeRef)
        ensures
            r@ == self.stmt@,
    {
        &self.stmt
    }
}

impl BreakStmt {
    pub fn create(token: Token) -> (r: AstNodeRef)
        ensures
            r@ == (Node::Break { tok: token@ }),
    {
        Box::new(AstNode::BreakStmt(BreakStmt { token }))
    }

    pub fn token(&self) -> (r: &Token)
        ensures
            r@ == self.token@,
    {
        &self.token
    }
}

impl ReturnStmt {
    pub fn create(token: Token, expr: Option<AstNodeRef>) -> (r: AstNodeRef)
        ensures
            r@ == (Node::Return { tok: token@, value: opt_node_view(expr) }),
    {
        Box::new(AstNode::ReturnStmt(ReturnStmt { token, expr }))
    }

    pub fn token(&self) -> (r: &Token)
        ensures
            r@ == self.token@,
    {
        &self.token
    }

    pub fn expr(&self) -> (r: Option<&AstNodeRef>)
        ensures
            match r {
                Option::Some(e) => self.expr is Some && e@ == self.expr->0@,
                Option::None => self.expr is None,
            },
    {
        self.expr.as_ref()
    }
}

impl FunCall {
    pub fn create(callee: AstNodeRef, args: Vec<AstNodeRef>, line: usize) -> (r: AstNodeRef)
        ensures
            r@ == (Node::Call {
                callee: Box::new(callee@),
                args: nodes_view(args@),
                line: line as nat,
            }),
    {
        Box::new(AstNode::FunCall(FunCall { callee, args, line }))
    }

    pub fn callee(&self) -> (r: &AstNodeRef)
        ensures
            r@ == self.callee@,
    {
        &self.callee
    }

    pub fn args(&self) -> (r: &Vec<AstNodeRef>)
        ensures
            r@ == self.args@,
    {
        &self.args
    }

    pub fn line(&self) -> (r: usize)
        ensures
            r == self.line,
    {
        self.line
    }
}

impl FunDecl {
    pub fn create(name: Token, args: Vec<Token>, block: AstNodeRef) -> (r: AstNodeRef)
        ensures
            r@ == (Node::FunDecl {
                name: name@,
                params: toks_view(args@),
                body: Box::new(block@),
            }),
    {
        Box::new(AstNode::FunDecl(FunDecl { name, params: args, block }))
    }

    pub fn name(&self) -> (r: &Token)
        ensures
            r@ == self.name@,
    {
        &self.name
    }

    pub fn params(&self) -> (r: &Vec<Token>)
        ensures
            r@ == self.params@,
    {
        &self.params
    }

    pub fn block(&self) -> (r: &AstNodeRef)
        ensures
            r@ == self.block@,
    {
        &self.block
    }
}

impl FunDef {
    pub fn create(args: Vec<Token>, block: AstNodeRef) -> (r: AstNodeRef)
        ensures
            r@ == (Node::FunDef { params: toks_view(args@), body: Box::new(block@) }),
    {
        Box::new(AstNode::FunDef(FunDef { params: args, block }))
    }

    pub fn params(&self) -> (r: &Vec<Token>)
        ensures
            r@ == self.params@,
    {
        &self.params
    }

    pub fn block(&self) -> (r: &AstNodeRef)
        ensures
            r@ == self.block@,
    {
        &self.block
    }
}

// The textual form of a tree: parenthesized expressions carrying each
// token's own text, so that printing an expression and scanning and parsing
// the result yields the same structure up to grouping.
pub open spec fn sp_node_text(n: Node) -> Seq<char>
    decreases n,
{
    match n {
        Node::Literal { tok } => tok.text,
        // A grouping adds no text of its own: operator nodes parenthesize
        // themselves, so printing is stable under reparsing.
        Node::Group { inner } => sp_node_text(*inner),
        Node::Unary { op, operand } => "("@ + op.text + " "@ + sp_node_text(*operand) + ")"@,
        Node::Binary { op, lhs, rhs } => "("@ + sp_node_text(*lhs) + " "@ + op.text + " "@
            + sp_node_text(*rhs) + ")"@,
        Node::Assign { target, rhs } => "("@ + target.text + " = "@ + sp_node_text(*rhs) + ")"@,
        Node::ExprStmt { inner } => sp_node_text(*inner) + ";"@,
        Node::PrintStmt { inner } => "print "@ + sp_node_text(*inner) + ";"@,
        Node::VarDecl { name, init } => match init {
            Some(e) => "var "@ + name.text + " = "@ + sp_node_text(*e) + ";"@,
            None => "var "@ + name.text + ";"@,
        },
        Node::Block { decs } => "{ "@ + sp_stmts_text(decs) + "}"@,
        Node::Program { decs } => sp_stmts_text(decs),
        Node::If { cond, stmt, els } => match els {
            Some(e) => "if ("@ + sp_node_text(*cond) + ") "@ + sp_node_text(*stmt) + " else "@
                + sp_node_text(*e),
            None => "if ("@ + sp_node_text(*cond) + ") "@ + sp_node_text(*stmt),
        },
        Node::While { cond, body } => "while ("@ + sp_node_text(*cond) + ") "@ + sp_node_text(
            *body,
        ),
        Node::Break { tok: _t } => "break;"@,
        Node::Return { tok: _t, value } => match value {
            Some(e) => "return "@ + sp_node_text(*e) + ";"@,
            None => "return;"@,
        },
        Node::Call { callee, args, line: _l } => sp_node_text(*callee) + "("@ + sp_list_text(args)
            + ")"@,
        Node::FunDecl { name, params, body } => "fun "@ + name.text + "("@ + sp_params_text(params)
            + ") "@ + sp_node_text(*body),
        Node::FunDef { params, body } => "fun ("@ + sp_params_text(params) + ") "@ + sp_node_text(
            *body,
        ),
    }
}

/// Statements one after the other, each followed by one space.
pub open spec fn sp_stmts_text(decs: Seq<Node>) -> Seq<char>
    decreases decs,
{
    if decs.len() == 0 {
        Seq::empty()
    } else {
        sp_stmts_text(decs.drop_last()) + sp_node_text(decs.last()) + " "@
    }
}

/// Expressions joined by commas.
pub open spec fn sp_list_text(args: Seq<Node>) -> Seq<char>
    decreases args,
{
    if args.len() == 0 {
        Seq::empty()
    } else if args.len() == 1 {
        sp_node_text(args[0])
    } else {
        sp_list_text(args.drop_last()) + ", "@ + sp_node_text(args.last())
    }
}

/// Parameter names joined by commas.
pub open spec fn sp_params_text(params: Seq<TokenS>) -> Seq<char>
    decreases params.len(),
{
    if params.len() == 0 {
        Seq::empty()
    } else if params.len() == 1 {
        params[0].text
    } else {
        sp_params_text(params.drop_last()) + ", "@ + params.last().text
    }
}

impl AstNode {
    /// The textual form of this node; see `sp_node_text`.
    #[verifier::loop_isolation(false)]
    pub fn to_text(&self) -> (s: String)
        ensures
            s@ == sp_node_text(self@),
        decreases *self,
    {
        match self {
            AstNode::LiteralExpr(l) => l.token.text.clone(),
            AstNode::GroupExpr(g) => g.expr.to_text(),
            AstNode::UnaryExpr(u) => {
                let mut s = String::from_str("(");
                s.append(u.token.text.as_str());
                s.append(" ");
                s.append(u.expr.to_text().as_str());
                s.append(")");
                s
            },
            AstNode::BinaryExpr(b) => {
                let mut s = String::from_str("(");
                s.append(b.lexpr.to_text().as_str());
                s.append(" ");
                s.append(b.token.text.as_str());
                s.append(" ");
                s.append(b.rexpr.to_text().as_str());
                s.append(")");
                s
            },
            AstNode::AssignExpr(a) => {
                let mut s = String::from_str("(");
                s.append(a.variable.text.as_str());
                s.append(" = ");
                s.append(a.expr.to_text().as_str());
                s.append(")");
                s
            },
            AstNode::ExprStmt(e) => {
                let mut s = e.expr.to_text();
                s.append(";");
                s
            },
            AstNode::PrintStmt(p) => {
                let mut s = String::from_str("print ");
                s.append(p.expr.to_text().as_str());
                s.append(";");
                s
            },
            AstNode::VarDecl(v) => {
                let mut s = String::from_str("var ");
                s.append(v.variable.text.as_str());
                match &v.expr {
                    Some(e) => {
                        proof {
                            assert(opt_node_view(v.expr) == Some(Box::new((**e)@)));
                        }
                        s.append(" = ");
                        s.append(e.to_text().as_str());
                    },
                    None => {
                        proof {
                            assert(opt_node_view(v.expr) is None);
                        }
                    },
                }
                s.append(";");
                s
            },
            AstNode::Block(b) => {
                let mut s = String::from_str("{ ");
                s.append(stmts_text(&b.decs).as_str());
                s.append("}");
                s
            },
            AstNode::Program(p) => stmts_text(&p.decs),
            AstNode::IfStmt(i) => {
                let mut s = String::from_str("if (");
                s.append(i.expr.to_text().as_str());
                s.append(") ");
                s.append(i.stmt.to_text().as_str());
                match &i.elstmt {
                    Some(e) => {
                        proof {
                            assert(opt_node_view(i.elstmt) == Some(Box::new((**e)@)));
                        }
                        s.append(" else ");
                        s.append(e.to_text().as_str());
                    },
                    None => {
                        proof {
                            assert(opt_node_view(i.elstmt) is None);
                        }
                    },
                }
                s
            },
            AstNode::WhileStmt(w) => {
                let mut s = String::from_str("while (");
                s.append(w.expr.to_text().as_str());
                s.append(") ");
                s.append(w.stmt.to_text().as_str());
                s
            },
            AstNode::BreakStmt(_b) => String::from_str("break;"),
            AstNode::ReturnStmt(r) => {
                match &r.expr {
                    Some(e) => {
                        proof {
                            assert(opt_node_view(r.expr) == Some(Box::new((**e)@)));
                        }
                        let mut s = String::from_str("return ");
                        s.append(e.to_text().as_str());
                        s.append(";");
                        s
                    },
                    None => {
                        proof {
                            assert(opt_node_view(r.expr) is None);
                        }
                        String::from_str("return;")
                    },
                }
            },
            AstNode::FunCall(c) => {
                let mut s = c.callee.to_text();
                s.append("(");
                s.append(list_text(&c.args).as_str());
                s.append(")");
                s
            },
            AstNode::FunDecl(f) => {
                let mut s = String::from_str("fun ");
                s.append(f.name.text.as_str());
                s.append("(");
                s.append(params_text(&f.params).as_str());
                s.append(") ");
                s.append(f.block.to_text().as_str());
                s
            },
            AstNode::FunDef(f) => {
                let mut s = String::from_str("fun (");
                s.append(params_text(&f.params).as_str());
                s.append(") ");
                s.append(f.block.to_text().as_str());
                s
            },
        }
    }
}

#[verifier::loop_isolation(false)]
fn stmts_text(decs: &Vec<AstNodeRef>) -> (s: String)
    ensures
        s@ == sp_stmts_text(nodes_view(decs@)),
    decreases decs@,
{
    let mut s = String::new();
    let mut i: usize = 0;
    proof {
        nodes_view_len(decs@);
        assert(nodes_view(decs@).subrange(0, 0) =~= Seq::<Node>::empty());
    }
    while i < decs.len()
        invariant
            i <= decs.len(),
            s@ == sp_stmts_text(nodes_view(decs@).subrange(0, i as int)),
        decreases decs.len() - i,
    {
        proof {
            assert(decreases_to!(decs@ => *decs@[i as int]));
            nodes_view_index(decs@, i as int);
        }
        s.append(decs[i].to_text().as_str());
        s.append(" ");
        proof {
            let pfx1 = nodes_view(decs@).subrange(0, i + 1);
            assert(pfx1.drop_last() =~= nodes_view(decs@).subrange(0, i as int));
            assert(pfx1.last() == nodes_view(decs@)[i as int]);
        }
        i = i + 1;
    }
    proof {
        assert(nodes_view(decs@).subrange(0, nodes_view(decs@).len() as int) =~= nodes_view(
            decs@,
        ));
    }
    s
}

#[verifier::loop_isolation(false)]
fn list_text(args: &Vec<AstNodeRef>) -> (s: String)
    ensures
        s@ == sp_list_text(nodes_view(args@)),
    decreases args@,
{
    let mut s = String::new();
    let mut i: usize = 0;
    proof {
        nodes_view_len(args@);
        assert(nodes_view(args@).subrange(0, 0) =~= Seq::<Node>::empty());
    }
    while i < args.len()
        invariant
            i <= args.len(),
            s@ == sp_list_text(nodes_view(args@).subrange(0, i as int)),
        decreases args.len() - i,
    {
        proof {
            assert(decreases_to!(args@ => *args@[i as int]));
            nodes_view_index(args@, i as int);
        }
        if i > 0 {
            s.append(", ");
        }
        s.append(args[i].to_text().as_str());
        proof {
            let pfx1 = nodes_view(args@).subrange(0, i + 1);
            assert(pfx1.drop_last() =~= nodes_view(args@).subrange(0, i as int));
            assert(pfx1.last() == nodes_view(args@)[i as int]);
            if i == 0 {
                assert(pfx1.len() == 1);
                assert(pfx1[0] == nodes_view(args@)[0]);
            }
        }
        i = i + 1;
    }
    proof {
        assert(nodes_view(args@).subrange(0, nodes_view(args@).len() as int) =~= nodes_view(
            args@,
        ));
    }
    s
}

#[verifier::loop_isolation(false)]
fn params_text(params: &Vec<Token>) -> (s: String)
    ensures
        s@ == sp_params_text(toks_view(params@)),
{
    let mut s = String::new();
    let mut i: usize = 0;
    proof {
        assert(toks_view(params@).subrange(0, 0) =~= Seq::<TokenS>::empty());
    }
    while i < params.len()
        invariant
            i <= params.len(),
            s@ == sp_params_text(toks_view(params@).subrange(0, i as int)),
        decreases params.len() - i,
    {
        if i > 0 {
            s.append(", ");
        }
        s.append(params[i].text.as_str());
        proof {
            let pfx1 = toks_view(params@).subrange(0, i + 1);
            assert(pfx1.drop_last() =~= toks_view(params@).subrange(0, i as int));
            assert(pfx1.last() == toks_view(params@)[i as int]);
            if i == 0 {
                assert(pfx1.len() == 1);
                assert(pfx1[0] == toks_view(params@)[0]);
            }
        }
        i = i + 1;
    }
    proof {
        assert(toks_view(params@).subrange(0, toks_view(params@).len() as int) =~= toks_view(
            params@,
        ));
    }
    s
}

impl Ast {
    /// The textual form of the whole tree.
    pub fn to_text(&self) -> (s: String)
        ensures
            s@ == sp_node_text(self@),
    {
        self.root.to_text()
    }
}

impl Ast {
    pub fn create(expr: AstNodeRef) -> (r: Ast)
        ensures
            r@ == expr@,
    {
        Ast { root: expr }
    }

    pub fn root(&self) -> (r: &AstNodeRef)
        ensures
            r@ == self@,
    {
        &self.root
    }
}

} // verus!
