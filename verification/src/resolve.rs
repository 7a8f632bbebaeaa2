use crate::ast::{Ast, AstNode, AstNodeRef, Node, nodes_view, nodes_view_index, nodes_view_len};
use crate::environment::{Environment, FrameS, env_define, env_depth, env_push};
use crate::function::{Value, ValueS};
use crate::token::{Token, TokenKind, TokenS, toks_view};
use vstd::prelude::*;

verus! {

// The resolver walks the tree once before execution, mirroring the
// evaluator's block and function nesting with its own scope chain, and
// collects every identifier reference that no enclosing scope binds.  It
// never touches runtime values; a name is simply marked by a placeholder
// binding.  `sp_resolve` is the exact statement of the pass.
/// The resolver's state: its scope frames and the active frame.
#[verifier::ext_equal]
pub struct RSt {
    pub frames: Seq<FrameS>,
    pub cur: int,
}

/// The placeholder bound for every declared name during resolution.
pub open spec fn mark() -> ValueS {
    ValueS::Nil
}

/// Resolves one node: the state after it and the unresolved identifier
/// tokens it contributed, in source order.
pub open spec fn sp_resolve(st: RSt, n: Node) -> (RSt, Seq<TokenS>)
    decreases n, 0int,
{
    match n {
        Node::Literal { tok } => {
            if tok.kind == TokenKind::Identifier {
                match env_depth(st.frames, st.cur, tok.text) {
                    Some(_d) => (st, Seq::empty()),
                    None => (st, seq![tok]),
                }
            } else {
                (st, Seq::empty())
            }
        },
        Node::Group { inner } => sp_resolve(st, *inner),
        Node::Unary { op: _op, operand } => sp_resolve(st, *operand),
        Node::Binary { op: _op, lhs, rhs } => {
            let (st1, e1) = sp_resolve(st, *lhs);
            let (st2, e2) = sp_resolve(st1, *rhs);
            (st2, e1 + e2)
        },
        Node::Assign { target, rhs } => {
            let (st1, e1) = sp_resolve(st, *rhs);
            match env_depth(st1.frames, st1.cur, target.text) {
                Some(_d) => (st1, e1),
                None => (st1, e1 + seq![target]),
            }
        },
        Node::ExprStmt { inner } => sp_resolve(st, *inner),
        Node::PrintStmt { inner } => sp_resolve(st, *inner),
        Node::VarDecl { name, init } => {
            let (st1, e1) = match init {
                Some(e) => sp_resolve(st, *e),
                None => (st, Seq::empty()),
            };
            (
                RSt { frames: env_define(st1.frames, st1.cur, name.text, mark()), ..st1 },
                e1,
            )
        },
        Node::Block { decs } => {
            let frames1 = env_push(st.frames, st.cur);
            let st1 = RSt { frames: frames1, cur: frames1.len() - 1 };
            let (st2, es) = sp_resolve_seq(st1, decs);
            (RSt { cur: st.cur, ..st2 }, es)
        },
        Node::Program { decs } => sp_resolve_seq(st, decs),
        Node::If { cond, stmt, els } => {
            let (st1, e1) = sp_resolve(st, *cond);
            let (st2, e2) = sp_resolve(st1, *stmt);
            match els {
                Some(e) => {
                    let (st3, e3) = sp_resolve(st2, *e);
                    (st3, e1 + e2 + e3)
                },
                None => (st2, e1 + e2),
            }
        },
        Node::While { cond, body } => {
            let (st1, e1) = sp_resolve(st, *cond);
            let (st2, e2) = sp_resolve(st1, *body);
            (st2, e1 + e2)
        },
        Node::Break { tok: _tok } => (st, Seq::empty()),
        Node::Return { tok: _tok, value } => {
            match value {
                Some(e) => sp_resolve(st, *e),
                None => (st, Seq::empty()),
            }
        },
        Node::Call { callee, args, line: _line } => {
            let (st1, e1) = sp_resolve(st, *callee);
            let (st2, e2) = sp_resolve_seq(st1, args);
            (st2, e1 + e2)
        },
        Node::FunDecl { name, params, body } => {
            let framesn = env_define(st.frames, st.cur, name.text, mark());
            let stn = RSt { frames: framesn, ..st };
            sp_resolve_fun(stn, params, *body)
        },
        Node::FunDef { params, body } => sp_resolve_fun(st, params, *body),
    }
}

/// Resolves a function body: a fresh frame under the declaring one, the
/// parameter names bound in it, then the body, then back out.
pub open spec fn sp_resolve_fun(st: RSt, params: Seq<TokenS>, body: Node) -> (RSt, Seq<TokenS>)
    decreases body, 1int,
{
    let frames1 = env_push(st.frames, st.cur);
    let fi = frames1.len() - 1;
    let frames2 = frames1.update(
        fi,
        FrameS {
            entries: params.map_values(|t: TokenS| (t.text, mark())),
            parent: Some(st.cur),
        },
    );
    let st1 = RSt { frames: frames2, cur: fi };
    let (st2, es) = sp_resolve(st1, body);
    (RSt { cur: st.cur, ..st2 }, es)
}

pub open spec fn sp_resolve_seq(st: RSt, decs: Seq<Node>) -> (RSt, Seq<TokenS>)
    decreases decs, 0int,
{
    if decs.len() == 0 {
        (st, Seq::empty())
    } else {
        let (st1, e1) = sp_resolve(st, decs[0]);
        let (st2, e2) = sp_resolve_seq(st1, decs.drop_first());
        (st2, e1 + e2)
    }
}

/// The scope the pass starts in: one global frame with the native names.
pub open spec fn init_rst() -> RSt {
    RSt {
        frames: seq![
            FrameS {
                entries: seq![("log"@, mark()), ("clock"@, mark())],
                parent: None,
            },
        ],
        cur: 0,
    }
}

/// Resolves a whole tree: `Ok` exactly when every identifier reference is
/// bound in some enclosing scope; otherwise the offending tokens, in source
/// order.
pub fn resolve(ast: &Ast) -> (r: Result<(), Vec<Token>>)
    ensures
        match r {
            Ok(_u) => sp_resolve(init_rst(), ast@).1.len() == 0,
            Err(ts) => sp_resolve(init_rst(), ast@).1.len() > 0 && toks_view(ts@) == sp_resolve(
                init_rst(),
                ast@,
            ).1,
        },
{
    let mut env = Environment::new();
    env.init(0, String::from_str("log"), Value::Nil);
    env.init(0, String::from_str("clock"), Value::Nil);
    let mut rv = Resolver { env, cur: 0, errs: Vec::new() };
    proof {
        assert(rv.rst().frames[0].entries =~= init_rst().frames[0].entries);
        assert(rv.rst().frames =~~= init_rst().frames);
        assert(rv.rst() =~~= init_rst());
        assert(toks_view(Seq::<Token>::empty()) =~= Seq::<TokenS>::empty());
    }
    rv.resolve_node(&ast.root);
    proof {
        assert(toks_view(rv.errs@) =~= sp_resolve(init_rst(), ast@).1);
    }
    if rv.errs.len() == 0 {
        Ok(())
    } else {
        Err(rv.errs)
    }
}

/// The resolver's working state: a private scope chain and the unresolved
/// tokens collected so far.
pub struct Resolver {
    pub env: Environment,
    pub cur: usize,
    pub errs: Vec<Token>,
}

impl Resolver {
    pub open spec fn rst(&self) -> RSt {
        RSt { frames: self.env@, cur: self.cur as int }
    }

    pub open spec fn wf(&self) -> bool {
        self.env.wf() && (self.cur as int) < self.env@.len()
    }

    #[verifier::rlimit(60)]
    fn resolve_node(&mut self, n: &AstNode)
        requires
            old(self).wf(),
        ensures
            final(self).wf(),
            old(self).env@.len() <= final(self).env@.len(),
            sp_resolve(old(self).rst(), n@).0 == final(self).rst(),
            toks_view(final(self).errs@) == toks_view(old(self).errs@) + sp_resolve(
                old(self).rst(),
                n@,
            ).1,
        decreases *n, 0int, 0int,
    {
        let ghost pre = self.rst();
        let ghost pree = toks_view(self.errs@);
        match n {
            AstNode::LiteralExpr(node) => {
                if node.token.kind == TokenKind::Identifier {
                    match self.env.depth(self.cur, &node.token.text) {
                        Some(_d) => {
                            proof {
                                assert(toks_view(self.errs@) =~= pree + Seq::<TokenS>::empty());
                            }
                        },
                        None => {
                            let ghost pe = self.errs@;
                            self.errs.push(node.token.duplicate());
                            proof {
                                crate::token::toks_view_push(pe, self.errs@.last());
                                assert(toks_view(self.errs@) =~= pree + seq![node.token@]);
                            }
                        },
                    }
                } else {
                    proof {
                        assert(toks_view(self.errs@) =~= pree + Seq::<TokenS>::empty());
                    }
                }
            },
            AstNode::GroupExpr(node) => {
                self.resolve_node(&node.expr);
            },
            AstNode::UnaryExpr(node) => {
                self.resolve_node(&node.expr);
            },
            AstNode::BinaryExpr(node) => {
                self.resolve_node(&node.lexpr);
                self.resolve_node(&node.rexpr);
                proof {
                    let e1 = sp_resolve(pre, node.lexpr@).1;
                    let e2 = sp_resolve(sp_resolve(pre, node.lexpr@).0, node.rexpr@).1;
                    assert(toks_view(self.errs@) =~= pree + (e1 + e2));
                }
            },
            AstNode::AssignExpr(node) => {
                self.resolve_node(&node.expr);
                let ghost mide = toks_view(self.errs@);
                match self.env.depth(self.cur, &node.variable.text) {
                    Some(_d) => {
                        proof {
                            assert(toks_view(self.errs@) =~= pree + sp_resolve(pre, n@).1);
                        }
                    },
                    None => {
                        let ghost pe = self.errs@;
                        self.errs.push(node.variable.duplicate());
                        proof {
                            crate::token::toks_view_push(pe, self.errs@.last());
                            assert(toks_view(self.errs@) =~= pree + (sp_resolve(
                                pre,
                                node.expr@,
                            ).1 + seq![node.variable@]));
                        }
                    },
                }
            },
            AstNode::ExprStmt(node) => {
                self.resolve_node(&node.expr);
            },
            AstNode::PrintStmt(node) => {
                self.resolve_node(&node.expr);
            },
            AstNode::VarDecl(node) => {
                match &node.expr {
                    Some(e) => {
                        proof {
                            assert(crate::ast::opt_node_view(node.expr) == Some(
                                Box::new((**e)@),
                            ));
                        }
                        self.resolve_node(e);
                    },
                    None => {
                        proof {
                            assert(crate::ast::opt_node_view(node.expr) is None);
                            assert(toks_view(self.errs@) =~= pree + Seq::<TokenS>::empty());
                        }
                    },
                }
                let ghost mid = self.rst();
                self.env.init(self.cur, node.variable.text.clone(), Value::Nil);
                proof {
                    assert(self.rst() =~~= (RSt {
                        frames: env_define(mid.frames, mid.cur, node.variable@.text, mark()),
                        ..mid
                    }));
                }
            },
            AstNode::Block(node) => {
                let saved = self.cur;
                let ni = self.env.push_frame(self.cur);
                self.cur = ni;
                proof {
                    assert(self.rst() =~~= (RSt {
                        frames: env_push(pre.frames, pre.cur),
                        cur: pre.frames.len() as int,
                    }));
                }
                proof {
                    assert(nodes_view(node.decs@).skip(0) =~= nodes_view(node.decs@));
                }
                self.resolve_nodes(&node.decs, 0);
                let ghost mid = self.rst();
                self.cur = saved;
                proof {
                    assert(self.rst() =~~= (RSt { cur: saved as int, ..mid }));
                }
            },
            AstNode::Program(node) => {
                proof {
                    assert(nodes_view(node.decs@).skip(0) =~= nodes_view(node.decs@));
                }
                self.resolve_nodes(&node.decs, 0);
            },
            AstNode::IfStmt(node) => {
                self.resolve_node(&node.expr);
                self.resolve_node(&node.stmt);
                match &node.elstmt {
                    Some(e) => {
                        proof {
                            assert(crate::ast::opt_node_view(node.elstmt) == Some(
                                Box::new((**e)@),
                            ));
                        }
                        self.resolve_node(e);
                        proof {
                            let (st1, e1) = sp_resolve(pre, node.expr@);
                            let (st2, e2) = sp_resolve(st1, node.stmt@);
                            let (st3, e3) = sp_resolve(st2, node.elstmt->0@);
                            assert(toks_view(self.errs@) =~= pree + (e1 + e2 + e3));
                        }
                    },
                    None => {
                        proof {
                            assert(crate::ast::opt_node_view(node.elstmt) is None);
                            let (st1, e1) = sp_resolve(pre, node.expr@);
                            let (st2, e2) = sp_resolve(st1, node.stmt@);
                            assert(toks_view(self.errs@) =~= pree + (e1 + e2));
                        }
                    },
                }
            },
            AstNode::WhileStmt(node) => {
                self.resolve_node(&node.expr);
                self.resolve_node(&node.stmt);
                proof {
                    let (st1, e1) = sp_resolve(pre, node.expr@);
                    let (st2, e2) = sp_resolve(st1, node.stmt@);
                    assert(toks_view(self.errs@) =~= pree + (e1 + e2));
                }
            },
            AstNode::BreakStmt(_node) => {
                proof {
                    assert(toks_view(self.errs@) =~= pree + Seq::<TokenS>::empty());
                }
            },
            AstNode::ReturnStmt(node) => {
                match &node.expr {
                    Some(e) => {
                        proof {
                            assert(crate::ast::opt_node_view(node.expr) == Some(
                                Box::new((**e)@),
                            ));
                        }
                        self.resolve_node(e);
                    },
                    None => {
                        proof {
                            assert(crate::ast::opt_node_view(node.expr) is None);
                            assert(toks_view(self.errs@) =~= pree + Seq::<TokenS>::empty());
                        }
                    },
                }
            },
            AstNode::FunCall(node) => {
                self.resolve_node(&node.callee);
                proof {
                    assert(nodes_view(node.args@).skip(0) =~= nodes_view(node.args@));
                }
                self.resolve_nodes(&node.args, 0);
                proof {
                    let (st1, e1) = sp_resolve(pre, node.callee@);
                    let (st2, e2) = sp_resolve_seq(st1, nodes_view(node.args@));
                    assert(toks_view(self.errs@) =~= pree + (e1 + e2));
                }
            },
            AstNode::FunDecl(node) => {
                let ghost pre0 = self.rst();
                self.env.init(self.cur, node.name.text.clone(), Value::Nil);
                proof {
                    assert(self.rst() =~~= (RSt {
                        frames: env_define(pre0.frames, pre0.cur, node.name@.text, mark()),
                        ..pre0
                    }));
                }
                self.resolve_fun(&node.params, &node.block);
            },
            AstNode::FunDef(node) => {
                self.resolve_fun(&node.params, &node.block);
            },
        }
    }

    /// Resolves a function body under a fresh frame holding its parameters.
    #[verifier::loop_isolation(false)]
    fn resolve_fun(&mut self, params: &Vec<Token>, body: &AstNodeRef)
        requires
            old(self).wf(),
        ensures
            final(self).wf(),
            old(self).env@.len() <= final(self).env@.len(),
            sp_resolve_fun(old(self).rst(), toks_view(params@), body@).0 == final(self).rst(),
            toks_view(final(self).errs@) == toks_view(old(self).errs@) + sp_resolve_fun(
                old(self).rst(),
                toks_view(params@),
                body@,
            ).1,
        decreases **body, 1int, 0int,
    {
        let saved = self.cur;
        let ni = self.env.push_frame(self.cur);
        let ghost mid0 = self.rst();
        proof {
            let full = toks_view(params@).map_values(|t: TokenS| (t.text, mark()));
            assert(full.subrange(0, 0) =~= Seq::<(Seq<char>, ValueS)>::empty());
            assert(mid0.frames.update(
                ni as int,
                FrameS {
                    entries: full.subrange(0, 0),
                    parent: mid0.frames[ni as int].parent,
                },
            ) =~~= mid0.frames);
        }
        let mut i: usize = 0;
        while i < params.len()
            invariant
                self.wf(),
                ni < self.env@.len(),
                self.env@.len() == mid0.frames.len(),
                self.cur == old(self).cur,
                i <= params@.len(),
                self.errs@ == old(self).errs@,
                self.rst() == (RSt {
                    frames: mid0.frames.update(
                        ni as int,
                        FrameS {
                            entries: toks_view(params@).map_values(
                                |t: TokenS| (t.text, mark()),
                            ).subrange(0, i as int),
                            parent: mid0.frames[ni as int].parent,
                        },
                    ),
                    ..mid0
                }),
            decreases params@.len() - i,
        {
            let ghost fmid = self.rst();
            self.env.init(ni, params[i].text.clone(), Value::Nil);
            proof {
                let full = toks_view(params@).map_values(|t: TokenS| (t.text, mark()));
                assert(full.subrange(0, i + 1) =~= full.subrange(0, i as int).push(
                    (params@[i as int]@.text, mark()),
                ));
                assert(self.rst() =~~= (RSt {
                    frames: mid0.frames.update(
                        ni as int,
                        FrameS {
                            entries: full.subrange(0, i + 1),
                            parent: mid0.frames[ni as int].parent,
                        },
                    ),
                    ..mid0
                }));
            }
            i = i + 1;
        }
        self.cur = ni;
        proof {
            let full = toks_view(params@).map_values(|t: TokenS| (t.text, mark()));
            assert(full.subrange(0, full.len() as int) =~= full);
            let frames1 = env_push(old(self).rst().frames, old(self).rst().cur);
            assert(self.rst() =~~= (RSt {
                frames: frames1.update(
                    frames1.len() - 1,
                    FrameS { entries: full, parent: Some(old(self).rst().cur) },
                ),
                cur: frames1.len() - 1,
            }));
        }
        self.resolve_node(body);
        let ghost mid = self.rst();
        self.cur = saved;
        proof {
            assert(self.rst() =~~= (RSt { cur: saved as int, ..mid }));
        }
    }

    /// Resolves `decs[i..]` in order; mirrors `sp_resolve_seq`.
    fn resolve_nodes(&mut self, decs: &Vec<AstNodeRef>, i: usize)
        requires
            old(self).wf(),
            i <= decs.len(),
        ensures
            final(self).wf(),
            old(self).env@.len() <= final(self).env@.len(),
            sp_resolve_seq(old(self).rst(), nodes_view(decs@).skip(i as int)).0
                == final(self).rst(),
            toks_view(final(self).errs@) == toks_view(old(self).errs@) + sp_resolve_seq(
                old(self).rst(),
                nodes_view(decs@).skip(i as int),
            ).1,
        decreases decs@, decs@.len() - i, 0int,
    {
        proof {
            nodes_view_len(decs@);
        }
        let ghost rest = nodes_view(decs@).skip(i as int);
        if i == decs.len() {
            proof {
                assert(rest.len() == 0);
                assert(toks_view(self.errs@) =~= toks_view(self.errs@) + Seq::<TokenS>::empty());
            }
        } else {
            proof {
                nodes_view_index(decs@, i as int);
                assert(rest[0] == nodes_view(decs@)[i as int]);
                assert(decreases_to!(decs@ => *decs@[i as int]));
            }
            let ghost pree = toks_view(self.errs@);
            let ghost pre = self.rst();
            self.resolve_node(&decs[i]);
            proof {
                assert(rest.drop_first() =~= nodes_view(decs@).skip(i + 1));
            }
            self.resolve_nodes(decs, i + 1);
            proof {
                let (st1, e1) = sp_resolve(pre, rest[0]);
                let (st2, e2) = sp_resolve_seq(st1, rest.drop_first());
                assert(toks_view(self.errs@) =~= pree + (e1 + e2));
            }
        }
    }
}

} // verus!
