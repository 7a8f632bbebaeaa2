use lox::ast::{Ast, AstNode};
use lox::parse::{parse_expresssion, parse_expresssion_result, parse_source, parse_source_result};
use lox::scan::scan;
use lox::token::TokenKind;

fn scan_ok(src: &str) -> Vec<lox::token::Token> {
    match scan(src.chars().collect()) {
        Ok(ts) => ts,
        Err(es) => panic!("scan failed: {:?}", es.len()),
    }
}

fn kinds(src: &str) -> Vec<TokenKind> {
    scan_ok(src).iter().map(|t| t.kind()).collect()
}

#[test]
fn scan_simple_statement() {
    let ks = kinds("var x = 1;");
    assert_eq!(
        ks,
        vec![
            TokenKind::Var,
            TokenKind::Identifier,
            TokenKind::Equal,
            TokenKind::Number,
            TokenKind::Semicolon,
            TokenKind::EOF,
        ]
    );
}

#[test]
fn scan_two_char_operators() {
    let ks = kinds("!= == <= >= < > = !");
    assert_eq!(
        ks,
        vec![
            TokenKind::BangEqual,
            TokenKind::EqualEqual,
            TokenKind::LessEqual,
            TokenKind::GreaterEqual,
            TokenKind::Less,
            TokenKind::Greater,
            TokenKind::Equal,
            TokenKind::Bang,
            TokenKind::EOF,
        ]
    );
}

#[test]
fn scan_trailing_dot_not_consumed() {
    let ts = scan_ok("3.");
    assert_eq!(ts[0].kind(), TokenKind::Number);
    assert_eq!(ts[0].text(), "3");
    assert_eq!(ts[1].kind(), TokenKind::Dot);
}

#[test]
fn scan_decimal_number_is_one_token() {
    let ts = scan_ok("3.25");
    assert_eq!(ts[0].kind(), TokenKind::Number);
    assert_eq!(ts[0].text(), "3.25");
    assert_eq!(ts[1].kind(), TokenKind::EOF);
}

#[test]
fn scan_string_keeps_quotes() {
    let ts = scan_ok("\"hi\"");
    assert_eq!(ts[0].kind(), TokenKind::String);
    assert_eq!(ts[0].text(), "\"hi\"");
}

#[test]
fn scan_keywords_and_identifiers() {
    let ks = kinds("and or if else while for fun return break nil true false var print foo");
    assert_eq!(
        ks,
        vec![
            TokenKind::And,
            TokenKind::Or,
            TokenKind::If,
            TokenKind::Else,
            TokenKind::While,
            TokenKind::For,
            TokenKind::Fun,
            TokenKind::Return,
            TokenKind::Break,
            TokenKind::Nil,
            TokenKind::True,
            TokenKind::False,
            TokenKind::Var,
            TokenKind::Print,
            TokenKind::Identifier,
            TokenKind::EOF,
        ]
    );
}

#[test]
fn scan_counts_lines() {
    let ts = scan_ok("1\n2\n3");
    assert_eq!(ts[0].line(), 0);
    assert_eq!(ts[1].line(), 1);
    assert_eq!(ts[2].line(), 2);
}

#[test]
fn scan_unterminated_string_is_error() {
    match scan("\"oops".chars().collect()) {
        Ok(_) => panic!("expected a scan error"),
        Err(es) => {
            assert_eq!(es.len(), 1);
            assert_eq!(es[0].message(), "unbalanced quotes");
        },
    }
}

#[test]
fn scan_unsupported_character_is_error() {
    match scan("var #;".chars().collect()) {
        Ok(_) => panic!("expected a scan error"),
        Err(es) => {
            assert_eq!(es.len(), 1);
            assert_eq!(es[0].message(), "unsupported characters");
        },
    }
}

fn parse_program(src: &str) -> Ast {
    match parse_source(scan_ok(src)) {
        Some(ast) => ast,
        None => panic!("parse failed"),
    }
}

fn parse_expr(src: &str) -> Ast {
    match parse_expresssion(scan_ok(src)) {
        Some(ast) => ast,
        None => panic!("parse failed"),
    }
}

#[test]
fn parse_precedence_term_vs_factor() {
    let ast = parse_expr("1 + 2 * 3");
    match ast.root().as_ref() {
        AstNode::BinaryExpr(add) => {
            assert_eq!(add.token().kind(), TokenKind::Plus);
            match add.rexpr().as_ref() {
                AstNode::BinaryExpr(mul) => assert_eq!(mul.token().kind(), TokenKind::Star),
                _ => panic!("expected the product on the right"),
            }
        },
        _ => panic!("expected a sum at the root"),
    }
}

#[test]
fn parse_missing_semicolon_is_error() {
    assert!(parse_source(scan_ok("print 1")).is_none());
    match parse_source_result(scan_ok("print 1")) {
        Err(e) => assert_eq!(e.message(), "expected ';'"),
        Ok(_) => panic!("expected a parse error"),
    }
}

#[test]
fn parse_invalid_lvalue_is_error() {
    match parse_source_result(scan_ok("1 = 2;")) {
        Err(e) => assert_eq!(e.message(), "invalid l-value"),
        Ok(_) => panic!("expected a parse error"),
    }
}

#[test]
fn parse_expression_must_consume_everything() {
    assert!(parse_expresssion(scan_ok("1 + 2")).is_some());
    match parse_expresssion_result(scan_ok("1 2")) {
        Err(e) => assert_eq!(e.message(), "unexpected end of expression"),
        Ok(_) => panic!("expected a parse error"),
    }
}

#[test]
fn parse_assignment_is_right_associative() {
    let ast = parse_program("var a = 0; var b = 0; a = b = 1;");
    match ast.root().as_ref() {
        AstNode::Program(p) => {
            match p.decs()[2].as_ref() {
                AstNode::ExprStmt(e) => match e.expr().as_ref() {
                    AstNode::AssignExpr(outer) => {
                        assert_eq!(outer.variable().text(), "a");
                        assert!(matches!(outer.expr().as_ref(), AstNode::AssignExpr(_)));
                    },
                    _ => panic!("expected an assignment"),
                },
                _ => panic!("expected an expression statement"),
            }
        },
        _ => panic!("expected a program"),
    }
}

#[test]
fn parse_for_desugars_to_while() {
    let ast = parse_program("for (var i = 0; i < 3; i = i + 1) print i;");
    match ast.root().as_ref() {
        AstNode::Program(p) => match p.decs()[0].as_ref() {
            AstNode::Block(b) => {
                assert!(matches!(b.decs()[0].as_ref(), AstNode::VarDecl(_)));
                match b.decs()[1].as_ref() {
                    AstNode::WhileStmt(w) => {
                        // The increment is appended inside the loop body, so
                        // it runs even for a non-block body statement.
                        match w.stmt().as_ref() {
                            AstNode::Block(body) => {
                                assert_eq!(body.decs().len(), 2);
                                assert!(matches!(body.decs()[0].as_ref(), AstNode::PrintStmt(_)));
                            },
                            _ => panic!("expected the desugared loop body block"),
                        }
                    },
                    _ => panic!("expected the desugared while loop"),
                }
            },
            _ => panic!("expected the desugared outer block"),
        },
        _ => panic!("expected a program"),
    }
}

#[test]
fn parse_for_without_condition_defaults_to_true() {
    let ast = parse_program("for (;;) break;");
    match ast.root().as_ref() {
        AstNode::Program(p) => match p.decs()[0].as_ref() {
            AstNode::WhileStmt(w) => match w.expr().as_ref() {
                AstNode::LiteralExpr(l) => assert_eq!(l.token().kind(), TokenKind::True),
                _ => panic!("expected the default true condition"),
            },
            _ => panic!("expected a bare while loop"),
        },
        _ => panic!("expected a program"),
    }
}

#[test]
fn printed_expression_reparses_to_same_text() {
    for src in ["1", "1 + 2 * 3", "-x", "!(a == b)", "f(1, 2)", "a = b or c and d"] {
        let once = parse_expr(src).to_text();
        let again = parse_expr(&once).to_text();
        let third = parse_expr(&again).to_text();
        // One printing normalizes grouping; after that the text is stable.
        assert_eq!(again, third, "source: {}", src);
    }
}

#[test]
fn printed_simple_literal_is_stable() {
    assert_eq!(parse_expr("42").to_text(), "42");
    assert_eq!(parse_expr("1 + 2").to_text(), "(1 + 2)");
}

#[test]
fn printed_program_reparses() {
    let src = "var x = 1; { var y = x + 1; print y; } fun f(a) { return a; } print f(x);";
    let once = parse_program(src).to_text();
    let again = parse_program(&once).to_text();
    assert_eq!(once, again);
}

#[test]
fn scan_keeps_going_to_collect_every_error() {
    match scan("# @".chars().collect()) {
        Ok(_) => panic!("expected scan errors"),
        Err(es) => {
            assert_eq!(es.len(), 2);
            assert_eq!(es[0].message(), "unsupported characters");
            assert_eq!(es[1].message(), "unsupported characters");
        },
    }
}
