use crate::error::{ErrS, LoxError, errs_view};
use crate::number::spec_is_digit;
use crate::token::{Token, TokenKind, TokenS, toks_view};
use vstd::prelude::*;

verus! {

// The scanner makes a single left-to-right pass over the characters,
// classifying maximal runs into tokens.  `sp_scan` below is the exact
// mathematical statement of that pass; the executable scanner is proved to
// produce precisely its result.
pub open spec fn is_alpha(c: char) -> bool {
    ('a' <= c && c <= 'z') || ('A' <= c && c <= 'Z') || c == '_'
}

pub open spec fn is_word_char(c: char) -> bool {
    is_alpha(c) || spec_is_digit(c)
}

pub open spec fn is_single_char(c: char) -> bool {
    c == '+' || c == '-' || c == '*' || c == '/' || c == ',' || c == '}' || c == '{' || c == ')'
        || c == '(' || c == '.' || c == ';'
}

pub open spec fn single_kind(c: char) -> TokenKind {
    if c == '+' {
        TokenKind::Plus
    } else if c == '-' {
        TokenKind::Minus
    } else if c == '*' {
        TokenKind::Star
    } else if c == '/' {
        TokenKind::Slash
    } else if c == '{' {
        TokenKind::LeftBrace
    } else if c == '}' {
        TokenKind::RightBrace
    } else if c == '(' {
        TokenKind::LeftParen
    } else if c == ')' {
        TokenKind::RightParen
    } else if c == ';' {
        TokenKind::Semicolon
    } else if c == '.' {
        TokenKind::Dot
    } else if c == '>' {
        TokenKind::Greater
    } else if c == '<' {
        TokenKind::Less
    } else if c == '=' {
        TokenKind::Equal
    } else if c == '!' {
        TokenKind::Bang
    } else {
        TokenKind::Comma
    }
}

pub open spec fn is_double_head(c: char) -> bool {
    c == '!' || c == '=' || c == '>' || c == '<'
}

pub open spec fn double_kind(c: char) -> TokenKind {
    if c == '>' {
        TokenKind::GreaterEqual
    } else if c == '<' {
        TokenKind::LessEqual
    } else if c == '=' {
        TokenKind::EqualEqual
    } else {
        TokenKind::BangEqual
    }
}

/// The keyword a word resolves to; any other word is an identifier.
pub open spec fn keyword_kind(s: Seq<char>) -> TokenKind {
    if s == "this"@ {
        TokenKind::This
    } else if s == "true"@ {
        TokenKind::True
    } else if s == "false"@ {
        TokenKind::False
    } else if s == "while"@ {
        TokenKind::While
    } else if s == "for"@ {
        TokenKind::For
    } else if s == "class"@ {
        TokenKind::Class
    } else if s == "return"@ {
        TokenKind::Return
    } else if s == "if"@ {
        TokenKind::If
    } else if s == "else"@ {
        TokenKind::Else
    } else if s == "nil"@ {
        TokenKind::Nil
    } else if s == "print"@ {
        TokenKind::Print
    } else if s == "var"@ {
        TokenKind::Var
    } else if s == "super"@ {
        TokenKind::Super
    } else if s == "and"@ {
        TokenKind::And
    } else if s == "or"@ {
        TokenKind::Or
    } else if s == "fun"@ {
        TokenKind::Fun
    } else if s == "break"@ {
        TokenKind::Break
    } else {
        TokenKind::Identifier
    }
}

/// End of the maximal identifier/keyword run starting at `i`.
pub open spec fn word_end(text: Seq<char>, i: int) -> int
    decreases text.len() - i,
        when 0 <= i <= text.len()
{
    if i < text.len() && is_word_char(text[i]) {
        word_end(text, i + 1)
    } else {
        i
    }
}

/// End of the maximal numeric-literal run starting at `i`: digit runs with at
/// most one interior decimal point, where the point is consumed only when a
/// digit follows it.
pub open spec fn num_end(text: Seq<char>, i: int, seen_dot: bool) -> int
    decreases text.len() - i,
        when 0 <= i <= text.len()
{
    if i < text.len() && spec_is_digit(text[i]) {
        num_end(text, i + 1, seen_dot)
    } else if !seen_dot && i + 1 < text.len() && text[i] == '.' && spec_is_digit(text[i + 1]) {
        num_end(text, i + 1, true)
    } else {
        i
    }
}

/// Position of the next `"` at or after `i`, if any.
pub open spec fn close_quote(text: Seq<char>, i: int) -> Option<int>
    decreases text.len() - i,
        when 0 <= i <= text.len()
{
    if i >= text.len() {
        Option::None
    } else if text[i] == '"' {
        Option::Some(i)
    } else {
        close_quote(text, i + 1)
    }
}

pub open spec fn tok(kind: TokenKind, text: Seq<char>, line: nat) -> TokenS {
    TokenS { kind, text, line }
}

/// The tokens and errors produced by scanning `text` from position `i` with
/// the line counter at `line`.  The token list always ends with an explicit
/// end-of-input token carrying the final line.
pub open spec fn sp_scan(text: Seq<char>, i: int, line: nat) -> (Seq<TokenS>, Seq<ErrS>)
    decreases text.len() - i,
        when 0 <= i <= text.len()
        via sp_scan_dec
{
    if i >= text.len() {
        (seq![tok(TokenKind::EOF, Seq::empty(), line)], Seq::empty())
    } else {
        let c = text[i];
        if c == '\n' {
            sp_scan(text, i + 1, line + 1)
        } else if is_single_char(c) {
            let rest = sp_scan(text, i + 1, line);
            (seq![tok(single_kind(c), seq![c], line)] + rest.0, rest.1)
        } else if is_double_head(c) {
            if text.len() - i > 1 && text[i + 1] == '=' {
                let rest = sp_scan(text, i + 2, line);
                (seq![tok(double_kind(c), seq![c, '='], line)] + rest.0, rest.1)
            } else {
                let rest = sp_scan(text, i + 1, line);
                (seq![tok(single_kind(c), seq![c], line)] + rest.0, rest.1)
            }
        } else if is_alpha(c) {
            let j = word_end(text, i);
            let w = text.subrange(i, j);
            let rest = sp_scan(text, j, line);
            (seq![tok(keyword_kind(w), w, line)] + rest.0, rest.1)
        } else if spec_is_digit(c) {
            let j = num_end(text, i, false);
            let rest = sp_scan(text, j, line);
            (seq![tok(TokenKind::Number, text.subrange(i, j), line)] + rest.0, rest.1)
        } else if c == '"' {
            match close_quote(text, i + 1) {
                Option::Some(k) => {
                    let rest = sp_scan(text, k + 1, line);
                    (seq![tok(TokenKind::String, text.subrange(i, k + 1), line)] + rest.0, rest.1)
                },
                Option::None => {
                    (
                        seq![tok(TokenKind::EOF, Seq::empty(), line)],
                        seq![ErrS { line, msg: "unbalanced quotes"@ }],
                    )
                },
            }
        } else if c == ' ' || c == '\t' {
            sp_scan(text, i + 1, line)
        } else {
            let rest = sp_scan(text, i + 1, line);
            (rest.0, seq![ErrS { line, msg: "unsupported characters"@ }] + rest.1)
        }
    }
}

/// The token list the scanner produces is never empty and always ends with
/// the end-of-input marker.
pub proof fn sp_scan_shape(text: Seq<char>, i: int, line: nat)
    requires
        0 <= i <= text.len(),
    ensures
        sp_scan(text, i, line).0.len() > 0,
        sp_scan(text, i, line).0.last().kind == TokenKind::EOF,
    decreases text.len() - i,
{
    if i < text.len() {
        let c = text[i];
        if c == '\n' {
            sp_scan_shape(text, i + 1, line + 1);
        } else if is_single_char(c) {
            sp_scan_shape(text, i + 1, line);
        } else if is_double_head(c) {
            if i + 1 < text.len() && text[i + 1] == '=' {
                sp_scan_shape(text, i + 2, line);
            } else {
                sp_scan_shape(text, i + 1, line);
            }
        } else if is_alpha(c) {
            word_end_bounds(text, i + 1);
            assert(word_end(text, i) == word_end(text, i + 1));
            sp_scan_shape(text, word_end(text, i), line);
        } else if spec_is_digit(c) {
            num_end_bounds(text, i + 1, false);
            assert(num_end(text, i, false) == num_end(text, i + 1, false));
            sp_scan_shape(text, num_end(text, i, false), line);
        } else if c == '"' {
            match close_quote(text, i + 1) {
                Option::Some(k) => {
                    close_quote_bounds(text, i + 1);
                    sp_scan_shape(text, k + 1, line);
                },
                Option::None => {},
            }
        } else if c == ' ' || c == '\t' {
            sp_scan_shape(text, i + 1, line);
        } else {
            sp_scan_shape(text, i + 1, line);
        }
    }
}

#[via_fn]
proof fn sp_scan_dec(text: Seq<char>, i: int, line: nat) {
    if 0 <= i < text.len() {
        let c = text[i];
        if is_alpha(c) {
            word_end_bounds(text, i + 1);
            assert(word_end(text, i as int) == word_end(text, i + 1));
        } else if spec_is_digit(c) {
            num_end_bounds(text, i + 1, false);
            assert(num_end(text, i as int, false) == num_end(text, i + 1, false));
        } else if c == '"' {
            close_quote_bounds(text, i + 1);
        }
    }
}

proof fn word_end_bounds(text: Seq<char>, i: int)
    requires
        0 <= i <= text.len(),
    ensures
        i <= word_end(text, i) <= text.len(),
    decreases text.len() - i,
{
    if i < text.len() && is_word_char(text[i]) {
        word_end_bounds(text, i + 1);
    }
}

proof fn num_end_bounds(text: Seq<char>, i: int, seen_dot: bool)
    requires
        0 <= i <= text.len(),
    ensures
        i <= num_end(text, i, seen_dot) <= text.len(),
    decreases text.len() - i,
{
    if i < text.len() && spec_is_digit(text[i]) {
        num_end_bounds(text, i + 1, seen_dot);
    } else if !seen_dot && i + 1 < text.len() && text[i] == '.' && spec_is_digit(text[i + 1]) {
        num_end_bounds(text, i + 1, true);
    }
}

proof fn close_quote_bounds(text: Seq<char>, i: int)
    requires
        0 <= i <= text.len(),
    ensures
        match close_quote(text, i) {
            Option::Some(k) => i <= k < text.len(),
            Option::None => true,
        },
    decreases text.len() - i,
{
    if i < text.len() && text[i] != '"' {
        close_quote_bounds(text, i + 1);
    }
}

fn is_word_char_x(c: char) -> (r: bool)
    ensures
        r == is_word_char(c),
{
    let u = c as u32;
    (97 <= u && u <= 122) || (65 <= u && u <= 90) || c == '_' || (48 <= u && u <= 57)
}

fn is_alpha_x(c: char) -> (r: bool)
    ensures
        r == is_alpha(c),
{
    let u = c as u32;
    (97 <= u && u <= 122) || (65 <= u && u <= 90) || c == '_'
}

fn is_digit_x(c: char) -> (r: bool)
    ensures
        r == spec_is_digit(c),
{
    let u = c as u32;
    48 <= u && u <= 57
}

fn is_single_char_x(c: char) -> (r: bool)
    ensures
        r == is_single_char(c),
{
    c == '+' || c == '-' || c == '*' || c == '/' || c == ',' || c == '}' || c == '{' || c == ')'
        || c == '(' || c == '.' || c == ';'
}

fn is_double_head_x(c: char) -> (r: bool)
    ensures
        r == is_double_head(c),
{
    c == '!' || c == '=' || c == '>' || c == '<'
}

fn single_kind_x(c: char) -> (k: TokenKind)
    ensures
        k == single_kind(c),
{
    if c == '+' {
        TokenKind::Plus
    } else if c == '-' {
        TokenKind::Minus
    } else if c == '*' {
        TokenKind::Star
    } else if c == '/' {
        TokenKind::Slash
    } else if c == '{' {
        TokenKind::LeftBrace
    } else if c == '}' {
        TokenKind::RightBrace
    } else if c == '(' {
        TokenKind::LeftParen
    } else if c == ')' {
        TokenKind::RightParen
    } else if c == ';' {
        TokenKind::Semicolon
    } else if c == '.' {
        TokenKind::Dot
    } else if c == '>' {
        TokenKind::Greater
    } else if c == '<' {
        TokenKind::Less
    } else if c == '=' {
        TokenKind::Equal
    } else if c == '!' {
        TokenKind::Bang
    } else {
        TokenKind::Comma
    }
}

fn double_kind_x(c: char) -> (k: TokenKind)
    ensures
        k == double_kind(c),
{
    if c == '>' {
        TokenKind::GreaterEqual
    } else if c == '<' {
        TokenKind::LessEqual
    } else if c == '=' {
        TokenKind::EqualEqual
    } else {
        TokenKind::BangEqual
    }
}

fn str_is(s: &String, t: &str) -> (r: bool)
    ensures
        r == (s@ == t@),
{
    let k = String::from_str(t);
    *s == k
}

fn keyword_kind_x(s: &String) -> (k: TokenKind)
    ensures
        k == keyword_kind(s@),
{
    if str_is(s, "this") {
        TokenKind::This
    } else if str_is(s, "true") {
        TokenKind::True
    } else if str_is(s, "false") {
        TokenKind::False
    } else if str_is(s, "while") {
        TokenKind::While
    } else if str_is(s, "for") {
        TokenKind::For
    } else if str_is(s, "class") {
        TokenKind::Class
    } else if str_is(s, "return") {
        TokenKind::Return
    } else if str_is(s, "if") {
        TokenKind::If
    } else if str_is(s, "else") {
        TokenKind::Else
    } else if str_is(s, "nil") {
        TokenKind::Nil
    } else if str_is(s, "print") {
        TokenKind::Print
    } else if str_is(s, "var") {
        TokenKind::Var
    } else if str_is(s, "super") {
        TokenKind::Super
    } else if str_is(s, "and") {
        TokenKind::And
    } else if str_is(s, "or") {
        TokenKind::Or
    } else if str_is(s, "fun") {
        TokenKind::Fun
    } else if str_is(s, "break") {
        TokenKind::Break
    } else {
        TokenKind::Identifier
    }
}

fn word_end_x(text: &Vec<char>, i: usize) -> (r: usize)
    requires
        i <= text.len(),
    ensures
        r == word_end(text@, i as int),
        i <= r <= text.len(),
    decreases text.len() - i,
{
    if i < text.len() && is_word_char_x(text[i]) {
        word_end_x(text, i + 1)
    } else {
        i
    }
}

fn num_end_x(text: &Vec<char>, i: usize, seen_dot: bool) -> (r: usize)
    requires
        i <= text.len(),
    ensures
        r == num_end(text@, i as int, seen_dot),
        i <= r <= text.len(),
    decreases text.len() - i,
{
    if i < text.len() && is_digit_x(text[i]) {
        num_end_x(text, i + 1, seen_dot)
    } else if !seen_dot && text.len() - i > 1 && text[i] == '.' && is_digit_x(text[i + 1]) {
        num_end_x(text, i + 1, true)
    } else {
        i
    }
}

fn close_quote_x(text: &Vec<char>, i: usize) -> (r: Option<usize>)
    requires
        i <= text.len(),
    ensures
        match r {
            Option::Some(k) => close_quote(text@, i as int) == Option::Some(k as int) && i <= k
                < text.len(),
            Option::None => close_quote(text@, i as int) is None,
        },
    decreases text.len() - i,
{
    if i >= text.len() {
        Option::None
    } else if text[i] == '"' {
        Option::Some(i)
    } else {
        close_quote_x(text, i + 1)
    }
}

/// The characters `text[i..j]` as a fresh `String`.
fn slice_text(text: &Vec<char>, i: usize, j: usize) -> (s: String)
    requires
        i <= j <= text.len(),
    ensures
        s@ == text@.subrange(i as int, j as int),
{
    let mut buf: Vec<char> = Vec::new();
    let mut k: usize = i;
    while k < j
        invariant
            i <= k <= j <= text.len(),
            buf@ == text@.subrange(i as int, k as int),
        decreases j - k,
    {
        buf.push(text[k]);
        proof {
            assert(buf@ =~= text@.subrange(i as int, k + 1));
        }
        k = k + 1;
    }
    crate::number::chars_to_string(&buf)
}

fn scan_rec(text: &Vec<char>, i: usize, line: usize, toks: &mut Vec<Token>, errs: &mut Vec<
    LoxError,
>)
    requires
        i <= text.len(),
        line <= i,
    ensures
        toks_view(final(toks)@) == toks_view(old(toks)@) + sp_scan(text@, i as int, line as nat).0,
        errs_view(final(errs)@) == errs_view(old(errs)@) + sp_scan(text@, i as int, line as nat).1,
    decreases text.len() - i,
{
    proof {
        let _ = sp_scan(text@, i as int, line as nat);
    }
    if i >= text.len() {
        toks.push(Token::new(TokenKind::EOF, String::new(), line));
        proof {
            assert(toks_view(toks@) =~= toks_view(old(toks)@) + sp_scan(
                text@,
                i as int,
                line as nat,
            ).0);
            assert(errs_view(errs@) =~= errs_view(old(errs)@) + sp_scan(
                text@,
                i as int,
                line as nat,
            ).1);
        }
    } else {
        let c = text[i];
        if c == '\n' {
            scan_rec(text, i + 1, line + 1, toks, errs);
        } else if is_single_char_x(c) {
            let mut buf: Vec<char> = Vec::new();
            buf.push(c);
            proof {
                assert(buf@ =~= seq![c]);
            }
            toks.push(Token::new(single_kind_x(c), crate::number::chars_to_string(&buf), line));
            let ghost mid = toks@;
            scan_rec(text, i + 1, line, toks, errs);
            proof {
                assert(toks_view(mid) =~= toks_view(old(toks)@).push(
                    tok(single_kind(c), seq![c], line as nat),
                ));
                assert(toks_view(toks@) =~= toks_view(old(toks)@) + sp_scan(
                    text@,
                    i as int,
                    line as nat,
                ).0);
            }
        } else if is_double_head_x(c) {
            if text.len() - i > 1 && text[i + 1] == '=' {
                let mut buf: Vec<char> = Vec::new();
                buf.push(c);
                buf.push('=');
                proof {
                    assert(buf@ =~= seq![c, '=']);
                }
                toks.push(
                    Token::new(double_kind_x(c), crate::number::chars_to_string(&buf), line),
                );
                let ghost mid = toks@;
                scan_rec(text, i + 2, line, toks, errs);
                proof {
                    assert(toks_view(mid) =~= toks_view(old(toks)@).push(
                        tok(double_kind(c), seq![c, '='], line as nat),
                    ));
                    assert(toks_view(toks@) =~= toks_view(old(toks)@) + sp_scan(
                        text@,
                        i as int,
                        line as nat,
                    ).0);
                }
            } else {
                let mut buf: Vec<char> = Vec::new();
                buf.push(c);
                proof {
                    assert(buf@ =~= seq![c]);
                }
                toks.push(
                    Token::new(single_kind_x(c), crate::number::chars_to_string(&buf), line),
                );
                let ghost mid = toks@;
                scan_rec(text, i + 1, line, toks, errs);
                proof {
                    assert(toks_view(mid) =~= toks_view(old(toks)@).push(
                        tok(single_kind(c), seq![c], line as nat),
                    ));
                    assert(toks_view(toks@) =~= toks_view(old(toks)@) + sp_scan(
                        text@,
                        i as int,
                        line as nat,
                    ).0);
                }
            }
        } else if is_alpha_x(c) {
            let j = word_end_x(text, i);
            let w = slice_text(text, i, j);
            let kind = keyword_kind_x(&w);
            toks.push(Token::new(kind, w, line));
            let ghost mid = toks@;
            proof {
                word_end_bounds(text@, i as int);
                assert(word_end(text@, i as int) == word_end(text@, i + 1) || !is_word_char(
                    text@[i as int],
                ));
            }
            scan_rec(text, j, line, toks, errs);
            proof {
                assert(toks_view(toks@) =~= toks_view(old(toks)@) + sp_scan(
                    text@,
                    i as int,
                    line as nat,
                ).0);
            }
        } else if is_digit_x(c) {
            let j = num_end_x(text, i, false);
            let w = slice_text(text, i, j);
            toks.push(Token::new(TokenKind::Number, w, line));
            scan_rec(text, j, line, toks, errs);
            proof {
                assert(toks_view(toks@) =~= toks_view(old(toks)@) + sp_scan(
                    text@,
                    i as int,
                    line as nat,
                ).0);
            }
        } else if c == '"' {
            match close_quote_x(text, i + 1) {
                Option::Some(k) => {
                    let w = slice_text(text, i, k + 1);
                    toks.push(Token::new(TokenKind::String, w, line));
                    scan_rec(text, k + 1, line, toks, errs);
                    proof {
                        assert(toks_view(toks@) =~= toks_view(old(toks)@) + sp_scan(
                            text@,
                            i as int,
                            line as nat,
                        ).0);
                    }
                },
                Option::None => {
                    errs.push(LoxError::new(line, String::from_str("unbalanced quotes")));
                    toks.push(Token::new(TokenKind::EOF, String::new(), line));
                    proof {
                        assert(toks_view(toks@) =~= toks_view(old(toks)@) + sp_scan(
                            text@,
                            i as int,
                            line as nat,
                        ).0);
                        assert(errs_view(errs@) =~= errs_view(old(errs)@) + sp_scan(
                            text@,
                            i as int,
                            line as nat,
                        ).1);
                    }
                },
            }
        } else if c == ' ' || c == '\t' {
            scan_rec(text, i + 1, line, toks, errs);
        } else {
            errs.push(LoxError::new(line, String::from_str("unsupported characters")));
            let ghost mid = errs@;
            scan_rec(text, i + 1, line, toks, errs);
            proof {
                assert(errs_view(errs@) =~= errs_view(old(errs)@) + sp_scan(
                    text@,
                    i as int,
                    line as nat,
                ).1);
            }
        }
    }
}

/// Scans raw characters into the flat token sequence.  On success the tokens
/// are exactly `sp_scan`'s; once any lexical error occurred the whole call
/// fails and hands back every error found, each with its source line.
pub fn scan(text: Vec<char>) -> (r: Result<Vec<Token>, Vec<LoxError>>)
    ensures
        match r {
            Ok(toks) => sp_scan(text@, 0, 0).1.len() == 0 && toks_view(toks@) == sp_scan(
                text@,
                0,
                0,
            ).0,
            Err(errs) => sp_scan(text@, 0, 0).1.len() > 0 && errs_view(errs@) == sp_scan(
                text@,
                0,
                0,
            ).1,
        },
{
    let mut toks: Vec<Token> = Vec::new();
    let mut errs: Vec<LoxError> = Vec::new();
    scan_rec(&text, 0, 0, &mut toks, &mut errs);
    proof {
        assert(toks_view(toks@) =~= sp_scan(text@, 0, 0).0);
        assert(errs_view(errs@) =~= sp_scan(text@, 0, 0).1);
    }
    if errs.len() > 0 {
        Err(errs)
    } else {
        Ok(toks)
    }
}

} // verus!
