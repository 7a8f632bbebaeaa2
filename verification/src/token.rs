use vstd::prelude::*;

verus! {

/// The closed set of token kinds produced by the scanner.
#[derive(PartialEq, Eq, Debug, Clone, Copy, Structural)]
pub enum TokenKind {
    // Single-character tokens.
    LeftParen,
    RightParen,
    LeftBrace,
    RightBrace,
    Comma,
    Dot,
    Minus,
    Plus,
    Semicolon,
    Slash,
    Star,
    // One or two character tokens.
    Bang,
    BangEqual,
    Equal,
    EqualEqual,
    Greater,
    GreaterEqual,
    Less,
    LessEqual,
    // Literals.
    Identifier,
    String,
    Number,
    // Keywords.
    And,
    Break,
    Class,
    Else,
    False,
    Fun,
    For,
    If,
    Nil,
    Or,
    Print,
    Return,
    Super,
    This,
    True,
    Var,
    While,
    // End-of-input marker.
    EOF,
}

/// Mathematical image of a token.
pub struct TokenS {
    pub kind: TokenKind,
    pub text: Seq<char>,
    pub line: nat,
}

/// One lexical token: its kind, its source text and the line it starts on.
/// Immutable once produced by the scanner.
#[derive(Debug, Clone)]
pub struct Token {
    pub kind: TokenKind,
    pub text: String,
    pub line: usize,
}

impl View for Token {
    type V = TokenS;

    open spec fn view(&self) -> TokenS {
        TokenS { kind: self.kind, text: self.text@, line: self.line as nat }
    }
}

impl Token {
    pub fn new(kind: TokenKind, text: String, line: usize) -> (t: Token)
        ensures
            t@ == (TokenS { kind, text: text@, line: line as nat }),
    {
        Token { kind, text, line }
    }

    pub fn kind(&self) -> (k: TokenKind)
        ensures
            k == self@.kind,
    {
        self.kind
    }

    pub fn line(&self) -> (l: usize)
        ensures
            l as nat == self@.line,
    {
        self.line
    }

    pub fn text(&self) -> (t: &String)
        ensures
            t@ == self@.text,
    {
        &self.text
    }

    /// An equal copy; `Token` owns a `String`, so this is the spelled-out
    /// clone used where a token is both kept and handed on.
    pub fn duplicate(&self) -> (t: Token)
        ensures
            t@ == self@,
    {
        Token { kind: self.kind, text: self.text.clone(), line: self.line }
    }

    /// The phrase used in reports to name a token kind, e.g. the thing the
    /// parser expected to find.
    pub fn describe_kind(kind: TokenKind) -> (s: String)
        ensures
            s@ == spec_describe_kind(kind),
    {
        let text: &str = match kind {
            TokenKind::LeftParen => "'('",
            TokenKind::RightParen => "')'",
            TokenKind::LeftBrace => "'{'",
            TokenKind::RightBrace => "'}'",
            TokenKind::Comma => "','",
            TokenKind::Dot => "'.'",
            TokenKind::Minus => "'-'",
            TokenKind::Plus => "'+'",
            TokenKind::Semicolon => "';'",
            TokenKind::Slash => "'/'",
            TokenKind::Star => "'*'",
            TokenKind::Bang => "'!'",
            TokenKind::BangEqual => "'!='",
            TokenKind::Equal => "'='",
            TokenKind::EqualEqual => "'=='",
            TokenKind::Greater => "'>'",
            TokenKind::GreaterEqual => "'>='",
            TokenKind::Less => "'<'",
            TokenKind::LessEqual => "'<='",
            TokenKind::Identifier => "identifier",
            TokenKind::String => "string literal",
            TokenKind::Number => "numeric literal",
            TokenKind::And => "keyword 'and'",
            TokenKind::Break => "keyword 'break'",
            TokenKind::Class => "keyword 'class'",
            TokenKind::Else => "keyword 'else'",
            TokenKind::False => "keyword 'false'",
            TokenKind::Fun => "keyword 'fun'",
            TokenKind::For => "keyword 'for'",
            TokenKind::If => "keyword 'if'",
            TokenKind::Nil => "keyword 'nil'",
            TokenKind::Or => "keyword 'or'",
            TokenKind::Print => "keyword 'print'",
            TokenKind::Return => "keyword 'return'",
            TokenKind::Super => "keyword 'super'",
            TokenKind::This => "keyword 'this'",
            TokenKind::True => "keyword 'true'",
            TokenKind::Var => "keyword 'var'",
            TokenKind::While => "keyword 'while'",
            TokenKind::EOF => "keyword 'eof'",
        };
        String::from_str(text)
    }
}

pub open spec fn spec_describe_kind(kind: TokenKind) -> Seq<char> {
    match kind {
        TokenKind::LeftParen => "'('"@,
        TokenKind::RightParen => "')'"@,
        TokenKind::LeftBrace => "'{'"@,
        TokenKind::RightBrace => "'}'"@,
        TokenKind::Comma => "','"@,
        TokenKind::Dot => "'.'"@,
        TokenKind::Minus => "'-'"@,
        TokenKind::Plus => "'+'"@,
        TokenKind::Semicolon => "';'"@,
        TokenKind::Slash => "'/'"@,
        TokenKind::Star => "'*'"@,
        TokenKind::Bang => "'!'"@,
        TokenKind::BangEqual => "'!='"@,
        TokenKind::Equal => "'='"@,
        TokenKind::EqualEqual => "'=='"@,
        TokenKind::Greater => "'>'"@,
        TokenKind::GreaterEqual => "'>='"@,
        TokenKind::Less => "'<'"@,
        TokenKind::LessEqual => "'<='"@,
        TokenKind::Identifier => "identifier"@,
        TokenKind::String => "string literal"@,
        TokenKind::Number => "numeric literal"@,
        TokenKind::And => "keyword 'and'"@,
        TokenKind::Break => "keyword 'break'"@,
        TokenKind::Class => "keyword 'class'"@,
        TokenKind::Else => "keyword 'else'"@,
        TokenKind::False => "keyword 'false'"@,
        TokenKind::Fun => "keyword 'fun'"@,
        TokenKind::For => "keyword 'for'"@,
        TokenKind::If => "keyword 'if'"@,
        TokenKind::Nil => "keyword 'nil'"@,
        TokenKind::Or => "keyword 'or'"@,
        TokenKind::Print => "keyword 'print'"@,
        TokenKind::Return => "keyword 'return'"@,
        TokenKind::Super => "keyword 'super'"@,
        TokenKind::This => "keyword 'this'"@,
        TokenKind::True => "keyword 'true'"@,
        TokenKind::Var => "keyword 'var'"@,
        TokenKind::While => "keyword 'while'"@,
        TokenKind::EOF => "keyword 'eof'"@,
    }
}

/// Whether two strings hold the same characters.
pub fn streq(a: &String, b: &String) -> (r: bool)
    ensures
        r == (a@ == b@),
{
    *a == *b
}

/// The views of a token list, in order.
pub open spec fn toks_view(s: Seq<Token>) -> Seq<TokenS> {
    s.map_values(|t: Token| t@)
}

pub proof fn toks_view_push(s: Seq<Token>, t: Token)
    ensures
        toks_view(s.push(t)) == toks_view(s).push(t@),
{
    assert(toks_view(s.push(t)) =~= toks_view(s).push(t@));
}

pub proof fn toks_view_empty()
    ensures
        toks_view(Seq::<Token>::empty()) == Seq::<TokenS>::empty(),
{
    assert(toks_view(Seq::<Token>::empty()) =~= Seq::<TokenS>::empty());
}

} // verus!
