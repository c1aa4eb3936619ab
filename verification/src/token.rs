//! Tokens and token kinds shared by the scanner and the parser.

use vstd::prelude::*;

verus! {

/// The kind of a token, together with its payload where one exists.
///
/// `Str` carries the text of a string literal without its quotes,
/// `Num` the exact value of a number literal, and `Identifier` the
/// text of a name that is not a keyword.
pub enum TokenType {
    LeftParen,
    RightParen,
    LeftBrace,
    RightBrace,
    Comma,
    Dot,
    Minus,
    Plus,
    Semicolon,
    Slash,
    Star,
    Bang,
    BangEq,
    Eq,
    EqEq,
    Greater,
    GreaterEq,
    Less,
    LessEq,
    Identifier(String),
    Str(String),
    Num(i64),
    And,
    Class,
    Else,
    False,
    For,
    Fun,
    If,
    Nil,
    Or,
    Print,
    Return,
    Super,
    This,
    True,
    Var,
    While,
    Eof,
}

/// Mathematical model of a token kind: the same variants with the
/// string payloads abstracted to character sequences.
pub enum TokenTypeV {
    LeftParen,
    RightParen,
    LeftBrace,
    RightBrace,
    Comma,
    Dot,
    Minus,
    Plus,
    Semicolon,
    Slash,
    Star,
    Bang,
    BangEq,
    Eq,
    EqEq,
    Greater,
    GreaterEq,
    Less,
    LessEq,
    Identifier(Seq<char>),
    Str(Seq<char>),
    Num(i64),
    And,
    Class,
    Else,
    False,
    For,
    Fun,
    If,
    Nil,
    Or,
    Print,
    Return,
    Super,
    This,
    True,
    Var,
    While,
    Eof,
}

impl View for TokenType {
    type V = TokenTypeV;

    open spec fn view(&self) -> TokenTypeV {
        match self {
            TokenType::LeftParen => TokenTypeV::LeftParen,
            TokenType::RightParen => TokenTypeV::RightParen,
            TokenType::LeftBrace => TokenTypeV::LeftBrace,
            TokenType::RightBrace => TokenTypeV::RightBrace,
            TokenType::Comma => TokenTypeV::Comma,
            TokenType::Dot => TokenTypeV::Dot,
            TokenType::Minus => TokenTypeV::Minus,
            TokenType::Plus => TokenTypeV::Plus,
            TokenType::Semicolon => TokenTypeV::Semicolon,
            TokenType::Slash => TokenTypeV::Slash,
            TokenType::Star => TokenTypeV::Star,
            TokenType::Bang => TokenTypeV::Bang,
            TokenType::BangEq => TokenTypeV::BangEq,
            TokenType::Eq => TokenTypeV::Eq,
            TokenType::EqEq => TokenTypeV::EqEq,
            TokenType::Greater => TokenTypeV::Greater,
            TokenType::GreaterEq => TokenTypeV::GreaterEq,
            TokenType::Less => TokenTypeV::Less,
            TokenType::LessEq => TokenTypeV::LessEq,
            TokenType::Identifier(s) => TokenTypeV::Identifier(s@),
            TokenType::Str(s) => TokenTypeV::Str(s@),
            TokenType::Num(n) => TokenTypeV::Num(*n),
            TokenType::And => TokenTypeV::And,
            TokenType::Class => TokenTypeV::Class,
            TokenType::Else => TokenTypeV::Else,
            TokenType::False => TokenTypeV::False,
            TokenType::For => TokenTypeV::For,
            TokenType::Fun => TokenTypeV::Fun,
            TokenType::If => TokenTypeV::If,
            TokenType::Nil => TokenTypeV::Nil,
            TokenType::Or => TokenTypeV::Or,
            TokenType::Print => TokenTypeV::Print,
            TokenType::Return => TokenTypeV::Return,
            TokenType::Super => TokenTypeV::Super,
            TokenType::This => TokenTypeV::This,
            TokenType::True => TokenTypeV::True,
            TokenType::Var => TokenTypeV::Var,
            TokenType::While => TokenTypeV::While,
            TokenType::Eof => TokenTypeV::Eof,
        }
    }
}

impl Clone for TokenType {
    /// Cloning a token kind preserves its value, payload included.
    fn clone(&self) -> (r: Self)
        ensures
            r == *self,
    {
        match self {
            TokenType::LeftParen => TokenType::LeftParen,
            TokenType::RightParen => TokenType::RightParen,
            TokenType::LeftBrace => TokenType::LeftBrace,
            TokenType::RightBrace => TokenType::RightBrace,
            TokenType::Comma => TokenType::Comma,
            TokenType::Dot => TokenType::Dot,
            TokenType::Minus => TokenType::Minus,
            TokenType::Plus => TokenType::Plus,
            TokenType::Semicolon => TokenType::Semicolon,
            TokenType::Slash => TokenType::Slash,
            TokenType::Star => TokenType::Star,
            TokenType::Bang => TokenType::Bang,
            TokenType::BangEq => TokenType::BangEq,
            TokenType::Eq => TokenType::Eq,
            TokenType::EqEq => TokenType::EqEq,
            TokenType::Greater => TokenType::Greater,
            TokenType::GreaterEq => TokenType::GreaterEq,
            TokenType::Less => TokenType::Less,
            TokenType::LessEq => TokenType::LessEq,
            TokenType::Identifier(s) => TokenType::Identifier(s.clone()),
            TokenType::Str(s) => TokenType::Str(s.clone()),
            TokenType::Num(n) => TokenType::Num(*n),
            TokenType::And => TokenType::And,
            TokenType::Class => TokenType::Class,
            TokenType::Else => TokenType::Else,
            TokenType::False => TokenType::False,
            TokenType::For => TokenType::For,
            TokenType::Fun => TokenType::Fun,
            TokenType::If => TokenType::If,
            TokenType::Nil => TokenType::Nil,
            TokenType::Or => TokenType::Or,
            TokenType::Print => TokenType::Print,
            TokenType::Return => TokenType::Return,
            TokenType::Super => TokenType::Super,
            TokenType::This => TokenType::This,
            TokenType::True => TokenType::True,
            TokenType::Var => TokenType::Var,
            TokenType::While => TokenType::While,
            TokenType::Eof => TokenType::Eof,
        }
    }
}

impl PartialEq for TokenType {
    /// Token kinds are equal when both the tag and the payload agree;
    /// the parser's lookahead relies on this equality.
    #[verifier::rlimit(100)]
    fn eq(&self, other: &Self) -> (r: bool) {
        match (self, other) {
            (TokenType::LeftParen, TokenType::LeftParen) => true,
            (TokenType::RightParen, TokenType::RightParen) => true,
            (TokenType::LeftBrace, TokenType::LeftBrace) => true,
            (TokenType::RightBrace, TokenType::RightBrace) => true,
            (TokenType::Comma, TokenType::Comma) => true,
            (TokenType::Dot, TokenType::Dot) => true,
            (TokenType::Minus, TokenType::Minus) => true,
            (TokenType::Plus, TokenType::Plus) => true,
            (TokenType::Semicolon, TokenType::Semicolon) => true,
            (TokenType::Slash, TokenType::Slash) => true,
            (TokenType::Star, TokenType::Star) => true,
            (TokenType::Bang, TokenType::Bang) => true,
            (TokenType::BangEq, TokenType::BangEq) => true,
            (TokenType::Eq, TokenType::Eq) => true,
            (TokenType::EqEq, TokenType::EqEq) => true,
            (TokenType::Greater, TokenType::Greater) => true,
            (TokenType::GreaterEq, TokenType::GreaterEq) => true,
            (TokenType::Less, TokenType::Less) => true,
            (TokenType::LessEq, TokenType::LessEq) => true,
            (TokenType::Identifier(a), TokenType::Identifier(b)) => String::eq(a, b),
            (TokenType::Str(a), TokenType::Str(b)) => String::eq(a, b),
            (TokenType::Num(a), TokenType::Num(b)) => a == b,
            (TokenType::And, TokenType::And) => true,
            (TokenType::Class, TokenType::Class) => true,
            (TokenType::Else, TokenType::Else) => true,
            (TokenType::False, TokenType::False) => true,
            (TokenType::For, TokenType::For) => true,
            (TokenType::Fun, TokenType::Fun) => true,
            (TokenType::If, TokenType::If) => true,
            (TokenType::Nil, TokenType::Nil) => true,
            (TokenType::Or, TokenType::Or) => true,
            (TokenType::Print, TokenType::Print) => true,
            (TokenType::Return, TokenType::Return) => true,
            (TokenType::Super, TokenType::Super) => true,
            (TokenType::This, TokenType::This) => true,
            (TokenType::True, TokenType::True) => true,
            (TokenType::Var, TokenType::Var) => true,
            (TokenType::While, TokenType::While) => true,
            (TokenType::Eof, TokenType::Eof) => true,
            _ => false,
        }
    }
}

impl vstd::std_specs::cmp::PartialEqSpecImpl for TokenType {
    open spec fn obeys_eq_spec() -> bool {
        true
    }

    open spec fn eq_spec(&self, other: &Self) -> bool {
        self@ == other@
    }
}

/// The source text of a token kind: operators and punctuation as
/// written, a string literal with its quotes, a number in decimal, and
/// nothing for the end-of-stream token.
pub open spec fn lexeme(t: TokenTypeV) -> Seq<char> {
    match t {
        TokenTypeV::LeftParen => "("@,
        TokenTypeV::RightParen => ")"@,
        TokenTypeV::LeftBrace => "{"@,
        TokenTypeV::RightBrace => "}"@,
        TokenTypeV::Comma => ","@,
        TokenTypeV::Dot => "."@,
        TokenTypeV::Minus => "-"@,
        TokenTypeV::Plus => "+"@,
        TokenTypeV::Semicolon => ";"@,
        TokenTypeV::Slash => "/"@,
        TokenTypeV::Star => "*"@,
        TokenTypeV::Bang => "!"@,
        TokenTypeV::BangEq => "!="@,
        TokenTypeV::Eq => "="@,
        TokenTypeV::EqEq => "=="@,
        TokenTypeV::Greater => ">"@,
        TokenTypeV::GreaterEq => ">="@,
        TokenTypeV::Less => "<"@,
        TokenTypeV::LessEq => "<="@,
        TokenTypeV::Identifier(s) => s,
        TokenTypeV::Str(s) => seq!['"'] + s + seq!['"'],
        TokenTypeV::Num(n) => crate::text::render_num(n as int),
        TokenTypeV::And => "and"@,
        TokenTypeV::Class => "class"@,
        TokenTypeV::Else => "else"@,
        TokenTypeV::False => "false"@,
        TokenTypeV::For => "for"@,
        TokenTypeV::Fun => "fun"@,
        TokenTypeV::If => "if"@,
        TokenTypeV::Nil => "nil"@,
        TokenTypeV::Or => "or"@,
        TokenTypeV::Print => "print"@,
        TokenTypeV::Return => "return"@,
        TokenTypeV::Super => "super"@,
        TokenTypeV::This => "this"@,
        TokenTypeV::True => "true"@,
        TokenTypeV::Var => "var"@,
        TokenTypeV::While => "while"@,
        TokenTypeV::Eof => Seq::empty(),
    }
}

impl TokenType {
    /// Appends this token kind's source text.
    pub fn write_lexeme(&self, out: &mut String)
        ensures
            final(out)@ == old(out)@ + lexeme(self@),
    {
        match self {
            TokenType::LeftParen => out.append("("),
            TokenType::RightParen => out.append(")"),
            TokenType::LeftBrace => out.append("{"),
            TokenType::RightBrace => out.append("}"),
            TokenType::Comma => out.append(","),
            TokenType::Dot => out.append("."),
            TokenType::Minus => out.append("-"),
            TokenType::Plus => out.append("+"),
            TokenType::Semicolon => out.append(";"),
            TokenType::Slash => out.append("/"),
            TokenType::Star => out.append("*"),
            TokenType::Bang => out.append("!"),
            TokenType::BangEq => out.append("!="),
            TokenType::Eq => out.append("="),
            TokenType::EqEq => out.append("=="),
            TokenType::Greater => out.append(">"),
            TokenType::GreaterEq => out.append(">="),
            TokenType::Less => out.append("<"),
            TokenType::LessEq => out.append("<="),
            TokenType::Identifier(s) => out.append(s.as_str()),
            TokenType::Str(s) => {
                crate::text::push_char(out, '"');
                out.append(s.as_str());
                crate::text::push_char(out, '"');
                proof {
                    assert(out@ =~= old(out)@ + (seq!['"'] + s@ + seq!['"']));
                }
            },
            TokenType::Num(n) => crate::text::push_num(out, *n),
            TokenType::And => out.append("and"),
            TokenType::Class => out.append("class"),
            TokenType::Else => out.append("else"),
            TokenType::False => out.append("false"),
            TokenType::For => out.append("for"),
            TokenType::Fun => out.append("fun"),
            TokenType::If => out.append("if"),
            TokenType::Nil => out.append("nil"),
            TokenType::Or => out.append("or"),
            TokenType::Print => out.append("print"),
            TokenType::Return => out.append("return"),
            TokenType::Super => out.append("super"),
            TokenType::This => out.append("this"),
            TokenType::Var => out.append("var"),
            TokenType::While => out.append("while"),
            TokenType::True => out.append("true"),
            TokenType::Eof => {
                proof {
                    assert(out@ =~= old(out)@ + Seq::<char>::empty());
                }
            },
        }
    }
}

/// A token: a kind paired with the 1-based line it was scanned on.
pub struct Token {
    pub token_type: TokenType,
    pub line: usize,
}

/// Mathematical model of a token.
pub struct TokenV {
    pub token_type: TokenTypeV,
    pub line: usize,
}

impl View for Token {
    type V = TokenV;

    open spec fn view(&self) -> TokenV {
        TokenV { token_type: self.token_type@, line: self.line }
    }
}

impl Clone for Token {
    /// Cloning a token preserves its kind and line.
    fn clone(&self) -> (r: Self)
        ensures
            r == *self,
    {
        Token { token_type: self.token_type.clone(), line: self.line }
    }
}

/// The model of a sequence of tokens.
pub open spec fn tokens_view(ts: Seq<Token>) -> Seq<TokenV> {
    ts.map_values(|t: Token| t@)
}

impl Token {
    pub fn new(token_type: TokenType, line: usize) -> (r: Token)
        ensures
            r@ == (TokenV { token_type: token_type@, line }),
    {
        Token { token_type, line }
    }
}

} // verus!
