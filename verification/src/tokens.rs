use vstd::prelude::*;
use crate::text::spells;
use crate::text::chars_of;
use vstd::string::*;

verus! {

/// The closed set of token kinds.
#[derive(Clone, Copy, Debug, PartialEq, Eq, Structural)]
pub enum TokenType {
    // Single-character tokens.
    LeftParen,
    RightParen,
    LeftBrace,
    RightBrace,
    Comma,
    Dot,
    Minus,
    Plus,
    Semicolon,
    Star,
    Slash,
    // Sentinel.
    Eof,
    // One or two character tokens.
    Bang,
    BangEqual,
    Equal,
    EqualEqual,
    Greater,
    GreaterEqual,
    Less,
    LessEqual,
    // Literals.
    String,
    Number,
    Identifier,
    // Keywords.
    And,
    Class,
    Else,
    False,
    For,
    Fun,
    If,
    Nil,
    Or,
    Print,
    Return,
    Super,
    This,
    True,
    Var,
    While,
}

/// The kind of the word `word`: its keyword, or `Identifier` when it is none.
pub open spec fn keyword_or_identifier(word: Seq<char>) -> TokenType {
    if word == "and"@ {
        TokenType::And
    } else if word == "class"@ {
        TokenType::Class
    } else if word == "else"@ {
        TokenType::Else
    } else if word == "false"@ {
        TokenType::False
    } else if word == "for"@ {
        TokenType::For
    } else if word == "fun"@ {
        TokenType::Fun
    } else if word == "if"@ {
        TokenType::If
    } else if word == "nil"@ {
        TokenType::Nil
    } else if word == "or"@ {
        TokenType::Or
    } else if word == "print"@ {
        TokenType::Print
    } else if word == "return"@ {
        TokenType::Return
    } else if word == "super"@ {
        TokenType::Super
    } else if word == "this"@ {
        TokenType::This
    } else if word == "true"@ {
        TokenType::True
    } else if word == "var"@ {
        TokenType::Var
    } else if word == "while"@ {
        TokenType::While
    } else {
        TokenType::Identifier
    }
}

/// The kind of the word `chars[from..to]`.
pub fn word_kind(chars: &Vec<char>, from: usize, to: usize) -> (kind: TokenType)
    requires
        from <= to <= chars@.len(),
    ensures
        kind == keyword_or_identifier(chars@.subrange(from as int, to as int)),
{
    if spells(chars, from, to, "and") {
        TokenType::And
    } else if spells(chars, from, to, "class") {
        TokenType::Class
    } else if spells(chars, from, to, "else") {
        TokenType::Else
    } else if spells(chars, from, to, "false") {
        TokenType::False
    } else if spells(chars, from, to, "for") {
        TokenType::For
    } else if spells(chars, from, to, "fun") {
        TokenType::Fun
    } else if spells(chars, from, to, "if") {
        TokenType::If
    } else if spells(chars, from, to, "nil") {
        TokenType::Nil
    } else if spells(chars, from, to, "or") {
        TokenType::Or
    } else if spells(chars, from, to, "print") {
        TokenType::Print
    } else if spells(chars, from, to, "return") {
        TokenType::Return
    } else if spells(chars, from, to, "super") {
        TokenType::Super
    } else if spells(chars, from, to, "this") {
        TokenType::This
    } else if spells(chars, from, to, "true") {
        TokenType::True
    } else if spells(chars, from, to, "var") {
        TokenType::Var
    } else if spells(chars, from, to, "while") {
        TokenType::While
    } else {
        TokenType::Identifier
    }
}

impl TokenType {
    /// The upper-case name under which a kind is listed.
    pub open spec fn name(self) -> Seq<char> {
        match self {
            TokenType::RightParen => "RIGHT_PAREN"@,
            TokenType::LeftParen => "LEFT_PAREN"@,
            TokenType::RightBrace => "RIGHT_BRACE"@,
            TokenType::LeftBrace => "LEFT_BRACE"@,
            TokenType::Comma => "COMMA"@,
            TokenType::Dot => "DOT"@,
            TokenType::Minus => "MINUS"@,
            TokenType::Plus => "PLUS"@,
            TokenType::Semicolon => "SEMICOLON"@,
            TokenType::Star => "STAR"@,
            TokenType::Slash => "SLASH"@,
            TokenType::Bang => "BANG"@,
            TokenType::BangEqual => "BANG_EQUAL"@,
            TokenType::Equal => "EQUAL"@,
            TokenType::EqualEqual => "EQUAL_EQUAL"@,
            TokenType::Greater => "GREATER"@,
            TokenType::GreaterEqual => "GREATER_EQUAL"@,
            TokenType::Less => "LESS"@,
            TokenType::LessEqual => "LESS_EQUAL"@,
            TokenType::String => "STRING"@,
            TokenType::Number => "NUMBER"@,
            TokenType::Identifier => "IDENTIFIER"@,
            TokenType::And => "AND"@,
            TokenType::Class => "CLASS"@,
            TokenType::Else => "ELSE"@,
            TokenType::False => "FALSE"@,
            TokenType::For => "FOR"@,
            TokenType::Fun => "FUN"@,
            TokenType::If => "IF"@,
            TokenType::Nil => "NIL"@,
            TokenType::Or => "OR"@,
            TokenType::Print => "PRINT"@,
            TokenType::Return => "RETURN"@,
            TokenType::Super => "SUPER"@,
            TokenType::This => "THIS"@,
            TokenType::True => "TRUE"@,
            TokenType::Var => "VAR"@,
            TokenType::While => "WHILE"@,
            TokenType::Eof => "EOF"@,
        }
    }

    /// The upper-case name under which the kind is listed.
    pub fn display_name(&self) -> (s: &'static str)
        ensures
            s@ == self.name(),
    {
        match self {
            TokenType::RightParen => "RIGHT_PAREN",
            TokenType::LeftParen => "LEFT_PAREN",
            TokenType::RightBrace => "RIGHT_BRACE",
            TokenType::LeftBrace => "LEFT_BRACE",
            TokenType::Comma => "COMMA",
            TokenType::Dot => "DOT",
            TokenType::Minus => "MINUS",
            TokenType::Plus => "PLUS",
            TokenType::Semicolon => "SEMICOLON",
            TokenType::Star => "STAR",
            TokenType::Slash => "SLASH",
            TokenType::Bang => "BANG",
            TokenType::BangEqual => "BANG_EQUAL",
            TokenType::Equal => "EQUAL",
            TokenType::EqualEqual => "EQUAL_EQUAL",
            TokenType::Greater => "GREATER",
            TokenType::GreaterEqual => "GREATER_EQUAL",
            TokenType::Less => "LESS",
            TokenType::LessEqual => "LESS_EQUAL",
            TokenType::String => "STRING",
            TokenType::Number => "NUMBER",
            TokenType::Identifier => "IDENTIFIER",
            TokenType::And => "AND",
            TokenType::Class => "CLASS",
            TokenType::Else => "ELSE",
            TokenType::False => "FALSE",
            TokenType::For => "FOR",
            TokenType::Fun => "FUN",
            TokenType::If => "IF",
            TokenType::Nil => "NIL",
            TokenType::Or => "OR",
            TokenType::Print => "PRINT",
            TokenType::Return => "RETURN",
            TokenType::Super => "SUPER",
            TokenType::This => "THIS",
            TokenType::True => "TRUE",
            TokenType::Var => "VAR",
            TokenType::While => "WHILE",
            TokenType::Eof => "EOF",
        }
    }

    /// The keyword that `key` spells, or `Identifier`.
    pub fn get_keyword_or_identifier(key: &str) -> (kind: Self)
        ensures
            kind == keyword_or_identifier(key@),
    {
        let chars = chars_of(key);
        assert(chars@.subrange(0, chars@.len() as int) == chars@);
        word_kind(&chars, 0, chars.len())
    }
}


/// The payload that a token or a literal expression carries.
///
/// A number is kept as its canonical decimal numeral: the integer part
/// without superfluous leading zeros, a dot, and the fraction without
/// trailing zeros (`0` when nothing else is left of it).
#[derive(Debug)]
pub enum Literal {
    Nil,
    Bool(bool),
    String(String),
    Number(String),
}

/// The mathematical value of a [`Literal`].
pub ghost enum LiteralView {
    Nil,
    Bool(bool),
    String(Seq<char>),
    Number(Seq<char>),
}

impl View for Literal {
    type V = LiteralView;

    open spec fn view(&self) -> LiteralView {
        match self {
            Literal::Nil => LiteralView::Nil,
            Literal::Bool(b) => LiteralView::Bool(*b),
            Literal::String(s) => LiteralView::String(s@),
            Literal::Number(n) => LiteralView::Number(n@),
        }
    }
}

impl Clone for Literal {
    fn clone(&self) -> (copy: Self)
        ensures
            copy == *self,
    {
        match self {
            Literal::Nil => Literal::Nil,
            Literal::Bool(b) => Literal::Bool(*b),
            Literal::String(s) => Literal::String(s.clone()),
            Literal::Number(n) => Literal::Number(n.clone()),
        }
    }
}

/// One lexical unit of the source text.
#[derive(Debug)]
pub struct Token {
    pub token_type: TokenType,
    /// The lexeme: the exact piece of source text.
    pub name: String,
    /// The decoded payload of a string or number, otherwise `Nil`.
    pub value: Literal,
    /// The 1-based source line (0 for the end-of-input sentinel).
    pub line_number: usize,
}

/// The mathematical value of a [`Token`].
pub ghost struct TokenView {
    pub token_type: TokenType,
    pub name: Seq<char>,
    pub value: LiteralView,
    pub line_number: usize,
}

impl View for Token {
    type V = TokenView;

    open spec fn view(&self) -> TokenView {
        TokenView {
            token_type: self.token_type,
            name: self.name@,
            value: self.value@,
            line_number: self.line_number,
        }
    }
}

impl Clone for Token {
    fn clone(&self) -> (copy: Self)
        ensures
            copy == *self,
    {
        Token {
            token_type: self.token_type,
            name: self.name.clone(),
            value: self.value.clone(),
            line_number: self.line_number,
        }
    }
}

/// The text of a literal in a token listing: `null` where there is no payload.
pub open spec fn literal_text(value: LiteralView) -> Seq<char> {
    match value {
        LiteralView::Nil => "null"@,
        LiteralView::Bool(b) => if b { "true"@ } else { "false"@ },
        LiteralView::String(s) => s,
        LiteralView::Number(n) => n,
    }
}

/// The line of a token listing: kind, lexeme and literal, separated by spaces.
pub open spec fn token_text(token: TokenView) -> Seq<char> {
    token.token_type.name() + " "@ + token.name + " "@ + literal_text(token.value)
}

impl Token {
    /// The token of the given kind, lexeme, payload and line.
    pub fn new(token_type: TokenType, name: String, value: Literal, line_number: usize) -> (token: Self)
        ensures
            token.token_type == token_type,
            token.name == name,
            token.value == value,
            token.line_number == line_number,
    {
        Token { token_type, name, value, line_number }
    }

    /// The token as it is listed: `KIND LEXEME LITERAL`.
    pub fn to_string(&self) -> (s: String)
        ensures
            s@ == token_text(self@),
    {
        let mut s = String::new();
        s.append(self.token_type.display_name());
        s.append(" ");
        s.append(self.name.as_str());
        s.append(" ");
        match &self.value {
            Literal::Nil => s.append("null"),
            Literal::Bool(b) => if *b {
                s.append("true")
            } else {
                s.append("false")
            },
            Literal::String(text) => s.append(text.as_str()),
            Literal::Number(numeral) => s.append(numeral.as_str()),
        }
        assert(s@ =~= token_text(self@));
        s
    }
}

} // verus!
