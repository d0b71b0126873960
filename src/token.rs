//! Tokens: the lexical categories of the language and their shell spelling.
use vstd::prelude::*;

use crate::text::{push_str, str_eq, string_of};

verus! {

/// The closed set of lexical categories.
#[derive(Debug, PartialEq, Eq, Structural, Clone, Copy)]
pub enum Kind {
    Let,
    If,
    While,
    Else,
    Equal,
    EqualEqual,
    Less,
    LessEqual,
    Greater,
    GreaterEqual,
    Not,
    NotEqual,
    Plus,
    Minus,
    Asterisk,
    Slash,
    Identifier,
    Command,
    Comment,
    String,
    RawString,
    Number,
    LeftParen,
    RightParen,
    LeftBracket,
    RightBracket,
    Coma,
    Period,
    Option,
}

/// The mathematical content of a token.
pub struct TokenView {
    pub lexeme: Seq<char>,
    pub kind: Kind,
}

/// The kind of a one-character punctuation or arithmetic symbol.
/// A lone `-` is not here: the scanner decides between minus and an option flag.
pub open spec fn char_kind(c: char) -> Option<Kind> {
    if c == '(' {
        Some(Kind::LeftParen)
    } else if c == ')' {
        Some(Kind::RightParen)
    } else if c == '{' {
        Some(Kind::LeftBracket)
    } else if c == '}' {
        Some(Kind::RightBracket)
    } else if c == ',' {
        Some(Kind::Coma)
    } else if c == '.' {
        Some(Kind::Period)
    } else if c == '+' {
        Some(Kind::Plus)
    } else if c == '*' {
        Some(Kind::Asterisk)
    } else if c == '/' {
        Some(Kind::Slash)
    } else {
        None
    }
}

/// The kind of a reserved word.
pub open spec fn keyword_kind(s: Seq<char>) -> Option<Kind> {
    if s == "let"@ {
        Some(Kind::Let)
    } else if s == "if"@ {
        Some(Kind::If)
    } else if s == "else"@ {
        Some(Kind::Else)
    } else if s == "while"@ {
        Some(Kind::While)
    } else {
        None
    }
}

/// The shell text of a token: strings are double-quoted, identifiers become
/// variable references, relational operators become `test` flags, and every
/// other token is spelled as it was written.
pub open spec fn token_text(t: TokenView) -> Seq<char> {
    match t.kind {
        Kind::String => "\""@ + t.lexeme + "\""@,
        Kind::Identifier => "$"@ + t.lexeme,
        Kind::Less => "-lt"@,
        Kind::LessEqual => "-lte"@,
        Kind::Greater => "-gt"@,
        Kind::GreaterEqual => "-gte"@,
        Kind::EqualEqual => "-eq"@,
        Kind::NotEqual => "-ne"@,
        _ => t.lexeme,
    }
}

impl Kind {
    pub fn from_char(c: char) -> (r: Option<Kind>)
        ensures
            r == char_kind(c),
    {
        match c {
            '(' => Some(Kind::LeftParen),
            ')' => Some(Kind::RightParen),
            '{' => Some(Kind::LeftBracket),
            '}' => Some(Kind::RightBracket),
            ',' => Some(Kind::Coma),
            '.' => Some(Kind::Period),
            '+' => Some(Kind::Plus),
            '*' => Some(Kind::Asterisk),
            '/' => Some(Kind::Slash),
            _ => None,
        }
    }

    pub fn from_keyword(s: &str) -> (r: Option<Kind>)
        ensures
            r == keyword_kind(s@),
    {
        if str_eq(s, "let") {
            Some(Kind::Let)
        } else if str_eq(s, "if") {
            Some(Kind::If)
        } else if str_eq(s, "else") {
            Some(Kind::Else)
        } else if str_eq(s, "while") {
            Some(Kind::While)
        } else {
            None
        }
    }
}

/// A lexeme together with its category.
#[derive(Debug, Clone)]
pub struct Token {
    pub lexeme: String,
    pub kind: Kind,
}

impl View for Token {
    type V = TokenView;

    open spec fn view(&self) -> TokenView {
        TokenView { lexeme: self.lexeme@, kind: self.kind }
    }
}

impl Token {
    /// A copy of this token.
    pub fn duplicate(&self) -> (r: Token)
        ensures
            r@ == self@,
    {
        Token { lexeme: self.lexeme.clone(), kind: self.kind }
    }

    /// Appends the shell text of this token to `out`.
    pub fn write_to(&self, out: &mut Vec<char>)
        ensures
            final(out)@ == old(out)@ + token_text(self@),
    {
        match self.kind {
            Kind::String => {
                push_str(out, "\"");
                push_str(out, self.lexeme.as_str());
                push_str(out, "\"");
            },
            Kind::Identifier => {
                push_str(out, "$");
                push_str(out, self.lexeme.as_str());
            },
            Kind::Less => push_str(out, "-lt"),
            Kind::LessEqual => push_str(out, "-lte"),
            Kind::Greater => push_str(out, "-gt"),
            Kind::GreaterEqual => push_str(out, "-gte"),
            Kind::EqualEqual => push_str(out, "-eq"),
            Kind::NotEqual => push_str(out, "-ne"),
            _ => push_str(out, self.lexeme.as_str()),
        }
    }

    /// The shell text of this token.
    pub fn write(&self) -> (r: String)
        ensures
            r@ == token_text(self@),
    {
        let mut out: Vec<char> = Vec::new();
        self.write_to(&mut out);
        string_of(out.as_slice())
    }

    pub fn from_char(c: char) -> (r: Option<Token>)
        ensures
            match char_kind(c) {
                Some(k) => r is Some && r->0@ == (TokenView { lexeme: seq![c], kind: k }),
                None => r is None,
            },
    {
        match Kind::from_char(c) {
            Some(kind) => {
                let v: Vec<char> = vec![c];
                assert(v@ =~= seq![c]);
                Some(Token { lexeme: string_of(v.as_slice()), kind })
            },
            None => None,
        }
    }

    pub fn from_keyword(s: &str) -> (r: Option<Token>)
        ensures
            match keyword_kind(s@) {
                Some(k) => r is Some && r->0@ == (TokenView { lexeme: s@, kind: k }),
                None => r is None,
            },
    {
        match Kind::from_keyword(s) {
            Some(kind) => Some(Token { lexeme: s.to_owned(), kind }),
            None => None,
        }
    }
}

} // verus!
