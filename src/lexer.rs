//! The scanner: source text to tokens.
use vstd::prelude::*;

use vstd::slice::slice_subrange;

use crate::text::{alphanumeric, chars_of, is_alnum, string_of};
use crate::token::{char_kind, keyword_kind, Kind, Token, TokenView};

verus! {

/// Why the source text cannot be scanned. Lines and columns count from one.
#[derive(Debug, PartialEq, Eq, Structural, Clone, Copy)]
pub enum LexError {
    /// A character that starts no token.
    UnknownCharacter { character: char, line: usize, column: usize },
    /// A string literal whose closing delimiter never comes.
    UnterminatedLiteral { delimiter: char, line: usize, column: usize },
}

/// A class of characters that a lexeme may run over.
#[derive(Debug, PartialEq, Eq, Structural, Clone, Copy)]
pub enum CharClass {
    /// Letters and digits: the tail of a number.
    Alnum,
    /// Letters, digits and `_`: the tail of a word.
    Word,
    /// Letters, digits and `-`: the tail of an option flag.
    Flag,
    /// Anything but the given character: a comment's or a literal's text.
    Not(char),
}

pub open spec fn in_class(cls: CharClass, c: char) -> bool {
    match cls {
        CharClass::Alnum => is_alnum(c),
        CharClass::Word => is_alnum(c) || c == '_',
        CharClass::Flag => is_alnum(c) || c == '-',
        CharClass::Not(d) => c != d,
    }
}

/// Where the run of characters of class `cls` that starts at `i` ends.
pub open spec fn scan_end(cs: Seq<char>, i: int, cls: CharClass) -> int
    decreases cs.len() - i,
{
    if 0 <= i < cs.len() && in_class(cls, cs[i]) {
        scan_end(cs, i + 1, cls)
    } else {
        i
    }
}

pub proof fn lemma_scan_end(cs: Seq<char>, i: int, cls: CharClass)
    requires
        0 <= i <= cs.len(),
    ensures
        i <= scan_end(cs, i, cls) <= cs.len(),
        forall|k: int| i <= k < scan_end(cs, i, cls) ==> in_class(cls, #[trigger] cs[k]),
        scan_end(cs, i, cls) < cs.len() ==> !in_class(cls, cs[scan_end(cs, i, cls)]),
    decreases cs.len() - i,
{
    if i < cs.len() && in_class(cls, cs[i]) {
        lemma_scan_end(cs, i + 1, cls);
    }
}

/// The outcome of one scanning step: the token found, if any, and where
/// scanning goes on (position, line, column).
pub struct Scan {
    pub token: Option<TokenView>,
    pub pos: int,
    pub line: int,
    pub col: int,
}

pub open spec fn scan(token: Option<TokenView>, pos: int, line: int, col: int) -> Scan {
    Scan { token, pos, line, col }
}

pub open spec fn tok(lexeme: Seq<char>, kind: Kind) -> Option<TokenView> {
    Some(TokenView { lexeme, kind })
}

/// The single and the `=`-suffixed kind of a relational symbol.
pub open spec fn relational_kinds(c: char) -> Option<(Kind, Kind)> {
    if c == '=' {
        Some((Kind::Equal, Kind::EqualEqual))
    } else if c == '<' {
        Some((Kind::Less, Kind::LessEqual))
    } else if c == '>' {
        Some((Kind::Greater, Kind::GreaterEqual))
    } else if c == '!' {
        Some((Kind::Not, Kind::NotEqual))
    } else {
        None
    }
}

/// `#` and the rest of its line.
pub open spec fn comment_step(cs: Seq<char>, pos: int, line: int, col: int) -> Scan {
    let e = scan_end(cs, pos + 1, CharClass::Not('\n'));
    scan(tok(cs.subrange(pos + 1, e), Kind::Comment), e, line, col + (e - pos))
}

/// A literal between two `d` delimiters, taken verbatim.
pub open spec fn literal_step(cs: Seq<char>, pos: int, line: int, col: int, d: char, kind: Kind) -> Result<Scan, LexError> {
    let e = scan_end(cs, pos + 1, CharClass::Not(d));
    if e >= cs.len() {
        Err(LexError::UnterminatedLiteral { delimiter: d, line: line as usize, column: col as usize })
    } else {
        Ok(scan(tok(cs.subrange(pos + 1, e), kind), e + 1, line, col + (e + 1 - pos)))
    }
}

/// A `-` run over letters, digits and `-`: a lone `-` is minus, a longer run an option flag.
pub open spec fn option_step(cs: Seq<char>, pos: int, line: int, col: int) -> Scan {
    let e = scan_end(cs, pos + 1, CharClass::Flag);
    if e == pos + 1 {
        scan(tok(seq!['-'], Kind::Minus), e, line, col + 1)
    } else {
        scan(tok(cs.subrange(pos, e), Kind::Option), e, line, col + (e - pos))
    }
}

/// A digit and the letters and digits after it.
pub open spec fn number_step(cs: Seq<char>, pos: int, line: int, col: int) -> Scan {
    let e = scan_end(cs, pos + 1, CharClass::Alnum);
    scan(tok(cs.subrange(pos, e), Kind::Number), e, line, col + (e - pos))
}

/// A word: a keyword, a command (a name with `!` right after it), or an identifier.
pub open spec fn identifier_step(cs: Seq<char>, pos: int, line: int, col: int) -> Scan {
    let e = scan_end(cs, pos + 1, CharClass::Word);
    let w = cs.subrange(pos, e);
    match keyword_kind(w) {
        Some(k) => scan(tok(w, k), e, line, col + (e - pos)),
        None => if e < cs.len() && cs[e] == '!' {
            scan(tok(w, Kind::Command), e + 1, line, col + (e + 1 - pos))
        } else {
            scan(tok(w, Kind::Identifier), e, line, col + (e - pos))
        },
    }
}

/// Punctuation and operators; `==`, `<=`, `>=` and `!=` are single tokens.
pub open spec fn symbol_step(cs: Seq<char>, pos: int, line: int, col: int) -> Result<Scan, LexError> {
    let c = cs[pos];
    match relational_kinds(c) {
        Some((single, double)) => if pos + 1 < cs.len() && cs[pos + 1] == '=' {
            Ok(scan(tok(seq![c, '='], double), pos + 2, line, col + 2))
        } else {
            Ok(scan(tok(seq![c], single), pos + 1, line, col + 1))
        },
        None => match char_kind(c) {
            Some(k) => Ok(scan(tok(seq![c], k), pos + 1, line, col + 1)),
            None => Err(LexError::UnknownCharacter { character: c, line: line as usize, column: col as usize }),
        },
    }
}

pub open spec fn is_ascii_letter(c: char) -> bool {
    ('a' <= c && c <= 'z') || ('A' <= c && c <= 'Z')
}

pub open spec fn is_ascii_digit(c: char) -> bool {
    '0' <= c && c <= '9'
}

/// One scanning step at `pos`, dispatched on the character there.
pub open spec fn step(cs: Seq<char>, pos: int, line: int, col: int) -> Result<Scan, LexError> {
    let c = cs[pos];
    if c == '#' {
        Ok(comment_step(cs, pos, line, col))
    } else if c == '"' {
        literal_step(cs, pos, line, col, '"', Kind::String)
    } else if c == '`' {
        literal_step(cs, pos, line, col, '`', Kind::RawString)
    } else if c == '-' {
        Ok(option_step(cs, pos, line, col))
    } else if is_ascii_digit(c) {
        Ok(number_step(cs, pos, line, col))
    } else if is_ascii_letter(c) {
        Ok(identifier_step(cs, pos, line, col))
    } else if c == ' ' || c == '\t' {
        Ok(scan(None, pos + 1, line, col + 1))
    } else if c == '\n' {
        Ok(scan(None, pos + 1, line + 1, 1))
    } else {
        symbol_step(cs, pos, line, col)
    }
}

pub proof fn lemma_step_advances(cs: Seq<char>, pos: int, line: int, col: int)
    requires
        0 <= pos < cs.len(),
    ensures
        step(cs, pos, line, col) is Ok ==> {
            let s = step(cs, pos, line, col)->Ok_0;
            &&& pos < s.pos <= cs.len()
            &&& s.col - col == s.pos - pos || (s.col == 1 && s.line == line + 1)
            &&& s.line == line || (s.col == 1 && s.line == line + 1)
        },
{
    lemma_scan_end(cs, pos + 1, CharClass::Not('\n'));
    lemma_scan_end(cs, pos + 1, CharClass::Not('"'));
    lemma_scan_end(cs, pos + 1, CharClass::Not('`'));
    lemma_scan_end(cs, pos + 1, CharClass::Flag);
    lemma_scan_end(cs, pos + 1, CharClass::Alnum);
    lemma_scan_end(cs, pos + 1, CharClass::Word);
}

/// The tokens of `cs` from `pos` on, at the given line and column; comments
/// are tokens, blanks and newlines are not.
pub open spec fn lex(cs: Seq<char>, pos: int, line: int, col: int) -> Result<Seq<TokenView>, LexError>
    decreases cs.len() - pos,
    via lex_decreases
{
    if pos < 0 || pos >= cs.len() {
        Ok(seq![])
    } else {
        match step(cs, pos, line, col) {
            Err(e) => Err(e),
            Ok(s) => match lex(cs, s.pos, s.line, s.col) {
                Err(e) => Err(e),
                Ok(rest) => match s.token {
                    Some(t) => Ok(seq![t] + rest),
                    None => Ok(rest),
                },
            },
        }
    }
}

#[via_fn]
proof fn lex_decreases(cs: Seq<char>, pos: int, line: int, col: int) {
    if 0 <= pos < cs.len() {
        lemma_step_advances(cs, pos, line, col);
    }
}

/// The tokens of a whole source text.
pub open spec fn lex_all(cs: Seq<char>) -> Result<Seq<TokenView>, LexError> {
    lex(cs, 0, 1, 1)
}

pub open spec fn views(ts: Seq<Token>) -> Seq<TokenView> {
    ts.map_values(|t: Token| t@)
}

pub open spec fn opt_view(t: Option<Token>) -> Option<TokenView> {
    match t {
        Some(t) => Some(t@),
        None => None,
    }
}

/// Whether `c` belongs to the class `cls`.
pub fn class_contains(cls: CharClass, c: char) -> (r: bool)
    ensures
        r == in_class(cls, c),
{
    match cls {
        CharClass::Alnum => alphanumeric(c),
        CharClass::Word => alphanumeric(c) || c == '_',
        CharClass::Flag => alphanumeric(c) || c == '-',
        CharClass::Not(d) => c != d,
    }
}

/// A cursor over the characters of a source text, with the line and column
/// of the cursor for diagnostics.
pub struct Lexer {
    index: usize,
    chars: Vec<char>,
    line_counter: usize,
    column_counter: usize,
}

impl Lexer {
    pub closed spec fn chars(&self) -> Seq<char> {
        self.chars@
    }

    pub closed spec fn pos(&self) -> int {
        self.index as int
    }

    pub closed spec fn line(&self) -> int {
        self.line_counter as int
    }

    pub closed spec fn col(&self) -> int {
        self.column_counter as int
    }

    /// The cursor lies within the text, and the counters cannot overflow.
    pub closed spec fn wf(&self) -> bool {
        &&& self.index <= self.chars@.len() < usize::MAX
        &&& 1 <= self.line_counter <= self.index + 1
        &&& 1 <= self.column_counter <= self.index + 1
    }

    /// The lexer is at the end of `s`, on the same text as `old`.
    pub open spec fn moved(&self, old: Lexer, s: Scan) -> bool {
        &&& self.chars() == old.chars()
        &&& self.pos() == s.pos
        &&& self.line() == s.line
        &&& self.col() == s.col
        &&& self.wf()
    }

    pub fn from_string(input: &str) -> (r: Lexer)
        requires
            input@.len() < usize::MAX,
        ensures
            r.wf(),
            r.chars() == input@,
            r.pos() == 0,
            r.line() == 1,
            r.col() == 1,
    {
        Lexer { index: 0, line_counter: 1, column_counter: 1, chars: chars_of(input) }
    }

    /// All tokens from the cursor to the end of the text.
    pub fn parse(&mut self) -> (r: Result<Vec<Token>, LexError>)
        requires
            old(self).wf(),
        ensures
            match lex(old(self).chars(), old(self).pos(), old(self).line(), old(self).col()) {
                Ok(ts) => r is Ok && views(r->Ok_0@) == ts,
                Err(e) => r == Err::<Vec<Token>, LexError>(e),
            },
    {
        let ghost cs = self.chars();
        let ghost p0 = self.pos();
        let ghost l0 = self.line();
        let ghost c0 = self.col();
        let mut tokens: Vec<Token> = Vec::new();
        while self.index < self.chars.len()
            invariant
                self.wf(),
                self.chars() == cs,
                cs == old(self).chars(),
                p0 == old(self).pos(),
                l0 == old(self).line(),
                c0 == old(self).col(),
                lex(cs, p0, l0, c0) is Ok ==> lex(cs, self.pos(), self.line(), self.col()) is Ok
                    && lex(cs, p0, l0, c0)->Ok_0 == views(tokens@) + lex(cs, self.pos(), self.line(), self.col())->Ok_0,
                lex(cs, p0, l0, c0) is Err ==> lex(cs, self.pos(), self.line(), self.col()) == lex(cs, p0, l0, c0),
            decreases self.chars@.len() - self.index,
        {
            let ghost old_tokens = tokens@;
            let ghost p = self.pos();
            let ghost l = self.line();
            let ghost c = self.col();
            proof {
                lemma_step_advances(cs, self.pos(), self.line(), self.col());
            }
            match self.seek_token() {
                Ok(Some(token)) => {
                    tokens.push(token);
                    proof {
                        assert(views(tokens@) =~= views(old_tokens) + seq![token@]);
                        assert(views(old_tokens) + (seq![token@] + lex(cs, self.pos(), self.line(), self.col())->Ok_0)
                            =~= views(tokens@) + lex(cs, self.pos(), self.line(), self.col())->Ok_0);
                    }
                },
                Ok(None) => {},
                Err(e) => {
                    assert(lex(cs, p, l, c) == Err::<Seq<TokenView>, LexError>(e));
                    assert(lex(cs, p0, l0, c0) == Err::<Seq<TokenView>, LexError>(e));
                    return Err(e);
                },
            }
        }
        proof {
            assert(lex(cs, self.pos(), self.line(), self.col()) == Ok::<Seq<TokenView>, LexError>(seq![]));
            assert(views(tokens@) + seq![] =~= views(tokens@));
        }
        Ok(tokens)
    }

    /// One step of scanning at the cursor: a token, or nothing for a blank or a newline.
    fn seek_token(&mut self) -> (r: Result<Option<Token>, LexError>)
        requires
            old(self).wf(),
            old(self).pos() < old(self).chars().len(),
        ensures
            match step(old(self).chars(), old(self).pos(), old(self).line(), old(self).col()) {
                Ok(s) => r is Ok && opt_view(r->Ok_0) == s.token && final(self).moved(*old(self), s),
                Err(e) => r == Err::<Option<Token>, LexError>(e),
            },
    {
        let c = self.chars[self.index];
        if c == '#' {
            Ok(Some(self.match_comment()))
        } else if c == '"' {
            match self.match_string() {
                Ok(t) => Ok(Some(t)),
                Err(e) => Err(e),
            }
        } else if c == '`' {
            match self.match_raw_string() {
                Ok(t) => Ok(Some(t)),
                Err(e) => Err(e),
            }
        } else if c == '-' {
            Ok(Some(self.match_option()))
        } else if '0' <= c && c <= '9' {
            Ok(Some(self.match_number()))
        } else if ('a' <= c && c <= 'z') || ('A' <= c && c <= 'Z') {
            Ok(Some(self.match_identifier()))
        } else if c == ' ' || c == '\t' {
            self.match_whitespace();
            Ok(None)
        } else if c == '\n' {
            self.match_new_line();
            Ok(None)
        } else {
            match self.match_char_token() {
                Ok(t) => Ok(Some(t)),
                Err(e) => Err(e),
            }
        }
    }

    fn get_char(&self) -> (r: Option<char>)
        ensures
            r == (if self.pos() < self.chars().len() {
                Some(self.chars()[self.pos()])
            } else {
                None
            }),
    {
        if self.index < self.chars.len() {
            Some(self.chars[self.index])
        } else {
            None
        }
    }

    fn skip_char(&mut self)
        requires
            old(self).wf(),
            old(self).pos() < old(self).chars().len(),
        ensures
            final(self).moved(*old(self), scan(None, old(self).pos() + 1, old(self).line(), old(self).col() + 1)),
    {
        self.index = self.index + 1;
        self.column_counter = self.column_counter + 1;
    }

    fn match_char(&self, c: char) -> (r: bool)
        ensures
            r == (self.pos() < self.chars().len() && self.chars()[self.pos()] == c),
    {
        match self.get_char() {
            Some(d) => d == c,
            None => false,
        }
    }

    fn consume_any_char(&mut self) -> (r: Option<char>)
        requires
            old(self).wf(),
        ensures
            old(self).pos() < old(self).chars().len() ==> r == Some(old(self).chars()[old(self).pos()])
                && final(self).moved(*old(self), scan(None, old(self).pos() + 1, old(self).line(), old(self).col() + 1)),
            old(self).pos() >= old(self).chars().len() ==> r is None && *final(self) == *old(self),
    {
        let c = self.get_char();
        if c.is_some() {
            self.skip_char();
        }
        c
    }

    fn consume_char(&mut self, c: char) -> (r: bool)
        requires
            old(self).wf(),
        ensures
            r == (old(self).pos() < old(self).chars().len() && old(self).chars()[old(self).pos()] == c),
            r ==> final(self).moved(*old(self), scan(None, old(self).pos() + 1, old(self).line(), old(self).col() + 1)),
            !r ==> *final(self) == *old(self),
    {
        if self.match_char(c) {
            self.consume_any_char();
            true
        } else {
            false
        }
    }

    /// Moves the cursor over the run of class `cls` and returns the text from
    /// `start` up to the new cursor.
    fn consume_lexeme_until(&mut self, start: usize, cls: CharClass) -> (r: String)
        requires
            old(self).wf(),
            start <= old(self).pos(),
        ensures
            ({
                let e = scan_end(old(self).chars(), old(self).pos(), cls);
                &&& final(self).moved(*old(self), scan(None, e, old(self).line(), old(self).col() + (e - old(self).pos())))
                &&& r@ == old(self).chars().subrange(start as int, e)
            }),
    {
        let ghost p0 = self.pos();
        proof {
            lemma_scan_end(self.chars(), p0, cls);
        }
        loop
            invariant
                self.wf(),
                self.chars() == old(self).chars(),
                p0 == old(self).pos(),
                p0 <= self.pos(),
                scan_end(self.chars(), self.pos(), cls) == scan_end(self.chars(), p0, cls),
                self.line() == old(self).line(),
                self.col() == old(self).col() + (self.pos() - p0),
            ensures
                self.pos() == scan_end(self.chars(), p0, cls),
            decreases self.chars@.len() - self.index,
        {
            if self.index >= self.chars.len() {
                break;
            }
            if !class_contains(cls, self.chars[self.index]) {
                break;
            }
            self.skip_char();
        }
        let run = slice_subrange(self.chars.as_slice(), start, self.index);
        string_of(run)
    }

    /// Text between two `d` delimiters, the cursor being on the first.
    fn consume_lexeme_delimited(&mut self, d: char, kind: Kind) -> (r: Result<Token, LexError>)
        requires
            old(self).wf(),
            old(self).pos() < old(self).chars().len(),
            old(self).chars()[old(self).pos()] == d,
        ensures
            match literal_step(old(self).chars(), old(self).pos(), old(self).line(), old(self).col(), d, kind) {
                Ok(s) => r is Ok && Some(r->Ok_0@) == s.token && final(self).moved(*old(self), s),
                Err(e) => r == Err::<Token, LexError>(e),
            },
    {
        let line = self.line_counter;
        let column = self.column_counter;
        proof {
            lemma_scan_end(self.chars(), self.pos() + 1, CharClass::Not(d));
        }
        self.skip_char();
        let start = self.index;
        let lexeme = self.consume_lexeme_until(start, CharClass::Not(d));
        if self.consume_char(d) {
            Ok(Token { lexeme, kind })
        } else {
            Err(LexError::UnterminatedLiteral { delimiter: d, line, column })
        }
    }

    fn match_char_token(&mut self) -> (r: Result<Token, LexError>)
        requires
            old(self).wf(),
            old(self).pos() < old(self).chars().len(),
        ensures
            match symbol_step(old(self).chars(), old(self).pos(), old(self).line(), old(self).col()) {
                Ok(s) => r is Ok && Some(r->Ok_0@) == s.token && final(self).moved(*old(self), s),
                Err(e) => r == Err::<Token, LexError>(e),
            },
    {
        let line = self.line_counter;
        let column = self.column_counter;
        let c = self.chars[self.index];
        self.skip_char();
        let pair = if c == '=' {
            Some((Kind::Equal, Kind::EqualEqual))
        } else if c == '<' {
            Some((Kind::Less, Kind::LessEqual))
        } else if c == '>' {
            Some((Kind::Greater, Kind::GreaterEqual))
        } else if c == '!' {
            Some((Kind::Not, Kind::NotEqual))
        } else {
            None
        };
        match pair {
            Some((single, double)) => {
                if self.consume_char('=') {
                    let v: Vec<char> = vec![c, '='];
                    assert(v@ =~= seq![c, '=']);
                    Ok(Token { lexeme: string_of(v.as_slice()), kind: double })
                } else {
                    let v: Vec<char> = vec![c];
                    assert(v@ =~= seq![c]);
                    Ok(Token { lexeme: string_of(v.as_slice()), kind: single })
                }
            },
            None => match Token::from_char(c) {
                Some(token) => Ok(token),
                None => Err(LexError::UnknownCharacter { character: c, line, column }),
            },
        }
    }

    fn match_new_line(&mut self)
        requires
            old(self).wf(),
            old(self).pos() < old(self).chars().len(),
        ensures
            final(self).moved(*old(self), scan(None, old(self).pos() + 1, old(self).line() + 1, 1)),
    {
        self.index = self.index + 1;
        self.line_counter = self.line_counter + 1;
        self.column_counter = 1;
    }

    fn match_whitespace(&mut self)
        requires
            old(self).wf(),
            old(self).pos() < old(self).chars().len(),
        ensures
            final(self).moved(*old(self), scan(None, old(self).pos() + 1, old(self).line(), old(self).col() + 1)),
    {
        self.skip_char();
    }

    fn match_comment(&mut self) -> (r: Token)
        requires
            old(self).wf(),
            old(self).pos() < old(self).chars().len(),
        ensures
            ({
                let s = comment_step(old(self).chars(), old(self).pos(), old(self).line(), old(self).col());
                Some(r@) == s.token && final(self).moved(*old(self), s)
            }),
    {
        self.skip_char();
        let start = self.index;
        let lexeme = self.consume_lexeme_until(start, CharClass::Not('\n'));
        Token { lexeme, kind: Kind::Comment }
    }

    fn match_identifier(&mut self) -> (r: Token)
        requires
            old(self).wf(),
            old(self).pos() < old(self).chars().len(),
        ensures
            ({
                let s = identifier_step(old(self).chars(), old(self).pos(), old(self).line(), old(self).col());
                Some(r@) == s.token && final(self).moved(*old(self), s)
            }),
    {
        let start = self.index;
        self.skip_char();
        let lexeme = self.consume_lexeme_until(start, CharClass::Word);
        match Token::from_keyword(lexeme.as_str()) {
            Some(token) => token,
            None => {
                let kind = if self.consume_char('!') {
                    Kind::Command
                } else {
                    Kind::Identifier
                };
                Token { lexeme, kind }
            },
        }
    }

    fn match_string(&mut self) -> (r: Result<Token, LexError>)
        requires
            old(self).wf(),
            old(self).pos() < old(self).chars().len(),
            old(self).chars()[old(self).pos()] == '"',
        ensures
            match literal_step(old(self).chars(), old(self).pos(), old(self).line(), old(self).col(), '"', Kind::String) {
                Ok(s) => r is Ok && Some(r->Ok_0@) == s.token && final(self).moved(*old(self), s),
                Err(e) => r == Err::<Token, LexError>(e),
            },
    {
        self.consume_lexeme_delimited('"', Kind::String)
    }

    fn match_raw_string(&mut self) -> (r: Result<Token, LexError>)
        requires
            old(self).wf(),
            old(self).pos() < old(self).chars().len(),
            old(self).chars()[old(self).pos()] == '`',
        ensures
            match literal_step(old(self).chars(), old(self).pos(), old(self).line(), old(self).col(), '`', Kind::RawString) {
                Ok(s) => r is Ok && Some(r->Ok_0@) == s.token && final(self).moved(*old(self), s),
                Err(e) => r == Err::<Token, LexError>(e),
            },
    {
        self.consume_lexeme_delimited('`', Kind::RawString)
    }

    fn match_number(&mut self) -> (r: Token)
        requires
            old(self).wf(),
            old(self).pos() < old(self).chars().len(),
        ensures
            ({
                let s = number_step(old(self).chars(), old(self).pos(), old(self).line(), old(self).col());
                Some(r@) == s.token && final(self).moved(*old(self), s)
            }),
    {
        let start = self.index;
        self.skip_char();
        let lexeme = self.consume_lexeme_until(start, CharClass::Alnum);
        Token { lexeme, kind: Kind::Number }
    }

    fn match_option(&mut self) -> (r: Token)
        requires
            old(self).wf(),
            old(self).pos() < old(self).chars().len(),
        ensures
            ({
                let s = option_step(old(self).chars(), old(self).pos(), old(self).line(), old(self).col());
                Some(r@) == s.token && final(self).moved(*old(self), s)
            }),
    {
        let start = self.index;
        self.skip_char();
        let lexeme = self.consume_lexeme_until(start, CharClass::Flag);
        if self.index == start + 1 {
            let v: Vec<char> = vec!['-'];
            assert(v@ =~= seq!['-']);
            Token { lexeme: string_of(v.as_slice()), kind: Kind::Minus }
        } else {
            Token { lexeme, kind: Kind::Option }
        }
    }
}

} // verus!
