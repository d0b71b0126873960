//! A compiler from a small scripting language to POSIX shell text.
//!
//! Source text is scanned into tokens ([`lexer`]), parsed into syntax trees
//! ([`parser`], following the rules of [`grammar`]), and each tree renders
//! itself as shell text ([`expression`], following the model of [`ast`]).

pub mod ast;
pub mod expression;
pub mod formatter;
pub mod grammar;
pub mod lexer;
pub mod parser;
pub mod text;
pub mod token;

use vstd::prelude::*;

use crate::ast::{lemma_program_prefix_err, program_text, render, Node, RenderFault};
use crate::expression::{lemma_nodes_of, node_of, nodes_of, Expression, RenderError};
use crate::grammar::{program, ParseError};
use crate::lexer::{lex_all, views, LexError, Lexer};
use crate::parser::Parser;
use crate::text::string_of;
use crate::token::{Token, TokenView};

verus! {

/// Why a source text cannot be compiled into trees.
#[derive(Debug, PartialEq, Eq, Structural, Clone, Copy)]
pub enum CompileError {
    Lexical(LexError),
    Parse(ParseError),
}

/// A compiled source text: its tokens, its top-level trees, and the
/// positions of the top-level tokens that were passed over.
pub struct Script {
    tokens: Vec<Token>,
    expressions: Vec<Expression>,
    skipped: Vec<usize>,
}

impl Script {
    pub closed spec fn token_views(&self) -> Seq<TokenView> {
        views(self.tokens@)
    }

    pub closed spec fn nodes(&self) -> Seq<Node> {
        nodes_of(self.expressions@)
    }

    pub closed spec fn skipped_view(&self) -> Seq<int> {
        self.skipped@.map_values(|p: usize| p as int)
    }

    /// Scans and parses `input`.
    pub fn from_string(input: &str) -> (r: Result<Script, CompileError>)
        requires
            input@.len() < usize::MAX,
        ensures
            match lex_all(input@) {
                Err(e) => r == Err::<Script, CompileError>(CompileError::Lexical(e)),
                Ok(ts) => match program(ts, 0) {
                    Err(e) => r == Err::<Script, CompileError>(CompileError::Parse(e)),
                    Ok((nodes, skipped)) => r is Ok && r->Ok_0.token_views() == ts && r->Ok_0.nodes() == nodes
                        && r->Ok_0.skipped_view() == skipped,
                },
            },
    {
        let mut lexer = Lexer::from_string(input);
        let tokens = match lexer.parse() {
            Ok(t) => t,
            Err(e) => {
                return Err(CompileError::Lexical(e));
            },
        };
        let mut parser = Parser::from_tokens(tokens);
        let expressions = match parser.parse() {
            Ok(e) => e,
            Err(e) => {
                return Err(CompileError::Parse(e));
            },
        };
        let (tokens, skipped) = parser.into_parts();
        Ok(Script { tokens, expressions, skipped })
    }

    /// The tokens of the source text, comments included.
    pub fn tokens(&self) -> (r: &Vec<Token>)
        ensures
            views(r@) == self.token_views(),
    {
        &self.tokens
    }

    /// The top-level trees, in source order.
    pub fn expressions(&self) -> (r: &Vec<Expression>)
        ensures
            nodes_of(r@) == self.nodes(),
    {
        &self.expressions
    }

    /// The positions of the top-level tokens that started no statement.
    pub fn skipped(&self) -> (r: &Vec<usize>)
        ensures
            r@.map_values(|p: usize| p as int) == self.skipped_view(),
    {
        &self.skipped
    }

    /// The shell program: each top-level tree rendered and followed by a newline.
    pub fn get_code(&self) -> (r: Result<String, RenderError>)
        ensures
            match program_text(self.nodes()) {
                Ok(t) => r is Ok && r->Ok_0@ == t,
                Err(f) => r is Err && r->Err_0@ == f,
            },
    {
        let ghost ns = nodes_of(self.expressions@);
        proof {
            lemma_nodes_of(self.expressions@);
        }
        let mut out: Vec<char> = Vec::new();
        assert(out@ =~= Seq::<char>::empty());
        let mut i: usize = 0;
        while i < self.expressions.len()
            invariant
                i <= self.expressions@.len(),
                ns == nodes_of(self.expressions@),
                ns.len() == self.expressions@.len(),
                forall|k: int| 0 <= k < ns.len() ==> #[trigger] ns[k] == node_of(self.expressions@[k]),
                program_text(ns.subrange(0, i as int)) == Ok::<Seq<char>, RenderFault>(out@),
            decreases self.expressions.len() - i,
        {
            let ghost before = out@;
            let ghost t = render(ns[i as int]);
            proof {
                assert(ns.subrange(0, i + 1).drop_last() =~= ns.subrange(0, i as int));
            }
            match self.expressions[i].write_to(&mut out) {
                Ok(()) => {},
                Err(e) => {
                    proof {
                        lemma_program_prefix_err(ns, i + 1);
                    }
                    return Err(e);
                },
            }
            out.push('\n');
            proof {
                reveal_strlit("\n");
                assert(out@ =~= before + (seq![] + t->Ok_0 + "\n"@));
            }
            i = i + 1;
        }
        assert(ns.subrange(0, i as int) =~= ns);
        Ok(string_of(out.as_slice()))
    }
}

} // verus!
