//! The recursive-descent parser: tokens to syntax trees.
use vstd::prelude::*;

use crate::ast::Node;
use crate::expression::{
    lemma_nodes_of, node_of, nodes_of, ArithmeticExpr, ConditionExpr, ElifStatementExpr, ElseStatementExpr,
    Expression, FnCall, FnChain, IfStatementExpr, ParenthesisExpr, ValueExpr, VarAssignmentExpr,
    VarDeclarationExpr, WhileStatementExpr,
};
use crate::grammar::{
    arg, arithmetic, assignment, at, block, block_items, condition, declaration, else_if_statement,
    evaluable, fn_args, fn_call, fn_chain, if_statement, is_arith_op, is_relational, operand,
    program, statement, value, while_statement, Expected, ParseError, Parsed, ParsedList,
};
use crate::lexer::views;
use crate::token::{Kind, Token, TokenView};

verus! {

/// A family of token kinds that the parser accepts at one place.
#[derive(Debug, PartialEq, Eq, Structural, Clone, Copy)]
pub enum KindSet {
    /// `+ - * /`
    Arithmetic,
    /// `< <= > >= == !=`
    Relational,
    /// An identifier or a command: what can name a call.
    CallName,
    /// A string, a raw string or an option flag: arguments taken as they are.
    Verbatim,
}

pub open spec fn in_set(set: KindSet, k: Kind) -> bool {
    match set {
        KindSet::Arithmetic => is_arith_op(k),
        KindSet::Relational => is_relational(k),
        KindSet::CallName => k == Kind::Identifier || k == Kind::Command,
        KindSet::Verbatim => k == Kind::String || k == Kind::RawString || k == Kind::Option,
    }
}

impl KindSet {
    pub fn contains(self, k: Kind) -> (r: bool)
        ensures
            r == in_set(self, k),
    {
        match self {
            KindSet::Arithmetic => k == Kind::Plus || k == Kind::Minus || k == Kind::Asterisk || k == Kind::Slash,
            KindSet::Relational => k == Kind::Less || k == Kind::LessEqual || k == Kind::Greater
                || k == Kind::GreaterEqual || k == Kind::EqualEqual || k == Kind::NotEqual,
            KindSet::CallName => k == Kind::Identifier || k == Kind::Command,
            KindSet::Verbatim => k == Kind::String || k == Kind::RawString || k == Kind::Option,
        }
    }
}

/// `r` and the cursor move from `start` to `end` report the rule's result `p`.
pub open spec fn outcome(p: Parsed, r: Result<Option<Expression>, ParseError>, start: int, end: int) -> bool {
    match p {
        Parsed::Miss => r is Ok && r->Ok_0 is None && end == start,
        Parsed::Hit { node, last } => r is Ok && r->Ok_0 is Some && r->Ok_0->Some_0@ == node && end == start
            + last + 1,
        Parsed::Fail { error } => r is Err && r->Err_0 == error,
    }
}

/// The same for a rule that yields a list of nodes.
pub open spec fn list_outcome(p: ParsedList, r: Result<Vec<Expression>, ParseError>, start: int, end: int) -> bool {
    match p {
        Ok((nodes, used)) => r is Ok && nodes_of(r->Ok_0@) == nodes && end == start + used,
        Err(error) => r is Err && r->Err_0 == error,
    }
}

/// `nodes`, over `used` tokens, followed by the list `r`.
pub open spec fn extend(nodes: Seq<Node>, used: int, r: ParsedList) -> ParsedList {
    match r {
        Err(error) => Err(error),
        Ok((more, u)) => Ok((nodes + more, (used + u) as nat)),
    }
}

/// `nodes` and `skipped` followed by the program `r`.
pub open spec fn extend_program(
    nodes: Seq<Node>,
    skipped: Seq<int>,
    r: Result<(Seq<Node>, Seq<int>), ParseError>,
) -> Result<(Seq<Node>, Seq<int>), ParseError> {
    match r {
        Err(error) => Err(error),
        Ok((more, sk)) => Ok((nodes + more, skipped + sk)),
    }
}

pub proof fn lemma_nodes_of_push(s: Seq<Expression>, e: Expression)
    ensures
        nodes_of(s.push(e)) == nodes_of(s).push(node_of(e)),
{
    assert(s.push(e).drop_last() =~= s);
}

pub proof fn lemma_nodes_of_prepend(s: Seq<Expression>, e: Expression)
    ensures
        nodes_of(seq![e] + s) == seq![node_of(e)] + nodes_of(s),
{
    lemma_nodes_of(s);
    lemma_nodes_of(seq![e] + s);
    assert(nodes_of(seq![e] + s) =~= seq![node_of(e)] + nodes_of(s));
}

pub proof fn lemma_extend_program_assoc(
    a: Seq<Node>,
    b: Seq<Node>,
    x: Seq<int>,
    y: Seq<int>,
    r: Result<(Seq<Node>, Seq<int>), ParseError>,
)
    ensures
        extend_program(a, x, extend_program(b, y, r)) == extend_program(a + b, x + y, r),
{
    if r is Ok {
        assert(a + (b + r->Ok_0.0) =~= (a + b) + r->Ok_0.0);
        assert(x + (y + r->Ok_0.1) =~= (x + y) + r->Ok_0.1);
    }
}

/// A cursor over a token sequence, with the positions of the top-level
/// tokens that were passed over because they start no statement.
pub struct Parser {
    index: usize,
    tokens: Vec<Token>,
    skipped: Vec<usize>,
}

impl Parser {
    pub closed spec fn toks(&self) -> Seq<TokenView> {
        views(self.tokens@)
    }

    pub closed spec fn pos(&self) -> int {
        self.index as int
    }

    pub closed spec fn skipped_view(&self) -> Seq<int> {
        self.skipped@.map_values(|p: usize| p as int)
    }

    pub closed spec fn wf(&self) -> bool {
        &&& self.index <= self.tokens@.len() <= usize::MAX
        &&& self.toks().len() == self.tokens@.len()
    }

    /// Same tokens and same record of passed-over positions as `old`.
    pub closed spec fn keeps(&self, old: Parser) -> bool {
        &&& self.wf()
        &&& self.tokens@ == old.tokens@
        &&& self.skipped@ == old.skipped@
    }

    pub fn from_tokens(tokens: Vec<Token>) -> (r: Parser)
        ensures
            r.wf(),
            r.toks() == views(tokens@),
            r.pos() == 0,
            r.skipped_view() == Seq::<int>::empty(),
    {
        let n = tokens.len();
        let r = Parser { index: 0, tokens, skipped: Vec::new() };
        assert(r.skipped_view() =~= Seq::<int>::empty());
        r
    }

    /// The positions of the top-level tokens passed over so far.
    pub fn skipped(&self) -> (r: &Vec<usize>)
        ensures
            r@.map_values(|p: usize| p as int) == self.skipped_view(),
    {
        &self.skipped
    }

    /// The tokens and the passed-over positions, giving the parser up.
    pub fn into_parts(self) -> (r: (Vec<Token>, Vec<usize>))
        ensures
            views(r.0@) == self.toks(),
            r.1@.map_values(|p: usize| p as int) == self.skipped_view(),
    {
        (self.tokens, self.skipped)
    }

    /// All statements from the cursor on. A top-level token that starts no
    /// statement is passed over and its position recorded; comments are
    /// passed over silently. Any failure inside a statement ends the parse.
    pub fn parse(&mut self) -> (r: Result<Vec<Expression>, ParseError>)
        requires
            old(self).wf(),
        ensures
            final(self).toks() == old(self).toks(),
            match program(old(self).toks(), old(self).pos()) {
                Ok((nodes, skipped)) => r is Ok && nodes_of(r->Ok_0@) == nodes && final(self).skipped_view()
                    == old(self).skipped_view() + skipped,
                Err(error) => r is Err && r->Err_0 == error,
            },
    {
        let ghost ts = self.toks();
        let ghost p0 = self.pos();
        let ghost sk0 = self.skipped_view();
        let mut expressions: Vec<Expression> = Vec::new();
        assert(nodes_of(expressions@) =~= Seq::<Node>::empty());
        assert(sk0 + Seq::<int>::empty() =~= sk0);
        while self.index < self.tokens.len()
            invariant
                self.wf(),
                self.toks() == ts,
                ts == old(self).toks(),
                p0 == old(self).pos(),
                sk0 == old(self).skipped_view(),
                sk0.len() <= self.skipped_view().len(),
                self.skipped_view() == sk0 + self.skipped_view().subrange(sk0.len() as int, self.skipped_view().len() as int),
                program(ts, p0) == extend_program(
                    nodes_of(expressions@),
                    self.skipped_view().subrange(sk0.len() as int, self.skipped_view().len() as int),
                    program(ts, self.pos()),
                ),
            decreases self.tokens@.len() - self.index,
        {
            let ghost before = expressions@;
            let ghost sk = self.skipped_view();
            let ghost part = sk.subrange(sk0.len() as int, sk.len() as int);
            let step = self.parse_step();
            let ghost added = self.skipped_view().subrange(sk.len() as int, self.skipped_view().len() as int);
            let ghost found = match &step {
                Ok(Some(e)) => seq![node_of(*e)],
                _ => Seq::<Node>::empty(),
            };
            match step {
                Ok(Some(e)) => {
                    expressions.push(e);
                    proof {
                        lemma_nodes_of_push(before, e);
                    }
                },
                Ok(None) => {},
                Err(e) => {
                    return Err(e);
                },
            }
            proof {
                assert(nodes_of(before) + found =~= nodes_of(expressions@));
                assert(self.skipped_view().subrange(sk0.len() as int, self.skipped_view().len() as int) =~= part + added);
                assert(self.skipped_view() =~= sk0 + (part + added));
                lemma_extend_program_assoc(nodes_of(before), found, part, added, program(ts, self.pos()));
            }
        }
        proof {
            let part = self.skipped_view().subrange(sk0.len() as int, self.skipped_view().len() as int);
            assert(nodes_of(expressions@) + Seq::<Node>::empty() =~= nodes_of(expressions@));
            assert(part + Seq::<int>::empty() =~= part);
        }
        Ok(expressions)
    }

    /// One top-level step: a statement, a comment passed over, or a token
    /// that starts no statement, passed over and recorded.
    #[verifier::rlimit(50)]
    fn parse_step(&mut self) -> (r: Result<Option<Expression>, ParseError>)
        requires
            old(self).wf(),
            old(self).pos() < old(self).toks().len(),
        ensures
            final(self).wf(),
            final(self).toks() == old(self).toks(),
            r is Ok ==> final(self).pos() > old(self).pos(),
            r is Err ==> program(old(self).toks(), old(self).pos()) == Err::<(Seq<Node>, Seq<int>), ParseError>(
                r->Err_0,
            ),
            r is Ok ==> ({
                let added = final(self).skipped_view().subrange(
                    old(self).skipped_view().len() as int,
                    final(self).skipped_view().len() as int,
                );
                let found = match r->Ok_0 {
                    Some(e) => seq![node_of(e)],
                    None => Seq::<Node>::empty(),
                };
                &&& final(self).skipped_view() == old(self).skipped_view() + added
                &&& program(old(self).toks(), old(self).pos()) == extend_program(
                    found,
                    added,
                    program(final(self).toks(), final(self).pos()),
                )
            }),
    {
        let ghost ts = self.toks();
        let ghost p = self.pos();
        let ghost sk = self.skipped_view();
        if self.tokens[self.index].kind == Kind::Comment {
            self.skip_token();
            proof {
                let r = program(ts, p + 1);
                assert(self.skipped_view().subrange(sk.len() as int, sk.len() as int) =~= Seq::<int>::empty());
                assert(sk + Seq::<int>::empty() =~= sk);
                if r is Ok {
                    assert(Seq::<Node>::empty() + r->Ok_0.0 =~= r->Ok_0.0);
                    assert(Seq::<int>::empty() + r->Ok_0.1 =~= r->Ok_0.1);
                }
            }
            return Ok(None);
        }
        match self.seek_expression() {
            Ok(Some(e)) => {
                proof {
                    let r = program(ts, self.pos());
                    assert(self.skipped_view().subrange(sk.len() as int, sk.len() as int) =~= Seq::<int>::empty());
                    assert(sk + Seq::<int>::empty() =~= sk);
                    if r is Ok {
                        assert(Seq::<int>::empty() + r->Ok_0.1 =~= r->Ok_0.1);
                    }
                }
                Ok(Some(e))
            },
            Ok(None) => {
                self.skipped.push(self.index);
                self.skip_token();
                proof {
                    let r = program(ts, p + 1);
                    assert(self.skipped_view() =~= sk.push(p));
                    assert(self.skipped_view().subrange(sk.len() as int, self.skipped_view().len() as int) =~= seq![p]);
                    assert(sk + seq![p] =~= sk.push(p));
                    if r is Ok {
                        assert(Seq::<Node>::empty() + r->Ok_0.0 =~= r->Ok_0.0);
                    }
                }
                Ok(None)
            },
            Err(e) => Err(e),
        }
    }

    fn seek_expression(&mut self) -> (r: Result<Option<Expression>, ParseError>)
        requires
            old(self).wf(),
        ensures
            final(self).keeps(*old(self)),
            outcome(statement(old(self).toks(), old(self).pos()), r, old(self).pos(), final(self).pos()),
        decreases self.tokens@.len() - self.index, 2int,
    {
        if self.index >= self.tokens.len() {
            return Ok(None);
        }
        match self.tokens[self.index].kind {
            Kind::Identifier => self.match_identifier(),
            Kind::Command => self.match_fn_chain(),
            Kind::Let => self.match_var_declaration(),
            Kind::If => self.match_if_statement(),
            Kind::Else => self.match_else_if_statement(),
            Kind::While => self.match_while_statement(),
            _ => Ok(None),
        }
    }

    fn get_token(&self) -> (r: Option<&Token>)
        ensures
            self.pos() < self.tokens@.len() ==> r is Some && *r->0 == self.tokens@[self.pos()],
            self.pos() >= self.tokens@.len() ==> r is None,
    {
        if self.index < self.tokens.len() {
            Some(&self.tokens[self.index])
        } else {
            None
        }
    }

    fn skip_token(&mut self)
        requires
            old(self).wf(),
            old(self).pos() < old(self).toks().len(),
        ensures
            final(self).keeps(*old(self)),
            final(self).pos() == old(self).pos() + 1,
    {
        self.index = self.index + 1;
    }

    fn match_token(&self, kind: Kind) -> (r: bool)
        ensures
            r == at(self.toks(), self.pos(), kind),
    {
        match self.get_token() {
            Some(t) => t.kind == kind,
            None => false,
        }
    }

    fn peek_token(&self, kind: Kind) -> (r: bool)
        requires
            self.wf(),
        ensures
            r == at(self.toks(), self.pos() + 1, kind),
    {
        self.index < self.tokens.len() && self.index + 1 < self.tokens.len() && self.tokens[self.index
            + 1].kind == kind
    }

    fn consume_token(&mut self, kind: Kind) -> (r: Option<Token>)
        requires
            old(self).wf(),
        ensures
            final(self).keeps(*old(self)),
            at(old(self).toks(), old(self).pos(), kind) ==> r is Some && r->0@ == old(self).toks()[old(self).pos()]
                && final(self).pos() == old(self).pos() + 1,
            !at(old(self).toks(), old(self).pos(), kind) ==> r is None && final(self).pos() == old(self).pos(),
    {
        if self.match_token(kind) {
            let t = self.tokens[self.index].duplicate();
            self.index = self.index + 1;
            Some(t)
        } else {
            None
        }
    }

    fn consume_token_of_multiple_kinds(&mut self, kinds: KindSet) -> (r: Option<Token>)
        requires
            old(self).wf(),
        ensures
            final(self).keeps(*old(self)),
            ({
                let ts = old(self).toks();
                let i = old(self).pos();
                if 0 <= i < ts.len() && in_set(kinds, ts[i].kind) {
                    r is Some && r->0@ == ts[i] && final(self).pos() == i + 1
                } else {
                    r is None && final(self).pos() == i
                }
            }),
    {
        if self.index < self.tokens.len() && kinds.contains(self.tokens[self.index].kind) {
            let t = self.tokens[self.index].duplicate();
            self.index = self.index + 1;
            Some(t)
        } else {
            None
        }
    }

    fn consume_variable_identifier(&mut self) -> (r: Option<Token>)
        requires
            old(self).wf(),
        ensures
            final(self).keeps(*old(self)),
            ({
                let ts = old(self).toks();
                let i = old(self).pos();
                if at(ts, i, Kind::Identifier) && !at(ts, i + 1, Kind::LeftParen) {
                    r is Some && r->0@ == ts[i] && final(self).pos() == i + 1
                } else {
                    r is None && final(self).pos() == i
                }
            }),
    {
        if self.match_token(Kind::Identifier) && !self.peek_token(Kind::LeftParen) {
            self.consume_token(Kind::Identifier)
        } else {
            None
        }
    }

    fn match_value(&mut self) -> (r: Option<Expression>)
        requires
            old(self).wf(),
        ensures
            final(self).keeps(*old(self)),
            outcome(value(old(self).toks(), old(self).pos()), Ok(r), old(self).pos(), final(self).pos()),
    {
        if let Some(token) = self.consume_token(Kind::Number) {
            Some(Expression::Value(ValueExpr { value: token }))
        } else {
            match self.consume_variable_identifier() {
                Some(token) => Some(Expression::Value(ValueExpr { value: token })),
                None => None,
            }
        }
    }
}


impl Parser {
    /// A value, or a parenthesised arithmetic expression.
    fn match_operand(&mut self) -> (r: Result<Option<Expression>, ParseError>)
        requires
            old(self).wf(),
        ensures
            final(self).keeps(*old(self)),
            outcome(operand(old(self).toks(), old(self).pos()), r, old(self).pos(), final(self).pos()),
        decreases self.tokens@.len() - self.index, 0int,
    {
        if let Some(v) = self.match_value() {
            return Ok(Some(v));
        }
        if self.consume_token(Kind::LeftParen).is_none() {
            return Ok(None);
        }
        let inner = match self.match_arithmetic_expr() {
            Ok(Some(e)) => e,
            Ok(None) => {
                return Err(ParseError { expected: Expected::Operand, position: self.index });
            },
            Err(e) => {
                return Err(e);
            },
        };
        if self.consume_token(Kind::RightParen).is_none() {
            return Err(ParseError { expected: Expected::RightParen, position: self.index });
        }
        match inner {
            Expression::Value(v) => Ok(Some(Expression::Value(v))),
            e => Ok(Some(Expression::Parenthesis(ParenthesisExpr { value: Box::new(e) }))),
        }
    }

    /// An operand, optionally followed by an operator and a whole arithmetic
    /// expression as the right operand.
    fn match_arithmetic_expr(&mut self) -> (r: Result<Option<Expression>, ParseError>)
        requires
            old(self).wf(),
        ensures
            final(self).keeps(*old(self)),
            outcome(arithmetic(old(self).toks(), old(self).pos()), r, old(self).pos(), final(self).pos()),
        decreases self.tokens@.len() - self.index, 1int,
    {
        let lhs = match self.match_operand() {
            Ok(Some(e)) => e,
            other => {
                return other;
            },
        };
        let operator = match self.consume_token_of_multiple_kinds(KindSet::Arithmetic) {
            Some(t) => t,
            None => {
                return Ok(Some(lhs));
            },
        };
        match self.match_arithmetic_expr() {
            Ok(Some(rhs)) => Ok(
                Some(Expression::Arithmetic(ArithmeticExpr { lhs: Box::new(lhs), operator, rhs: Box::new(rhs) })),
            ),
            Ok(None) => Err(ParseError { expected: Expected::Operand, position: self.index }),
            Err(e) => Err(e),
        }
    }

    /// Two arithmetic expressions around a relational operator.
    fn match_conditional_expr(&mut self) -> (r: Result<Expression, ParseError>)
        requires
            old(self).wf(),
        ensures
            final(self).keeps(*old(self)),
            outcome(
                condition(old(self).toks(), old(self).pos()),
                match r {
                    Ok(e) => Ok(Some(e)),
                    Err(e) => Err(e),
                },
                old(self).pos(),
                final(self).pos(),
            ),
    {
        let lhs = match self.match_arithmetic_expr() {
            Ok(Some(e)) => e,
            Ok(None) => {
                return Err(ParseError { expected: Expected::Operand, position: self.index });
            },
            Err(e) => {
                return Err(e);
            },
        };
        let operator = match self.consume_token_of_multiple_kinds(KindSet::Relational) {
            Some(t) => t,
            None => {
                return Err(ParseError { expected: Expected::Comparison, position: self.index });
            },
        };
        let rhs = match self.match_arithmetic_expr() {
            Ok(Some(e)) => e,
            Ok(None) => {
                return Err(ParseError { expected: Expected::Operand, position: self.index });
            },
            Err(e) => {
                return Err(e);
            },
        };
        Ok(Expression::Condition(ConditionExpr { lhs: Box::new(lhs), operator, rhs: Box::new(rhs) }))
    }

    /// The right-hand side of an assignment.
    fn match_evaluable_expression(&mut self) -> (r: Result<Option<Expression>, ParseError>)
        requires
            old(self).wf(),
        ensures
            final(self).keeps(*old(self)),
            outcome(evaluable(old(self).toks(), old(self).pos()), r, old(self).pos(), final(self).pos()),
    {
        match self.match_arithmetic_expr() {
            Ok(None) => {},
            other => {
                return other;
            },
        }
        if let Some(token) = self.consume_token(Kind::String) {
            return Ok(Some(Expression::Value(ValueExpr { value: token })));
        }
        self.match_fn_call()
    }

    /// `name ( arguments )`.
    fn match_fn_call(&mut self) -> (r: Result<Option<Expression>, ParseError>)
        requires
            old(self).wf(),
        ensures
            final(self).keeps(*old(self)),
            outcome(fn_call(old(self).toks(), old(self).pos()), r, old(self).pos(), final(self).pos()),
        decreases self.tokens@.len() - self.index, 0int,
    {
        let name = match self.consume_token_of_multiple_kinds(KindSet::CallName) {
            Some(t) => t,
            None => {
                return Ok(None);
            },
        };
        if self.consume_token(Kind::LeftParen).is_none() {
            return Err(ParseError { expected: Expected::LeftParen, position: self.index });
        }
        let args = match self.match_fn_arguments() {
            Ok(a) => a,
            Err(e) => {
                return Err(e);
            },
        };
        if self.consume_token(Kind::RightParen).is_none() {
            return Err(ParseError { expected: Expected::RightParen, position: self.index });
        }
        let command = name.kind == Kind::Command;
        Ok(Some(Expression::FnCall(FnCall { name, args, command })))
    }

    /// Arguments separated by commas, up to the first position where none starts.
    fn match_fn_arguments(&mut self) -> (r: Result<Vec<Expression>, ParseError>)
        requires
            old(self).wf(),
        ensures
            final(self).keeps(*old(self)),
            list_outcome(fn_args(old(self).toks(), old(self).pos()), r, old(self).pos(), final(self).pos()),
        decreases self.tokens@.len() - self.index, 1int,
    {
        let ghost ts = self.toks();
        let ghost p0 = self.pos();
        let mut args: Vec<Expression> = Vec::new();
        assert(nodes_of(args@) =~= Seq::<Node>::empty());
        loop
            invariant_except_break
                fn_args(ts, p0) == extend(nodes_of(args@), self.pos() - p0, fn_args(ts, self.pos())),
            invariant
                self.keeps(*old(self)),
                self.toks() == ts,
                ts == old(self).toks(),
                p0 == old(self).pos(),
                p0 <= self.pos(),
            ensures
                self.keeps(*old(self)),
                fn_args(ts, p0) == Ok::<(Seq<Node>, nat), ParseError>((nodes_of(args@), (self.pos() - p0) as nat)),
            decreases self.tokens@.len() - self.index,
        {
            let ghost p = self.pos();
            let ghost before = args@;
            let item = match self.consume_token_of_multiple_kinds(KindSet::Verbatim) {
                Some(t) => Expression::Value(ValueExpr { value: t }),
                None => match self.match_arithmetic_expr() {
                    Ok(Some(e)) => e,
                    Ok(None) => match self.match_fn_call() {
                        Ok(Some(e)) => e,
                        Ok(None) => {
                            assert(nodes_of(args@) + Seq::<Node>::empty() =~= nodes_of(args@));
                            break;
                        },
                        Err(e) => {
                            return Err(e);
                        },
                    },
                    Err(e) => {
                        return Err(e);
                    },
                },
            };
            assert(arg(ts, p) is Hit && arg(ts, p)->Hit_node == node_of(item));
            args.push(item);
            proof {
                lemma_nodes_of_push(before, item);
            }
            if self.consume_token(Kind::Coma).is_none() {
                assert(nodes_of(before) + seq![node_of(item)] =~= nodes_of(args@));
                break;
            }
            proof {
                let r = fn_args(ts, self.pos());
                if r is Ok {
                    assert(nodes_of(before) + (seq![node_of(item)] + r->Ok_0.0) =~= nodes_of(args@) + r->Ok_0.0);
                }
            }
        }
        Ok(args)
    }

    /// Calls joined by `.`, as the list of calls.
    fn match_fn_invocations(&mut self) -> (r: Result<Option<Vec<Expression>>, ParseError>)
        requires
            old(self).wf(),
        ensures
            final(self).keeps(*old(self)),
            ({
                let p = fn_chain(old(self).toks(), old(self).pos());
                match p {
                    Parsed::Miss => r is Ok && r->Ok_0 is None && final(self).pos() == old(self).pos(),
                    Parsed::Hit { node, last } => r is Ok && r->Ok_0 is Some && nodes_of(r->Ok_0->Some_0@)
                        == node->FnChain_calls && final(self).pos() == old(self).pos() + last + 1,
                    Parsed::Fail { error } => r is Err && r->Err_0 == error,
                }
            }),
        decreases self.tokens@.len() - self.index,
    {
        let first = match self.match_fn_call() {
            Ok(Some(c)) => c,
            Ok(None) => {
                return Ok(None);
            },
            Err(e) => {
                return Err(e);
            },
        };
        if self.consume_token(Kind::Period).is_none() {
            let mut calls: Vec<Expression> = Vec::new();
            calls.push(first);
            proof {
                lemma_nodes_of_push(Seq::<Expression>::empty(), first);
                assert(Seq::<Expression>::empty().push(first) =~= calls@);
                assert(nodes_of(Seq::<Expression>::empty()) =~= Seq::<Node>::empty());
                assert(Seq::<Node>::empty().push(node_of(first)) =~= seq![node_of(first)]);
            }
            return Ok(Some(calls));
        }
        match self.match_fn_invocations() {
            Ok(Some(mut more)) => {
                let ghost tail = more@;
                more.insert(0, first);
                proof {
                    assert(more@ =~= seq![first] + tail);
                    lemma_nodes_of_prepend(tail, first);
                }
                Ok(Some(more))
            },
            Ok(None) => Err(ParseError { expected: Expected::Call, position: self.index }),
            Err(e) => Err(e),
        }
    }

    /// A chain of one or more calls.
    fn match_fn_chain(&mut self) -> (r: Result<Option<Expression>, ParseError>)
        requires
            old(self).wf(),
        ensures
            final(self).keeps(*old(self)),
            outcome(fn_chain(old(self).toks(), old(self).pos()), r, old(self).pos(), final(self).pos()),
    {
        match self.match_fn_invocations() {
            Ok(Some(invocations)) => Ok(Some(Expression::FnChain(FnChain { invocations }))),
            Ok(None) => Ok(None),
            Err(e) => Err(e),
        }
    }
}


impl Parser {
    /// `name = value`, as its name token and value.
    fn match_assignment_parts(&mut self) -> (r: Result<Option<(Token, Expression)>, ParseError>)
        requires
            old(self).wf(),
        ensures
            final(self).keeps(*old(self)),
            ({
                let p = assignment(old(self).toks(), old(self).pos());
                match p {
                    Parsed::Miss => r is Ok && r->Ok_0 is None && final(self).pos() == old(self).pos(),
                    Parsed::Hit { node, last } => r is Ok && r->Ok_0 is Some && r->Ok_0->Some_0.0@
                        == node->VarAssignment_name && r->Ok_0->Some_0.1@ == *node->VarAssignment_value
                        && final(self).pos() == old(self).pos() + last + 1,
                    Parsed::Fail { error } => r is Err && r->Err_0 == error,
                }
            }),
    {
        let name = match self.consume_token(Kind::Identifier) {
            Some(t) => t,
            None => {
                return Ok(None);
            },
        };
        self.consume_token(Kind::Equal);
        match self.match_evaluable_expression() {
            Ok(Some(value)) => Ok(Some((name, value))),
            Ok(None) => Err(ParseError { expected: Expected::Value, position: self.index }),
            Err(e) => Err(e),
        }
    }

    fn match_var_assignment(&mut self) -> (r: Result<Option<Expression>, ParseError>)
        requires
            old(self).wf(),
        ensures
            final(self).keeps(*old(self)),
            outcome(assignment(old(self).toks(), old(self).pos()), r, old(self).pos(), final(self).pos()),
    {
        match self.match_assignment_parts() {
            Ok(Some((name, value))) => Ok(
                Some(Expression::VarAssignment(VarAssignmentExpr { name, value: Box::new(value) })),
            ),
            Ok(None) => Ok(None),
            Err(e) => Err(e),
        }
    }

    fn match_var_declaration(&mut self) -> (r: Result<Option<Expression>, ParseError>)
        requires
            old(self).wf(),
        ensures
            final(self).keeps(*old(self)),
            outcome(declaration(old(self).toks(), old(self).pos()), r, old(self).pos(), final(self).pos()),
    {
        if self.consume_token(Kind::Let).is_none() {
            return Ok(None);
        }
        match self.match_assignment_parts() {
            Ok(Some((name, value))) => Ok(
                Some(Expression::VarDeclaration(VarDeclarationExpr { name, value: Box::new(value) })),
            ),
            Ok(None) => Err(ParseError { expected: Expected::Identifier, position: self.index }),
            Err(e) => Err(e),
        }
    }

    /// An assignment when `=` follows the identifier, else a chain of calls.
    fn match_identifier(&mut self) -> (r: Result<Option<Expression>, ParseError>)
        requires
            old(self).wf(),
        ensures
            final(self).keeps(*old(self)),
            outcome(
                if at(old(self).toks(), old(self).pos() + 1, Kind::Equal) {
                    assignment(old(self).toks(), old(self).pos())
                } else {
                    fn_chain(old(self).toks(), old(self).pos())
                },
                r,
                old(self).pos(),
                final(self).pos(),
            ),
    {
        if self.peek_token(Kind::Equal) {
            self.match_var_assignment()
        } else {
            self.match_fn_chain()
        }
    }

    /// `{ statements }`.
    fn match_statement_body(&mut self) -> (r: Result<Vec<Expression>, ParseError>)
        requires
            old(self).wf(),
        ensures
            final(self).keeps(*old(self)),
            list_outcome(block(old(self).toks(), old(self).pos()), r, old(self).pos(), final(self).pos()),
        decreases self.tokens@.len() - self.index, 0int,
    {
        if self.consume_token(Kind::LeftBracket).is_none() {
            return Err(ParseError { expected: Expected::LeftBracket, position: self.index });
        }
        let body = match self.match_block_items() {
            Ok(b) => b,
            Err(e) => {
                return Err(e);
            },
        };
        if self.consume_token(Kind::RightBracket).is_none() {
            return Err(ParseError { expected: Expected::RightBracket, position: self.index });
        }
        Ok(body)
    }

    /// The statements of a block up to its closing brace, comments passed over.
    fn match_block_items(&mut self) -> (r: Result<Vec<Expression>, ParseError>)
        requires
            old(self).wf(),
        ensures
            final(self).keeps(*old(self)),
            list_outcome(block_items(old(self).toks(), old(self).pos()), r, old(self).pos(), final(self).pos()),
        decreases self.tokens@.len() - self.index, 3int,
    {
        if self.index >= self.tokens.len() {
            return Err(ParseError { expected: Expected::RightBracket, position: self.index });
        }
        let kind = self.tokens[self.index].kind;
        if kind == Kind::RightBracket {
            let empty: Vec<Expression> = Vec::new();
            assert(nodes_of(empty@) =~= Seq::<Node>::empty());
            return Ok(empty);
        }
        if kind == Kind::Comment {
            self.skip_token();
            return self.match_block_items();
        }
        match self.seek_expression() {
            Ok(Some(e)) => match self.match_block_items() {
                Ok(mut more) => {
                    let ghost tail = more@;
                    more.insert(0, e);
                    proof {
                        assert(more@ =~= seq![e] + tail);
                        lemma_nodes_of_prepend(tail, e);
                    }
                    Ok(more)
                },
                Err(x) => Err(x),
            },
            Ok(None) => {
                let empty: Vec<Expression> = Vec::new();
                assert(nodes_of(empty@) =~= Seq::<Node>::empty());
                Ok(empty)
            },
            Err(x) => Err(x),
        }
    }

    /// `if ( condition ) { ... }` and the `else` branch that may follow.
    fn match_if_statement(&mut self) -> (r: Result<Option<Expression>, ParseError>)
        requires
            old(self).wf(),
        ensures
            final(self).keeps(*old(self)),
            outcome(if_statement(old(self).toks(), old(self).pos()), r, old(self).pos(), final(self).pos()),
        decreases self.tokens@.len() - self.index, 1int,
    {
        if self.consume_token(Kind::If).is_none() {
            return Ok(None);
        }
        if self.consume_token(Kind::LeftParen).is_none() {
            return Err(ParseError { expected: Expected::LeftParen, position: self.index });
        }
        let condition = match self.match_conditional_expr() {
            Ok(c) => c,
            Err(e) => {
                return Err(e);
            },
        };
        if self.consume_token(Kind::RightParen).is_none() {
            return Err(ParseError { expected: Expected::RightParen, position: self.index });
        }
        let body = match self.match_statement_body() {
            Ok(b) => b,
            Err(e) => {
                return Err(e);
            },
        };
        let branching = match self.match_else_if_statement() {
            Ok(Some(b)) => Some(Box::new(b)),
            Ok(None) => None,
            Err(e) => {
                return Err(e);
            },
        };
        Ok(Some(Expression::IfStatement(IfStatementExpr { condition: Box::new(condition), body, branching })))
    }

    /// `else if ...`, continuing the chain as an `elif`, or `else { ... }`.
    fn match_else_if_statement(&mut self) -> (r: Result<Option<Expression>, ParseError>)
        requires
            old(self).wf(),
        ensures
            final(self).keeps(*old(self)),
            outcome(else_if_statement(old(self).toks(), old(self).pos()), r, old(self).pos(), final(self).pos()),
        decreases self.tokens@.len() - self.index, 1int,
    {
        if self.consume_token(Kind::Else).is_none() {
            return Ok(None);
        }
        if self.match_token(Kind::If) {
            match self.match_if_statement() {
                Ok(Some(Expression::IfStatement(s))) => Ok(
                    Some(
                        Expression::ElifStatement(
                            ElifStatementExpr { condition: s.condition, body: s.body, branching: s.branching },
                        ),
                    ),
                ),
                other => other,
            }
        } else {
            match self.match_statement_body() {
                Ok(body) => Ok(Some(Expression::ElseStatement(ElseStatementExpr { body }))),
                Err(e) => Err(e),
            }
        }
    }

    /// `while ( condition ) { ... }`.
    fn match_while_statement(&mut self) -> (r: Result<Option<Expression>, ParseError>)
        requires
            old(self).wf(),
        ensures
            final(self).keeps(*old(self)),
            outcome(while_statement(old(self).toks(), old(self).pos()), r, old(self).pos(), final(self).pos()),
        decreases self.tokens@.len() - self.index, 1int,
    {
        if self.consume_token(Kind::While).is_none() {
            return Ok(None);
        }
        if self.consume_token(Kind::LeftParen).is_none() {
            return Err(ParseError { expected: Expected::LeftParen, position: self.index });
        }
        let condition = match self.match_conditional_expr() {
            Ok(c) => c,
            Err(e) => {
                return Err(e);
            },
        };
        if self.consume_token(Kind::RightParen).is_none() {
            return Err(ParseError { expected: Expected::RightParen, position: self.index });
        }
        match self.match_statement_body() {
            Ok(body) => Ok(Some(Expression::WhileStatement(WhileStatementExpr { condition: Box::new(condition), body }))),
            Err(e) => Err(e),
        }
    }
}

} // verus!
