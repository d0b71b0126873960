//! The grammar of the language, as spec functions over a token sequence.
//!
//! Each rule looks at the tokens from position `i` on and either does not
//! apply (nothing is consumed), yields a node together with the offset of the
//! node's last token from `i`, or fails with the expectation that was not met.
use vstd::prelude::*;

use crate::ast::{render, Node, RenderFault};
use crate::token::token_text;
use crate::token::{Kind, TokenView};

verus! {

/// What the parser expected where it failed.
#[derive(Debug, PartialEq, Eq, Structural, Clone, Copy)]
pub enum Expected {
    LeftParen,
    RightParen,
    LeftBracket,
    RightBracket,
    /// A number, a variable or a parenthesised expression.
    Operand,
    /// A relational operator.
    Comparison,
    /// The value of an assignment.
    Value,
    /// The variable name after `let`.
    Identifier,
    /// A call after `.` in a chain.
    Call,
}

/// A parse failure: what was expected, and the index of the token where it was not found.
#[derive(Debug, PartialEq, Eq, Structural, Clone, Copy)]
pub struct ParseError {
    pub expected: Expected,
    pub position: usize,
}

pub open spec fn perr(expected: Expected, position: int) -> ParseError {
    ParseError { expected, position: position as usize }
}

/// The result of a rule at a position.
pub enum Parsed {
    /// The rule does not apply; nothing is consumed.
    Miss,
    /// A node over the tokens `i ..= i + last`.
    Hit { node: Node, last: nat },
    Fail { error: ParseError },
}

/// A sequence of nodes over the `used` tokens from the start position, or a failure.
pub type ParsedList = Result<(Seq<Node>, nat), ParseError>;

pub open spec fn at(ts: Seq<TokenView>, i: int, k: Kind) -> bool {
    0 <= i < ts.len() && ts[i].kind == k
}

pub open spec fn is_arith_op(k: Kind) -> bool {
    k == Kind::Plus || k == Kind::Minus || k == Kind::Asterisk || k == Kind::Slash
}

pub open spec fn is_relational(k: Kind) -> bool {
    k == Kind::Less || k == Kind::LessEqual || k == Kind::Greater || k == Kind::GreaterEqual
        || k == Kind::EqualEqual || k == Kind::NotEqual
}

/// The termination measure: tokens left, plus one.
pub open spec fn rest(ts: Seq<TokenView>, i: int) -> int {
    if 0 <= i <= ts.len() {
        ts.len() - i + 1
    } else {
        0
    }
}

/// A number, or a variable that is not the name of a call.
pub open spec fn value(ts: Seq<TokenView>, i: int) -> Parsed {
    if at(ts, i, Kind::Number) || (at(ts, i, Kind::Identifier) && !at(ts, i + 1, Kind::LeftParen)) {
        Parsed::Hit { node: Node::Value { token: ts[i] }, last: 0 }
    } else {
        Parsed::Miss
    }
}

/// A value, or `( arithmetic )`; a parenthesised plain value stays a plain value.
pub open spec fn operand(ts: Seq<TokenView>, i: int) -> Parsed
    decreases rest(ts, i), 0int,
{
    if !(0 <= i <= ts.len()) {
        Parsed::Miss
    } else if value(ts, i) is Hit {
        value(ts, i)
    } else if at(ts, i, Kind::LeftParen) {
        match arithmetic(ts, i + 1) {
            Parsed::Miss => Parsed::Fail { error: perr(Expected::Operand, i + 1) },
            Parsed::Fail { error } => Parsed::Fail { error },
            Parsed::Hit { node, last } => {
                let k = i + 1 + last + 1;
                if at(ts, k, Kind::RightParen) {
                    Parsed::Hit {
                        node: if node is Value {
                            node
                        } else {
                            Node::Parenthesis { inner: Box::new(node) }
                        },
                        last: last + 2,
                    }
                } else {
                    Parsed::Fail { error: perr(Expected::RightParen, k) }
                }
            },
        }
    } else {
        Parsed::Miss
    }
}

/// `operand (op arithmetic)?`: the right operand is a whole arithmetic
/// expression, so chains of operators group to the right.
pub open spec fn arithmetic(ts: Seq<TokenView>, i: int) -> Parsed
    decreases rest(ts, i), 1int,
{
    if !(0 <= i <= ts.len()) {
        Parsed::Miss
    } else {
        match operand(ts, i) {
            Parsed::Hit { node: lhs, last: a } => {
                let j = i + a + 1;
                if j < ts.len() && is_arith_op(ts[j].kind) {
                    match arithmetic(ts, j + 1) {
                        Parsed::Hit { node: rhs, last: b } => Parsed::Hit {
                            node: Node::Arithmetic { lhs: Box::new(lhs), op: ts[j], rhs: Box::new(rhs) },
                            last: a + b + 2,
                        },
                        Parsed::Miss => Parsed::Fail { error: perr(Expected::Operand, j + 1) },
                        Parsed::Fail { error } => Parsed::Fail { error },
                    }
                } else {
                    Parsed::Hit { node: lhs, last: a }
                }
            },
            other => other,
        }
    }
}

/// `arithmetic relational-operator arithmetic`, all three parts required.
pub open spec fn condition(ts: Seq<TokenView>, i: int) -> Parsed {
    match arithmetic(ts, i) {
        Parsed::Miss => Parsed::Fail { error: perr(Expected::Operand, i) },
        Parsed::Fail { error } => Parsed::Fail { error },
        Parsed::Hit { node: lhs, last: a } => {
            let j = i + a + 1;
            if j < ts.len() && is_relational(ts[j].kind) {
                match arithmetic(ts, j + 1) {
                    Parsed::Miss => Parsed::Fail { error: perr(Expected::Operand, j + 1) },
                    Parsed::Fail { error } => Parsed::Fail { error },
                    Parsed::Hit { node: rhs, last: b } => Parsed::Hit {
                        node: Node::Condition { lhs: Box::new(lhs), op: ts[j], rhs: Box::new(rhs) },
                        last: a + b + 2,
                    },
                }
            } else {
                Parsed::Fail { error: perr(Expected::Comparison, j) }
            }
        },
    }
}

/// `name ( args )`, where the name is an identifier or a command.
pub open spec fn fn_call(ts: Seq<TokenView>, i: int) -> Parsed
    decreases rest(ts, i), 0int,
{
    if !(0 <= i <= ts.len()) {
        Parsed::Miss
    } else if at(ts, i, Kind::Identifier) || at(ts, i, Kind::Command) {
        if !at(ts, i + 1, Kind::LeftParen) {
            Parsed::Fail { error: perr(Expected::LeftParen, i + 1) }
        } else {
            match fn_args(ts, i + 2) {
                Err(error) => Parsed::Fail { error },
                Ok((args, used)) => {
                    let k = i + 2 + used;
                    if at(ts, k, Kind::RightParen) {
                        Parsed::Hit {
                            node: Node::FnCall { name: ts[i], args, command: ts[i].kind == Kind::Command },
                            last: used + 2,
                        }
                    } else {
                        Parsed::Fail { error: perr(Expected::RightParen, k) }
                    }
                },
            }
        }
    } else {
        Parsed::Miss
    }
}

/// One argument: a string, raw string or option flag taken verbatim, else an
/// arithmetic expression, else a nested call.
pub open spec fn arg(ts: Seq<TokenView>, i: int) -> Parsed
    decreases rest(ts, i), 1int,
{
    if !(0 <= i <= ts.len()) {
        Parsed::Miss
    } else if at(ts, i, Kind::String) || at(ts, i, Kind::RawString) || at(ts, i, Kind::Option) {
        Parsed::Hit { node: Node::Value { token: ts[i] }, last: 0 }
    } else {
        match arithmetic(ts, i) {
            Parsed::Miss => fn_call(ts, i),
            other => other,
        }
    }
}

/// Arguments separated by `,`; the list ends at the first position where no
/// argument starts.
pub open spec fn fn_args(ts: Seq<TokenView>, i: int) -> ParsedList
    decreases rest(ts, i), 2int,
{
    if !(0 <= i <= ts.len()) {
        Ok((seq![], 0))
    } else {
        match arg(ts, i) {
            Parsed::Miss => Ok((seq![], 0)),
            Parsed::Fail { error } => Err(error),
            Parsed::Hit { node, last } => {
                let j = i + last + 1;
                if at(ts, j, Kind::Coma) {
                    match fn_args(ts, j + 1) {
                        Err(error) => Err(error),
                        Ok((more, used)) => Ok((seq![node] + more, last + 2 + used)),
                    }
                } else {
                    Ok((seq![node], last + 1))
                }
            },
        }
    }
}

/// Calls joined by `.`; a `.` must be followed by a call.
pub open spec fn fn_chain(ts: Seq<TokenView>, i: int) -> Parsed
    decreases rest(ts, i),
{
    if !(0 <= i <= ts.len()) {
        Parsed::Miss
    } else {
        match fn_call(ts, i) {
            Parsed::Hit { node, last } => {
                let j = i + last + 1;
                if at(ts, j, Kind::Period) {
                    match fn_chain(ts, j + 1) {
                        Parsed::Miss => Parsed::Fail { error: perr(Expected::Call, j + 1) },
                        Parsed::Fail { error } => Parsed::Fail { error },
                        Parsed::Hit { node: more, last: used } => Parsed::Hit {
                            node: Node::FnChain { calls: seq![node] + more->FnChain_calls },
                            last: last + 2 + used,
                        },
                    }
                } else {
                    Parsed::Hit { node: Node::FnChain { calls: seq![node] }, last }
                }
            },
            other => other,
        }
    }
}

/// The right-hand side of an assignment: arithmetic, else a string, else a call.
pub open spec fn evaluable(ts: Seq<TokenView>, i: int) -> Parsed {
    match arithmetic(ts, i) {
        Parsed::Miss => if at(ts, i, Kind::String) {
            Parsed::Hit { node: Node::Value { token: ts[i] }, last: 0 }
        } else {
            fn_call(ts, i)
        },
        other => other,
    }
}

/// `name = value`; the `=` may be left out.
pub open spec fn assignment(ts: Seq<TokenView>, i: int) -> Parsed {
    if at(ts, i, Kind::Identifier) {
        let j = if at(ts, i + 1, Kind::Equal) {
            i + 2
        } else {
            i + 1
        };
        match evaluable(ts, j) {
            Parsed::Miss => Parsed::Fail { error: perr(Expected::Value, j) },
            Parsed::Fail { error } => Parsed::Fail { error },
            Parsed::Hit { node, last } => Parsed::Hit {
                node: Node::VarAssignment { name: ts[i], value: Box::new(node) },
                last: (j - i + last) as nat,
            },
        }
    } else {
        Parsed::Miss
    }
}

/// `let` followed by an assignment.
pub open spec fn declaration(ts: Seq<TokenView>, i: int) -> Parsed {
    if at(ts, i, Kind::Let) {
        match assignment(ts, i + 1) {
            Parsed::Miss => Parsed::Fail { error: perr(Expected::Identifier, i + 1) },
            Parsed::Fail { error } => Parsed::Fail { error },
            Parsed::Hit { node, last } => Parsed::Hit {
                node: Node::VarDeclaration { name: node->VarAssignment_name, value: node->VarAssignment_value },
                last: last + 1,
            },
        }
    } else {
        Parsed::Miss
    }
}

/// An `if` node re-tagged as `elif`.
pub open spec fn as_elif(n: Node) -> Node {
    match n {
        Node::If { cond, body, branching } => Node::Elif { cond, body, branching },
        other => other,
    }
}

/// A statement, chosen by its first token.
pub open spec fn statement(ts: Seq<TokenView>, i: int) -> Parsed
    decreases rest(ts, i), 2int,
{
    if !(0 <= i < ts.len()) {
        Parsed::Miss
    } else {
        match ts[i].kind {
            Kind::Identifier => if at(ts, i + 1, Kind::Equal) {
                assignment(ts, i)
            } else {
                fn_chain(ts, i)
            },
            Kind::Command => fn_chain(ts, i),
            Kind::Let => declaration(ts, i),
            Kind::If => if_statement(ts, i),
            Kind::Else => else_if_statement(ts, i),
            Kind::While => while_statement(ts, i),
            _ => Parsed::Miss,
        }
    }
}

/// `if ( condition ) block`, then an optional `else` branch.
pub open spec fn if_statement(ts: Seq<TokenView>, i: int) -> Parsed
    decreases rest(ts, i), 1int,
{
    if !(0 <= i <= ts.len()) || !at(ts, i, Kind::If) {
        Parsed::Miss
    } else if !at(ts, i + 1, Kind::LeftParen) {
        Parsed::Fail { error: perr(Expected::LeftParen, i + 1) }
    } else {
        match condition(ts, i + 2) {
            Parsed::Hit { node: cond, last: a } => {
                let k = i + 2 + a + 1;
                if !at(ts, k, Kind::RightParen) {
                    Parsed::Fail { error: perr(Expected::RightParen, k) }
                } else {
                    match block(ts, k + 1) {
                        Err(error) => Parsed::Fail { error },
                        Ok((body, used)) => {
                            let m = k + 1 + used;
                            match else_if_statement(ts, m) {
                                Parsed::Miss => Parsed::Hit {
                                    node: Node::If { cond: Box::new(cond), body, branching: None },
                                    last: (m - 1 - i) as nat,
                                },
                                Parsed::Fail { error } => Parsed::Fail { error },
                                Parsed::Hit { node, last } => Parsed::Hit {
                                    node: Node::If { cond: Box::new(cond), body, branching: Some(Box::new(node)) },
                                    last: (m + last - i) as nat,
                                },
                            }
                        },
                    }
                }
            },
            Parsed::Fail { error } => Parsed::Fail { error },
            Parsed::Miss => Parsed::Miss,
        }
    }
}

/// `else if ...` (an `elif` continuing the chain) or `else block`.
pub open spec fn else_if_statement(ts: Seq<TokenView>, i: int) -> Parsed
    decreases rest(ts, i), 1int,
{
    if !(0 <= i <= ts.len()) || !at(ts, i, Kind::Else) {
        Parsed::Miss
    } else if at(ts, i + 1, Kind::If) {
        match if_statement(ts, i + 1) {
            Parsed::Hit { node, last } => Parsed::Hit { node: as_elif(node), last: last + 1 },
            other => other,
        }
    } else {
        match block(ts, i + 1) {
            Err(error) => Parsed::Fail { error },
            Ok((body, used)) => Parsed::Hit { node: Node::Else { body }, last: used },
        }
    }
}

/// `while ( condition ) block`.
pub open spec fn while_statement(ts: Seq<TokenView>, i: int) -> Parsed
    decreases rest(ts, i), 1int,
{
    if !(0 <= i <= ts.len()) || !at(ts, i, Kind::While) {
        Parsed::Miss
    } else if !at(ts, i + 1, Kind::LeftParen) {
        Parsed::Fail { error: perr(Expected::LeftParen, i + 1) }
    } else {
        match condition(ts, i + 2) {
            Parsed::Hit { node: cond, last: a } => {
                let k = i + 2 + a + 1;
                if !at(ts, k, Kind::RightParen) {
                    Parsed::Fail { error: perr(Expected::RightParen, k) }
                } else {
                    match block(ts, k + 1) {
                        Err(error) => Parsed::Fail { error },
                        Ok((body, used)) => Parsed::Hit {
                            node: Node::While { cond: Box::new(cond), body },
                            last: (k + used - i) as nat,
                        },
                    }
                }
            },
            Parsed::Fail { error } => Parsed::Fail { error },
            Parsed::Miss => Parsed::Miss,
        }
    }
}

/// `{ statements }`.
pub open spec fn block(ts: Seq<TokenView>, i: int) -> ParsedList
    decreases rest(ts, i), 0int,
{
    if !(0 <= i <= ts.len()) || !at(ts, i, Kind::LeftBracket) {
        Err(perr(Expected::LeftBracket, i))
    } else {
        match block_items(ts, i + 1) {
            Err(error) => Err(error),
            Ok((body, used)) => {
                let k = i + 1 + used;
                if at(ts, k, Kind::RightBracket) {
                    Ok((body, used + 2))
                } else {
                    Err(perr(Expected::RightBracket, k))
                }
            },
        }
    }
}

/// The statements of a block up to its `}` (or up to the first token that
/// starts no statement); comments are passed over.
pub open spec fn block_items(ts: Seq<TokenView>, i: int) -> ParsedList
    decreases rest(ts, i), 3int,
{
    if !(0 <= i < ts.len()) {
        Err(perr(Expected::RightBracket, i))
    } else if ts[i].kind == Kind::RightBracket {
        Ok((seq![], 0))
    } else if ts[i].kind == Kind::Comment {
        match block_items(ts, i + 1) {
            Err(error) => Err(error),
            Ok((body, used)) => Ok((body, used + 1)),
        }
    } else {
        match statement(ts, i) {
            Parsed::Miss => Ok((seq![], 0)),
            Parsed::Fail { error } => Err(error),
            Parsed::Hit { node, last } => match block_items(ts, i + last + 1) {
                Err(error) => Err(error),
                Ok((body, used)) => Ok((seq![node] + body, last + 1 + used)),
            },
        }
    }
}

/// The top-level statements from `i` on, and the positions of the tokens
/// that started no statement and were passed over (comments aside).
pub open spec fn program(ts: Seq<TokenView>, i: int) -> Result<(Seq<Node>, Seq<int>), ParseError>
    decreases rest(ts, i),
{
    if !(0 <= i < ts.len()) {
        Ok((seq![], seq![]))
    } else if ts[i].kind == Kind::Comment {
        program(ts, i + 1)
    } else {
        match statement(ts, i) {
            Parsed::Fail { error } => Err(error),
            Parsed::Miss => match program(ts, i + 1) {
                Err(error) => Err(error),
                Ok((nodes, skipped)) => Ok((nodes, seq![i] + skipped)),
            },
            Parsed::Hit { node, last } => match program(ts, i + last + 1) {
                Err(error) => Err(error),
                Ok((nodes, skipped)) => Ok((seq![node] + nodes, skipped)),
            },
        }
    }
}

/// A token that parses as a plain value when an operator follows it.
pub open spec fn is_value_token(t: TokenView) -> bool {
    t.kind == Kind::Number || t.kind == Kind::Identifier
}

/// Two operators over three values group to the right, `a op (b op c)`,
/// and the rendering shows no grouping: `$((a op b op c))`.
pub proof fn lemma_arithmetic_groups_right(a: TokenView, o1: TokenView, b: TokenView, o2: TokenView, c: TokenView)
    requires
        is_value_token(a),
        is_value_token(b),
        is_value_token(c),
        is_arith_op(o1.kind),
        is_arith_op(o2.kind),
    ensures
        ({
            let ts = seq![a, o1, b, o2, c];
            let inner = Node::Arithmetic {
                lhs: Box::new(Node::Value { token: b }),
                op: o2,
                rhs: Box::new(Node::Value { token: c }),
            };
            let outer = Node::Arithmetic { lhs: Box::new(Node::Value { token: a }), op: o1, rhs: Box::new(inner) };
            &&& arithmetic(ts, 0) == (Parsed::Hit { node: outer, last: 4 })
            &&& render(outer) == Ok::<Seq<char>, RenderFault>(
                "$(("@ + token_text(a) + " "@ + o1.lexeme + " "@ + token_text(b) + " "@ + o2.lexeme + " "@
                    + token_text(c) + "))"@,
            )
        }),
{
    let ts = seq![a, o1, b, o2, c];
    let vc = Node::Value { token: c };
    let vb = Node::Value { token: b };
    let va = Node::Value { token: a };
    assert(value(ts, 4) == (Parsed::Hit { node: vc, last: 0 }));
    assert(operand(ts, 4) == (Parsed::Hit { node: vc, last: 0 }));
    assert(arithmetic(ts, 4) == (Parsed::Hit { node: vc, last: 0 }));
    let inner = Node::Arithmetic { lhs: Box::new(vb), op: o2, rhs: Box::new(vc) };
    assert(value(ts, 2) == (Parsed::Hit { node: vb, last: 0 }));
    assert(operand(ts, 2) == (Parsed::Hit { node: vb, last: 0 }));
    assert(arithmetic(ts, 2) == (Parsed::Hit { node: inner, last: 2 }));
    let outer = Node::Arithmetic { lhs: Box::new(va), op: o1, rhs: Box::new(inner) };
    assert(value(ts, 0) == (Parsed::Hit { node: va, last: 0 }));
    assert(operand(ts, 0) == (Parsed::Hit { node: va, last: 0 }));
    assert(arithmetic(ts, 0) == (Parsed::Hit { node: outer, last: 4 }));
    assert(token_text(o1) == o1.lexeme);
    assert(token_text(o2) == o2.lexeme);
    assert(render(va) == Ok::<Seq<char>, RenderFault>(token_text(a)));
    assert(render(vb) == Ok::<Seq<char>, RenderFault>(token_text(b)));
    assert(render(vc) == Ok::<Seq<char>, RenderFault>(token_text(c)));
    let fi = crate::ast::flatten(inner);
    assert(fi == Ok::<Seq<char>, RenderFault>(token_text(b) + (" "@ + o2.lexeme + " "@) + token_text(c)));
    let fo = crate::ast::flatten(outer);
    assert(fo == Ok::<Seq<char>, RenderFault>(token_text(a) + (" "@ + o1.lexeme + " "@) + fi->Ok_0));
    assert(render(outer) == Ok::<Seq<char>, RenderFault>("$(("@ + fo->Ok_0 + "))"@));
    assert("$(("@ + fo->Ok_0 + "))"@ =~= "$(("@ + token_text(a) + " "@ + o1.lexeme + " "@ + token_text(b) + " "@
        + o2.lexeme + " "@ + token_text(c) + "))"@);
}

} // verus!
