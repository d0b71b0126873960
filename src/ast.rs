//! The mathematical model of a syntax tree and of its shell rendering.
use vstd::prelude::*;

use crate::token::{token_text, Kind, TokenView};

verus! {

/// A syntax tree node, as a mathematical value.
pub enum Node {
    Value { token: TokenView },
    Arithmetic { lhs: Box<Node>, op: TokenView, rhs: Box<Node> },
    Parenthesis { inner: Box<Node> },
    Condition { lhs: Box<Node>, op: TokenView, rhs: Box<Node> },
    FnCall { name: TokenView, args: Seq<Node>, command: bool },
    FnChain { calls: Seq<Node> },
    VarAssignment { name: TokenView, value: Box<Node> },
    VarDeclaration { name: TokenView, value: Box<Node> },
    If { cond: Box<Node>, body: Seq<Node>, branching: Option<Box<Node>> },
    Elif { cond: Box<Node>, body: Seq<Node>, branching: Option<Box<Node>> },
    Else { body: Seq<Node> },
    While { cond: Box<Node>, body: Seq<Node> },
}

/// Why a tree cannot be rendered.
#[derive(Debug, PartialEq, Eq, Structural, Clone, Copy)]
pub enum RenderErrorKind {
    /// A call without `!` whose name is not a builtin.
    UnsupportedBuiltin,
    /// A color builtin that is not given exactly one plain value.
    ColorArgument,
}

/// A rendering failure, as a mathematical value: its kind and the offending call's name.
pub struct RenderFault {
    pub kind: RenderErrorKind,
    pub name: Seq<char>,
}

pub open spec fn fault(kind: RenderErrorKind, name: Seq<char>) -> RenderFault {
    RenderFault { kind, name }
}

/// The ANSI color number of a color builtin's name.
pub open spec fn color_code(color: Seq<char>) -> Option<Seq<char>> {
    if color == "red"@ {
        Some("31"@)
    } else if color == "green"@ {
        Some("32"@)
    } else if color == "yellow"@ {
        Some("33"@)
    } else if color == "blue"@ {
        Some("34"@)
    } else if color == "magenta"@ {
        Some("35"@)
    } else if color == "cyan"@ {
        Some("36"@)
    } else {
        None
    }
}

pub open spec fn is_color(name: Seq<char>) -> bool {
    color_code(name) is Some
}

/// `s` wrapped in the escape sequences (for `echo -e`) of the named color;
/// `s` unchanged for any other name.
pub open spec fn colorize(color: Seq<char>, s: Seq<char>) -> Seq<char> {
    match color_code(color) {
        Some(code) => "\\u001b["@ + code + "m"@ + s + "\\u001b[0m"@,
        None => s,
    }
}

/// The shell template of a non-color builtin, applied to its argument text.
pub open spec fn builtin_prefix(name: Seq<char>) -> Option<Seq<char>> {
    if name == "print"@ {
        Some("echo -e "@)
    } else if name == "compress"@ {
        Some("tar -caf "@)
    } else if name == "decompress"@ {
        Some("tar -xf "@)
    } else if name == "ls_archive"@ {
        Some("tar -tvf "@)
    } else {
        None
    }
}

/// `s` with four spaces after each newline.
pub open spec fn indent_lines(s: Seq<char>) -> Seq<char>
    decreases s.len(),
{
    if s.len() == 0 {
        seq![]
    } else if s.last() == '\n' {
        indent_lines(s.drop_last()) + "\n    "@
    } else {
        indent_lines(s.drop_last()).push(s.last())
    }
}

/// Each line of `s` prefixed with four spaces and ended by a newline.
pub open spec fn indent(s: Seq<char>) -> Seq<char> {
    "    "@ + indent_lines(s) + "\n"@
}

/// A call used as a value: captured output, or a quoted colored string.
pub open spec fn capture(name: TokenView, text: Seq<char>) -> Seq<char> {
    if is_color(name.lexeme) {
        "\""@ + text + "\""@
    } else {
        "\"$("@ + text + ")\""@
    }
}

/// The text of a builtin call, given the rendering of its arguments.
pub open spec fn builtin_text(name: Seq<char>, args: Seq<Node>, args_text: Seq<char>) -> Result<
    Seq<char>,
    RenderFault,
> {
    match builtin_prefix(name) {
        Some(prefix) => Ok(prefix + args_text),
        None => if is_color(name) {
            if args.len() == 1 && args[0] is Value {
                let t = args[0]->Value_token;
                if t.kind == Kind::String {
                    Ok(colorize(name, t.lexeme))
                } else {
                    Ok(colorize(name, token_text(t)))
                }
            } else {
                Err(fault(RenderErrorKind::ColorArgument, name))
            }
        } else {
            Err(fault(RenderErrorKind::UnsupportedBuiltin, name))
        },
    }
}

/// `a + sep + b`, failing with the first failure from the left.
pub open spec fn join2(a: Result<Seq<char>, RenderFault>, sep: Seq<char>, b: Result<Seq<char>, RenderFault>) -> Result<Seq<char>, RenderFault> {
    match a {
        Err(f) => Err(f),
        Ok(x) => match b {
            Err(f) => Err(f),
            Ok(y) => Ok(x + sep + y),
        },
    }
}

/// `pre + a + post`, or the failure of `a`.
pub open spec fn wrap(pre: Seq<char>, a: Result<Seq<char>, RenderFault>, post: Seq<char>) -> Result<Seq<char>, RenderFault> {
    match a {
        Err(f) => Err(f),
        Ok(x) => Ok(pre + x + post),
    }
}

/// The shell text of a node, or the first failure met, from left to right.
pub open spec fn render(n: Node) -> Result<Seq<char>, RenderFault>
    decreases n, 1int,
{
    match n {
        Node::Value { token } => Ok(token_text(token)),
        Node::Arithmetic { .. } => wrap("$(("@, flatten(n), "))"@),
        Node::Parenthesis { inner } => if *inner is Arithmetic {
            wrap("("@, flatten(*inner), ")"@)
        } else {
            wrap("("@, render(*inner), ")"@)
        },
        Node::Condition { lhs, op, rhs } => wrap(
            "[ "@,
            join2(render(*lhs), " "@ + token_text(op) + " "@, render(*rhs)),
            " ]"@,
        ),
        Node::FnCall { name, args, command } => match args_text(args) {
            Err(f) => Err(f),
            Ok(a) => if command {
                Ok(token_text(name) + " "@ + a)
            } else {
                builtin_text(name.lexeme, args, a)
            },
        },
        Node::FnChain { calls } => chain_text(calls),
        Node::VarAssignment { name, value } => wrap(name.lexeme + "="@, value_text(*value), seq![]),
        Node::VarDeclaration { name, value } => wrap(name.lexeme + "="@, value_text(*value), seq![]),
        Node::If { cond, body, branching } => if body.len() == 0 {
            Ok(seq![])
        } else {
            join2(
                join2(wrap("if "@, render(*cond), "; then\n"@), seq![], block_text(body)),
                seq![],
                match branching {
                    Some(b) => render(*b),
                    None => Ok("fi"@),
                },
            )
        },
        Node::Elif { cond, body, branching } => if body.len() == 0 {
            Ok(seq![])
        } else {
            join2(
                join2(wrap("elif "@, render(*cond), "; then\n"@), seq![], block_text(body)),
                seq![],
                match branching {
                    Some(b) => render(*b),
                    None => Ok("fi"@),
                },
            )
        },
        Node::Else { body } => if body.len() == 0 {
            Ok(seq![])
        } else {
            wrap("else\n"@, block_text(body), "fi"@)
        },
        Node::While { cond, body } => if body.len() == 0 {
            Ok(seq![])
        } else {
            join2(
                wrap("while "@, render(*cond), "\ndo\n"@),
                seq![],
                wrap(seq![], block_text(body), "done"@),
            )
        },
    }
}

/// An arithmetic node without its `$(( ))`: a right operand that is itself
/// arithmetic is inlined rather than wrapped again.
pub open spec fn flatten(n: Node) -> Result<Seq<char>, RenderFault>
    decreases n, 0int,
{
    match n {
        Node::Arithmetic { lhs, op, rhs } => join2(
            render(*lhs),
            " "@ + token_text(op) + " "@,
            if *rhs is Arithmetic {
                flatten(*rhs)
            } else {
                render(*rhs)
            },
        ),
        _ => Ok(seq![]),
    }
}

/// The right-hand side of an assignment: a call is captured as `"$(...)"`.
pub open spec fn value_text(v: Node) -> Result<Seq<char>, RenderFault>
    decreases v, 2int,
{
    if v is FnCall {
        wrap("\"$("@, render(v), ")\""@)
    } else {
        render(v)
    }
}

/// One call argument: a nested call is quoted (color) or captured (any other);
/// anything else renders as itself.
pub open spec fn arg_text(a: Node) -> Result<Seq<char>, RenderFault>
    decreases a, 2int,
{
    match a {
        Node::FnCall { name, .. } => match render(a) {
            Err(f) => Err(f),
            Ok(t) => Ok(capture(name, t)),
        },
        _ => render(a),
    }
}

/// The arguments of a call, space-separated.
pub open spec fn args_text(s: Seq<Node>) -> Result<Seq<char>, RenderFault>
    decreases s, 0int,
{
    if s.len() == 0 {
        Ok(seq![])
    } else if s.len() == 1 {
        arg_text(s[0])
    } else {
        join2(args_text(s.drop_last()), " "@, arg_text(s.last()))
    }
}

/// The calls of a chain joined into a pipeline with `" | "`.
pub open spec fn chain_text(s: Seq<Node>) -> Result<Seq<char>, RenderFault>
    decreases s, 0int,
{
    if s.len() == 0 {
        Ok(seq![])
    } else if s.len() == 1 {
        render(s[0])
    } else {
        join2(chain_text(s.drop_last()), " | "@, render(s.last()))
    }
}

/// The statements of a block, each indented by four spaces and ended by a newline.
pub open spec fn block_text(s: Seq<Node>) -> Result<Seq<char>, RenderFault>
    decreases s, 0int,
{
    if s.len() == 0 {
        Ok(seq![])
    } else {
        match block_text(s.drop_last()) {
            Err(f) => Err(f),
            Ok(t) => match render(s.last()) {
                Err(f) => Err(f),
                Ok(u) => Ok(t + indent(u)),
            },
        }
    }
}

/// A whole program: each top-level statement followed by a newline.
pub open spec fn program_text(s: Seq<Node>) -> Result<Seq<char>, RenderFault>
    decreases s.len(),
{
    if s.len() == 0 {
        Ok(seq![])
    } else {
        join2(program_text(s.drop_last()), seq![], wrap(seq![], render(s.last()), "\n"@))
    }
}

/// A failure in the first `k` statements of a program is the failure of the whole program.
pub proof fn lemma_program_prefix_err(s: Seq<Node>, k: int)
    requires
        0 <= k <= s.len(),
        program_text(s.subrange(0, k)) is Err,
    ensures
        program_text(s) == program_text(s.subrange(0, k)),
    decreases s.len() - k,
{
    if k < s.len() {
        assert(s.drop_last().subrange(0, k) =~= s.subrange(0, k));
        lemma_program_prefix_err(s.drop_last(), k);
    } else {
        assert(s.subrange(0, k) =~= s);
    }
}

/// A failure in the first `k` calls of a chain is the failure of the whole chain.
pub proof fn lemma_chain_prefix_err(s: Seq<Node>, k: int)
    requires
        0 < k <= s.len(),
        chain_text(s.subrange(0, k)) is Err,
    ensures
        chain_text(s) == chain_text(s.subrange(0, k)),
    decreases s.len() - k,
{
    if k < s.len() {
        assert(s.drop_last().subrange(0, k) =~= s.subrange(0, k));
        lemma_chain_prefix_err(s.drop_last(), k);
    } else {
        assert(s.subrange(0, k) =~= s);
    }
}

/// A failure in the first `k` arguments is the failure of the whole argument list.
pub proof fn lemma_args_prefix_err(s: Seq<Node>, k: int)
    requires
        0 < k <= s.len(),
        args_text(s.subrange(0, k)) is Err,
    ensures
        args_text(s) == args_text(s.subrange(0, k)),
    decreases s.len() - k,
{
    if k < s.len() {
        assert(s.drop_last().subrange(0, k) =~= s.subrange(0, k));
        lemma_args_prefix_err(s.drop_last(), k);
    } else {
        assert(s.subrange(0, k) =~= s);
    }
}

/// A failure in the first `k` statements is the failure of the whole block.
pub proof fn lemma_block_prefix_err(s: Seq<Node>, k: int)
    requires
        0 <= k <= s.len(),
        block_text(s.subrange(0, k)) is Err,
    ensures
        block_text(s) == block_text(s.subrange(0, k)),
    decreases s.len() - k,
{
    if k < s.len() {
        assert(s.drop_last().subrange(0, k) =~= s.subrange(0, k));
        lemma_block_prefix_err(s.drop_last(), k);
    } else {
        assert(s.subrange(0, k) =~= s);
    }
}

/// How many times `c` occurs in `s`.
pub open spec fn count_char(s: Seq<char>, c: char) -> nat
    decreases s.len(),
{
    if s.len() == 0 {
        0
    } else {
        count_char(s.drop_last(), c) + if s.last() == c {
            1nat
        } else {
            0nat
        }
    }
}

pub proof fn lemma_count_char_concat(a: Seq<char>, b: Seq<char>, c: char)
    ensures
        count_char(a + b, c) == count_char(a, c) + count_char(b, c),
    decreases b.len(),
{
    if b.len() == 0 {
        assert(a + b =~= a);
    } else {
        assert((a + b).drop_last() =~= a + b.drop_last());
        lemma_count_char_concat(a, b.drop_last(), c);
    }
}

/// An `if`, `elif`, `else` or `while` whose body is empty renders as the
/// empty text, whatever its condition and whatever branch follows it.
pub proof fn lemma_empty_body_renders_empty(n: Node)
    requires
        match n {
            Node::If { body, .. } => body.len() == 0,
            Node::Elif { body, .. } => body.len() == 0,
            Node::Else { body } => body.len() == 0,
            Node::While { body, .. } => body.len() == 0,
            _ => false,
        },
    ensures
        render(n) == Ok::<Seq<char>, RenderFault>(seq![]),
{
}

/// The calls carry no `|` of their own.
pub open spec fn pipe_free(calls: Seq<Node>) -> bool {
    forall|i: int|
        0 <= i < calls.len() ==> render(#[trigger] calls[i]) is Ok && count_char(render(calls[i])->Ok_0, '|')
            == 0
}

proof fn lemma_chain_text_separators(calls: Seq<Node>)
    requires
        calls.len() >= 1,
        pipe_free(calls),
    ensures
        chain_text(calls) is Ok,
        count_char(chain_text(calls)->Ok_0, '|') == calls.len() - 1,
    decreases calls.len(),
{
    if calls.len() > 1 {
        let prev = calls.drop_last();
        assert forall|i: int| 0 <= i < prev.len() implies render(#[trigger] prev[i]) is Ok && count_char(
            render(prev[i])->Ok_0,
            '|',
        ) == 0 by {
            assert(prev[i] == calls[i]);
        }
        lemma_chain_text_separators(prev);
        assert(calls.last() == calls[calls.len() - 1]);
        let a = chain_text(prev)->Ok_0;
        let b = render(calls.last())->Ok_0;
        reveal_strlit(" | ");
        assert(" | "@ =~= seq![' ', '|', ' ']);
        assert(count_char(Seq::<char>::empty(), '|') == 0);
        assert(count_char(seq![' '], '|') == 0) by {
            assert(seq![' '].drop_last() =~= Seq::<char>::empty());
        }
        assert(count_char(seq![' ', '|'], '|') == 1) by {
            assert(seq![' ', '|'].drop_last() =~= seq![' ']);
        }
        assert(count_char(seq![' ', '|', ' '], '|') == 1) by {
            assert(seq![' ', '|', ' '].drop_last() =~= seq![' ', '|']);
        }
        lemma_count_char_concat(a, " | "@, '|');
        lemma_count_char_concat(a + " | "@, b, '|');
    } else {
        let only = calls[0];
        assert(chain_text(calls) == render(only));
    }
}

/// A pipeline of `calls.len()` calls holds `calls.len() - 1` separators: when
/// no call's own text holds a `|`, its text holds exactly that many.
pub proof fn lemma_chain_separators(calls: Seq<Node>)
    requires
        calls.len() >= 1,
        pipe_free(calls),
    ensures
        render(Node::FnChain { calls }) is Ok,
        count_char(render(Node::FnChain { calls })->Ok_0, '|') == calls.len() - 1,
{
    lemma_chain_text_separators(calls);
    assert(render(Node::FnChain { calls }) == chain_text(calls));
}

/// A call given as an argument to another call is captured as `"$( … )"`,
/// except a color call, which yields printable text and is quoted as a
/// plain string.
pub proof fn lemma_nested_call_argument(a: Node)
    requires
        a is FnCall,
        render(a) is Ok,
    ensures
        arg_text(a) == Ok::<Seq<char>, RenderFault>(
            if is_color(a->FnCall_name.lexeme) {
                "\""@ + render(a)->Ok_0 + "\""@
            } else {
                "\"$("@ + render(a)->Ok_0 + ")\""@
            },
        ),
{
}

} // verus!
