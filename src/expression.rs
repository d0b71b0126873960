//! The syntax tree and its rendering to shell text.
use vstd::prelude::*;

use crate::ast::{
    args_text, block_text, builtin_prefix, chain_text, flatten, is_color, lemma_chain_prefix_err, render,
    value_text, Node, RenderErrorKind, RenderFault,
};
use crate::formatter::{colorize_string, get_args_to, write_formatted_to};
use crate::text::{push_chars, push_str, str_eq, string_of};
use crate::token::{token_text, Kind, Token};

verus! {

/// A node of the syntax tree.
#[derive(Debug)]
pub enum Expression {
    Value(ValueExpr),
    Arithmetic(ArithmeticExpr),
    Parenthesis(ParenthesisExpr),
    Condition(ConditionExpr),
    FnCall(FnCall),
    FnChain(FnChain),
    VarAssignment(VarAssignmentExpr),
    VarDeclaration(VarDeclarationExpr),
    IfStatement(IfStatementExpr),
    ElifStatement(ElifStatementExpr),
    ElseStatement(ElseStatementExpr),
    WhileStatement(WhileStatementExpr),
}

/// A call of a builtin, or of an external command when `command` is set.
#[derive(Debug)]
pub struct FnCall {
    pub name: Token,
    pub args: Vec<Expression>,
    pub command: bool,
}

/// Calls joined into a pipeline.
#[derive(Debug)]
pub struct FnChain {
    pub invocations: Vec<Expression>,
}

/// A literal or a variable reference.
#[derive(Debug)]
pub struct ValueExpr {
    pub value: Token,
}

#[derive(Debug)]
pub struct ArithmeticExpr {
    pub lhs: Box<Expression>,
    pub operator: Token,
    pub rhs: Box<Expression>,
}

#[derive(Debug)]
pub struct VarAssignmentExpr {
    pub name: Token,
    pub value: Box<Expression>,
}

#[derive(Debug)]
pub struct VarDeclarationExpr {
    pub name: Token,
    pub value: Box<Expression>,
}

#[derive(Debug)]
pub struct ParenthesisExpr {
    pub value: Box<Expression>,
}

#[derive(Debug)]
pub struct ConditionExpr {
    pub lhs: Box<Expression>,
    pub operator: Token,
    pub rhs: Box<Expression>,
}

#[derive(Debug)]
pub struct IfStatementExpr {
    pub condition: Box<Expression>,
    pub body: Vec<Expression>,
    pub branching: Option<Box<Expression>>,
}

#[derive(Debug)]
pub struct ElifStatementExpr {
    pub condition: Box<Expression>,
    pub body: Vec<Expression>,
    pub branching: Option<Box<Expression>>,
}

#[derive(Debug)]
pub struct ElseStatementExpr {
    pub body: Vec<Expression>,
}

#[derive(Debug)]
pub struct WhileStatementExpr {
    pub condition: Box<Expression>,
    pub body: Vec<Expression>,
}

/// The model of an expression.
pub open spec fn node_of(e: Expression) -> Node
    decreases e, 1int,
{
    match e {
        Expression::Value(v) => Node::Value { token: v.value@ },
        Expression::Arithmetic(a) => Node::Arithmetic {
            lhs: Box::new(node_of(*a.lhs)),
            op: a.operator@,
            rhs: Box::new(node_of(*a.rhs)),
        },
        Expression::Parenthesis(p) => Node::Parenthesis { inner: Box::new(node_of(*p.value)) },
        Expression::Condition(c) => Node::Condition {
            lhs: Box::new(node_of(*c.lhs)),
            op: c.operator@,
            rhs: Box::new(node_of(*c.rhs)),
        },
        Expression::FnCall(f) => Node::FnCall {
            name: f.name@,
            args: nodes_of(f.args@),
            command: f.command,
        },
        Expression::FnChain(c) => Node::FnChain { calls: nodes_of(c.invocations@) },
        Expression::VarAssignment(v) => Node::VarAssignment {
            name: v.name@,
            value: Box::new(node_of(*v.value)),
        },
        Expression::VarDeclaration(v) => Node::VarDeclaration {
            name: v.name@,
            value: Box::new(node_of(*v.value)),
        },
        Expression::IfStatement(s) => Node::If {
            cond: Box::new(node_of(*s.condition)),
            body: nodes_of(s.body@),
            branching: match s.branching {
                Some(b) => Some(Box::new(node_of(*b))),
                None => None,
            },
        },
        Expression::ElifStatement(s) => Node::Elif {
            cond: Box::new(node_of(*s.condition)),
            body: nodes_of(s.body@),
            branching: match s.branching {
                Some(b) => Some(Box::new(node_of(*b))),
                None => None,
            },
        },
        Expression::ElseStatement(s) => Node::Else { body: nodes_of(s.body@) },
        Expression::WhileStatement(s) => Node::While {
            cond: Box::new(node_of(*s.condition)),
            body: nodes_of(s.body@),
        },
    }
}

/// The models of a sequence of expressions.
pub open spec fn nodes_of(s: Seq<Expression>) -> Seq<Node>
    decreases s, 0int,
{
    if s.len() == 0 {
        seq![]
    } else {
        nodes_of(s.drop_last()).push(node_of(s.last()))
    }
}

pub proof fn lemma_nodes_of(s: Seq<Expression>)
    ensures
        nodes_of(s).len() == s.len(),
        forall|i: int| 0 <= i < s.len() ==> #[trigger] nodes_of(s)[i] == node_of(s[i]),
    decreases s.len(),
{
    if s.len() > 0 {
        lemma_nodes_of(s.drop_last());
    }
}

/// Rendering depends on the tree alone: two expressions with the same model
/// render to the same text, or fail in the same way.
pub proof fn lemma_render_deterministic(a: Expression, b: Expression)
    requires
        a@ == b@,
    ensures
        render(a@) == render(b@),
{
}

impl View for Expression {
    type V = Node;

    open spec fn view(&self) -> Node {
        node_of(*self)
    }
}

/// A rendering failure: its kind and the name of the offending call.
#[derive(Debug)]
pub struct RenderError {
    pub kind: RenderErrorKind,
    pub name: String,
}

impl View for RenderError {
    type V = RenderFault;

    open spec fn view(&self) -> RenderFault {
        RenderFault { kind: self.kind, name: self.name@ }
    }
}

/// `r` reports `expected`: on success, `after` is `before` followed by the text.
pub open spec fn emits(
    expected: Result<Seq<char>, RenderFault>,
    r: Result<(), RenderError>,
    before: Seq<char>,
    after: Seq<char>,
) -> bool {
    match expected {
        Ok(t) => r is Ok && after == before + t,
        Err(f) => r is Err && r->Err_0@ == f,
    }
}

/// `r` is `expected`, as a string.
pub open spec fn yields(expected: Result<Seq<char>, RenderFault>, r: Result<String, RenderError>) -> bool {
    match expected {
        Ok(t) => r is Ok && r->Ok_0@ == t,
        Err(f) => r is Err && r->Err_0@ == f,
    }
}

impl Expression {
    /// The shell text of this node.
    pub fn write(&self) -> (r: Result<String, RenderError>)
        ensures
            yields(render(self@), r),
    {
        let mut out: Vec<char> = Vec::new();
        match self.write_to(&mut out) {
            Ok(()) => Ok(string_of(out.as_slice())),
            Err(e) => Err(e),
        }
    }

    /// Appends the shell text of this node to `out`.
    pub fn write_to(&self, out: &mut Vec<char>) -> (r: Result<(), RenderError>)
        ensures
            emits(render(self@), r, old(out)@, final(out)@),
        decreases self, 1int,
    {
        match self {
            Expression::Value(v) => {
                v.value.write_to(out);
                Ok(())
            },
            Expression::Arithmetic(a) => a.write_to(out),
            Expression::Parenthesis(p) => p.write_to(out),
            Expression::Condition(c) => c.write_to(out),
            Expression::FnCall(f) => f.write_to(out),
            Expression::FnChain(c) => c.write_to(out),
            Expression::VarAssignment(_) => write_assignment(self, out),
            Expression::VarDeclaration(_) => write_assignment(self, out),
            Expression::IfStatement(_) => write_conditional(self, out),
            Expression::ElifStatement(_) => write_conditional(self, out),
            Expression::ElseStatement(s) => s.write_to(out),
            Expression::WhileStatement(s) => s.write_to(out),
        }
    }
}


/// `name=value`, where a called value is captured as `"$(...)"`.
fn write_assignment(e: &Expression, out: &mut Vec<char>) -> (r: Result<(), RenderError>)
    requires
        e is VarAssignment || e is VarDeclaration,
    ensures
        emits(render(e@), r, old(out)@, final(out)@),
    decreases e, 0int,
{
    let ghost start = out@;
    let (name, value) = match e {
        Expression::VarAssignment(v) => (&v.name, &v.value),
        Expression::VarDeclaration(v) => (&v.name, &v.value),
        _ => {
            return Ok(());
        },
    };
    let ghost v = node_of(**value);
    let ghost text = value_text(v);
    push_str(out, name.lexeme.as_str());
    push_str(out, "=");
    match &**value {
        Expression::FnCall(f) => {
            let ghost called = render(v);
            push_str(out, "\"$(");
            match f.write_to(out) {
                Ok(()) => {},
                Err(err) => {
                    return Err(err);
                },
            }
            push_str(out, ")\"");
            assert(text->Ok_0 == "\"$("@ + called->Ok_0 + ")\""@);
            assert(out@ =~= start + ((name.lexeme@ + "="@) + text->Ok_0 + seq![]));
        },
        _ => {
            match value.write_to(out) {
                Ok(()) => {},
                Err(err) => {
                    return Err(err);
                },
            }
            assert(out@ =~= start + ((name.lexeme@ + "="@) + text->Ok_0 + seq![]));
        },
    }
    Ok(())
}

/// What ends an `if` or `elif` block: the next branch, or `fi`.
pub open spec fn branch_text(b: Option<Box<Expression>>) -> Result<Seq<char>, RenderFault> {
    match b {
        Some(x) => render(node_of(*x)),
        None => Ok("fi"@),
    }
}

/// An `if` or `elif` block; nothing at all when its body is empty.
#[verifier::rlimit(40)]
fn write_conditional(e: &Expression, out: &mut Vec<char>) -> (r: Result<(), RenderError>)
    requires
        e is IfStatement || e is ElifStatement,
    ensures
        emits(render(e@), r, old(out)@, final(out)@),
    decreases e, 0int,
{
    let ghost start = out@;
    let (keyword, condition, body, branching) = match e {
        Expression::IfStatement(s) => ("if ", &s.condition, &s.body, &s.branching),
        Expression::ElifStatement(s) => ("elif ", &s.condition, &s.body, &s.branching),
        _ => {
            return Ok(());
        },
    };
    proof {
        lemma_nodes_of(body@);
    }
    if body.len() == 0 {
        assert(out@ =~= start + seq![]);
        return Ok(());
    }
    let ghost c = render(node_of(**condition));
    let ghost b = block_text(nodes_of(body@));
    let ghost t = branch_text(*branching);
    push_str(out, keyword);
    match condition.write_to(out) {
        Ok(()) => {},
        Err(err) => {
            return Err(err);
        },
    }
    push_str(out, "; then\n");
    match write_formatted_to(body.as_slice(), out) {
        Ok(()) => {},
        Err(err) => {
            return Err(err);
        },
    }
    match branching {
        Some(x) => match x.write_to(out) {
            Ok(()) => {},
            Err(err) => {
                return Err(err);
            },
        },
        None => push_str(out, "fi"),
    }
    assert(out@ =~= start + ((keyword@ + c->Ok_0 + "; then\n"@) + seq![] + b->Ok_0 + seq![] + t->Ok_0));
    Ok(())
}

impl ArithmeticExpr {
    /// The operation without its `$(( ))`; an arithmetic right operand is inlined.
    pub fn eval_to(&self, out: &mut Vec<char>) -> (r: Result<(), RenderError>)
        ensures
            emits(flatten(node_of(Expression::Arithmetic(*self))), r, old(out)@, final(out)@),
        decreases self, 0int,
    {
        let ghost start = out@;
        let ghost left = render(node_of(*self.lhs));
        let ghost rn = node_of(*self.rhs);
        let ghost right = if rn is Arithmetic {
            flatten(rn)
        } else {
            render(rn)
        };
        match self.lhs.write_to(out) {
            Ok(()) => {},
            Err(err) => {
                return Err(err);
            },
        }
        push_str(out, " ");
        self.operator.write_to(out);
        push_str(out, " ");
        let res = match &*self.rhs {
            Expression::Arithmetic(a) => a.eval_to(out),
            _ => self.rhs.write_to(out),
        };
        match res {
            Ok(()) => {},
            Err(err) => {
                return Err(err);
            },
        }
        assert(out@ =~= start + (left->Ok_0 + (" "@ + token_text(self.operator@) + " "@) + right->Ok_0));
        Ok(())
    }

    pub fn write_to(&self, out: &mut Vec<char>) -> (r: Result<(), RenderError>)
        ensures
            emits(render(node_of(Expression::Arithmetic(*self))), r, old(out)@, final(out)@),
        decreases self, 1int,
    {
        let ghost start = out@;
        let ghost inner = flatten(node_of(Expression::Arithmetic(*self)));
        push_str(out, "$((");
        match self.eval_to(out) {
            Ok(()) => {},
            Err(err) => {
                return Err(err);
            },
        }
        push_str(out, "))");
        assert(out@ =~= start + ("$(("@ + inner->Ok_0 + "))"@));
        Ok(())
    }
}

impl ParenthesisExpr {
    pub fn write_to(&self, out: &mut Vec<char>) -> (r: Result<(), RenderError>)
        ensures
            emits(render(node_of(Expression::Parenthesis(*self))), r, old(out)@, final(out)@),
        decreases self, 1int,
    {
        let ghost start = out@;
        let ghost inner = node_of(*self.value);
        let ghost text = if inner is Arithmetic {
            flatten(inner)
        } else {
            render(inner)
        };
        push_str(out, "(");
        let res = match &*self.value {
            Expression::Arithmetic(a) => a.eval_to(out),
            _ => self.value.write_to(out),
        };
        match res {
            Ok(()) => {},
            Err(err) => {
                return Err(err);
            },
        }
        push_str(out, ")");
        assert(out@ =~= start + ("("@ + text->Ok_0 + ")"@));
        Ok(())
    }
}

impl ConditionExpr {
    pub fn write_to(&self, out: &mut Vec<char>) -> (r: Result<(), RenderError>)
        ensures
            emits(render(node_of(Expression::Condition(*self))), r, old(out)@, final(out)@),
        decreases self, 1int,
    {
        let ghost start = out@;
        let ghost left = render(node_of(*self.lhs));
        let ghost right = render(node_of(*self.rhs));
        push_str(out, "[ ");
        match self.lhs.write_to(out) {
            Ok(()) => {},
            Err(err) => {
                return Err(err);
            },
        }
        push_str(out, " ");
        self.operator.write_to(out);
        push_str(out, " ");
        match self.rhs.write_to(out) {
            Ok(()) => {},
            Err(err) => {
                return Err(err);
            },
        }
        push_str(out, " ]");
        assert(out@ =~= start + ("[ "@ + (left->Ok_0 + (" "@ + token_text(self.operator@) + " "@)
            + right->Ok_0) + " ]"@));
        Ok(())
    }
}

impl FnCall {
    pub fn write_to(&self, out: &mut Vec<char>) -> (r: Result<(), RenderError>)
        ensures
            emits(render(node_of(Expression::FnCall(*self))), r, old(out)@, final(out)@),
        decreases self, 1int,
    {
        let ghost start = out@;
        let ghost ns = nodes_of(self.args@);
        let ghost a = args_text(ns);
        proof {
            lemma_nodes_of(self.args@);
        }
        let mut args: Vec<char> = Vec::new();
        match get_args_to(self.args.as_slice(), &mut args) {
            Ok(()) => {},
            Err(err) => {
                return Err(err);
            },
        }
        assert(args@ =~= a->Ok_0);
        let name = self.name.lexeme.as_str();
        if self.command {
            self.name.write_to(out);
            push_str(out, " ");
            push_chars(out, args.as_slice());
            assert(out@ =~= start + (token_text(self.name@) + " "@ + args@));
            return Ok(());
        }
        let prefix = builtin_prefix_of(name);
        match prefix {
            Some(p) => {
                push_str(out, p);
                push_chars(out, args.as_slice());
                assert(out@ =~= start + (p@ + args@));
                return Ok(());
            },
            None => {},
        }
        if !is_color_name(name) {
            return Err(
                RenderError { kind: RenderErrorKind::UnsupportedBuiltin, name: self.name.lexeme.clone() },
            );
        }
        if self.args.len() != 1 {
            return Err(
                RenderError { kind: RenderErrorKind::ColorArgument, name: self.name.lexeme.clone() },
            );
        }
        match &self.args[0] {
            Expression::Value(v) => {
                assert(ns[0] == node_of(self.args@[0]));
                let text = if v.value.kind == Kind::String {
                    colorize_string(name, v.value.lexeme.as_str())
                } else {
                    let shown = v.value.write();
                    colorize_string(name, shown.as_str())
                };
                push_str(out, text.as_str());
                Ok(())
            },
            _ => {
                assert(ns[0] == node_of(self.args@[0]));
                Err(RenderError { kind: RenderErrorKind::ColorArgument, name: self.name.lexeme.clone() })
            },
        }
    }
}

/// The shell template of a non-color builtin.
fn builtin_prefix_of(name: &str) -> (r: Option<&'static str>)
    ensures
        match builtin_prefix(name@) {
            Some(p) => r is Some && r->0@ == p,
            None => r is None,
        },
{
    if str_eq(name, "print") {
        Some("echo -e ")
    } else if str_eq(name, "compress") {
        Some("tar -caf ")
    } else if str_eq(name, "decompress") {
        Some("tar -xf ")
    } else if str_eq(name, "ls_archive") {
        Some("tar -tvf ")
    } else {
        None
    }
}

/// Whether `name` is one of the color builtins.
pub fn is_color_name(name: &str) -> (r: bool)
    ensures
        r == is_color(name@),
{
    str_eq(name, "red") || str_eq(name, "green") || str_eq(name, "yellow") || str_eq(name, "blue")
        || str_eq(name, "magenta") || str_eq(name, "cyan")
}

impl FnChain {
    pub fn write_to(&self, out: &mut Vec<char>) -> (r: Result<(), RenderError>)
        ensures
            emits(render(node_of(Expression::FnChain(*self))), r, old(out)@, final(out)@),
        decreases self, 1int,
    {
        let ghost start = out@;
        let ghost ns = nodes_of(self.invocations@);
        proof {
            lemma_nodes_of(self.invocations@);
        }
        assert(out@ =~= start + seq![]);
        let mut i: usize = 0;
        while i < self.invocations.len()
            invariant
                i <= self.invocations@.len(),
                ns == nodes_of(self.invocations@),
                ns.len() == self.invocations@.len(),
                forall|k: int| 0 <= k < ns.len() ==> #[trigger] ns[k] == node_of(self.invocations@[k]),
                chain_text(ns.subrange(0, i as int)) is Ok,
                out@ == start + chain_text(ns.subrange(0, i as int))->Ok_0,
            decreases self.invocations.len() - i,
        {
            let ghost prev = chain_text(ns.subrange(0, i as int))->Ok_0;
            let ghost t = render(ns[i as int]);
            proof {
                assert(ns.subrange(0, i + 1).drop_last() =~= ns.subrange(0, i as int));
            }
            if i > 0 {
                push_str(out, " | ");
            }
            match self.invocations[i].write_to(out) {
                Ok(()) => {},
                Err(err) => {
                    proof {
                        lemma_chain_prefix_err(ns, i + 1);
                    }
                    return Err(err);
                },
            }
            proof {
                if i > 0 {
                    assert(out@ =~= start + (prev + " | "@ + t->Ok_0));
                } else {
                    assert(out@ =~= start + t->Ok_0);
                }
            }
            i = i + 1;
        }
        assert(ns.subrange(0, i as int) =~= ns);
        Ok(())
    }
}

impl ElseStatementExpr {
    pub fn write_to(&self, out: &mut Vec<char>) -> (r: Result<(), RenderError>)
        ensures
            emits(render(node_of(Expression::ElseStatement(*self))), r, old(out)@, final(out)@),
        decreases self, 1int,
    {
        let ghost start = out@;
        proof {
            lemma_nodes_of(self.body@);
        }
        if self.body.len() == 0 {
            assert(out@ =~= start + seq![]);
            return Ok(());
        }
        let ghost b = block_text(nodes_of(self.body@));
        push_str(out, "else\n");
        match write_formatted_to(self.body.as_slice(), out) {
            Ok(()) => {},
            Err(err) => {
                return Err(err);
            },
        }
        push_str(out, "fi");
        assert(out@ =~= start + ("else\n"@ + b->Ok_0 + "fi"@));
        Ok(())
    }
}

impl WhileStatementExpr {
    pub fn write_to(&self, out: &mut Vec<char>) -> (r: Result<(), RenderError>)
        ensures
            emits(render(node_of(Expression::WhileStatement(*self))), r, old(out)@, final(out)@),
        decreases self, 1int,
    {
        let ghost start = out@;
        proof {
            lemma_nodes_of(self.body@);
        }
        if self.body.len() == 0 {
            assert(out@ =~= start + seq![]);
            return Ok(());
        }
        let ghost c = render(node_of(*self.condition));
        let ghost b = block_text(nodes_of(self.body@));
        push_str(out, "while ");
        match self.condition.write_to(out) {
            Ok(()) => {},
            Err(err) => {
                return Err(err);
            },
        }
        push_str(out, "\ndo\n");
        match write_formatted_to(self.body.as_slice(), out) {
            Ok(()) => {},
            Err(err) => {
                return Err(err);
            },
        }
        push_str(out, "done");
        assert(out@ =~= start + (("while "@ + c->Ok_0 + "\ndo\n"@) + seq![] + (seq![] + b->Ok_0 + "done"@)));
        Ok(())
    }
}

} // verus!
