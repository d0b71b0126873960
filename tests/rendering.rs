use sash_lang::ast::RenderErrorKind;
use sash_lang::expression::{
    ArithmeticExpr, ConditionExpr, ElseStatementExpr, Expression, FnCall, FnChain, IfStatementExpr,
    ParenthesisExpr, ValueExpr, WhileStatementExpr,
};
use sash_lang::formatter::{colorize_string, get_args_as_string, write_formatted_expressions};
use sash_lang::token::{Kind, Token};
use sash_lang::Script;

fn token(lexeme: &str, kind: Kind) -> Token {
    Token { lexeme: lexeme.to_string(), kind }
}

fn value(lexeme: &str, kind: Kind) -> Expression {
    Expression::Value(ValueExpr { value: token(lexeme, kind) })
}

fn call(name: &str, args: Vec<Expression>, command: bool) -> Expression {
    let kind = if command { Kind::Command } else { Kind::Identifier };
    Expression::FnCall(FnCall { name: token(name, kind), args, command })
}

fn condition() -> Box<Expression> {
    Box::new(Expression::Condition(ConditionExpr {
        lhs: Box::new(Expression::Arithmetic(ArithmeticExpr {
            lhs: Box::new(value("a", Kind::Identifier)),
            operator: token("+", Kind::Plus),
            rhs: Box::new(value("1", Kind::Number)),
        })),
        operator: token("<", Kind::Less),
        rhs: Box::new(value("b", Kind::Identifier)),
    }))
}

#[test]
fn token_shell_text() {
    assert_eq!(token("x", Kind::Identifier).write(), "$x");
    assert_eq!(token("hi", Kind::String).write(), "\"hi\"");
    assert_eq!(token("<=", Kind::LessEqual).write(), "-lte");
    assert_eq!(token(">=", Kind::GreaterEqual).write(), "-gte");
    assert_eq!(token("==", Kind::EqualEqual).write(), "-eq");
    assert_eq!(token("!=", Kind::NotEqual).write(), "-ne");
    assert_eq!(token("<", Kind::Less).write(), "-lt");
    assert_eq!(token(">", Kind::Greater).write(), "-gt");
    assert_eq!(token("42", Kind::Number).write(), "42");
    assert_eq!(token("-rf", Kind::Option).write(), "-rf");
}

#[test]
fn token_constructors() {
    let plus = Token::from_char('+').unwrap();
    assert_eq!(plus.lexeme, "+");
    assert_eq!(plus.kind, Kind::Plus);
    assert!(Token::from_char('-').is_none());
    assert!(Token::from_char('@').is_none());
    let kw = Token::from_keyword("while").unwrap();
    assert_eq!(kw.kind, Kind::While);
    assert_eq!(kw.lexeme, "while");
    assert!(Token::from_keyword("whilst").is_none());
    assert_eq!(Kind::from_keyword("let"), Some(Kind::Let));
    assert_eq!(Kind::from_char('.'), Some(Kind::Period));
}

#[test]
fn empty_bodies_render_nothing() {
    let if_node = Expression::IfStatement(IfStatementExpr {
        condition: condition(),
        body: Vec::new(),
        branching: Some(Box::new(Expression::ElseStatement(ElseStatementExpr {
            body: vec![call("print", vec![value("x", Kind::String)], false)],
        }))),
    });
    assert_eq!(if_node.write().unwrap(), "");
    let while_node = Expression::WhileStatement(WhileStatementExpr { condition: condition(), body: Vec::new() });
    assert_eq!(while_node.write().unwrap(), "");
    let else_node = Expression::ElseStatement(ElseStatementExpr { body: Vec::new() });
    assert_eq!(else_node.write().unwrap(), "");
}

#[test]
fn rendering_is_repeatable() {
    let node = Expression::WhileStatement(WhileStatementExpr {
        condition: condition(),
        body: vec![call("print", vec![value("go", Kind::String)], false)],
    });
    let first = node.write().unwrap();
    let second = node.write().unwrap();
    assert_eq!(first, second);
    assert_eq!(first, "while [ $(($a + 1)) -lt $b ]\ndo\n    echo -e \"go\"\ndone");
}

#[test]
fn chain_has_one_separator_per_join() {
    let chain = Expression::FnChain(FnChain {
        invocations: vec![
            call("cat", vec![value("f", Kind::String)], true),
            call("sort", vec![], true),
            call("uniq", vec![value("-c", Kind::Option)], true),
        ],
    });
    let text = chain.write().unwrap();
    assert_eq!(text, "cat \"f\" | sort  | uniq -c");
    assert_eq!(text.matches(" | ").count(), 2);
    assert_eq!(text.matches('|').count(), 2);
}

#[test]
fn nested_call_arguments() {
    let args = vec![
        call("red", vec![value("alert", Kind::String)], false),
        call("whoami", vec![], true),
        value("7", Kind::Number),
    ];
    assert_eq!(
        get_args_as_string(&args).unwrap(),
        "\"\\u001b[31malert\\u001b[0m\" \"$(whoami )\" 7"
    );
}

#[test]
fn colors() {
    assert_eq!(colorize_string("green", "ok"), "\\u001b[32mok\\u001b[0m");
    assert_eq!(colorize_string("yellow", "w"), "\\u001b[33mw\\u001b[0m");
    assert_eq!(colorize_string("blue", "b"), "\\u001b[34mb\\u001b[0m");
    assert_eq!(colorize_string("magenta", "m"), "\\u001b[35mm\\u001b[0m");
    assert_eq!(colorize_string("cyan", "c"), "\\u001b[36mc\\u001b[0m");
    assert_eq!(colorize_string("purple", "p"), "p");
    let colored = call("cyan", vec![value("n", Kind::Identifier)], false);
    assert_eq!(colored.write().unwrap(), "\\u001b[36m$n\\u001b[0m");
}

#[test]
fn indentation_of_multiline_statements() {
    let inner = Expression::IfStatement(IfStatementExpr {
        condition: condition(),
        body: vec![call("print", vec![value("deep", Kind::String)], false)],
        branching: None,
    });
    assert_eq!(
        write_formatted_expressions(&[inner]).unwrap(),
        "    if [ $(($a + 1)) -lt $b ]; then\n        echo -e \"deep\"\n    fi\n"
    );
}

#[test]
fn parenthesis_flattens_arithmetic() {
    let node = Expression::Arithmetic(ArithmeticExpr {
        lhs: Box::new(Expression::Parenthesis(ParenthesisExpr {
            value: Box::new(Expression::Arithmetic(ArithmeticExpr {
                lhs: Box::new(value("1", Kind::Number)),
                operator: token("+", Kind::Plus),
                rhs: Box::new(value("2", Kind::Number)),
            })),
        })),
        operator: token("*", Kind::Asterisk),
        rhs: Box::new(value("3", Kind::Number)),
    });
    assert_eq!(node.write().unwrap(), "$(((1 + 2) * 3))");
}

#[test]
fn unsupported_builtin_is_reported() {
    let err = call("frobnicate", vec![], false).write().unwrap_err();
    assert_eq!(err.kind, RenderErrorKind::UnsupportedBuiltin);
    assert_eq!(err.name, "frobnicate");
    let script = Script::from_string("frobnicate(1)").unwrap();
    assert_eq!(script.get_code().unwrap_err().kind, RenderErrorKind::UnsupportedBuiltin);
}

#[test]
fn color_needs_one_plain_value() {
    let err = call("red", vec![], false).write().unwrap_err();
    assert_eq!(err.kind, RenderErrorKind::ColorArgument);
    assert_eq!(err.name, "red");
    let nested = call("red", vec![call("ls", vec![], true)], false);
    assert_eq!(nested.write().unwrap_err().kind, RenderErrorKind::ColorArgument);
    let two = call("blue", vec![value("a", Kind::String), value("b", Kind::String)], false);
    assert_eq!(two.write().unwrap_err().kind, RenderErrorKind::ColorArgument);
}
