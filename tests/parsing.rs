use sash_lang::expression::Expression;
use sash_lang::grammar::{Expected, ParseError};
use sash_lang::lexer::{LexError, Lexer};
use sash_lang::parser::Parser;
use sash_lang::token::Kind;
use sash_lang::{CompileError, Script};

fn kinds(source: &str) -> Vec<Kind> {
    let mut lexer = Lexer::from_string(source);
    lexer.parse().unwrap().iter().map(|t| t.kind).collect()
}

fn parse_error(source: &str) -> ParseError {
    match Script::from_string(source) {
        Err(CompileError::Parse(e)) => e,
        Err(other) => panic!("unexpected error {:?}", other),
        Ok(_) => panic!("source parsed"),
    }
}

#[test]
fn lexer_token_kinds() {
    assert_eq!(
        kinds("let x_1 = rm!(-rf, `a`) # note\n"),
        vec![
            Kind::Let,
            Kind::Identifier,
            Kind::Equal,
            Kind::Command,
            Kind::LeftParen,
            Kind::Option,
            Kind::Coma,
            Kind::RawString,
            Kind::RightParen,
            Kind::Comment,
        ]
    );
    assert_eq!(
        kinds("a <= b >= c == d != e < f > g ! h - 2"),
        vec![
            Kind::Identifier,
            Kind::LessEqual,
            Kind::Identifier,
            Kind::GreaterEqual,
            Kind::Identifier,
            Kind::EqualEqual,
            Kind::Identifier,
            Kind::NotEqual,
            Kind::Identifier,
            Kind::Less,
            Kind::Identifier,
            Kind::Greater,
            Kind::Identifier,
            Kind::Not,
            Kind::Identifier,
            Kind::Minus,
            Kind::Number,
        ]
    );
    assert_eq!(kinds("{}.,+*/"), vec![
        Kind::LeftBracket,
        Kind::RightBracket,
        Kind::Period,
        Kind::Coma,
        Kind::Plus,
        Kind::Asterisk,
        Kind::Slash,
    ]);
}

#[test]
fn lexer_lexemes() {
    let mut lexer = Lexer::from_string("echo!(\"a b\") 12ab word_9");
    let tokens = lexer.parse().unwrap();
    assert_eq!(tokens[0].lexeme, "echo");
    assert_eq!(tokens[0].kind, Kind::Command);
    assert_eq!(tokens[2].lexeme, "a b");
    assert_eq!(tokens[4].lexeme, "12ab");
    assert_eq!(tokens[4].kind, Kind::Number);
    assert_eq!(tokens[5].lexeme, "word_9");
}

#[test]
fn lexer_unknown_character() {
    let mut lexer = Lexer::from_string("let x = 1\n  @");
    assert_eq!(
        lexer.parse().unwrap_err(),
        LexError::UnknownCharacter { character: '@', line: 2, column: 3 }
    );
}

#[test]
fn lexer_unterminated_string() {
    let mut lexer = Lexer::from_string("print(\"oops)");
    assert_eq!(
        lexer.parse().unwrap_err(),
        LexError::UnterminatedLiteral { delimiter: '"', line: 1, column: 7 }
    );
    assert!(matches!(Script::from_string("`raw"), Err(CompileError::Lexical(_))));
}

#[test]
fn subtraction_groups_to_the_right() {
    let script = Script::from_string("let r = a - b - c").unwrap();
    let expressions = script.expressions();
    let value = match &expressions[0] {
        Expression::VarDeclaration(d) => &d.value,
        other => panic!("unexpected tree {:?}", other),
    };
    match &**value {
        Expression::Arithmetic(outer) => {
            assert!(matches!(&*outer.lhs, Expression::Value(v) if v.value.lexeme == "a"));
            assert_eq!(outer.operator.kind, Kind::Minus);
            match &*outer.rhs {
                Expression::Arithmetic(inner) => {
                    assert!(matches!(&*inner.lhs, Expression::Value(v) if v.value.lexeme == "b"));
                    assert!(matches!(&*inner.rhs, Expression::Value(v) if v.value.lexeme == "c"));
                }
                other => panic!("right operand is not arithmetic: {:?}", other),
            }
        }
        other => panic!("unexpected value {:?}", other),
    }
    assert_eq!(script.get_code().unwrap(), "r=$(($a - $b - $c))\n");
}

#[test]
fn parenthesised_value_stays_plain() {
    let script = Script::from_string("x = (y) * 2").unwrap();
    assert_eq!(script.get_code().unwrap(), "x=$(($y * 2))\n");
    let grouped = Script::from_string("x = (y - 1) * 2").unwrap();
    assert_eq!(grouped.get_code().unwrap(), "x=$((($y - 1) * 2))\n");
}

#[test]
fn unknown_top_level_tokens_are_skipped() {
    let script = Script::from_string("5 print(\"a\") } ").unwrap();
    assert_eq!(script.get_code().unwrap(), "echo -e \"a\"\n");
    assert_eq!(script.skipped(), &vec![0usize, 5]);
}

#[test]
fn parser_from_tokens() {
    let mut lexer = Lexer::from_string("print(1, x)");
    let tokens = lexer.parse().unwrap();
    let mut parser = Parser::from_tokens(tokens);
    let expressions = parser.parse().unwrap();
    assert_eq!(expressions.len(), 1);
    assert_eq!(expressions[0].write().unwrap(), "echo -e 1 $x");
    assert!(parser.skipped().is_empty());
}

#[test]
fn parse_errors() {
    assert_eq!(parse_error("print(1"), ParseError { expected: Expected::RightParen, position: 3 });
    assert_eq!(parse_error("foo 1"), ParseError { expected: Expected::LeftParen, position: 1 });
    assert_eq!(parse_error("if x == 1 { }"), ParseError { expected: Expected::LeftParen, position: 1 });
    assert_eq!(parse_error("if (x 1) { }"), ParseError { expected: Expected::Comparison, position: 3 });
    assert_eq!(parse_error("if (x == ) { }"), ParseError { expected: Expected::Operand, position: 4 });
    assert_eq!(parse_error("while (x < 1 { }"), ParseError { expected: Expected::RightParen, position: 5 });
    assert_eq!(parse_error("while (x < 1) print(1)"), ParseError { expected: Expected::LeftBracket, position: 6 });
    assert_eq!(parse_error("if (x < 1) { print(1)"), ParseError { expected: Expected::RightBracket, position: 11 });
    assert_eq!(parse_error("x = 1 +"), ParseError { expected: Expected::Operand, position: 4 });
    assert_eq!(parse_error("x = ("), ParseError { expected: Expected::Operand, position: 3 });
    assert_eq!(parse_error("x = (1"), ParseError { expected: Expected::RightParen, position: 4 });
    assert_eq!(parse_error("x = {"), ParseError { expected: Expected::Value, position: 2 });
    assert_eq!(parse_error("let 5"), ParseError { expected: Expected::Identifier, position: 1 });
    assert_eq!(parse_error("a!().5"), ParseError { expected: Expected::Call, position: 4 });
}
