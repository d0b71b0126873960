use sash_lang::expression::Expression;
use sash_lang::Script;

fn compile(source: &str) -> String {
    let script = Script::from_string(source).expect("source compiles");
    script.get_code().expect("program renders")
}

#[test]
fn print_builtin() {
    assert_eq!(compile("print(\"hello\")"), "echo -e \"hello\"\n");
}

#[test]
fn declaration_with_arithmetic() {
    assert_eq!(compile("let x = 1 + 2 * 3"), "x=$((1 + 2 * 3))\n");
}

#[test]
fn if_with_condition() {
    assert_eq!(
        compile("if (x == 1) { print(\"yes\") }"),
        "if [ $x -eq 1 ]; then\n    echo -e \"yes\"\nfi\n"
    );
}

#[test]
fn external_command_with_string_argument() {
    assert_eq!(compile("ls!(\"-la\")"), "ls \"-la\"\n");
}

#[test]
fn external_command_with_option_flag() {
    assert_eq!(compile("ls!(-la)"), "ls -la\n");
}

#[test]
fn chain_of_external_commands() {
    assert_eq!(
        compile("cat!(\"file.txt\").grep!(\"foo\")"),
        "cat \"file.txt\" | grep \"foo\"\n"
    );
}

#[test]
fn empty_if_suppresses_whole_chain() {
    let script = Script::from_string("if (x == 1) { } else { print(\"no\") }").unwrap();
    let expressions = script.expressions();
    assert_eq!(expressions.len(), 1);
    match &expressions[0] {
        Expression::IfStatement(s) => {
            assert!(s.body.is_empty());
            let branch = s.branching.as_ref().expect("else branch");
            assert_eq!(branch.write().unwrap(), "else\n    echo -e \"no\"\nfi");
        }
        other => panic!("unexpected tree {:?}", other),
    }
    assert_eq!(expressions[0].write().unwrap(), "");
    assert_eq!(script.get_code().unwrap(), "\n");
}

#[test]
fn elif_chain() {
    assert_eq!(
        compile("if (x < 1) { print(\"a\") } else if (x >= 2) { print(\"b\") } else { print(\"c\") }"),
        "if [ $x -lt 1 ]; then\n    echo -e \"a\"\nelif [ $x -gte 2 ]; then\n    echo -e \"b\"\nelse\n    echo -e \"c\"\nfi\n"
    );
}

#[test]
fn while_loop_with_nested_block() {
    assert_eq!(
        compile("while (i != 3) { if (i > 0) { print(i) } i = i + 1 }"),
        "while [ $i -ne 3 ]\ndo\n    if [ $i -gt 0 ]; then\n        echo -e $i\n    fi\n    i=$(($i + 1))\ndone\n"
    );
}

#[test]
fn assignment_captures_call_output() {
    assert_eq!(compile("let files = ls!(-a)"), "files=\"$(ls -a)\"\n");
}

#[test]
fn string_assignment() {
    assert_eq!(compile("name = \"world\""), "name=\"world\"\n");
}

#[test]
fn archive_builtins() {
    assert_eq!(compile("compress(\"a.tar\", \"dir\")"), "tar -caf \"a.tar\" \"dir\"\n");
    assert_eq!(compile("decompress(\"a.tar\")"), "tar -xf \"a.tar\"\n");
    assert_eq!(compile("ls_archive(\"a.tar\")"), "tar -tvf \"a.tar\"\n");
}

#[test]
fn comments_are_passed_over() {
    let script = Script::from_string("# greeting\nprint(\"hi\") # trailing\n").unwrap();
    assert_eq!(script.get_code().unwrap(), "echo -e \"hi\"\n");
    assert!(script.skipped().is_empty());
    assert_eq!(script.tokens().len(), 6);
}

#[test]
fn raw_string_is_verbatim() {
    assert_eq!(compile("print(`$HOME`)"), "echo -e $HOME\n");
}

#[test]
fn several_statements_one_per_line() {
    assert_eq!(
        compile("let a = 1\nlet b = a * 2\nprint(b)"),
        "a=1\nb=$(($a * 2))\necho -e $b\n"
    );
}

#[test]
fn empty_elif_ends_chain_without_terminator() {
    assert_eq!(
        compile("if (x == 1) { print(\"a\") } else if (x == 2) { }"),
        "if [ $x -eq 1 ]; then\n    echo -e \"a\"\n\n"
    );
}
