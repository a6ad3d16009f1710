use ftl::ast::{Expression, NumberKind};
use ftl::emitter::Emitter;
use ftl::position::PositionContainer;
use ftl::parser::parse_program;

fn emit(text: &str) -> String {
    Emitter::codegen(&parse_program(text).unwrap())
}

#[test]
fn emits_function() {
    assert_eq!(
        emit("function add(a: int, b: ptr float) { return a + b * 2 }"),
        "function add(a: int, b: ptr float, ) {\nreturn a + b * 2\n\n}\n"
    );
}

#[test]
fn emits_struct() {
    assert_eq!(emit("struct Point { x: int, y: Other }"), "struct Point {\nx: int, \ny: Other, \n}\n");
}

#[test]
fn emits_statements_and_control_flow() {
    assert_eq!(
        emit("function f() { var x = 0 - 5\n if (x == 1) { x = 2 } else { g(x) }\n while (x < 3) { x = x / 7 } }"),
        "function f() {\nvar x = 0 - 5\nif (x == 1) {\nx = 2\n}\nelse {\ng(x)\n}\nwhile (x < 3) {\nx = x / 7\n}\n\n}\n"
    );
}

#[test]
fn emits_if_without_else() {
    assert_eq!(
        emit("function f() { if (a =/= b) { return 1.5 } }"),
        "function f() {\nif (a =/= b) {\nreturn 1.5\n}\n\n}\n"
    );
}

#[test]
fn emits_large_integers() {
    assert_eq!(
        emit("function f() { return 9223372036854775807 > 1234567890 }"),
        "function f() {\nreturn 9223372036854775807 > 1234567890\n\n}\n"
    );
}

#[test]
fn new_emitter_is_empty() {
    assert_eq!(Emitter::new().text(), "");
    assert_eq!(Emitter::codegen(&Vec::new()), "");
}

#[test]
fn emits_negative_integers() {
    let mut emitter = Emitter::new();
    emitter.expression(&Expression::Number(PositionContainer::new(NumberKind::Int(-120), 1, 1)));
    emitter.expression(&Expression::Number(PositionContainer::new(NumberKind::Int(i64::MIN), 1, 1)));
    assert_eq!(emitter.text(), "-120-9223372036854775808");
}

#[test]
fn emits_parentheses_where_grouping_needs_them() {
    assert_eq!(
        emit("function f() { return (1 + 2) * 3 - (4 - 5) + (6 * 7) }"),
        "function f() {\nreturn (1 + 2) * 3 - (4 - 5) + 6 * 7\n\n}\n"
    );
}

#[test]
fn emits_call_arguments_and_bare_expressions() {
    assert_eq!(
        emit("function f() { g(a, b + 1, h())\n x\n y }"),
        "function f() {\ng(a, b + 1, h())\nx\ny\n\n}\n"
    );
}

#[test]
fn emitted_text_reads_back() {
    let text = "struct S { p: ptr ptr ptr int, q: T }\nfunction f(a: ptr S) { var v = (a - (b - c)) * g(1, 2.5)\n if (v < 1) { a\n b } else { while (v > 0) { v = v - 1 } }\n return v }";
    let first = emit(text);
    assert_eq!(emit(&first), first);
    assert_eq!(parse_program(&first).unwrap().len(), 2);
    assert!(first.contains("ptr ptr ptr int"));
    assert!(first.contains("(a - (b - c)) * g(1, 2.5)"));
}

#[test]
fn name_then_parenthesized_line_reads_back_as_two_instructions() {
    let first = emit("function g() { f\n(1 + 2) * 3 }");
    assert_eq!(first, "function g() {\nf\n(1 + 2) * 3\n\n}\n");
    assert_eq!(emit(&first), first);
    let nodes = parse_program(&first).unwrap();
    let ftl::ast::Node::Function(g) = &nodes[0] else { panic!() };
    assert_eq!(g.body.len(), 2);
}
