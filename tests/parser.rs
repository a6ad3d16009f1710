use ftl::ast::{
    BasicDataType, BinaryOperator, DataType, Expression, Instruction, Node, NumberKind, Statement,
};
use ftl::parser::{parse_program, parse_tokens, Expected, ParseErrorKind, Parser, SyntaxError};
use ftl::token::TokenKind;

fn only_node(text: &str) -> Node {
    let mut nodes = parse_program(text).unwrap();
    assert_eq!(nodes.len(), 1);
    nodes.pop().unwrap()
}

fn body_of(text: &str) -> Vec<Instruction> {
    match only_node(text) {
        Node::Function(f) => f.body,
        other => panic!("not a function: {:?}", other),
    }
}

fn int_of(e: &Expression) -> i64 {
    match e {
        Expression::Number(n) => match n.value {
            NumberKind::Int(v) => v,
            _ => panic!("not an integer"),
        },
        _ => panic!("not a number: {:?}", e),
    }
}

fn name_of(e: &Expression) -> String {
    match e {
        Expression::Variable(v) => v.value.clone(),
        _ => panic!("not a variable: {:?}", e),
    }
}

fn expression_of(text: &str) -> Expression {
    let mut body = body_of(&format!("function f() {{ {} }}", text));
    assert_eq!(body.len(), 1);
    match body.pop().unwrap() {
        Instruction::Expression(e) => e,
        other => panic!("not an expression: {:?}", other),
    }
}

#[test]
fn pointer_chain_nests_to_the_right() {
    let node = only_node("function f(p: ptr ptr ptr int) {}");
    let Node::Function(f) = node else { panic!() };
    let mut t = &f.prototype.args[0].data_type.value;
    let mut depth = 0;
    while let DataType::Pointer(inner) = t {
        depth += 1;
        t = &inner.value;
    }
    assert_eq!(depth, 3);
    assert_eq!(*t, DataType::Basic(BasicDataType::Int));
}

#[test]
fn multiplication_binds_tighter_than_addition() {
    let e = expression_of("1 + 2 * 3");
    let Expression::BinaryExpression(add) = e else { panic!() };
    assert_eq!(add.operator.value, BinaryOperator::Add);
    assert_eq!(int_of(&add.lhs), 1);
    let Expression::BinaryExpression(mul) = *add.rhs else { panic!() };
    assert_eq!(mul.operator.value, BinaryOperator::Multiply);
    assert_eq!(int_of(&mul.lhs), 2);
    assert_eq!(int_of(&mul.rhs), 3);
}

#[test]
fn operators_of_equal_precedence_group_left() {
    let e = expression_of("1 - 2 - 3");
    let Expression::BinaryExpression(outer) = e else { panic!() };
    assert_eq!(outer.operator.value, BinaryOperator::Subtract);
    assert_eq!(int_of(&outer.rhs), 3);
    let Expression::BinaryExpression(inner) = *outer.lhs else { panic!() };
    assert_eq!(int_of(&inner.lhs), 1);
    assert_eq!(int_of(&inner.rhs), 2);
}

#[test]
fn comparison_binds_loosest() {
    let e = expression_of("a + 1 =/= (b)");
    let Expression::BinaryExpression(cmp) = e else { panic!() };
    assert_eq!(cmp.operator.value, BinaryOperator::NotEqual);
    assert_eq!(name_of(&cmp.rhs), "b");
}

#[test]
fn if_without_else_has_empty_false_branch() {
    let body = body_of("function f() { if (a < b) { x = 1 } }");
    let Instruction::IfElse(if_else) = &body[0] else { panic!() };
    assert_eq!(if_else.if_true.len(), 1);
    assert!(if_else.if_false.is_empty());
}

#[test]
fn if_with_else_keeps_else_body() {
    let body = body_of("function f() { if (a) { x = 1 } else { y = 2\n return y } }");
    let Instruction::IfElse(if_else) = &body[0] else { panic!() };
    assert_eq!(if_else.if_false.len(), 2);
    let Instruction::Statement(Statement::VariableAssignment(a)) = &if_else.if_false[0] else {
        panic!()
    };
    assert_eq!(a.name.value, "y");
    assert_eq!(int_of(&a.value), 2);
    assert!(matches!(if_else.if_false[1], Instruction::Statement(Statement::Return(_))));
}

#[test]
fn function_add_end_to_end() {
    let node = only_node("function add(a: int, b: int) { return a + b }");
    let Node::Function(f) = node else { panic!() };
    assert_eq!(f.prototype.name.value, "add");
    let args: Vec<(String, DataType)> = f
        .prototype
        .args
        .into_iter()
        .map(|a| (a.name.value, a.data_type.value))
        .collect();
    assert_eq!(
        args,
        vec![
            ("a".to_string(), DataType::Basic(BasicDataType::Int)),
            ("b".to_string(), DataType::Basic(BasicDataType::Int)),
        ]
    );
    assert_eq!(f.body.len(), 1);
    let Instruction::Statement(Statement::Return(Expression::BinaryExpression(sum))) = &f.body[0]
    else {
        panic!()
    };
    assert_eq!(sum.operator.value, BinaryOperator::Add);
    assert_eq!(name_of(&sum.lhs), "a");
    assert_eq!(name_of(&sum.rhs), "b");
}

#[test]
fn struct_point_end_to_end() {
    let node = only_node("struct Point { x: int, y: int }");
    let Node::Struct(s) = node else { panic!() };
    assert_eq!(s.name.value, "Point");
    let fields: Vec<(String, DataType)> =
        s.fields.into_iter().map(|f| (f.name.value, f.data_type.value)).collect();
    assert_eq!(
        fields,
        vec![
            ("x".to_string(), DataType::Basic(BasicDataType::Int)),
            ("y".to_string(), DataType::Basic(BasicDataType::Int)),
        ]
    );
}

#[test]
fn missing_function_name_is_a_positioned_error() {
    let Err(SyntaxError::Parse(e)) = parse_program("function (") else { panic!() };
    assert_eq!(e.expected, Expected::Identifier);
    assert_eq!(e.kind, ParseErrorKind::UnexpectedToken(TokenKind::OpeningParentheses));
    assert_eq!((e.line, e.column), (1, 10));
}

#[test]
fn premature_end_of_input() {
    let Err(SyntaxError::Parse(e)) = parse_program("struct S {\n x: int,") else { panic!() };
    assert_eq!(e.kind, ParseErrorKind::UnexpectedEndOfInput);
    assert_eq!(e.expected, Expected::Identifier);
}

#[test]
fn bad_primary_expects_an_expression() {
    let Err(SyntaxError::Parse(e)) = parse_program("function f() { return ) }") else { panic!() };
    assert_eq!(e.expected, Expected::Expression);
    assert_eq!((e.line, e.column), (1, 23));
}

#[test]
fn top_level_needs_a_declaration() {
    let Err(SyntaxError::Parse(e)) = parse_program("x = 1") else { panic!() };
    assert_eq!(e.expected, Expected::Declaration);
}

#[test]
fn lexical_error_is_reported() {
    assert!(matches!(parse_program("function f() { $ }"), Err(SyntaxError::Lex(_))));
}

#[test]
fn trailing_comma_is_allowed() {
    let Node::Function(f) = only_node("function f(a: float, ) {}") else { panic!() };
    assert_eq!(f.prototype.args.len(), 1);
    assert_eq!(f.prototype.args[0].data_type.value, DataType::Basic(BasicDataType::Float));
}

#[test]
fn several_declarations_with_comments_and_lines() {
    let text = "// shapes\nstruct P { a: ptr Q }\n\nfunction g() {\n var v = h(1, 2.5, x)\n while (v > 0) { v = v - 1 }\n}\n";
    let nodes = parse_program(text).unwrap();
    assert_eq!(nodes.len(), 2);
    let Node::Struct(s) = &nodes[0] else { panic!() };
    let DataType::Pointer(inner) = &s.fields[0].data_type.value else { panic!() };
    assert_eq!(inner.value, DataType::Struct("Q".to_string()));
    let Node::Function(g) = &nodes[1] else { panic!() };
    assert_eq!(g.body.len(), 2);
    let Instruction::Statement(Statement::VariableDeclaration(d)) = &g.body[0] else { panic!() };
    let Expression::FunctionCall(call) = &d.value else { panic!() };
    assert_eq!(call.name.value, "h");
    assert_eq!(call.params.len(), 3);
    assert!(matches!(g.body[1], Instruction::WhileLoop(_)));
}

#[test]
fn failure_ends_the_node_sequence() {
    let tokens = ftl::lexer::tokenize("struct A { }\nstruct { }\nstruct B { }").unwrap();
    let mut parser = Parser::new(tokens);
    assert!(matches!(parser.next_node(), Some(Ok(Node::Struct(_)))));
    let Some(Err(e)) = parser.next_node() else { panic!() };
    assert_eq!(e.expected, Expected::Identifier);
    assert_eq!((e.line, e.column), (2, 8));
    assert!(parser.next_node().is_none());
}

#[test]
fn data_type_alone() {
    let mut parser = Parser::new(ftl::lexer::tokenize("ptr Shape").unwrap());
    let t = parser.data_type().unwrap();
    assert_eq!((t.line, t.column), (1, 1));
    let DataType::Pointer(inner) = t.value else { panic!() };
    assert_eq!(inner.value, DataType::Struct("Shape".to_string()));
    assert_eq!((inner.line, inner.column), (1, 5));
    let mut parser = Parser::new(ftl::lexer::tokenize("ptr ptr").unwrap());
    assert_eq!(parser.data_type().unwrap_err().expected, Expected::DataType);
}

#[test]
fn call_needs_parenthesis_on_the_same_line() {
    let body = body_of("function f() { g(1)\n h\n (2) }");
    assert_eq!(body.len(), 3);
    assert!(matches!(body[0], Instruction::Expression(Expression::FunctionCall(_))));
    assert!(matches!(body[1], Instruction::Expression(Expression::Variable(_))));
    assert_eq!(int_of(match &body[2] {
        Instruction::Expression(e) => e,
        _ => panic!(),
    }), 2);
}

#[test]
fn parse_tokens_reads_declarations() {
    let tokens = ftl::lexer::tokenize("// c\nstruct A { x: int }\nfunction f() { return 1 }\n").unwrap();
    let nodes = parse_tokens(tokens).unwrap();
    assert_eq!(nodes.len(), 2);
    let tokens = ftl::lexer::tokenize("struct A { x: }").unwrap();
    let e = parse_tokens(tokens).unwrap_err();
    assert_eq!(e.expected, Expected::DataType);
    assert_eq!((e.line, e.column), (1, 15));
}
