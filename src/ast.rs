use vstd::prelude::*;
use crate::position::PositionContainer;

verus! {

/// A top-level declaration.
#[derive(Debug, PartialEq)]
pub enum Node {
    Function(FunctionDefinition),
    Struct(Struct),
}

/// A function: its prototype and the instructions of its body.
#[derive(Debug, PartialEq)]
pub struct FunctionDefinition {
    pub prototype: FunctionPrototype,
    pub body: Vec<Instruction>,
}

/// A function's name and its arguments, in order.
#[derive(Debug, PartialEq)]
pub struct FunctionPrototype {
    pub name: PositionContainer<String>,
    pub args: Vec<FunctionArgument>,
}

/// One argument of a function: its name and data type.
#[derive(Debug, PartialEq)]
pub struct FunctionArgument {
    pub name: PositionContainer<String>,
    pub data_type: PositionContainer<DataType>,
}

/// A struct declaration: its name and its fields, in order.
#[derive(Debug, PartialEq)]
pub struct Struct {
    pub name: PositionContainer<String>,
    pub fields: Vec<StructField>,
}

/// One field of a struct: its name and data type.
#[derive(Debug, PartialEq)]
pub struct StructField {
    pub name: PositionContainer<String>,
    pub data_type: PositionContainer<DataType>,
}

/// A data type; a pointer nests another data type to any depth.
#[derive(Debug, PartialEq)]
pub enum DataType {
    Basic(BasicDataType),
    Struct(String),
    Pointer(Box<PositionContainer<DataType>>),
}

#[derive(Debug, Clone, Copy, PartialEq, Eq)]
pub enum BasicDataType {
    Int,
    Float,
}

/// One instruction of a body.
#[derive(Debug, PartialEq)]
pub enum Instruction {
    Expression(Expression),
    Statement(Statement),
    IfElse(Box<IfElse>),
    WhileLoop(Box<WhileLoop>),
}

#[derive(Debug, PartialEq)]
pub enum Statement {
    VariableDeclaration(VariableDeclaration),
    VariableAssignment(VariableAssignment),
    Return(Expression),
}

/// `var name = value`
#[derive(Debug, PartialEq)]
pub struct VariableDeclaration {
    pub name: PositionContainer<String>,
    pub value: Expression,
}

/// `name = value`
#[derive(Debug, PartialEq)]
pub struct VariableAssignment {
    pub name: PositionContainer<String>,
    pub value: Expression,
}

/// A conditional. An absent `else` is an empty `if_false`.
#[derive(Debug, PartialEq)]
pub struct IfElse {
    pub condition: Expression,
    pub if_true: Vec<Instruction>,
    pub if_false: Vec<Instruction>,
}

#[derive(Debug, PartialEq)]
pub struct WhileLoop {
    pub condition: Expression,
    pub body: Vec<Instruction>,
}

#[derive(Debug, PartialEq)]
pub enum Expression {
    BinaryExpression(BinaryExpression),
    FunctionCall(FunctionCall),
    Number(Number),
    Variable(Variable),
}

#[derive(Debug, PartialEq)]
pub struct BinaryExpression {
    pub lhs: Box<Expression>,
    pub operator: PositionContainer<BinaryOperator>,
    pub rhs: Box<Expression>,
}

#[derive(Debug, Clone, Copy, PartialEq, Eq)]
pub enum BinaryOperator {
    Add,
    Subtract,
    Multiply,
    Divide,
    Less,
    Greater,
    Equal,
    NotEqual,
}

/// A call: the function's name and the argument expressions, in order.
#[derive(Debug, PartialEq)]
pub struct FunctionCall {
    pub name: PositionContainer<String>,
    pub params: Vec<Expression>,
}

/// A numeric literal with its position.
pub type Number = PositionContainer<NumberKind>;

#[derive(Debug, PartialEq)]
pub enum NumberKind {
    Int(i64),
    /// A floating point literal, as written; the parser gives only texts
    /// that satisfy `lexer::is_float_literal`.
    Float(String),
}

/// A reference to a variable by name, with its position.
pub type Variable = PositionContainer<String>;

} // verus!
