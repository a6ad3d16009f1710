use vstd::prelude::*;
use vstd::string::StringExecFns;
use crate::ast::{
    BasicDataType, BinaryExpression, BinaryOperator, DataType, Expression, FunctionArgument,
    FunctionCall, FunctionDefinition, IfElse, Instruction, Node, NumberKind, Statement, Struct,
    StructField, VariableAssignment, VariableDeclaration, WhileLoop,
};
use crate::position::PositionContainer;
use crate::token::{decimal, digit_char, int_text};

verus! {

broadcast use vstd::std_specs::vec::axiom_vec_index_decreases;

/// Source text of a binary operator.
pub open spec fn operator_text(op: BinaryOperator) -> Seq<char> {
    match op {
        BinaryOperator::Add => "+"@,
        BinaryOperator::Subtract => "-"@,
        BinaryOperator::Multiply => "*"@,
        BinaryOperator::Divide => "/"@,
        BinaryOperator::Less => "<"@,
        BinaryOperator::Greater => ">"@,
        BinaryOperator::Equal => "=="@,
        BinaryOperator::NotEqual => "=/="@,
    }
}

pub open spec fn number_text(n: NumberKind) -> Seq<char> {
    match n {
        NumberKind::Int(v) => int_text(v as int),
        NumberKind::Float(text) => text@,
    }
}

/// How tightly a binary operator binds: higher binds tighter.
pub open spec fn precedence(op: BinaryOperator) -> nat {
    match op {
        BinaryOperator::Multiply | BinaryOperator::Divide => 3,
        BinaryOperator::Add | BinaryOperator::Subtract => 2,
        _ => 1,
    }
}

/// An operand of an operator of precedence `p` needs parentheses when its
/// own operator binds more loosely, or, as a right operand, equally (all
/// operators group to the left).
pub open spec fn needs_parentheses(e: Expression, p: nat, right: bool) -> bool {
    match e {
        Expression::BinaryExpression(b) => precedence(b.operator.value) < p || (right
            && precedence(b.operator.value) == p),
        _ => false,
    }
}

/// Emitted text of an operand of an operator of precedence `p`.
pub open spec fn operand_text(e: Expression, p: nat, right: bool) -> Seq<char>
    decreases e, 1int,
{
    if needs_parentheses(e, p, right) {
        "("@ + expression_text(e) + ")"@
    } else {
        expression_text(e)
    }
}

/// Emitted text of an expression. Binary operators are set off by spaces,
/// and operands are parenthesized where the tree's grouping differs from
/// the one that precedence and left grouping give.
pub open spec fn expression_text(e: Expression) -> Seq<char>
    decreases e, 0int,
{
    match e {
        Expression::BinaryExpression(b) => operand_text(
            *b.lhs,
            precedence(b.operator.value),
            false,
        ) + " "@ + operator_text(b.operator.value) + " "@ + operand_text(
            *b.rhs,
            precedence(b.operator.value),
            true,
        ),
        Expression::FunctionCall(c) => c.name.value@ + "("@ + expressions_text(c.params@) + ")"@,
        Expression::Number(n) => number_text(n.value),
        Expression::Variable(v) => v.value@,
    }
}

/// The texts of the expressions, separated by `, `.
pub open spec fn expressions_text(es: Seq<Expression>) -> Seq<char>
    decreases es, 0int,
{
    if es.len() == 0 {
        Seq::empty()
    } else if es.len() == 1 {
        expression_text(es[0])
    } else {
        expressions_text(es.drop_last()) + ", "@ + expression_text(es.last())
    }
}

pub open spec fn data_type_text(t: DataType) -> Seq<char>
    decreases t,
{
    match t {
        DataType::Basic(BasicDataType::Int) => "int"@,
        DataType::Basic(BasicDataType::Float) => "float"@,
        DataType::Struct(name) => name@,
        DataType::Pointer(inner) => "ptr "@ + data_type_text(inner.value),
    }
}

pub open spec fn statement_text(s: Statement) -> Seq<char> {
    match s {
        Statement::VariableDeclaration(d) => "var "@ + d.name.value@ + " = "@ + expression_text(
            d.value,
        ) + "\n"@,
        Statement::VariableAssignment(a) => a.name.value@ + " = "@ + expression_text(a.value)
            + "\n"@,
        Statement::Return(e) => "return "@ + expression_text(e) + "\n"@,
    }
}

/// Emitted text of an instruction; each ends the line. The `else` block is left out when it is
/// empty.
pub open spec fn instruction_text(i: Instruction) -> Seq<char>
    decreases i,
{
    match i {
        Instruction::Expression(e) => expression_text(e) + "\n"@,
        Instruction::Statement(s) => statement_text(s),
        Instruction::IfElse(b) => "if ("@ + expression_text(b.condition) + ") {\n"@
            + instructions_text(b.if_true@) + "}\n"@ + if b.if_false.len() == 0 {
            Seq::empty()
        } else {
            "else {\n"@ + instructions_text(b.if_false@) + "}\n"@
        },
        Instruction::WhileLoop(w) => "while ("@ + expression_text(w.condition) + ") {\n"@
            + instructions_text(w.body@) + "}\n"@,
    }
}

pub open spec fn instructions_text(is: Seq<Instruction>) -> Seq<char>
    decreases is,
{
    if is.len() == 0 {
        Seq::empty()
    } else {
        instructions_text(is.drop_last()) + instruction_text(is.last())
    }
}

pub open spec fn argument_text(a: FunctionArgument) -> Seq<char> {
    a.name.value@ + ": "@ + data_type_text(a.data_type.value)
}

/// Each argument followed by `, `.
pub open spec fn arguments_text(args: Seq<FunctionArgument>) -> Seq<char>
    decreases args.len(),
{
    if args.len() == 0 {
        Seq::empty()
    } else {
        arguments_text(args.drop_last()) + argument_text(args.last()) + ", "@
    }
}

/// Each field on a line of its own, followed by `, `.
pub open spec fn fields_text(fields: Seq<StructField>) -> Seq<char>
    decreases fields.len(),
{
    if fields.len() == 0 {
        Seq::empty()
    } else {
        let f = fields.last();
        fields_text(fields.drop_last()) + f.name.value@ + ": "@ + data_type_text(f.data_type.value)
            + ", \n"@
    }
}

pub open spec fn function_text(f: FunctionDefinition) -> Seq<char> {
    "function "@ + f.prototype.name.value@ + "("@ + arguments_text(f.prototype.args@) + ") {\n"@
        + instructions_text(f.body@) + "\n"@ + "}\n"@
}

pub open spec fn struct_text(s: Struct) -> Seq<char> {
    "struct "@ + s.name.value@ + " {\n"@ + fields_text(s.fields@) + "}\n"@
}

pub open spec fn node_text(n: Node) -> Seq<char> {
    match n {
        Node::Function(f) => function_text(f),
        Node::Struct(s) => struct_text(s),
    }
}

pub open spec fn nodes_text(ns: Seq<Node>) -> Seq<char>
    decreases ns.len(),
{
    if ns.len() == 0 {
        Seq::empty()
    } else {
        nodes_text(ns.drop_last()) + node_text(ns.last())
    }
}

fn precedence_of(op: BinaryOperator) -> (r: u8)
    ensures
        r as nat == precedence(op),
{
    match op {
        BinaryOperator::Multiply | BinaryOperator::Divide => 3,
        BinaryOperator::Add | BinaryOperator::Subtract => 2,
        _ => 1,
    }
}

/// Emits FTL source text for syntax trees; used to format existing code.
pub struct Emitter {
    output: String,
}

impl View for Emitter {
    type V = Seq<char>;

    /// The text emitted so far.
    closed spec fn view(&self) -> Seq<char> {
        self.output@
    }
}

/// Each method emits the text of the corresponding syntax tree node after
/// what was emitted before.
impl Emitter {
    pub fn new() -> (r: Self)
        ensures
            r@ == Seq::<char>::empty(),
    {
        Emitter { output: String::new() }
    }

    /// The text emitted so far.
    pub fn text(&self) -> (r: &String)
        ensures
            r@ == self@,
    {
        &self.output
    }

    /// The text of all the nodes, in order.
    pub fn codegen(ast_nodes: &Vec<Node>) -> (r: String)
        ensures
            r@ == nodes_text(ast_nodes@),
    {
        let mut this = Emitter::new();
        let mut i: usize = 0;
        while i < ast_nodes.len()
            invariant
                i <= ast_nodes.len(),
                this@ == nodes_text(ast_nodes@.subrange(0, i as int)),
            decreases ast_nodes.len() - i,
        {
            this.ast_node(&ast_nodes[i]);
            assert(ast_nodes@.subrange(0, i + 1).drop_last() =~= ast_nodes@.subrange(0, i as int));
            i += 1;
        }
        assert(ast_nodes@.subrange(0, i as int) =~= ast_nodes@);
        this.output
    }

    fn put(&mut self, s: &str)
        ensures
            final(self)@ == old(self)@ + s@,
    {
        self.output.append(s);
    }

    pub fn ast_node(&mut self, node: &Node)
        ensures
            final(self)@ == old(self)@ + node_text(*node),
    {
        match node {
            Node::Function(function) => self.function(function),
            Node::Struct(struct_) => self.struct_(struct_),
        }
    }

    pub fn function(&mut self, function: &FunctionDefinition)
        ensures
            final(self)@ == old(self)@ + function_text(*function),
    {
        let ghost start = self@;
        let args = &function.prototype.args;
        self.put("function ");
        self.put(function.prototype.name.value.as_str());
        self.put("(");
        let mut i: usize = 0;
        while i < args.len()
            invariant
                i <= args.len(),
                self@ == start + "function "@ + function.prototype.name.value@ + "("@
                    + arguments_text(args@.subrange(0, i as int)),
            decreases args.len() - i,
        {
            self.function_argument(&args[i]);
            self.put(", ");
            assert(args@.subrange(0, i + 1).drop_last() =~= args@.subrange(0, i as int));
            i += 1;
        }
        assert(args@.subrange(0, i as int) =~= args@);
        self.put(") {\n");
        self.instructions(&function.body);
        self.put("\n");
        self.put("}\n");
    }

    pub fn struct_(&mut self, struct_: &Struct)
        ensures
            final(self)@ == old(self)@ + struct_text(*struct_),
    {
        let ghost start = self@;
        let fields = &struct_.fields;
        self.put("struct ");
        self.put(struct_.name.value.as_str());
        self.put(" {\n");
        let mut i: usize = 0;
        while i < fields.len()
            invariant
                i <= fields.len(),
                self@ == start + "struct "@ + struct_.name.value@ + " {\n"@ + fields_text(
                    fields@.subrange(0, i as int),
                ),
            decreases fields.len() - i,
        {
            self.put(fields[i].name.value.as_str());
            self.put(": ");
            self.data_type(&fields[i].data_type);
            self.put(", \n");
            assert(fields@.subrange(0, i + 1).drop_last() =~= fields@.subrange(0, i as int));
            i += 1;
        }
        assert(fields@.subrange(0, i as int) =~= fields@);
        self.put("}\n");
    }

    /// The instructions, one after the other.
    pub fn instructions(&mut self, instructions: &Vec<Instruction>)
        ensures
            final(self)@ == old(self)@ + instructions_text(instructions@),
        decreases instructions,
    {
        let ghost start = self@;
        let mut i: usize = 0;
        while i < instructions.len()
            invariant
                i <= instructions.len(),
                self@ == start + instructions_text(instructions@.subrange(0, i as int)),
            decreases instructions.len() - i,
        {
            self.instruction(&instructions[i]);
            assert(instructions@.subrange(0, i + 1).drop_last() =~= instructions@.subrange(
                0,
                i as int,
            ));
            i += 1;
        }
        assert(instructions@.subrange(0, i as int) =~= instructions@);
    }

    pub fn instruction(&mut self, instruction: &Instruction)
        ensures
            final(self)@ == old(self)@ + instruction_text(*instruction),
        decreases instruction,
    {
        match instruction {
            Instruction::Expression(expression) => {
                self.expression(expression);
                self.put("\n");
            },
            Instruction::Statement(statement) => self.statement(statement),
            Instruction::IfElse(if_else) => self.if_else(if_else),
            Instruction::WhileLoop(while_loop) => self.while_loop(while_loop),
        }
    }

    pub fn expression(&mut self, expression: &Expression)
        ensures
            final(self)@ == old(self)@ + expression_text(*expression),
        decreases expression, 0int,
    {
        match expression {
            Expression::BinaryExpression(binary_expression) => self.binary_expression(
                binary_expression,
            ),
            Expression::FunctionCall(function_call) => self.function_call(function_call),
            Expression::Number(number) => self.number(number),
            Expression::Variable(variable) => self.variable(variable),
        }
    }

    pub fn binary_expression(&mut self, binary_expression: &BinaryExpression)
        ensures
            final(self)@ == old(self)@ + expression_text(
                Expression::BinaryExpression(*binary_expression),
            ),
        decreases binary_expression, 2int,
    {
        let p = precedence_of(binary_expression.operator.value);
        self.operand(&binary_expression.lhs, p, false);
        let operator = match binary_expression.operator.value {
            BinaryOperator::Add => "+",
            BinaryOperator::Subtract => "-",
            BinaryOperator::Multiply => "*",
            BinaryOperator::Divide => "/",
            BinaryOperator::Less => "<",
            BinaryOperator::Greater => ">",
            BinaryOperator::Equal => "==",
            BinaryOperator::NotEqual => "=/=",
        };
        self.put(" ");
        self.put(operator);
        self.put(" ");
        self.operand(&binary_expression.rhs, p, true);
    }

    /// An operand of an operator of precedence `p`, in parentheses where
    /// it needs them.
    fn operand(&mut self, e: &Expression, p: u8, right: bool)
        ensures
            final(self)@ == old(self)@ + operand_text(*e, p as nat, right),
        decreases e, 1int,
    {
        let parenthesize = match e {
            Expression::BinaryExpression(b) => {
                let q = precedence_of(b.operator.value);
                q < p || (right && q == p)
            },
            _ => false,
        };
        if parenthesize {
            self.put("(");
            self.expression(e);
            self.put(")");
        } else {
            self.expression(e);
        }
    }

    pub fn function_call(&mut self, function_call: &FunctionCall)
        ensures
            final(self)@ == old(self)@ + expression_text(Expression::FunctionCall(*function_call)),
        decreases function_call, 0int,
    {
        self.put(function_call.name.value.as_str());
        self.put("(");
        self.expressions(&function_call.params);
        self.put(")");
    }

    /// The expressions, one after the other.
    pub fn expressions(&mut self, expressions: &Vec<Expression>)
        ensures
            final(self)@ == old(self)@ + expressions_text(expressions@),
        decreases expressions, 0int,
    {
        let ghost start = self@;
        let mut i: usize = 0;
        while i < expressions.len()
            invariant
                i <= expressions.len(),
                self@ == start + expressions_text(expressions@.subrange(0, i as int)),
            decreases expressions.len() - i,
        {
            if i > 0 {
                self.put(", ");
            }
            self.expression(&expressions[i]);
            assert(expressions@.subrange(0, i + 1).drop_last() =~= expressions@.subrange(
                0,
                i as int,
            ));
            i += 1;
        }
        assert(expressions@.subrange(0, i as int) =~= expressions@);
    }

    pub fn statement(&mut self, statement: &Statement)
        ensures
            final(self)@ == old(self)@ + statement_text(*statement),
    {
        match statement {
            Statement::VariableDeclaration(variable_declaration) => self.variable_declaration(
                variable_declaration,
            ),
            Statement::VariableAssignment(assignment) => self.assignment(assignment),
            Statement::Return(expression) => self.return_(expression),
        }
    }

    pub fn variable_declaration(&mut self, variable_declaration: &VariableDeclaration)
        ensures
            final(self)@ == old(self)@ + statement_text(
                Statement::VariableDeclaration(*variable_declaration),
            ),
    {
        self.put("var ");
        self.put(variable_declaration.name.value.as_str());
        self.put(" = ");
        self.expression(&variable_declaration.value);
        self.put("\n");
    }

    pub fn assignment(&mut self, assignment: &VariableAssignment)
        ensures
            final(self)@ == old(self)@ + statement_text(Statement::VariableAssignment(*assignment)),
    {
        self.put(assignment.name.value.as_str());
        self.put(" = ");
        self.expression(&assignment.value);
        self.put("\n");
    }

    pub fn return_(&mut self, expression: &Expression)
        ensures
            final(self)@ == old(self)@ + statement_text(Statement::Return(*expression)),
    {
        self.put("return ");
        self.expression(expression);
        self.put("\n");
    }

    pub fn if_else(&mut self, if_else: &IfElse)
        ensures
            final(self)@ == old(self)@ + instruction_text(Instruction::IfElse(Box::new(*if_else))),
        decreases if_else,
    {
        // if block, always present
        self.put("if (");
        self.expression(&if_else.condition);
        self.put(") {\n");
        self.instructions(&if_else.if_true);
        self.put("}\n");
        // else block, optional
        if if_else.if_false.len() == 0 {
            return;
        }
        self.put("else {\n");
        self.instructions(&if_else.if_false);
        self.put("}\n");
    }

    pub fn while_loop(&mut self, while_loop: &WhileLoop)
        ensures
            final(self)@ == old(self)@ + instruction_text(
                Instruction::WhileLoop(Box::new(*while_loop)),
            ),
        decreases while_loop,
    {
        self.put("while (");
        self.expression(&while_loop.condition);
        self.put(") {\n");
        self.instructions(&while_loop.body);
        self.put("}\n");
    }

    pub fn function_argument(&mut self, function_argument: &FunctionArgument)
        ensures
            final(self)@ == old(self)@ + argument_text(*function_argument),
    {
        self.put(function_argument.name.value.as_str());
        self.put(": ");
        self.data_type(&function_argument.data_type);
    }

    pub fn data_type(&mut self, data_type: &PositionContainer<DataType>)
        ensures
            final(self)@ == old(self)@ + data_type_text(data_type.value),
        decreases data_type.value, 0int,
    {
        match &data_type.value {
            DataType::Basic(basic_data_type) => self.basic_data_type(*basic_data_type),
            DataType::Struct(struct_name) => self.struct_name(struct_name),
            DataType::Pointer(pointer) => self.pointer(pointer),
        }
    }

    pub fn basic_data_type(&mut self, basic_data_type: BasicDataType)
        ensures
            final(self)@ == old(self)@ + data_type_text(DataType::Basic(basic_data_type)),
    {
        match basic_data_type {
            BasicDataType::Int => self.put("int"),
            BasicDataType::Float => self.put("float"),
        }
    }

    pub fn struct_name(&mut self, struct_name: &String)
        ensures
            final(self)@ == old(self)@ + struct_name@,
    {
        self.put(struct_name.as_str());
    }

    pub fn pointer(&mut self, pointer: &PositionContainer<DataType>)
        ensures
            final(self)@ == old(self)@ + "ptr "@ + data_type_text(pointer.value),
        decreases pointer.value, 1int,
    {
        self.put("ptr ");
        self.data_type(pointer);
    }

    pub fn number(&mut self, number: &PositionContainer<NumberKind>)
        ensures
            final(self)@ == old(self)@ + number_text(number.value),
    {
        match &number.value {
            NumberKind::Int(value) => self.integer(*value),
            NumberKind::Float(float) => self.put(float.as_str()),
        }
    }

    pub fn variable(&mut self, variable: &PositionContainer<String>)
        ensures
            final(self)@ == old(self)@ + variable.value@,
    {
        self.put(variable.value.as_str());
    }

    fn integer(&mut self, v: i64)
        ensures
            final(self)@ == old(self)@ + int_text(v as int),
    {
        if v < 0 {
            let magnitude = (0 - (v as i128)) as u64;
            assert(magnitude as int == -v);
            proof {
                reveal_strlit("-");
            }
            self.put("-");
            self.decimal(magnitude);
        } else {
            self.decimal(v as u64);
        }
    }

    fn decimal(&mut self, n: u64)
        ensures
            final(self)@ == old(self)@ + decimal(n as nat),
        decreases n,
    {
        if n >= 10 {
            self.decimal(n / 10);
        }
        self.digit(n % 10);
    }

    fn digit(&mut self, d: u64)
        requires
            d < 10,
        ensures
            final(self)@ == old(self)@ + seq![digit_char(d as nat)],
    {
        let text = match d {
            0 => "0",
            1 => "1",
            2 => "2",
            3 => "3",
            4 => "4",
            5 => "5",
            6 => "6",
            7 => "7",
            8 => "8",
            _ => "9",
        };
        proof {
            reveal_strlit("0");
            reveal_strlit("1");
            reveal_strlit("2");
            reveal_strlit("3");
            reveal_strlit("4");
            reveal_strlit("5");
            reveal_strlit("6");
            reveal_strlit("7");
            reveal_strlit("8");
            reveal_strlit("9");
        }
        assert(text@ =~= seq![digit_char(d as nat)]);
        self.put(text);
    }
}

} // verus!
