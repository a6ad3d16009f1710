use vstd::prelude::*;
use vstd::string::StringExecFns;
use crate::ast::{
    BasicDataType, BinaryExpression, BinaryOperator, DataType, Expression, FunctionArgument,
    FunctionCall, FunctionDefinition, FunctionPrototype, IfElse, Instruction, Node, NumberKind,
    Statement, Struct, StructField, VariableAssignment, VariableDeclaration, WhileLoop,
};
use crate::position::PositionContainer;
use crate::grammar::{
    lemma_node_end, lemma_program_accepts,
    arguments_end, binary_end, block_end, call_end, expression_end, instruction_end,
    instructions_end, node_end, operators_end, primary_end, program_accepts, token_is, type_end,
    typed_list_end,
    arguments_at, binary_at, block_at, chain_at, data_type_at, declared_at, expression_at,
    function_at, in_bounds, instruction_at, instructions_at, is_return, items_at,
    misses_name, name_missing, node_at, nodes_at, operator_of, primary_at, significant,
    starts_data_type, struct_at, typed_at, typed_list_at, argument_pairs, field_pairs,
};
use crate::lexer::{lex_failure, lex_spans, tokenization, tokenize, LexError};
use crate::token::{Token, TokenKind};

verus! {

/// What the parser was looking for when it failed.
#[derive(Debug, Clone, PartialEq)]
pub enum Expected {
    /// A name.
    Identifier,
    /// `int`, `float`, a struct name or `ptr`.
    DataType,
    /// `function` or `struct` at the top level.
    Declaration,
    /// A literal, a name, a call or a parenthesized expression.
    Expression,
    /// This symbol or keyword.
    Token(TokenKind),
}

#[derive(Debug, Clone, PartialEq)]
pub enum ParseErrorKind {
    /// This token stood where something else was required.
    UnexpectedToken(TokenKind),
    /// The tokens ran out.
    UnexpectedEndOfInput,
}

/// A parse failure: what was found, what was expected, and where.
#[derive(Debug, Clone, PartialEq)]
pub struct ParseError {
    pub kind: ParseErrorKind,
    pub expected: Expected,
    pub line: usize,
    pub column: usize,
}

/// `after` has the tokens of `before`, with a position at or past its own.
spec fn moved(before: Parser, after: Parser) -> bool {
    &&& after.tokens@ == before.tokens@
    &&& before.pos <= after.pos <= after.tokens.len()
}

/// Recursive-descent parser over the significant tokens of a text.
pub struct Parser {
    tokens: Vec<Token>,
    pos: usize,
}

impl Parser {
    /// A parser over `tokens`, without their comments and line breaks.
    pub fn new(tokens: Vec<Token>) -> (r: Parser)
        ensures
            r.wf(),
            r.remaining() == significant(tokens@),
            r.token_seq() == significant(tokens@),
            r.position() == 0,
    {
        let mut kept: Vec<Token> = Vec::new();
        let mut i: usize = 0;
        let ghost all = tokens@;
        while i < tokens.len()
            invariant
                i <= tokens.len(),
                tokens@ == all,
                kept@ == significant(all.subrange(0, i as int)),
            decreases tokens.len() - i,
        {
            let keep = !matches!(tokens[i].value, TokenKind::Comment(_) | TokenKind::EndOfLine);
            proof {
                assert(all.subrange(0, i + 1).drop_last() =~= all.subrange(0, i as int));
            }
            if keep {
                let t = &tokens[i];
                kept.push(PositionContainer::new(t.value.duplicate(), t.line, t.column));
            }
            i += 1;
        }
        assert(all.subrange(0, i as int) =~= all);
        let r = Parser { tokens: kept, pos: 0 };
        assert(r.tokens@.skip(0) =~= r.tokens@);
        r
    }

    /// Whether the next token is `want`, a token kind without payload.
    fn at(&self, want: &TokenKind) -> (r: bool)
        requires
            self.pos <= self.tokens.len(),
            !(want is Identifier || want is Float || want is Int || want is Comment),
        ensures
            r == (self.pos < self.tokens.len() && self.tokens@[self.pos as int].value == *want),
    {
        if self.pos >= self.tokens.len() {
            return false;
        }
        match (&self.tokens[self.pos].value, want) {
            (TokenKind::Def, TokenKind::Def) => true,
            (TokenKind::Plus, TokenKind::Plus) => true,
            (TokenKind::Star, TokenKind::Star) => true,
            (TokenKind::Minus, TokenKind::Minus) => true,
            (TokenKind::Less, TokenKind::Less) => true,
            (TokenKind::Greater, TokenKind::Greater) => true,
            (TokenKind::OpeningParentheses, TokenKind::OpeningParentheses) => true,
            (TokenKind::ClosingParentheses, TokenKind::ClosingParentheses) => true,
            (TokenKind::OpeningCurlyBraces, TokenKind::OpeningCurlyBraces) => true,
            (TokenKind::ClosingCurlyBraces, TokenKind::ClosingCurlyBraces) => true,
            (TokenKind::OpeningSquareBrackets, TokenKind::OpeningSquareBrackets) => true,
            (TokenKind::ClosingSquareBrackets, TokenKind::ClosingSquareBrackets) => true,
            (TokenKind::Comma, TokenKind::Comma) => true,
            (TokenKind::Semicolon, TokenKind::Semicolon) => true,
            (TokenKind::Colon, TokenKind::Colon) => true,
            (TokenKind::Slash, TokenKind::Slash) => true,
            (TokenKind::Equal, TokenKind::Equal) => true,
            (TokenKind::EqualEqual, TokenKind::EqualEqual) => true,
            (TokenKind::NotEqual, TokenKind::NotEqual) => true,
            (TokenKind::BitOr, TokenKind::BitOr) => true,
            (TokenKind::BitAnd, TokenKind::BitAnd) => true,
            (TokenKind::Modulus, TokenKind::Modulus) => true,
            (TokenKind::If, TokenKind::If) => true,
            (TokenKind::Else, TokenKind::Else) => true,
            (TokenKind::While, TokenKind::While) => true,
            (TokenKind::Dot, TokenKind::Dot) => true,
            (TokenKind::EndOfLine, TokenKind::EndOfLine) => true,
            (TokenKind::Pointer, TokenKind::Pointer) => true,
            (TokenKind::Struct, TokenKind::Struct) => true,
            (TokenKind::Var, TokenKind::Var) => true,
            _ => false,
        }
    }

    /// The error of finding the next token, or the end, where `expected`
    /// was required. It stands at the next token, or at the last one when
    /// none is left.
    fn error(&self, expected: Expected) -> (r: ParseError)
        requires
            self.pos <= self.tokens.len(),
        ensures
            r.expected == expected,
            self.pos < self.tokens.len() ==> {
                let t = self.tokens@[self.pos as int];
                r.kind == ParseErrorKind::UnexpectedToken(t.value) && r.line == t.line
                    && r.column == t.column
            },
            self.pos == self.tokens.len() ==> r.kind == ParseErrorKind::UnexpectedEndOfInput,
    {
        if self.pos < self.tokens.len() {
            let t = &self.tokens[self.pos];
            ParseError {
                kind: ParseErrorKind::UnexpectedToken(t.value.duplicate()),
                expected,
                line: t.line,
                column: t.column,
            }
        } else if self.tokens.len() > 0 {
            let t = &self.tokens[self.tokens.len() - 1];
            ParseError {
                kind: ParseErrorKind::UnexpectedEndOfInput,
                expected,
                line: t.line,
                column: t.column,
            }
        } else {
            ParseError { kind: ParseErrorKind::UnexpectedEndOfInput, expected, line: 1, column: 1 }
        }
    }

    /// Consumes the next token if it is `want`, a token kind without payload.
    fn expect(&mut self, want: TokenKind) -> (r: Result<(), ParseError>)
        requires
            old(self).pos <= old(self).tokens.len(),
            !(want is Identifier || want is Float || want is Int || want is Comment),
        ensures
            final(self).tokens == old(self).tokens,
            r is Ok == (old(self).pos < old(self).tokens.len() && old(self).tokens@[old(
                self,
            ).pos as int].value == want),
            r is Ok ==> final(self).pos == old(self).pos + 1,
            r is Err ==> final(self).pos == old(self).pos,
            r matches Err(e) ==> e.expected == Expected::Token(want),
    {
        if self.at(&want) {
            self.pos += 1;
            Ok(())
        } else {
            Err(self.error(Expected::Token(want)))
        }
    }

    /// Consumes the next token if it is a name, and returns the name.
    fn identifier(&mut self) -> (r: Result<PositionContainer<String>, ParseError>)
        requires
            old(self).pos <= old(self).tokens.len(),
        ensures
            final(self).tokens == old(self).tokens,
            r is Ok == (old(self).pos < old(self).tokens.len() && old(self).tokens@[old(
                self,
            ).pos as int].value is Identifier),
            r matches Ok(name) ==> {
                let t = old(self).tokens@[old(self).pos as int];
                &&& final(self).pos == old(self).pos + 1
                &&& name.value == t.value->Identifier_0
                &&& name.line == t.line
                &&& name.column == t.column
            },
            r is Err ==> final(self).pos == old(self).pos,
            r matches Err(e) ==> name_missing(old(self).tokens@, old(self).pos - 1, e),
    {
        if self.pos < self.tokens.len() {
            let t = &self.tokens[self.pos];
            if let TokenKind::Identifier(name) = &t.value {
                let r = PositionContainer::new(name.clone(), t.line, t.column);
                self.pos += 1;
                return Ok(r);
            }
        }
        Err(self.error(Expected::Identifier))
    }

    /// Parses a data type: `ptr` any number of times, then `int`, `float` or
    /// the name of a struct.
    pub fn data_type(&mut self) -> (r: Result<PositionContainer<DataType>, ParseError>)
        requires
            old(self).wf(),
        ensures
            final(self).wf(),
            final(self).token_seq() == old(self).token_seq(),
            old(self).position() <= final(self).position(),
            r is Ok == starts_data_type(old(self).token_seq(), old(self).position()),
            r is Ok == type_end(old(self).token_seq(), old(self).position()) is Some,
            r is Ok ==> type_end(old(self).token_seq(), old(self).position()) == Some(
                final(self).position(),
            ),
            r matches Ok(t) ==> {
                let first = old(self).token_seq()[old(self).position()];
                &&& data_type_at(
                    old(self).token_seq(),
                    old(self).position(),
                    final(self).position(),
                    t.value,
                )
                &&& t.line == first.line
                &&& t.column == first.column
            },
            r matches Err(e) ==> e.expected == Expected::DataType,
        decreases old(self).token_seq().len() - old(self).position(),
    {
        if self.pos < self.tokens.len() {
            let line = self.tokens[self.pos].line;
            let column = self.tokens[self.pos].column;
            match &self.tokens[self.pos].value {
                TokenKind::Pointer => {
                    self.pos += 1;
                    let inner = self.data_type()?;
                    return Ok(PositionContainer::new(DataType::Pointer(Box::new(inner)), line, column));
                },
                TokenKind::Identifier(name) => {
                    let int_name = String::from_str("int");
                    let float_name = String::from_str("float");
                    proof {
                        reveal_strlit("int");
                        reveal_strlit("float");
                        assert(int_name@ =~= seq!['i', 'n', 't']);
                        assert(float_name@ =~= seq!['f', 'l', 'o', 'a', 't']);
                    }
                    let t = if *name == int_name {
                        DataType::Basic(BasicDataType::Int)
                    } else if *name == float_name {
                        DataType::Basic(BasicDataType::Float)
                    } else {
                        DataType::Struct(name.clone())
                    };
                    self.pos += 1;
                    return Ok(PositionContainer::new(t, line, column));
                },
                _ => {},
            }
        }
        Err(self.error(Expected::DataType))
    }

    /// The binary operator of the next token, with its precedence.
    fn operator(&self) -> (r: Option<(BinaryOperator, u8)>)
        requires
            self.pos <= self.tokens.len(),
        ensures
            self.pos < self.tokens.len() ==> r == operator_of(self.tokens@[self.pos as int].value),
            self.pos == self.tokens.len() ==> r is None,
    {
        if self.pos >= self.tokens.len() {
            return None;
        }
        match &self.tokens[self.pos].value {
            TokenKind::Star => Some((BinaryOperator::Multiply, 3)),
            TokenKind::Slash => Some((BinaryOperator::Divide, 3)),
            TokenKind::Plus => Some((BinaryOperator::Add, 2)),
            TokenKind::Minus => Some((BinaryOperator::Subtract, 2)),
            TokenKind::Less => Some((BinaryOperator::Less, 1)),
            TokenKind::Greater => Some((BinaryOperator::Greater, 1)),
            TokenKind::EqualEqual => Some((BinaryOperator::Equal, 1)),
            TokenKind::NotEqual => Some((BinaryOperator::NotEqual, 1)),
            _ => None,
        }
    }

    /// Parses a literal, a variable, a call or a parenthesized expression.
    fn primary(&mut self) -> (r: Result<Expression, ParseError>)
        requires
            old(self).pos <= old(self).tokens.len(),
        ensures
            r is Ok ==> primary_end(old(self).tokens@, old(self).pos as int) == Some(final(self).pos as int),
            r is Err ==> primary_end(old(self).tokens@, old(self).pos as int) is None,
            moved(*old(self), *final(self)),
            r is Ok ==> final(self).pos > old(self).pos,
            r matches Ok(x) ==> primary_at(
                old(self).tokens@,
                old(self).pos as int,
                final(self).pos as int,
                x,
            ),
            r matches Err(e) ==> old(self).pos < old(self).tokens.len() && !(old(self).tokens@[old(
                self,
            ).pos as int].value is Identifier || old(self).tokens@[old(self).pos as int].value is Int
                || old(self).tokens@[old(self).pos as int].value is Float || old(self).tokens@[old(
                self,
            ).pos as int].value is OpeningParentheses) ==> e.expected == Expected::Expression,
        decreases old(self).tokens@.len() - old(self).pos, 1int,
    {
        if self.pos < self.tokens.len() {
            let line = self.tokens[self.pos].line;
            let column = self.tokens[self.pos].column;
            match &self.tokens[self.pos].value {
                TokenKind::Int(v) => {
                    let n = PositionContainer::new(NumberKind::Int(*v), line, column);
                    self.pos += 1;
                    return Ok(Expression::Number(n));
                },
                TokenKind::Float(text) => {
                    let n = PositionContainer::new(NumberKind::Float(text.clone()), line, column);
                    self.pos += 1;
                    return Ok(Expression::Number(n));
                },
                TokenKind::Identifier(name) => {
                    let name = PositionContainer::new(name.clone(), line, column);
                    self.pos += 1;
                    if self.at(&TokenKind::OpeningParentheses) && self.tokens[self.pos].line == line {
                        let params = self.call_arguments()?;
                        return Ok(Expression::FunctionCall(FunctionCall { name, params }));
                    }
                    return Ok(Expression::Variable(name));
                },
                TokenKind::OpeningParentheses => {
                    self.pos += 1;
                    let inner = self.expression()?;
                    self.expect(TokenKind::ClosingParentheses)?;
                    return Ok(inner);
                },
                _ => {},
            }
        }
        Err(self.error(Expected::Expression))
    }

    /// Parses `(`, expressions separated by `,`, then `)`.
    fn call_arguments(&mut self) -> (r: Result<Vec<Expression>, ParseError>)
        requires
            token_is(old(self).tokens@, old(self).pos as int, TokenKind::OpeningParentheses),
            old(self).pos <= old(self).tokens.len(),
        ensures
            r is Ok ==> call_end(old(self).tokens@, old(self).pos as int) == Some(final(self).pos as int),
            r is Err ==> call_end(old(self).tokens@, old(self).pos as int) is None,
            moved(*old(self), *final(self)),
            r is Ok ==> final(self).pos > old(self).pos,
            r matches Ok(ps) ==> {
                let toks = old(self).tokens@;
                &&& final(self).pos >= old(self).pos + 2
                &&& toks[old(self).pos as int].value is OpeningParentheses
                &&& toks[final(self).pos - 1].value is ClosingParentheses
                &&& arguments_at(toks, old(self).pos + 1, final(self).pos - 1, ps@)
            },
        decreases old(self).tokens@.len() - old(self).pos, 0int,
    {
        self.expect(TokenKind::OpeningParentheses)?;
        let mut params: Vec<Expression> = Vec::new();
        if self.at(&TokenKind::ClosingParentheses) {
            self.pos += 1;
            return Ok(params);
        }
        loop
            invariant
                moved(*old(self), *self),
                self.pos > old(self).pos,
                self.tokens@[old(self).pos as int].value is OpeningParentheses,
                call_end(self.tokens@, old(self).pos as int) == arguments_end(
                    self.tokens@,
                    self.pos as int,
                ),
                params@.len() == 0 ==> self.pos == old(self).pos + 1,
                params@.len() > 0 ==> self.pos >= old(self).pos + 3 && self.tokens@[self.pos
                    - 1].value is Comma && arguments_at(
                    self.tokens@,
                    old(self).pos + 1,
                    self.pos - 1,
                    params@,
                ),
            decreases self.tokens@.len() - self.pos,
        {
            let ghost before = params@;
            let ghost m = self.pos - 1;
            let e = self.expression()?;
            let ghost eg = e;
            params.push(e);
            proof {
                let toks = self.tokens@;
                let start = old(self).pos + 1;
                assert(params@.last() == eg);
                if before.len() == 0 {
                    assert(expression_at(toks, start, self.pos as int, params@[0]));
                } else {
                    assert(start < m < self.pos);
                    assert(toks[m].value is Comma);
                    assert(expression_at(toks, m + 1, self.pos as int, params@.last()));
                }
                assert(params@.drop_last() =~= before);
                if before.len() > 0 {
                    assert(arguments_at(self.tokens@, old(self).pos + 1, m, params@.drop_last()));
                }
                assert(arguments_at(self.tokens@, old(self).pos + 1, self.pos as int, params@));
            }
            if self.at(&TokenKind::Comma) {
                self.pos += 1;
            } else {
                self.expect(TokenKind::ClosingParentheses)?;
                return Ok(params);
            }
        }
    }

    /// Parses an expression whose binary operators bind at least as tightly
    /// as `min_precedence`; operators of equal precedence group to the left.
    fn binary(&mut self, min_precedence: u8) -> (r: Result<Expression, ParseError>)
        requires
            old(self).pos <= old(self).tokens.len(),
        ensures
            r is Ok ==> binary_end(old(self).tokens@, old(self).pos as int, min_precedence as int) == Some(final(self).pos as int),
            r is Err ==> binary_end(old(self).tokens@, old(self).pos as int, min_precedence as int) is None,
            moved(*old(self), *final(self)),
            r is Ok ==> final(self).pos > old(self).pos,
            r matches Ok(x) ==> binary_at(
                old(self).tokens@,
                old(self).pos as int,
                final(self).pos as int,
                x,
                min_precedence as int,
            ),
        decreases old(self).tokens@.len() - old(self).pos, 2int,
    {
        let mut lhs = self.primary()?;
        loop
            invariant
                moved(*old(self), *self),
                self.pos > old(self).pos,
                chain_at(
                    self.tokens@,
                    old(self).pos as int,
                    self.pos as int,
                    lhs,
                    min_precedence as int,
                ),
                binary_end(self.tokens@, old(self).pos as int, min_precedence as int) == operators_end(
                    self.tokens@,
                    self.pos as int,
                    min_precedence as int,
                ),
            decreases self.tokens@.len() - self.pos,
        {
            let next = self.operator();
            let (op, precedence) = match next {
                Some(found) => found,
                None => {
                    return Ok(lhs);
                },
            };
            if precedence < min_precedence {
                return Ok(lhs);
            }
            let t = &self.tokens[self.pos];
            let operator = PositionContainer::new(op, t.line, t.column);
            self.pos += 1;
            let ghost m = self.pos - 1;
            let ghost left = lhs;
            let rhs = self.binary(precedence + 1)?;
            let ghost rg = rhs;
            let ghost og = operator;
            lhs = Expression::BinaryExpression(
                BinaryExpression { lhs: Box::new(lhs), operator, rhs: Box::new(rhs) },
            );
            proof {
                let toks = self.tokens@;
                assert(chain_at(toks, old(self).pos as int, m, left, min_precedence as int));
                assert(old(self).pos < m < self.pos - 1);
                assert(operator_of(toks[m].value) == Some((op, precedence)));
                assert(binary_at(toks, m + 1, self.pos as int, rg, precedence + 1));
                if let Expression::BinaryExpression(ref b) = lhs {
                    assert(*b.lhs == left);
                    assert(*b.rhs == rg);
                    assert(b.operator == og);
                    assert(og.line == toks[m].line);
                }
                assert(chain_at(
                    self.tokens@,
                    old(self).pos as int,
                    self.pos as int,
                    lhs,
                    min_precedence as int,
                ));
            }
        }
    }

    /// Parses an expression.
    fn expression(&mut self) -> (r: Result<Expression, ParseError>)
        requires
            old(self).pos <= old(self).tokens.len(),
        ensures
            r is Ok ==> expression_end(old(self).tokens@, old(self).pos as int) == Some(final(self).pos as int),
            r is Err ==> expression_end(old(self).tokens@, old(self).pos as int) is None,
            moved(*old(self), *final(self)),
            r is Ok ==> final(self).pos > old(self).pos,
            r matches Ok(x) ==> expression_at(
                old(self).tokens@,
                old(self).pos as int,
                final(self).pos as int,
                x,
            ),
        decreases old(self).tokens@.len() - old(self).pos, 3int,
    {
        self.binary(1)
    }

    /// Whether the next token is the name `return`.
    fn at_return(&self) -> (r: bool)
        requires
            self.pos <= self.tokens.len(),
        ensures
            r == (self.pos < self.tokens.len() && is_return(self.tokens@[self.pos as int].value)),
    {
        if self.pos < self.tokens.len() {
            if let TokenKind::Identifier(name) = &self.tokens[self.pos].value {
                let word = String::from_str("return");
                proof {
                    reveal_strlit("return");
                    assert(word@ =~= seq!['r', 'e', 't', 'u', 'r', 'n']);
                }
                return *name == word;
            }
        }
        false
    }

    /// Whether the next two tokens are a name and `=`.
    fn at_assignment(&self) -> (r: bool)
        requires
            self.pos <= self.tokens.len(),
        ensures
            r == (self.pos + 1 < self.tokens.len() && self.tokens@[self.pos as int].value is Identifier
                && self.tokens@[self.pos + 1].value is Equal),
    {
        self.tokens.len() - self.pos > 1 && matches!(self.tokens[self.pos].value, TokenKind::Identifier(_))
            && matches!(self.tokens[self.pos + 1].value, TokenKind::Equal)
    }

    /// Parses `{`, instructions, then `}`.
    fn block(&mut self) -> (r: Result<Vec<Instruction>, ParseError>)
        requires
            old(self).pos <= old(self).tokens.len(),
        ensures
            r is Ok ==> block_end(old(self).tokens@, old(self).pos as int) == Some(final(self).pos as int),
            r is Err ==> block_end(old(self).tokens@, old(self).pos as int) is None,
            moved(*old(self), *final(self)),
            r is Ok ==> final(self).pos > old(self).pos,
            r matches Ok(xs) ==> block_at(old(self).tokens@, old(self).pos as int, final(self).pos as int, xs@),
        decreases old(self).tokens@.len() - old(self).pos, 0int,
    {
        self.expect(TokenKind::OpeningCurlyBraces)?;
        let mut instructions: Vec<Instruction> = Vec::new();
        loop
            invariant
                moved(*old(self), *self),
                self.pos > old(self).pos,
                self.tokens@[old(self).pos as int].value is OpeningCurlyBraces,
                block_end(self.tokens@, old(self).pos as int) == instructions_end(
                    self.tokens@,
                    self.pos as int,
                ),
                instructions_at(self.tokens@, old(self).pos + 1, self.pos as int, instructions@),
            decreases self.tokens@.len() - self.pos,
        {
            if self.at(&TokenKind::ClosingCurlyBraces) {
                self.pos += 1;
                return Ok(instructions);
            }
            if self.pos == self.tokens.len() {
                return Err(self.error(Expected::Token(TokenKind::ClosingCurlyBraces)));
            }
            let ghost before = instructions@;
            let ghost m = self.pos as int;
            let instruction = self.instruction()?;
            instructions.push(instruction);
            proof {
                assert(instructions@.drop_last() =~= before);
                assert(in_bounds(self.tokens@, m));
            }
        }
    }

    /// Parses one instruction, chosen by its first token: `var`, `if`,
    /// `while`, `return`, a name followed by `=`, or else an expression.
    fn instruction(&mut self) -> (r: Result<Instruction, ParseError>)
        requires
            old(self).pos <= old(self).tokens.len(),
        ensures
            r is Ok ==> instruction_end(old(self).tokens@, old(self).pos as int) == Some(final(self).pos as int),
            r is Err ==> instruction_end(old(self).tokens@, old(self).pos as int) is None,
            moved(*old(self), *final(self)),
            r is Ok ==> final(self).pos > old(self).pos,
            r matches Ok(x) ==> instruction_at(old(self).tokens@, old(self).pos as int, final(self).pos as int, x),
        decreases old(self).tokens@.len() - old(self).pos, 4int,
    {
        if self.at(&TokenKind::Var) {
            Ok(Instruction::Statement(Statement::VariableDeclaration(self.variable_declaration()?)))
        } else if self.at(&TokenKind::If) {
            Ok(Instruction::IfElse(Box::new(self.if_else()?)))
        } else if self.at(&TokenKind::While) {
            Ok(Instruction::WhileLoop(Box::new(self.while_loop()?)))
        } else if self.at_return() {
            self.pos += 1;
            Ok(Instruction::Statement(Statement::Return(self.expression()?)))
        } else if self.at_assignment() {
            Ok(Instruction::Statement(Statement::VariableAssignment(self.assignment()?)))
        } else {
            Ok(Instruction::Expression(self.expression()?))
        }
    }

    /// Parses `var name = value`.
    fn variable_declaration(&mut self) -> (r: Result<VariableDeclaration, ParseError>)
        requires
            token_is(old(self).tokens@, old(self).pos as int, TokenKind::Var),
            old(self).pos <= old(self).tokens.len(),
        ensures
            r is Ok ==> instruction_end(old(self).tokens@, old(self).pos as int) == Some(final(self).pos as int),
            r is Err ==> instruction_end(old(self).tokens@, old(self).pos as int) is None,
            moved(*old(self), *final(self)),
            r is Ok ==> final(self).pos > old(self).pos,
            r matches Ok(d) ==> instruction_at(
                old(self).tokens@, old(self).pos as int, final(self).pos as int,
                Instruction::Statement(Statement::VariableDeclaration(d)),
            ),
        decreases old(self).tokens@.len() - old(self).pos, 0int,
    {
        self.expect(TokenKind::Var)?;
        let name = self.identifier()?;
        self.expect(TokenKind::Equal)?;
        let value = self.expression()?;
        Ok(VariableDeclaration { name, value })
    }

    /// Parses `name = value`.
    fn assignment(&mut self) -> (r: Result<VariableAssignment, ParseError>)
        requires
            old(self).pos as int + 1 < old(self).tokens@.len(),
            old(self).tokens@[old(self).pos as int].value is Identifier,
            old(self).tokens@[old(self).pos as int + 1].value is Equal,
            !is_return(old(self).tokens@[old(self).pos as int].value),
            old(self).pos <= old(self).tokens.len(),
        ensures
            r is Ok ==> instruction_end(old(self).tokens@, old(self).pos as int) == Some(final(self).pos as int),
            r is Err ==> instruction_end(old(self).tokens@, old(self).pos as int) is None,
            moved(*old(self), *final(self)),
            r is Ok ==> final(self).pos > old(self).pos,
            r matches Ok(a) ==> !is_return(old(self).tokens@[old(self).pos as int].value) ==> instruction_at(
                old(self).tokens@, old(self).pos as int, final(self).pos as int,
                Instruction::Statement(Statement::VariableAssignment(a)),
            ),
        decreases old(self).tokens@.len() - old(self).pos, 0int,
    {
        let name = self.identifier()?;
        self.expect(TokenKind::Equal)?;
        let value = self.expression()?;
        Ok(VariableAssignment { name, value })
    }

    /// Parses `if (condition) { ... }`, with an optional `else { ... }`; an
    /// absent `else` gives an empty `if_false`.
    fn if_else(&mut self) -> (r: Result<IfElse, ParseError>)
        requires
            token_is(old(self).tokens@, old(self).pos as int, TokenKind::If),
            old(self).pos <= old(self).tokens.len(),
        ensures
            r is Ok ==> instruction_end(old(self).tokens@, old(self).pos as int) == Some(final(self).pos as int),
            r is Err ==> instruction_end(old(self).tokens@, old(self).pos as int) is None,
            moved(*old(self), *final(self)),
            r is Ok ==> final(self).pos > old(self).pos,
            r matches Ok(b) ==> instruction_at(old(self).tokens@, old(self).pos as int, final(self).pos as int, Instruction::IfElse(Box::new(b))),
        decreases old(self).tokens@.len() - old(self).pos, 0int,
    {
        self.expect(TokenKind::If)?;
        self.expect(TokenKind::OpeningParentheses)?;
        let condition = self.expression()?;
        self.expect(TokenKind::ClosingParentheses)?;
        let if_true = self.block()?;
        let ghost m = self.pos as int;
        proof {
            assert(in_bounds(self.tokens@, m - 1));
        }
        let if_false = if self.at(&TokenKind::Else) {
            self.pos += 1;
            self.block()?
        } else {
            Vec::new()
        };
        Ok(IfElse { condition, if_true, if_false })
    }

    /// Parses `while (condition) { ... }`.
    fn while_loop(&mut self) -> (r: Result<WhileLoop, ParseError>)
        requires
            token_is(old(self).tokens@, old(self).pos as int, TokenKind::While),
            old(self).pos <= old(self).tokens.len(),
        ensures
            r is Ok ==> instruction_end(old(self).tokens@, old(self).pos as int) == Some(final(self).pos as int),
            r is Err ==> instruction_end(old(self).tokens@, old(self).pos as int) is None,
            moved(*old(self), *final(self)),
            r is Ok ==> final(self).pos > old(self).pos,
            r matches Ok(w) ==> instruction_at(old(self).tokens@, old(self).pos as int, final(self).pos as int, Instruction::WhileLoop(Box::new(w))),
        decreases old(self).tokens@.len() - old(self).pos, 0int,
    {
        self.expect(TokenKind::While)?;
        self.expect(TokenKind::OpeningParentheses)?;
        let condition = self.expression()?;
        self.expect(TokenKind::ClosingParentheses)?;
        let body = self.block()?;
        Ok(WhileLoop { condition, body })
    }

    /// Parses `name: data_type`.
    fn typed_name(&mut self) -> (r: Result<(PositionContainer<String>, PositionContainer<DataType>), ParseError>)
        requires
            old(self).pos <= old(self).tokens.len(),
        ensures
            r is Ok ==> old(self).tokens@[old(self).pos as int].value is Identifier && old(self).tokens@[old(self).pos as int + 1].value is Colon
                && type_end(old(self).tokens@, old(self).pos as int + 2) == Some(final(self).pos as int),
            r is Err ==> !(old(self).pos as int + 1 < old(self).tokens@.len() && old(self).tokens@[old(self).pos as int].value is Identifier && old(self).tokens@[old(self).pos as int
                + 1].value is Colon) || type_end(old(self).tokens@, old(self).pos as int + 2) is None,
            moved(*old(self), *final(self)),
            r is Ok ==> final(self).pos > old(self).pos,
            r matches Ok(item) ==> typed_at(
                old(self).tokens@,
                old(self).pos as int,
                final(self).pos as int,
                item,
            ),
    {
        let name = self.identifier()?;
        self.expect(TokenKind::Colon)?;
        let data_type = self.data_type()?;
        Ok((name, data_type))
    }

    /// Parses `function name(arguments) { ... }`. Arguments are `name: type`,
    /// separated by `,`; a `,` before the `)` is allowed.
    fn function(&mut self) -> (r: Result<FunctionDefinition, ParseError>)
        requires
            token_is(old(self).tokens@, old(self).pos as int, TokenKind::Def),
            old(self).pos <= old(self).tokens.len(),
        ensures
            r is Ok ==> node_end(old(self).tokens@, old(self).pos as int) == Some(final(self).pos as int),
            r is Err ==> node_end(old(self).tokens@, old(self).pos as int) is None,
            moved(*old(self), *final(self)),
            r is Ok ==> final(self).pos > old(self).pos,
            r matches Ok(f) ==> function_at(old(self).tokens@, old(self).pos as int, final(self).pos as int, f),
            misses_name(old(self).tokens@, old(self).pos as int, TokenKind::Def) ==> (r matches Err(
                e,
            ) && name_missing(old(self).tokens@, old(self).pos as int, e)),
        decreases old(self).tokens@.len() - old(self).pos, 0int,
    {
        self.expect(TokenKind::Def)?;
        let name = self.identifier()?;
        self.expect(TokenKind::OpeningParentheses)?;
        let mut args: Vec<FunctionArgument> = Vec::new();
        let ghost start = old(self).pos + 3;
        loop
            invariant_except_break
                typed_list_end(self.tokens@, start, TokenKind::ClosingParentheses) == typed_list_end(
                    self.tokens@,
                    self.pos as int,
                    TokenKind::ClosingParentheses,
                ),
                items_at(self.tokens@, start, self.pos as int, argument_pairs(args@)),
            invariant
                moved(*old(self), *self),
                !misses_name(old(self).tokens@, old(self).pos as int, TokenKind::Def),
                start <= self.pos,
                node_end(self.tokens@, old(self).pos as int) == match typed_list_end(
                    self.tokens@,
                    start,
                    TokenKind::ClosingParentheses,
                ) {
                    Some(c) => block_end(self.tokens@, c),
                    None => None,
                },
                self.tokens@[old(self).pos as int].value is Def,
                self.tokens@[old(self).pos + 2].value is OpeningParentheses,
            ensures
                start < self.pos,
                self.tokens@[self.pos - 1].value is ClosingParentheses,
                typed_list_end(self.tokens@, start, TokenKind::ClosingParentheses) == Some(self.pos as int),
                typed_list_at(self.tokens@, start, self.pos - 1, argument_pairs(args@)),
            decreases self.tokens@.len() - self.pos,
        {
            if self.at(&TokenKind::ClosingParentheses) {
                self.pos += 1;
                break;
            }
            let ghost m = self.pos as int;
            let ghost before = args@;
            let (item_name, data_type) = self.typed_name()?;
            let ghost item = (item_name, data_type);
            args.push(FunctionArgument { name: item_name, data_type });
            proof {
                assert(argument_pairs(args@) =~= argument_pairs(before).push(item));
                assert(argument_pairs(args@).drop_last() =~= argument_pairs(before));
                assert(in_bounds(self.tokens@, m));
            }
            if self.at(&TokenKind::Comma) {
                self.pos += 1;
            } else {
                self.expect(TokenKind::ClosingParentheses)?;
                break;
            }
        }
        let ghost c = self.pos - 1;
        let body = self.block()?;
        proof {
            assert(in_bounds(self.tokens@, c));
        }
        Ok(FunctionDefinition { prototype: FunctionPrototype { name, args }, body })
    }

    /// Parses `struct Name { fields }`. Fields are `name: type`, separated by
    /// `,`; a `,` before the `}` is allowed.
    fn struct_(&mut self) -> (r: Result<Struct, ParseError>)
        requires
            token_is(old(self).tokens@, old(self).pos as int, TokenKind::Struct),
            old(self).pos <= old(self).tokens.len(),
        ensures
            r is Ok ==> node_end(old(self).tokens@, old(self).pos as int) == Some(final(self).pos as int),
            r is Err ==> node_end(old(self).tokens@, old(self).pos as int) is None,
            moved(*old(self), *final(self)),
            r is Ok ==> final(self).pos > old(self).pos,
            r matches Ok(st) ==> struct_at(old(self).tokens@, old(self).pos as int, final(self).pos as int, st),
            misses_name(old(self).tokens@, old(self).pos as int, TokenKind::Struct) ==> (r matches Err(
                e,
            ) && name_missing(old(self).tokens@, old(self).pos as int, e)),
        decreases old(self).tokens@.len() - old(self).pos, 0int,
    {
        self.expect(TokenKind::Struct)?;
        let name = self.identifier()?;
        self.expect(TokenKind::OpeningCurlyBraces)?;
        let mut fields: Vec<StructField> = Vec::new();
        let ghost start = old(self).pos + 3;
        loop
            invariant_except_break
                typed_list_end(self.tokens@, start, TokenKind::ClosingCurlyBraces) == typed_list_end(
                    self.tokens@,
                    self.pos as int,
                    TokenKind::ClosingCurlyBraces,
                ),
                items_at(self.tokens@, start, self.pos as int, field_pairs(fields@)),
            invariant
                moved(*old(self), *self),
                !misses_name(old(self).tokens@, old(self).pos as int, TokenKind::Struct),
                start <= self.pos,
                node_end(self.tokens@, old(self).pos as int) == typed_list_end(
                    self.tokens@,
                    start,
                    TokenKind::ClosingCurlyBraces,
                ),
                self.tokens@[old(self).pos as int].value is Struct,
                self.tokens@[old(self).pos + 2].value is OpeningCurlyBraces,
            ensures
                start < self.pos,
                self.tokens@[self.pos - 1].value is ClosingCurlyBraces,
                typed_list_end(self.tokens@, start, TokenKind::ClosingCurlyBraces) == Some(self.pos as int),
                typed_list_at(self.tokens@, start, self.pos - 1, field_pairs(fields@)),
            decreases self.tokens@.len() - self.pos,
        {
            if self.at(&TokenKind::ClosingCurlyBraces) {
                self.pos += 1;
                break;
            }
            let ghost m = self.pos as int;
            let ghost before = fields@;
            let (item_name, data_type) = self.typed_name()?;
            let ghost item = (item_name, data_type);
            fields.push(StructField { name: item_name, data_type });
            proof {
                assert(field_pairs(fields@) =~= field_pairs(before).push(item));
                assert(field_pairs(fields@).drop_last() =~= field_pairs(before));
                assert(in_bounds(self.tokens@, m));
            }
            if self.at(&TokenKind::Comma) {
                self.pos += 1;
            } else {
                self.expect(TokenKind::ClosingCurlyBraces)?;
                break;
            }
        }
        Ok(Struct { name, fields })
    }

    /// Parses one top-level declaration: a function or a struct.
    fn ast_node(&mut self) -> (r: Result<Node, ParseError>)
        requires
            old(self).pos < old(self).tokens.len(),
        ensures
            r is Ok ==> node_end(old(self).tokens@, old(self).pos as int) == Some(final(self).pos as int),
            r is Err ==> node_end(old(self).tokens@, old(self).pos as int) is None,
            moved(*old(self), *final(self)),
            r is Ok ==> final(self).pos > old(self).pos,
            declared_at(old(self).tokens@, old(self).pos as int, r),
            r matches Ok(n) ==> node_at(
                old(self).tokens@,
                old(self).pos as int,
                final(self).pos as int,
                n,
            ),
    {
        if self.at(&TokenKind::Def) {
            Ok(Node::Function(self.function()?))
        } else if self.at(&TokenKind::Struct) {
            Ok(Node::Struct(self.struct_()?))
        } else {
            Err(self.error(Expected::Declaration))
        }
    }

    /// The tokens not consumed yet.
    pub closed spec fn remaining(&self) -> Seq<Token> {
        self.tokens@.skip(self.pos as int)
    }

    /// All the significant tokens, consumed or not.
    pub closed spec fn token_seq(&self) -> Seq<Token> {
        self.tokens@
    }

    /// The index in `token_seq` of the next token.
    pub closed spec fn position(&self) -> int {
        self.pos as int
    }

    pub closed spec fn wf(&self) -> bool {
        self.pos <= self.tokens.len()
    }

    /// The tokens not consumed are those from `position` on.
    pub proof fn lemma_remaining_len(&self)
        requires
            self.wf(),
        ensures
            self.remaining().len() == self.token_seq().len() - self.position(),
    {
    }

    /// The next top-level declaration, or `None` when no token is left.
    /// A declaration that fails to parse ends the sequence: the tokens after
    /// the failure are dropped, and every later call returns `None`.
    pub fn next_node(&mut self) -> (r: Option<Result<Node, ParseError>>)
        requires
            old(self).wf(),
        ensures
            final(self).wf(),
            r is None <==> old(self).remaining().len() == 0,
            r is Some ==> final(self).remaining().len() < old(self).remaining().len(),
            r matches Some(Err(_)) ==> final(self).remaining().len() == 0,
            r matches Some(x) ==> declared_at(old(self).token_seq(), old(self).position(), x),
            old(self).remaining().len() > 0 ==> (r matches Some(Ok(_)) <==> node_end(
                old(self).token_seq(),
                old(self).position(),
            ) is Some),
            r matches Some(Ok(_)) ==> node_end(old(self).token_seq(), old(self).position()) == Some(
                final(self).position(),
            ),
            (exists|e: int, n: Node| #[trigger] node_at(old(self).token_seq(), old(self).position(), e, n))
                ==> r matches Some(Ok(_)),
            r matches Some(Ok(n)) ==> node_at(
                old(self).token_seq(),
                old(self).position(),
                final(self).position(),
                n,
            ),
            final(self).token_seq() == old(self).token_seq(),
            old(self).position() <= final(self).position(),
    {
        proof {
            if exists|e: int, n: Node| #[trigger] node_at(self.tokens@, self.pos as int, e, n) {
                let (e, n) = choose|e: int, n: Node| #[trigger] node_at(self.tokens@, self.pos as int, e, n);
                lemma_node_end(self.tokens@, self.pos as int, e, n);
            }
        }
        if self.pos >= self.tokens.len() {
            return None;
        }
        match self.ast_node() {
            Ok(node) => Some(Ok(node)),
            Err(e) => {
                self.pos = self.tokens.len();
                Some(Err(e))
            },
        }
    }
}

/// A failure to read a text: in its tokens, or in its structure.
#[derive(Debug, Clone, PartialEq)]
pub enum SyntaxError {
    Lex(LexError),
    Parse(ParseError),
}

/// Parses tokens into their top-level declarations, comments and line
/// breaks aside. Succeeds exactly when the tokens read as declarations; the
/// first declaration that does not read is the error.
pub fn parse_tokens(tokens: Vec<Token>) -> (r: Result<Vec<Node>, ParseError>)
    ensures
        r is Ok <==> program_accepts(significant(tokens@), 0),
        (exists|ns: Seq<Node>|
            nodes_at(significant(tokens@), 0, significant(tokens@).len() as int, ns)) ==> r is Ok,
        r matches Ok(nodes) ==> nodes_at(
            significant(tokens@),
            0,
            significant(tokens@).len() as int,
            nodes@,
        ),
        r matches Err(e) ==> exists|nodes: Seq<Node>, m: int|
            #[trigger] nodes_at(significant(tokens@), 0, m, nodes) && #[trigger] declared_at(
                significant(tokens@),
                m,
                Err::<Node, ParseError>(e),
            ),
{
    let ghost all = significant(tokens@);
    let mut parser = Parser::new(tokens);
    let mut nodes: Vec<Node> = Vec::new();
    proof {
        if exists|ns: Seq<Node>| nodes_at(all, 0, all.len() as int, ns) {
            let ns = choose|ns: Seq<Node>| nodes_at(all, 0, all.len() as int, ns);
            lemma_program_accepts(all, ns);
        }
    }
    loop
        invariant
            parser.wf(),
            all == significant(tokens@),
            (exists|ns: Seq<Node>| nodes_at(all, 0, all.len() as int, ns)) ==> program_accepts(
                all,
                0,
            ),
            parser.token_seq() == all,
            nodes_at(all, 0, parser.position(), nodes@),
            program_accepts(all, 0) == program_accepts(all, parser.position()),
        decreases parser.remaining().len(),
    {
        let ghost m = parser.position();
        let ghost before = nodes@;
        proof {
            parser.lemma_remaining_len();
        }
        match parser.next_node() {
            None => {
                proof {
                    assert(m == all.len());
                    assert(program_accepts(all, m));
                }
                return Ok(nodes);
            },
            Some(Ok(node)) => {
                nodes.push(node);
                proof {
                    assert(nodes@.drop_last() =~= before);
                    assert(in_bounds(all, m));
                }
            },
            Some(Err(e)) => {
                proof {
                    assert(declared_at(all, m, Err::<Node, ParseError>(e)));
                    assert(node_end(all, m) is None);
                    assert(!program_accepts(all, m));
                }
                return Err(e);
            },
        }
    }
}

/// Tokenizes and parses a whole text into its top-level declarations.
/// A lexical error is reported as soon as the text holds one; otherwise the
/// text parses exactly when its tokens read as declarations, and the first
/// declaration that does not read is the error.
pub fn parse_program(text: &str) -> (r: Result<Vec<Node>, SyntaxError>)
    requires
        text@.len() < usize::MAX,
    ensures
        lex_spans(text@, 0) is Err <==> r matches Err(SyntaxError::Lex(_)),
        r matches Err(SyntaxError::Lex(e)) ==> lex_failure(text@, e),
        r matches Ok(nodes) ==> exists|tokens: Seq<Token>|
            #[trigger] tokenization(text@, tokens) && program_accepts(significant(tokens), 0)
                && nodes_at(
                significant(tokens),
                0,
                significant(tokens).len() as int,
                nodes@,
            ),
        r matches Err(SyntaxError::Parse(e)) ==> exists|tokens: Seq<Token>, nodes: Seq<Node>, m: int|
            #[trigger] tokenization(text@, tokens) && !program_accepts(significant(tokens), 0)
                && !(exists|ns: Seq<Node>|
                nodes_at(significant(tokens), 0, significant(tokens).len() as int, ns))
                && #[trigger] nodes_at(significant(tokens), 0, m, nodes) && #[trigger] declared_at(
                significant(tokens),
                m,
                Err::<Node, ParseError>(e),
            ),
{
    let tokens = match tokenize(text) {
        Ok(tokens) => tokens,
        Err(e) => {
            return Err(SyntaxError::Lex(e));
        },
    };
    let ghost all = tokens@;
    match parse_tokens(tokens) {
        Ok(nodes) => {
            assert(tokenization(text@, all));
            Ok(nodes)
        },
        Err(e) => {
            proof {
                let (nodes, m) = choose|nodes: Seq<Node>, m: int|
                    #[trigger] nodes_at(significant(all), 0, m, nodes) && #[trigger] declared_at(
                        significant(all),
                        m,
                        Err::<Node, ParseError>(e),
                    );
                assert(tokenization(text@, all) && nodes_at(significant(all), 0, m, nodes)
                    && declared_at(significant(all), m, Err::<Node, ParseError>(e)));
            }
            Err(SyntaxError::Parse(e))
        },
    }
}

/// Whether a text that gave `r` may be the start of a longer one: it failed
/// only because its tokens ran out before a declaration was complete.
pub fn needs_more_input(r: &Result<Vec<Node>, SyntaxError>) -> (b: bool)
    ensures
        b == (r matches Err(SyntaxError::Parse(e)) && e.kind is UnexpectedEndOfInput),
{
    match r {
        Err(SyntaxError::Parse(e)) => matches!(e.kind, ParseErrorKind::UnexpectedEndOfInput),
        _ => false,
    }
}

} // verus!
