//! The grammar of the language, as relations between token sequences and
//! the syntax trees read from them.

use vstd::prelude::*;
use crate::ast::{
    BasicDataType, BinaryOperator, DataType, Expression, FunctionArgument, FunctionDefinition,
    Instruction, Node, NumberKind, Statement, Struct, StructField,
};
use crate::parser::{Expected, ParseError, ParseErrorKind};
use crate::position::PositionContainer;
use crate::token::{Token, TokenKind};

verus! {

/// Tokens that carry no structure: comments and line breaks.
pub open spec fn is_trivia(k: TokenKind) -> bool {
    k is Comment || k is EndOfLine
}

/// The tokens of `toks` that are not trivia, in order.
pub open spec fn significant(toks: Seq<Token>) -> Seq<Token>
    decreases toks.len(),
{
    if toks.len() == 0 {
        toks
    } else if is_trivia(toks.last().value) {
        significant(toks.drop_last())
    } else {
        significant(toks.drop_last()).push(toks.last())
    }
}

/// The identifier `return`.
pub open spec fn is_return(k: TokenKind) -> bool {
    k is Identifier && k->Identifier_0@ =~= seq!['r', 'e', 't', 'u', 'r', 'n']
}

/// The binary operator that a token stands for, with its precedence
/// (higher binds tighter).
pub open spec fn operator_of(k: TokenKind) -> Option<(BinaryOperator, u8)> {
    match k {
        TokenKind::Star => Some((BinaryOperator::Multiply, 3u8)),
        TokenKind::Slash => Some((BinaryOperator::Divide, 3u8)),
        TokenKind::Plus => Some((BinaryOperator::Add, 2u8)),
        TokenKind::Minus => Some((BinaryOperator::Subtract, 2u8)),
        TokenKind::Less => Some((BinaryOperator::Less, 1u8)),
        TokenKind::Greater => Some((BinaryOperator::Greater, 1u8)),
        TokenKind::EqualEqual => Some((BinaryOperator::Equal, 1u8)),
        TokenKind::NotEqual => Some((BinaryOperator::NotEqual, 1u8)),
        _ => None,
    }
}

/// The depth of pointers around a data type.
pub open spec fn pointer_depth(t: DataType) -> nat
    decreases t,
{
    match t {
        DataType::Pointer(inner) => pointer_depth(inner.value) + 1,
        _ => 0,
    }
}

/// The data type that the pointers of `t` point to at the bottom.
pub open spec fn pointee(t: DataType) -> DataType
    decreases t,
{
    match t {
        DataType::Pointer(inner) => pointee(inner.value),
        _ => t,
    }
}

/// `t` is the data type written by `toks[i..e]`: `ptr` any number of
/// times, then `int`, `float` or a struct name.
pub open spec fn data_type_at(toks: Seq<Token>, i: int, e: int, t: DataType) -> bool
    decreases t,
{
    &&& 0 <= i < e <= toks.len()
    &&& match t {
        DataType::Pointer(inner) => toks[i].value is Pointer && i + 1 < toks.len() && inner.line
            == toks[i + 1].line && inner.column == toks[i + 1].column && data_type_at(
            toks,
            i + 1,
            e,
            inner.value,
        ),
        DataType::Basic(BasicDataType::Int) => e == i + 1 && toks[i].value is Identifier
            && toks[i].value->Identifier_0@ =~= seq!['i', 'n', 't'],
        DataType::Basic(BasicDataType::Float) => e == i + 1 && toks[i].value is Identifier
            && toks[i].value->Identifier_0@ =~= seq!['f', 'l', 'o', 'a', 't'],
        DataType::Struct(name) => e == i + 1 && toks[i].value is Identifier
            && toks[i].value->Identifier_0@ == name@ && !(name@ =~= seq!['i', 'n', 't']) && !(
        name@ =~= seq!['f', 'l', 'o', 'a', 't']),
    }
}

/// `toks[i..]` starts with a data type: `ptr` some times, then a name.
pub open spec fn starts_data_type(toks: Seq<Token>, i: int) -> bool
    decreases toks.len() - i,
{
    0 <= i < toks.len() && (toks[i].value is Identifier || (toks[i].value is Pointer
        && starts_data_type(toks, i + 1)))
}

/// The token at `i` is the name `name`, and `name` has its position.
pub open spec fn name_token_at(toks: Seq<Token>, i: int, name: PositionContainer<String>) -> bool {
    &&& 0 <= i < toks.len()
    &&& toks[i].value == TokenKind::Identifier(name.value)
    &&& name.line == toks[i].line
    &&& name.column == toks[i].column
}

/// The name `name` stands in `toks` right after the keyword at `i`.
pub open spec fn named_at(toks: Seq<Token>, i: int, name: PositionContainer<String>) -> bool {
    0 <= i && name_token_at(toks, i + 1, name)
}

/// The keyword `keyword` at `i` is not followed by a name.
pub open spec fn misses_name(toks: Seq<Token>, i: int, keyword: TokenKind) -> bool {
    &&& 0 <= i < toks.len()
    &&& toks[i].value == keyword
    &&& !(i + 1 < toks.len() && toks[i + 1].value is Identifier)
}

/// `e` reports that a name was required after the keyword at `i`, and
/// stands at the token found there, if any.
pub open spec fn name_missing(toks: Seq<Token>, i: int, e: ParseError) -> bool {
    &&& e.expected == Expected::Identifier
    &&& i + 1 < toks.len() ==> {
        &&& e.kind == ParseErrorKind::UnexpectedToken(toks[i + 1].value)
        &&& e.line == toks[i + 1].line
        &&& e.column == toks[i + 1].column
    }
    &&& i + 1 >= toks.len() ==> e.kind == ParseErrorKind::UnexpectedEndOfInput
}

/// What reading a declaration at `i` gives, as far as its first two tokens
/// decide: a function after `function`, a struct after `struct`, each named
/// by the next token, or the error that a name is missing; any other first
/// token is an error that stands at it.
pub open spec fn declared_at(toks: Seq<Token>, i: int, r: Result<Node, ParseError>) -> bool {
    &&& 0 <= i < toks.len()
    &&& r matches Ok(Node::Function(f)) ==> toks[i].value is Def && named_at(toks, i, f.prototype.name)
    &&& r matches Ok(Node::Struct(st)) ==> toks[i].value is Struct && named_at(toks, i, st.name)
    &&& misses_name(toks, i, TokenKind::Def) ==> (r matches Err(e) && name_missing(toks, i, e))
    &&& misses_name(toks, i, TokenKind::Struct) ==> (r matches Err(e) && name_missing(toks, i, e))
    &&& !(toks[i].value is Def || toks[i].value is Struct) ==> (r matches Err(e) && e.expected
        == Expected::Declaration && e.kind == ParseErrorKind::UnexpectedToken(toks[i].value)
        && e.line == toks[i].line && e.column == toks[i].column)
}

/// The name at `i` is followed by a `(` on its own line, which makes it a
/// call; a `(` on a later line starts something else.
pub open spec fn opens_call(toks: Seq<Token>, i: int) -> bool {
    0 <= i && i + 1 < toks.len() && toks[i + 1].value is OpeningParentheses && toks[i + 1].line
        == toks[i].line
}

/// `x` is read from `toks[i..e)` as a primary expression: a literal, a
/// variable (a name not followed by `(`), a call, or an expression in
/// parentheses.
pub open spec fn primary_at(toks: Seq<Token>, i: int, e: int, x: Expression) -> bool
    decreases e - i, 0int,
{
    if 0 <= i < e <= toks.len() {
        let t = toks[i];
        if t.value is OpeningParentheses {
            e - i >= 3 && toks[e - 1].value is ClosingParentheses && expression_at(
                toks,
                i + 1,
                e - 1,
                x,
            )
        } else {
            match x {
                Expression::Number(n) => e == i + 1 && n.line == t.line && n.column == t.column
                    && match n.value {
                    NumberKind::Int(v) => t.value == TokenKind::Int(v),
                    NumberKind::Float(f) => t.value == TokenKind::Float(f),
                },
                Expression::Variable(v) => e == i + 1 && v.line == t.line && v.column == t.column
                    && t.value == TokenKind::Identifier(v.value) && !opens_call(toks, i),
                Expression::FunctionCall(c) => c.name.line == t.line && c.name.column == t.column
                    && t.value == TokenKind::Identifier(c.name.value) && e - i >= 3 && opens_call(
                    toks,
                    i,
                ) && toks[e - 1].value is ClosingParentheses
                    && arguments_at(toks, i + 2, e - 1, c.params@),
                Expression::BinaryExpression(_) => false,
            }
        }
    } else {
        false
    }
}

/// `ps` is read from `toks[i..e)` as expressions separated by `,`.
pub open spec fn arguments_at(toks: Seq<Token>, i: int, e: int, ps: Seq<Expression>) -> bool
    decreases e - i, 5int, ps.len(),
{
    if !(0 <= i <= e <= toks.len()) {
        false
    } else if ps.len() == 0 {
        i == e
    } else if ps.len() == 1 {
        expression_at(toks, i, e, ps[0])
    } else {
        exists|m: int|
            i < m < e && arguments_at(toks, i, m, ps.drop_last()) && (#[trigger] toks[m]).value is Comma
                && expression_at(toks, m + 1, e, ps.last())
    }
}

/// `x` is read from `toks[i..e)` as a primary expression followed by binary
/// operators of precedence `min` or more, each with its right operand, grouped
/// to the left.
pub open spec fn chain_at(toks: Seq<Token>, i: int, e: int, x: Expression, min: int) -> bool
    decreases e - i, 2int, x,
{
    primary_at(toks, i, e, x) || match x {
        Expression::BinaryExpression(b) => exists|m: int|
            i < m < e - 1 && chain_at(toks, i, m, *b.lhs, min) && operator_of(
                (#[trigger] toks[m]).value,
            ) == Some((b.operator.value, operator_of(toks[m].value)->Some_0.1))
                && operator_of(toks[m].value)->Some_0.1 >= min && b.operator.line == toks[m].line
                && b.operator.column == toks[m].column && binary_at(
                toks,
                m + 1,
                e,
                *b.rhs,
                operator_of(toks[m].value)->Some_0.1 + 1,
            ),
        _ => false,
    }
}

/// `x` is read from `toks[i..e)` as an expression whose operators bind with
/// precedence `min` or more, and the token after it (if any) is no such
/// operator.
pub open spec fn binary_at(toks: Seq<Token>, i: int, e: int, x: Expression, min: int) -> bool
    decreases e - i, 3int,
{
    chain_at(toks, i, e, x, min) && e <= toks.len() && !binds_at(toks, e, min)
}

/// The token at `e` is a binary operator of precedence `min` or more.
pub open spec fn binds_at(toks: Seq<Token>, e: int, min: int) -> bool {
    0 <= e < toks.len() && operator_of(toks[e].value) is Some && operator_of(toks[e].value)->Some_0.1
        >= min
}

/// `x` is read from `toks[i..e)` as a whole expression.
pub open spec fn expression_at(toks: Seq<Token>, i: int, e: int, x: Expression) -> bool
    decreases e - i, 4int,
{
    binary_at(toks, i, e, x, 1)
}

/// `m` is an index of `toks`.
pub open spec fn in_bounds(toks: Seq<Token>, m: int) -> bool {
    0 <= m < toks.len()
}

/// The token at `i` starts an instruction of its own kind: `var`, `if`,
/// `while`, `return`, or a name followed by `=`.
pub open spec fn starts_statement(toks: Seq<Token>, i: int) -> bool {
    toks[i].value is Var || toks[i].value is If || toks[i].value is While || is_return(
        toks[i].value,
    ) || (i + 1 < toks.len() && toks[i].value is Identifier && toks[i + 1].value is Equal)
}

/// `x` is read from `toks[i..e)` as one instruction.
pub open spec fn instruction_at(toks: Seq<Token>, i: int, e: int, x: Instruction) -> bool
    decreases e - i, 0int,
{
    if 0 <= i < e <= toks.len() {
        match x {
            Instruction::Statement(Statement::VariableDeclaration(d)) => toks[i].value is Var && i
                + 3 < e && named_at(toks, i, d.name) && toks[i + 2].value is Equal && expression_at(
                toks,
                i + 3,
                e,
                d.value,
            ),
            Instruction::Statement(Statement::VariableAssignment(a)) => !is_return(toks[i].value)
                && i + 2 < e && name_token_at(toks, i, a.name) && toks[i + 1].value is Equal
                && expression_at(toks, i + 2, e, a.value),
            Instruction::Statement(Statement::Return(v)) => is_return(toks[i].value)
                && expression_at(toks, i + 1, e, v),
            Instruction::IfElse(b) => toks[i].value is If && toks[i + 1].value is OpeningParentheses
                && exists|c: int, m: int|
                i + 2 < c < m <= e && expression_at(toks, i + 2, c, b.condition) && (#[trigger] toks[
                c]).value is ClosingParentheses && block_at(toks, c + 1, m, b.if_true@) && #[trigger] in_bounds(
                toks,
                m - 1,
            ) && else_at(toks, m, e, b.if_false@),
            Instruction::WhileLoop(w) => toks[i].value is While && toks[i + 1].value is OpeningParentheses
                && exists|c: int|
                i + 2 < c < e && expression_at(toks, i + 2, c, w.condition) && (#[trigger] toks[
                c]).value is ClosingParentheses && block_at(toks, c + 1, e, w.body@),
            Instruction::Expression(v) => !starts_statement(toks, i) && expression_at(toks, i, e, v),
        }
    } else {
        false
    }
}

/// `fs` is read from `toks[m..e)` as what follows the block of an `if`:
/// nothing, when no `else` follows, or `else` and a block.
pub open spec fn else_at(toks: Seq<Token>, m: int, e: int, fs: Seq<Instruction>) -> bool
    decreases e - m, 2int,
{
    if m == e {
        fs.len() == 0 && !(m < toks.len() && toks[m].value is Else)
    } else {
        0 <= m < e && toks[m].value is Else && block_at(toks, m + 1, e, fs)
    }
}

/// `xs` is read from `toks[i..e)` as a block: `{`, instructions, `}`.
pub open spec fn block_at(toks: Seq<Token>, i: int, e: int, xs: Seq<Instruction>) -> bool
    decreases e - i, 2int,
{
    0 <= i && i + 2 <= e <= toks.len() && toks[i].value is OpeningCurlyBraces && toks[e
        - 1].value is ClosingCurlyBraces && instructions_at(toks, i + 1, e - 1, xs)
}

/// `xs` is read from `toks[i..e)` as instructions, one after the other.
pub open spec fn instructions_at(toks: Seq<Token>, i: int, e: int, xs: Seq<Instruction>) -> bool
    decreases e - i, 1int, xs.len(),
{
    if xs.len() == 0 {
        i == e
    } else {
        exists|m: int|
            i <= m < e && #[trigger] in_bounds(toks, m) && instructions_at(toks, i, m, xs.drop_last())
                && instruction_at(toks, m, e, xs.last())
    }
}

/// `name: type` read from `toks[i..e)`.
pub open spec fn typed_at(
    toks: Seq<Token>,
    i: int,
    e: int,
    item: (PositionContainer<String>, PositionContainer<DataType>),
) -> bool {
    let (name, t) = item;
    &&& name_token_at(toks, i, name)
    &&& i + 2 < toks.len()
    &&& toks[i + 1].value is Colon
    &&& data_type_at(toks, i + 2, e, t.value)
    &&& t.line == toks[i + 2].line
    &&& t.column == toks[i + 2].column
}

/// `items` read from `toks[i..e)`, each followed by `,`.
pub open spec fn items_at(
    toks: Seq<Token>,
    i: int,
    e: int,
    items: Seq<(PositionContainer<String>, PositionContainer<DataType>)>,
) -> bool
    decreases items.len(),
{
    if items.len() == 0 {
        i == e
    } else {
        exists|m: int|
            #[trigger] in_bounds(toks, m) && items_at(toks, i, m, items.drop_last()) && typed_at(
                toks,
                m,
                e - 1,
                items.last(),
            ) && toks[e - 1].value is Comma
    }
}

/// `items` read from `toks[i..e)` as `name: type` pairs separated by `,`;
/// a `,` after the last is allowed.
pub open spec fn typed_list_at(
    toks: Seq<Token>,
    i: int,
    e: int,
    items: Seq<(PositionContainer<String>, PositionContainer<DataType>)>,
) -> bool {
    items_at(toks, i, e, items) || (items.len() > 0 && exists|m: int|
        #[trigger] in_bounds(toks, m) && items_at(toks, i, m, items.drop_last()) && typed_at(
            toks,
            m,
            e,
            items.last(),
        ))
}

pub open spec fn argument_pairs(args: Seq<FunctionArgument>) -> Seq<
    (PositionContainer<String>, PositionContainer<DataType>),
> {
    args.map_values(|a: FunctionArgument| (a.name, a.data_type))
}

pub open spec fn field_pairs(fields: Seq<StructField>) -> Seq<
    (PositionContainer<String>, PositionContainer<DataType>),
> {
    fields.map_values(|f: StructField| (f.name, f.data_type))
}

/// `f` is read from `toks[i..e)`: `function`, its name, `(`, its arguments,
/// `)`, and its body as a block.
pub open spec fn function_at(toks: Seq<Token>, i: int, e: int, f: FunctionDefinition) -> bool {
    &&& 0 <= i && i + 2 < toks.len()
    &&& toks[i].value is Def
    &&& named_at(toks, i, f.prototype.name)
    &&& toks[i + 2].value is OpeningParentheses
    &&& exists|c: int|
        #[trigger] in_bounds(toks, c) && i + 3 <= c && typed_list_at(toks, i + 3, c, argument_pairs(f.prototype.args@))
            && toks[c].value is ClosingParentheses && block_at(toks, c + 1, e, f.body@)
}

/// `st` is read from `toks[i..e)`: `struct`, its name, `{`, its fields, `}`.
pub open spec fn struct_at(toks: Seq<Token>, i: int, e: int, st: Struct) -> bool {
    &&& 0 <= i && i + 3 < e <= toks.len()
    &&& toks[i].value is Struct
    &&& named_at(toks, i, st.name)
    &&& toks[i + 2].value is OpeningCurlyBraces
    &&& typed_list_at(toks, i + 3, e - 1, field_pairs(st.fields@))
    &&& toks[e - 1].value is ClosingCurlyBraces
}

/// `n` is read from `toks[i..e)` as a top-level declaration.
pub open spec fn node_at(toks: Seq<Token>, i: int, e: int, n: Node) -> bool {
    match n {
        Node::Function(f) => function_at(toks, i, e, f),
        Node::Struct(st) => struct_at(toks, i, e, st),
    }
}

/// `ns` is read from `toks[i..e)` as declarations, one after the other.
pub open spec fn nodes_at(toks: Seq<Token>, i: int, e: int, ns: Seq<Node>) -> bool
    decreases ns.len(),
{
    if ns.len() == 0 {
        i == e
    } else {
        exists|m: int|
            #[trigger] in_bounds(toks, m) && nodes_at(toks, i, m, ns.drop_last()) && node_at(
                toks,
                m,
                e,
                ns.last(),
            )
    }
}

/// Where the data type that starts at `i` ends.
pub open spec fn type_end(toks: Seq<Token>, i: int) -> Option<int>
    decreases toks.len() - i,
{
    if !(0 <= i < toks.len()) {
        None
    } else if toks[i].value is Pointer {
        type_end(toks, i + 1)
    } else if toks[i].value is Identifier {
        Some(i + 1)
    } else {
        None
    }
}

/// The token at `p` is `k`.
pub open spec fn token_is(toks: Seq<Token>, p: int, k: TokenKind) -> bool {
    0 <= p < toks.len() && toks[p].value == k
}

/// Where the primary expression that starts at `i` ends, if one does.
/// Together with the functions below, this is the grammar read
/// deterministically: one token of lookahead decides each choice.
pub open spec fn primary_end(toks: Seq<Token>, i: int) -> Option<int>
    decreases toks.len() - i, 0int,
{
    if !(0 <= i < toks.len()) {
        None
    } else if toks[i].value is Int || toks[i].value is Float {
        Some(i + 1)
    } else if toks[i].value is Identifier {
        if opens_call(toks, i) {
            call_end(toks, i + 1)
        } else {
            Some(i + 1)
        }
    } else if toks[i].value is OpeningParentheses {
        match expression_end(toks, i + 1) {
            Some(c) => if token_is(toks, c, TokenKind::ClosingParentheses) {
                Some(c + 1)
            } else {
                None
            },
            None => None,
        }
    } else {
        None
    }
}

/// Where the call arguments that open with the `(` at `j` end.
pub open spec fn call_end(toks: Seq<Token>, j: int) -> Option<int>
    decreases toks.len() - j, 0int,
{
    if !(0 <= j < toks.len()) {
        None
    } else if token_is(toks, j + 1, TokenKind::ClosingParentheses) {
        Some(j + 2)
    } else {
        arguments_end(toks, j + 1)
    }
}

/// Where the call arguments from `p` on, up to and with the `)`, end.
pub open spec fn arguments_end(toks: Seq<Token>, p: int) -> Option<int>
    decreases toks.len() - p, 3int,
{
    if !(0 <= p < toks.len()) {
        None
    } else {
        match expression_end(toks, p) {
            Some(q) => if !(p < q <= toks.len()) {
                None
            } else if token_is(toks, q, TokenKind::Comma) {
                arguments_end(toks, q + 1)
            } else if token_is(toks, q, TokenKind::ClosingParentheses) {
                Some(q + 1)
            } else {
                None
            },
            None => None,
        }
    }
}

/// Where the expression from `i` with operators of precedence `min` or more
/// ends.
pub open spec fn binary_end(toks: Seq<Token>, i: int, min: int) -> Option<int>
    decreases toks.len() - i, 1int,
{
    match primary_end(toks, i) {
        Some(p) => if !(i < p <= toks.len()) {
            None
        } else {
            operators_end(toks, p, min)
        },
        None => None,
    }
}

/// Where the operators (of precedence `min` or more) and their right
/// operands that follow an operand ending at `p` end.
pub open spec fn operators_end(toks: Seq<Token>, p: int, min: int) -> Option<int>
    decreases toks.len() - p, 0int,
{
    if binds_at(toks, p, min) {
        match binary_end(toks, p + 1, operator_of(toks[p].value)->Some_0.1 + 1) {
            Some(q) => if !(p + 1 < q <= toks.len()) {
                None
            } else {
                operators_end(toks, q, min)
            },
            None => None,
        }
    } else {
        Some(p)
    }
}

pub open spec fn expression_end(toks: Seq<Token>, i: int) -> Option<int>
    decreases toks.len() - i, 2int,
{
    binary_end(toks, i, 1)
}

/// Where the instruction that starts at `i` ends.
pub open spec fn instruction_end(toks: Seq<Token>, i: int) -> Option<int>
    decreases toks.len() - i, 1int,
{
    if !(0 <= i < toks.len()) {
        None
    } else if toks[i].value is Var {
        if i + 2 < toks.len() && toks[i + 1].value is Identifier && toks[i + 2].value is Equal {
            expression_end(toks, i + 3)
        } else {
            None
        }
    } else if toks[i].value is If || toks[i].value is While {
        if token_is(toks, i + 1, TokenKind::OpeningParentheses) {
            match expression_end(toks, i + 2) {
                Some(c) => if !(i + 2 < c) || !token_is(toks, c, TokenKind::ClosingParentheses) {
                    None
                } else {
                    match block_end(toks, c + 1) {
                        Some(m) => if !(c + 1 < m <= toks.len()) {
                            None
                        } else if toks[i].value is If && token_is(toks, m, TokenKind::Else) {
                            block_end(toks, m + 1)
                        } else {
                            Some(m)
                        },
                        None => None,
                    }
                },
                None => None,
            }
        } else {
            None
        }
    } else if is_return(toks[i].value) {
        expression_end(toks, i + 1)
    } else if i + 1 < toks.len() && toks[i].value is Identifier && toks[i + 1].value is Equal {
        expression_end(toks, i + 2)
    } else {
        expression_end(toks, i)
    }
}

/// Where the block that starts at `i` ends.
pub open spec fn block_end(toks: Seq<Token>, i: int) -> Option<int>
    decreases toks.len() - i, 0int,
{
    if token_is(toks, i, TokenKind::OpeningCurlyBraces) {
        instructions_end(toks, i + 1)
    } else {
        None
    }
}

/// Where the instructions from `p` on, up to and with the `}`, end.
pub open spec fn instructions_end(toks: Seq<Token>, p: int) -> Option<int>
    decreases toks.len() - p, 2int,
{
    if !(0 <= p < toks.len()) {
        None
    } else if toks[p].value is ClosingCurlyBraces {
        Some(p + 1)
    } else {
        match instruction_end(toks, p) {
            Some(q) => if !(p < q <= toks.len()) {
                None
            } else {
                instructions_end(toks, q)
            },
            None => None,
        }
    }
}

/// Where the `name: type` pairs from `p` on, up to and with `close`, end.
pub open spec fn typed_list_end(toks: Seq<Token>, p: int, close: TokenKind) -> Option<int>
    decreases toks.len() - p,
{
    if !(0 <= p < toks.len()) {
        None
    } else if toks[p].value == close {
        Some(p + 1)
    } else if !(p + 1 < toks.len() && toks[p].value is Identifier && toks[p + 1].value is Colon) {
        None
    } else {
        match type_end(toks, p + 2) {
            Some(q) => if !(p < q <= toks.len()) {
                None
            } else if token_is(toks, q, TokenKind::Comma) {
                typed_list_end(toks, q + 1, close)
            } else if token_is(toks, q, close) {
                Some(q + 1)
            } else {
                None
            },
            None => None,
        }
    }
}

/// Where the declaration that starts at `i` ends.
pub open spec fn node_end(toks: Seq<Token>, i: int) -> Option<int> {
    if !(0 <= i && i + 2 < toks.len() && toks[i + 1].value is Identifier) {
        None
    } else if toks[i].value is Def && toks[i + 2].value is OpeningParentheses {
        match typed_list_end(toks, i + 3, TokenKind::ClosingParentheses) {
            Some(c) => block_end(toks, c),
            None => None,
        }
    } else if toks[i].value is Struct && toks[i + 2].value is OpeningCurlyBraces {
        typed_list_end(toks, i + 3, TokenKind::ClosingCurlyBraces)
    } else {
        None
    }
}

/// `toks[p..]` is a sequence of declarations.
pub open spec fn program_accepts(toks: Seq<Token>, p: int) -> bool
    decreases toks.len() - p,
{
    if !(0 <= p < toks.len()) {
        true
    } else {
        match node_end(toks, p) {
            Some(q) => p < q <= toks.len() && program_accepts(toks, q),
            None => false,
        }
    }
}

/// A data type's reading ends where `type_end` says.
pub proof fn lemma_type_end(toks: Seq<Token>, i: int, e: int, t: DataType)
    requires
        data_type_at(toks, i, e, t),
    ensures
        type_end(toks, i) == Some(e),
    decreases t,
{
    if let DataType::Pointer(inner) = t {
        lemma_type_end(toks, i + 1, e, inner.value);
    }
}

/// A primary expression's reading ends where `primary_end` says.
pub proof fn lemma_primary_end(toks: Seq<Token>, i: int, e: int, x: Expression)
    requires
        primary_at(toks, i, e, x),
    ensures
        primary_end(toks, i) == Some(e),
    decreases e - i, 0int,
{
    if toks[i].value is OpeningParentheses {
        lemma_expression_end(toks, i + 1, e - 1, x);
    } else if let Expression::FunctionCall(c) = x {
        if c.params@.len() > 0 {
            lemma_arguments_end(toks, i + 2, e - 1, c.params@);
            assert(expression_end(toks, i + 2) is Some);
            assert(primary_end(toks, i + 2) is Some);
        }
    }
}

/// Call arguments read up to a `,` continue where the reading left off.
proof fn lemma_arguments_prefix(toks: Seq<Token>, i: int, m: int, ps: Seq<Expression>)
    requires
        ps.len() > 0,
        arguments_at(toks, i, m, ps),
        token_is(toks, m, TokenKind::Comma),
    ensures
        arguments_end(toks, i) == arguments_end(toks, m + 1),
    decreases m - i, 5int, ps.len(),
{
    if ps.len() == 1 {
        lemma_expression_end(toks, i, m, ps[0]);
    } else {
        let k = choose|k: int|
            i < k < m && arguments_at(toks, i, k, ps.drop_last()) && (#[trigger] toks[k]).value is Comma
                && expression_at(toks, k + 1, m, ps.last());
        lemma_arguments_prefix(toks, i, k, ps.drop_last());
        lemma_expression_end(toks, k + 1, m, ps.last());
    }
}

/// Call arguments closed by a `)` end after it.
pub proof fn lemma_arguments_end(toks: Seq<Token>, i: int, e: int, ps: Seq<Expression>)
    requires
        ps.len() > 0,
        arguments_at(toks, i, e, ps),
        token_is(toks, e, TokenKind::ClosingParentheses),
    ensures
        arguments_end(toks, i) == Some(e + 1),
    decreases e - i, 6int,
{
    if ps.len() == 1 {
        lemma_expression_end(toks, i, e, ps[0]);
    } else {
        let k = choose|k: int|
            i < k < e && arguments_at(toks, i, k, ps.drop_last()) && (#[trigger] toks[k]).value is Comma
                && expression_at(toks, k + 1, e, ps.last());
        lemma_arguments_prefix(toks, i, k, ps.drop_last());
        lemma_expression_end(toks, k + 1, e, ps.last());
    }
}

/// After a chain of operators read up to `p`, the parser goes on with the
/// operators from `p`.
proof fn lemma_chain_end(toks: Seq<Token>, i: int, p: int, x: Expression, min: int)
    requires
        chain_at(toks, i, p, x, min),
    ensures
        binary_end(toks, i, min) == operators_end(toks, p, min),
    decreases p - i, 2int, x,
{
    if primary_at(toks, i, p, x) {
        lemma_primary_end(toks, i, p, x);
    } else {
        let b = x->BinaryExpression_0;
        let m = choose|m: int|
            i < m < p - 1 && chain_at(toks, i, m, *b.lhs, min) && operator_of(
                (#[trigger] toks[m]).value,
            ) == Some((b.operator.value, operator_of(toks[m].value)->Some_0.1))
                && operator_of(toks[m].value)->Some_0.1 >= min && b.operator.line == toks[m].line
                && b.operator.column == toks[m].column && binary_at(
                toks,
                m + 1,
                p,
                *b.rhs,
                operator_of(toks[m].value)->Some_0.1 + 1,
            );
        lemma_chain_end(toks, i, m, *b.lhs, min);
        lemma_binary_end(toks, m + 1, p, *b.rhs, operator_of(toks[m].value)->Some_0.1 + 1);
    }
}

/// An expression's reading ends where `binary_end` says.
pub proof fn lemma_binary_end(toks: Seq<Token>, i: int, e: int, x: Expression, min: int)
    requires
        binary_at(toks, i, e, x, min),
    ensures
        binary_end(toks, i, min) == Some(e),
    decreases e - i, 3int,
{
    lemma_chain_end(toks, i, e, x, min);
}

/// An expression's reading ends where `expression_end` says.
pub proof fn lemma_expression_end(toks: Seq<Token>, i: int, e: int, x: Expression)
    requires
        expression_at(toks, i, e, x),
    ensures
        expression_end(toks, i) == Some(e),
    decreases e - i, 4int,
{
    lemma_binary_end(toks, i, e, x, 1);
}

/// An instruction's reading ends where `instruction_end` says.
pub proof fn lemma_instruction_end(toks: Seq<Token>, i: int, e: int, x: Instruction)
    requires
        instruction_at(toks, i, e, x),
    ensures
        instruction_end(toks, i) == Some(e),
    decreases e - i, 0int,
{
    match x {
        Instruction::Statement(Statement::VariableDeclaration(d)) => {
            lemma_expression_end(toks, i + 3, e, d.value);
        },
        Instruction::Statement(Statement::VariableAssignment(a)) => {
            lemma_expression_end(toks, i + 2, e, a.value);
        },
        Instruction::Statement(Statement::Return(v)) => {
            lemma_expression_end(toks, i + 1, e, v);
        },
        Instruction::IfElse(b) => {
            let (c, m) = choose|c: int, m: int|
                i + 2 < c < m <= e && expression_at(toks, i + 2, c, b.condition) && (#[trigger] toks[
                c]).value is ClosingParentheses && block_at(toks, c + 1, m, b.if_true@) && #[trigger] in_bounds(
                toks,
                m - 1,
            ) && else_at(toks, m, e, b.if_false@);
            lemma_expression_end(toks, i + 2, c, b.condition);
            lemma_block_end(toks, c + 1, m, b.if_true@);
            if m < e {
                lemma_block_end(toks, m + 1, e, b.if_false@);
            }
        },
        Instruction::WhileLoop(w) => {
            let c = choose|c: int|
                i + 2 < c < e && expression_at(toks, i + 2, c, w.condition) && (#[trigger] toks[
                c]).value is ClosingParentheses && block_at(toks, c + 1, e, w.body@);
            lemma_expression_end(toks, i + 2, c, w.condition);
            lemma_block_end(toks, c + 1, e, w.body@);
        },
        Instruction::Expression(v) => {
            lemma_expression_end(toks, i, e, v);
        },
    }
}

/// After instructions read up to `m`, the parser goes on from `m`.
proof fn lemma_instructions_prefix(toks: Seq<Token>, i: int, m: int, xs: Seq<Instruction>)
    requires
        instructions_at(toks, i, m, xs),
    ensures
        instructions_end(toks, i) == instructions_end(toks, m),
    decreases m - i, 1int, xs.len(),
{
    if xs.len() > 0 {
        let k = choose|k: int|
            i <= k < m && #[trigger] in_bounds(toks, k) && instructions_at(toks, i, k, xs.drop_last())
                && instruction_at(toks, k, m, xs.last());
        lemma_instructions_prefix(toks, i, k, xs.drop_last());
        lemma_instruction_end(toks, k, m, xs.last());
        if toks[k].value is ClosingCurlyBraces {
            assert(primary_end(toks, k) is None);
            assert(instruction_end(toks, k) is None);
        }
    }
}

/// A block's reading ends where `block_end` says.
pub proof fn lemma_block_end(toks: Seq<Token>, i: int, e: int, xs: Seq<Instruction>)
    requires
        block_at(toks, i, e, xs),
    ensures
        block_end(toks, i) == Some(e),
    decreases e - i, 2int,
{
    lemma_instructions_prefix(toks, i + 1, e - 1, xs);
}

/// After `name: type,` pairs read up to `m`, the parser goes on from `m`.
proof fn lemma_items_prefix(
    toks: Seq<Token>,
    i: int,
    m: int,
    items: Seq<(PositionContainer<String>, PositionContainer<DataType>)>,
    close: TokenKind,
)
    requires
        items_at(toks, i, m, items),
        !(close is Identifier),
    ensures
        typed_list_end(toks, i, close) == typed_list_end(toks, m, close),
    decreases items.len(),
{
    if items.len() > 0 {
        let k = choose|k: int|
            #[trigger] in_bounds(toks, k) && items_at(toks, i, k, items.drop_last()) && typed_at(
                toks,
                k,
                m - 1,
                items.last(),
            ) && toks[m - 1].value is Comma;
        lemma_items_prefix(toks, i, k, items.drop_last(), close);
        lemma_type_end(toks, k + 2, m - 1, items.last().1.value);
    }
}

/// A list of `name: type` pairs closed by `close` ends after it.
pub proof fn lemma_typed_list_end(
    toks: Seq<Token>,
    i: int,
    e: int,
    items: Seq<(PositionContainer<String>, PositionContainer<DataType>)>,
    close: TokenKind,
)
    requires
        typed_list_at(toks, i, e, items),
        token_is(toks, e, close),
        close is ClosingParentheses || close is ClosingCurlyBraces,
    ensures
        typed_list_end(toks, i, close) == Some(e + 1),
{
    if items_at(toks, i, e, items) {
        lemma_items_prefix(toks, i, e, items, close);
    } else {
        let m = choose|m: int|
            #[trigger] in_bounds(toks, m) && items_at(toks, i, m, items.drop_last()) && typed_at(
                toks,
                m,
                e,
                items.last(),
            );
        lemma_items_prefix(toks, i, m, items.drop_last(), close);
        lemma_type_end(toks, m + 2, e, items.last().1.value);
    }
}

/// A declaration's reading ends where `node_end` says.
pub proof fn lemma_node_end(toks: Seq<Token>, i: int, e: int, n: Node)
    requires
        node_at(toks, i, e, n),
    ensures
        node_end(toks, i) == Some(e),
        i < e <= toks.len(),
{
    match n {
        Node::Function(f) => {
            let c = choose|c: int|
                #[trigger] in_bounds(toks, c) && i + 3 <= c && typed_list_at(toks, i + 3, c, argument_pairs(f.prototype.args@))
                    && toks[c].value is ClosingParentheses && block_at(toks, c + 1, e, f.body@);
            lemma_typed_list_end(toks, i + 3, c, argument_pairs(f.prototype.args@), TokenKind::ClosingParentheses);
            lemma_block_end(toks, c + 1, e, f.body@);
        },
        Node::Struct(st) => {
            lemma_typed_list_end(toks, i + 3, e - 1, field_pairs(st.fields@), TokenKind::ClosingCurlyBraces);
        },
    }
}

proof fn lemma_nodes_prefix(toks: Seq<Token>, i: int, m: int, ns: Seq<Node>)
    requires
        0 <= i,
        nodes_at(toks, i, m, ns),
    ensures
        program_accepts(toks, i) == program_accepts(toks, m),
    decreases ns.len(),
{
    if ns.len() > 0 {
        let k = choose|k: int|
            #[trigger] in_bounds(toks, k) && nodes_at(toks, i, k, ns.drop_last()) && node_at(
                toks,
                k,
                m,
                ns.last(),
            );
        lemma_nodes_prefix(toks, i, k, ns.drop_last());
        lemma_node_end(toks, k, m, ns.last());
    }
}

/// Tokens that read as a sequence of declarations are accepted: the
/// parser then returns them without error.
pub proof fn lemma_program_accepts(toks: Seq<Token>, ns: Seq<Node>)
    requires
        nodes_at(toks, 0, toks.len() as int, ns),
    ensures
        program_accepts(toks, 0),
{
    lemma_nodes_prefix(toks, 0, toks.len() as int, ns);
}

/// A data type written as `ptr` `n` times and then `int` is read as `n`
/// pointers, nested one in the other, around `int`.
pub proof fn lemma_pointer_chain(toks: Seq<Token>, i: int, n: nat)
    requires
        0 <= i,
        i + n < toks.len(),
        forall|j: int| i <= j < i + n ==> (#[trigger] toks[j]).value is Pointer,
        toks[i + n].value is Identifier,
        toks[i + n].value->Identifier_0@ =~= seq!['i', 'n', 't'],
    ensures
        starts_data_type(toks, i),
        forall|e: int, t: DataType|
            #[trigger] data_type_at(toks, i, e, t) ==> e == i + n + 1 && pointer_depth(t) == n
                && pointee(t) == DataType::Basic(BasicDataType::Int),
    decreases n,
{
    if n > 0 {
        lemma_pointer_chain(toks, i + 1, (n - 1) as nat);
        assert forall|e: int, t: DataType| #[trigger] data_type_at(toks, i, e, t) implies e == i
            + n + 1 && pointer_depth(t) == n && pointee(t) == DataType::Basic(
            BasicDataType::Int,
        ) by {
            if let DataType::Pointer(inner) = t {
                assert(data_type_at(toks, i + 1, e, inner.value));
            }
        }
    }
}

} // verus!
