use vstd::prelude::*;

verus! {

/// A value together with the (line, column) at which it began in the source.
/// Lines and columns count from one.
#[derive(Debug, Clone, PartialEq)]
pub struct PositionContainer<T> {
    pub value: T,
    pub line: usize,
    pub column: usize,
}

impl<T> PositionContainer<T> {
    pub fn new(value: T, line: usize, column: usize) -> (r: Self)
        ensures
            r.value == value,
            r.line == line,
            r.column == column,
    {
        PositionContainer { value, line, column }
    }
}

} // verus!
