//! Abstract syntax of a parsed SELECT query, as handed over by the
//! upstream lexer and grammar.
use vstd::prelude::*;

verus! {

/// A bare identifier, such as a column or table name.
pub type Identifier = String;

/// The ordered list of expressions between SELECT and FROM.
pub type SelectExprs = Vec<SelectExpr>;

/// A parsed query. SELECT is the only statement the grammar produces.
#[derive(Debug, PartialEq)]
pub enum Query {
    Select(SelectQuery),
}

/// A SELECT statement: its projection list and, when a FROM clause is
/// present, the table it reads from.
#[derive(Debug, PartialEq)]
pub struct SelectQuery {
    pub select_exprs: SelectExprs,
    pub table_ref: Option<TableRef>,
}

/// One entry of the projection list.
#[derive(Debug, PartialEq)]
pub enum SelectExpr {
    /// The wildcard `*`.
    All,
    /// A literal value.
    Immediate(Immediate),
    /// A bare column name.
    Column(Identifier),
}

/// A literal value as it appears in the query text. A float literal is
/// carried as the raw bits of its 32-bit encoding, exactly as the lexer
/// produced it.
#[derive(Debug, PartialEq)]
pub enum Immediate {
    String(String),
    Int(i32),
    Float(u32),
}

/// The operand of a FROM clause: either a quoted string or a bare
/// identifier.
#[derive(Debug, PartialEq)]
pub enum TableRef {
    String(String),
    Identifier(Identifier),
}

} // verus!
