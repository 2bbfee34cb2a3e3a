//! The SQL front end: text to statements.
//!
//! Parsing is left to `sqlparser`. What it returns is read off into the
//! types of `parser` and `planner`, which hold what resolution and planning
//! look at and nothing else.

use crate::parser::{Body, Projection, Relation, Select, Source, Stmt};
use crate::planner::{Comparator, Connective, Expression, Operator, Value};
use vstd::prelude::*;

verus! {

/// `sqlparser::parser::ParserError`, opaque: only its presence is read.
#[verifier::external_type_specification]
#[verifier::external_body]
pub struct ExParserError(sqlparser::parser::ParserError);

/// `sqlparser::ast::Statement`, opaque: read by `statement_of`.
#[verifier::external_type_specification]
#[verifier::external_body]
pub struct ExStatement(sqlparser::ast::Statement);

/// `sqlparser::ast::SelectItem`, opaque: read by `select_item_of`.
#[verifier::external_type_specification]
#[verifier::external_body]
pub struct ExSelectItem(sqlparser::ast::SelectItem);

/// `sqlparser::ast::TableWithJoins`, opaque: read by `source_of`.
#[verifier::external_type_specification]
#[verifier::external_body]
pub struct ExTableWithJoins(sqlparser::ast::TableWithJoins);

/// `sqlparser::ast::Expr`, opaque: read by `expr_of`.
#[verifier::external_type_specification]
#[verifier::external_body]
pub struct ExExpr(sqlparser::ast::Expr);

/// `sqlparser::ast::BinaryOperator`, opaque: read by `operator_of`.
#[verifier::external_type_specification]
#[verifier::external_body]
pub struct ExBinaryOperator(sqlparser::ast::BinaryOperator);

/// Whether a token that the front end cannot take starts at place `i`: a
/// closing square bracket, a hash sign, or one of the shifts `<<` and `>>`.
pub open spec fn stray_at(bytes: Seq<u8>, i: int) -> bool {
    ||| bytes[i] == 0x5d
    ||| bytes[i] == 0x23
    ||| (i + 1 < bytes.len() && bytes[i] == 0x3c && bytes[i + 1] == 0x3c)
    ||| (i + 1 < bytes.len() && bytes[i] == 0x3e && bytes[i + 1] == 0x3e)
}

/// Whether a text, by its bytes, holds such a token anywhere.
pub open spec fn stray(bytes: Seq<u8>) -> bool {
    exists|i: int| 0 <= i < bytes.len() && stray_at(bytes, i)
}

/// Looks for a token that the front end cannot take.
pub fn has_stray(bytes: &[u8]) -> (r: bool)
    ensures
        r == stray(bytes@),
{
    let mut i: usize = 0;
    while i < bytes.len()
        invariant
            i <= bytes.len(),
            forall|j: int| 0 <= j < i ==> !stray_at(bytes@, j),
        decreases bytes.len() - i,
    {
        let b = bytes[i];
        if b == 0x5d || b == 0x23 {
            assert(stray_at(bytes@, i as int));
            return true;
        }
        if (b == 0x3c || b == 0x3e) && i + 1 < bytes.len() && bytes[i + 1] == b {
            assert(stray_at(bytes@, i as int));
            return true;
        }
        i += 1;
    }
    false
}

/// The statements that a text parses to in the generic dialect, each as
/// read off its syntax tree; `None` where the text does not parse.
pub uninterp spec fn parsed(sql: Seq<char>) -> Option<Seq<Stmt>>;

/// Calls `sqlparser::parser::Parser::parse_sql` with
/// `sqlparser::dialect::GenericDialect`. Trusted: whether the text parses,
/// and the statements read off the tree, depend on the text alone. The
/// parser panics where `]`, `#`, `<<` or `>>` follows an expression, so a
/// text that holds one of them anywhere is kept from it.
#[verifier::external_body]
pub(crate) fn parse(sql: &str) -> (r: Result<Vec<Stmt>, sqlparser::parser::ParserError>)
    requires
        !stray(vstd::utf8::encode_utf8(sql@)),
    ensures
        r matches Ok(v) ==> parsed(sql@) == Some(v@),
        r is Err ==> parsed(sql@) is None,
{
    let dialect = sqlparser::dialect::GenericDialect {};
    let ast = sqlparser::parser::Parser::parse_sql(&dialect, sql)?;
    Ok(ast.into_iter().map(statement_of).collect())
}

/// Reads a `sqlparser::ast::Statement`: of a query whose body is a plain
/// SELECT the projection, the source list and the WHERE clause.
#[verifier::external_body]
fn statement_of(statement: sqlparser::ast::Statement) -> Stmt {
    match statement {
        sqlparser::ast::Statement::Query(query) => match query.body {
            sqlparser::ast::SetExpr::Select(s) => Stmt::Query(Body::Select(Select {
                projection: s.projection.into_iter().map(select_item_of).collect(),
                from: s.from.into_iter().map(source_of).collect(),
                selection: s.selection.map(expr_of),
            })),
            _ => Stmt::Query(Body::Other),
        },
        _ => Stmt::Other,
    }
}

/// Reads a `sqlparser::ast::SelectItem`: a bare expression by the text that
/// its `Display` gives.
#[verifier::external_body]
fn select_item_of(item: sqlparser::ast::SelectItem) -> Projection {
    match item {
        sqlparser::ast::SelectItem::UnnamedExpr(o) => Projection::UnnamedExpr(o.to_string()),
        sqlparser::ast::SelectItem::ExprWithAlias { .. } => Projection::ExprWithAlias,
        sqlparser::ast::SelectItem::QualifiedWildcard(_) => Projection::QualifiedWildcard,
        sqlparser::ast::SelectItem::Wildcard => Projection::Wildcard,
    }
}

/// Reads a `sqlparser::ast::TableWithJoins`: its joins and, of a table
/// reference, its name, alias, arguments and hints, each by the text that
/// its `Display` gives.
#[verifier::external_body]
fn source_of(source: sqlparser::ast::TableWithJoins) -> Source {
    let joins = source.joins.iter().map(|j| j.to_string()).collect();
    let relation = match source.relation {
        sqlparser::ast::TableFactor::Table { name, alias, args, with_hints } => Relation::Table {
            name: name.to_string(),
            alias: alias.map(|a| a.to_string()),
            args: args.iter().map(|a| a.to_string()).collect(),
            with_hints: with_hints.iter().map(|h| h.to_string()).collect(),
        },
        sqlparser::ast::TableFactor::Derived { .. } => Relation::Derived,
        sqlparser::ast::TableFactor::TableFunction { .. } => Relation::TableFunction,
        sqlparser::ast::TableFactor::NestedJoin(_) => Relation::NestedJoin,
    };
    Source { relation, joins }
}

/// Reads a `sqlparser::ast::Expr`: a compound identifier by the values of
/// its parts, a binary operation by its operands and operator, a string in
/// single or double quotes by its text.
#[verifier::external_body]
fn expr_of(expr: sqlparser::ast::Expr) -> Expression {
    match expr {
        sqlparser::ast::Expr::CompoundIdentifier(i) => Expression::CompoundIdentifier(
            i.into_iter().map(|e| e.value).collect(),
        ),
        sqlparser::ast::Expr::BinaryOp { left, op, right } => Expression::BinaryOp {
            left: Box::new(expr_of(*left)),
            op: operator_of(op),
            right: Box::new(expr_of(*right)),
        },
        sqlparser::ast::Expr::Value(sqlparser::ast::Value::SingleQuotedString(s)) => Expression::Value(Value::SingleQuotedString(s)),
        sqlparser::ast::Expr::Value(sqlparser::ast::Value::DoubleQuotedString(s)) => Expression::Value(Value::DoubleQuotedString(s)),
        sqlparser::ast::Expr::Value(_) => Expression::Value(Value::Other),
        _ => Expression::Other,
    }
}

/// Reads a `sqlparser::ast::BinaryOperator`: the six comparisons and the two
/// connectives by their names.
#[verifier::external_body]
fn operator_of(op: sqlparser::ast::BinaryOperator) -> Operator {
    match op {
        sqlparser::ast::BinaryOperator::Eq => Operator::Compare(Comparator::Eq),
        sqlparser::ast::BinaryOperator::NotEq => Operator::Compare(Comparator::NotEq),
        sqlparser::ast::BinaryOperator::Lt => Operator::Compare(Comparator::Lt),
        sqlparser::ast::BinaryOperator::LtEq => Operator::Compare(Comparator::LtEq),
        sqlparser::ast::BinaryOperator::Gt => Operator::Compare(Comparator::Gt),
        sqlparser::ast::BinaryOperator::GtEq => Operator::Compare(Comparator::GtEq),
        sqlparser::ast::BinaryOperator::And => Operator::Join(Connective::And),
        sqlparser::ast::BinaryOperator::Or => Operator::Join(Connective::Or),
        _ => Operator::Other,
    }
}

} // verus!
