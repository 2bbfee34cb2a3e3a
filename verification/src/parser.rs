//! Resolution of a parsed statement into namespaces, contexts and a plan.
//!
//! The projection names the namespaces, the source list names the contexts
//! and the WHERE clause holds the conditions. Every clause of another shape
//! is refused, the first offence in textual order deciding the error.

use crate::codec::{decode, decoded, encode, encoded};
use crate::planner::{
    lemma_planned_well_formed, plan_expr, plan_view, planned, texts, well_formed, Expression,
    Object, ObjectView, PlanError, Query, QueryView,
};
use crate::sql::{has_stray, parse, parsed, stray};
use vstd::prelude::*;

verus! {

/// One item of the list after `SELECT`.
#[derive(Debug, PartialEq, Eq)]
pub enum Projection {
    /// A bare expression, by its text.
    UnnamedExpr(String),
    ExprWithAlias,
    QualifiedWildcard,
    Wildcard,
}

/// One relation of the list after `FROM`.
#[derive(Debug, PartialEq, Eq)]
pub enum Relation {
    /// A table reference: its name, its alias if it has one, its arguments
    /// and its hints, each by its text.
    Table { name: String, alias: Option<String>, args: Vec<String>, with_hints: Vec<String> },
    Derived,
    TableFunction,
    NestedJoin,
}

/// A relation and the joins that hang on it, each by its text.
#[derive(Debug, PartialEq, Eq)]
pub struct Source {
    pub relation: Relation,
    pub joins: Vec<String>,
}

/// The three clauses of a SELECT that are read.
#[derive(Debug, PartialEq, Eq)]
pub struct Select {
    pub projection: Vec<Projection>,
    pub from: Vec<Source>,
    pub selection: Option<Expression>,
}

/// The body of a query statement.
#[derive(Debug, PartialEq, Eq)]
pub enum Body {
    Select(Select),
    Other,
}

/// A parsed statement.
#[derive(Debug, PartialEq, Eq)]
pub enum Stmt {
    Query(Body),
    Other,
}

/// Which rule a statement broke.
#[derive(Debug, Clone, Copy, PartialEq, Eq, Structural)]
pub enum UsageError {
    /// The text holds `]`, `#`, `<<` or `>>`, which the grammar has no
    /// place for.
    UnsupportedToken,
    /// The text is no SQL.
    Syntax,
    /// The text holds no statement.
    NoStatement,
    /// The statement is no query.
    NotAQuery,
    /// The query is no plain SELECT.
    UnsupportedBody,
    /// Nothing is selected, so no namespace is named.
    MissingProjection,
    AliasedProjection,
    QualifiedWildcardProjection,
    WildcardProjection,
    /// The FROM list is empty, so no context is named.
    MissingSource,
    JoinedSource,
    AliasedSource,
    SourceArguments,
    SourceHints,
    DerivedSource,
    TableFunctionSource,
    NestedJoinSource,
    /// There is no WHERE clause, so no condition is given.
    MissingSelection,
}

/// Why a statement was refused.
#[derive(Debug, Clone, Copy, PartialEq, Eq, Structural)]
pub enum QueryError {
    Usage(UsageError),
    Plan(PlanError),
}

/// What a statement asks for.
#[derive(Debug)]
pub struct ApiQueries {
    pub namespaces: Vec<String>,
    pub contexts: Vec<String>,
    pub queries: Vec<Query>,
}

/// What a statement asks for, by the views of its parts.
pub struct ApiQueriesView {
    pub namespaces: Seq<Seq<char>>,
    pub contexts: Seq<Seq<char>>,
    pub queries: Seq<QueryView>,
}

impl View for ApiQueries {
    type V = ApiQueriesView;

    open spec fn view(&self) -> ApiQueriesView {
        ApiQueriesView {
            namespaces: texts(self.namespaces@),
            contexts: texts(self.contexts@),
            queries: plan_view(self.queries@),
        }
    }
}

/// The namespace that one projection item names.
pub open spec fn namespace_of(item: Projection) -> Result<Seq<char>, UsageError> {
    match item {
        Projection::UnnamedExpr(o) => Ok(decoded(o@)),
        Projection::ExprWithAlias => Err(UsageError::AliasedProjection),
        Projection::QualifiedWildcard => Err(UsageError::QualifiedWildcardProjection),
        Projection::Wildcard => Err(UsageError::WildcardProjection),
    }
}

/// The namespaces that a projection names, in its order; the first item
/// that names none decides the error.
pub open spec fn namespaces_of(items: Seq<Projection>) -> Result<Seq<Seq<char>>, UsageError>
    decreases items.len(),
{
    if items.len() == 0 {
        Ok(Seq::empty())
    } else {
        match namespaces_of(items.drop_last()) {
            Err(e) => Err(e),
            Ok(names) => match namespace_of(items.last()) {
                Err(e) => Err(e),
                Ok(name) => Ok(names.push(name)),
            },
        }
    }
}

/// The context that one source names.
pub open spec fn context_of(source: Source) -> Result<Seq<char>, UsageError> {
    if source.joins@.len() != 0 {
        Err(UsageError::JoinedSource)
    } else {
        match source.relation {
            Relation::Table { name, alias, args, with_hints } => if alias is Some {
                Err(UsageError::AliasedSource)
            } else if args@.len() != 0 {
                Err(UsageError::SourceArguments)
            } else if with_hints@.len() != 0 {
                Err(UsageError::SourceHints)
            } else {
                Ok(decoded(name@))
            },
            Relation::Derived => Err(UsageError::DerivedSource),
            Relation::TableFunction => Err(UsageError::TableFunctionSource),
            Relation::NestedJoin => Err(UsageError::NestedJoinSource),
        }
    }
}

/// The contexts that a source list names, in its order; the first source
/// that names none decides the error.
pub open spec fn contexts_of(sources: Seq<Source>) -> Result<Seq<Seq<char>>, UsageError>
    decreases sources.len(),
{
    if sources.len() == 0 {
        Ok(Seq::empty())
    } else {
        match contexts_of(sources.drop_last()) {
            Err(e) => Err(e),
            Ok(names) => match context_of(sources.last()) {
                Err(e) => Err(e),
                Ok(name) => Ok(names.push(name)),
            },
        }
    }
}

/// The plan of a WHERE clause: the chain it folds into, a single condition
/// as a chain of one.
pub open spec fn plan_of(selection: Option<Expression>) -> Result<Seq<QueryView>, QueryError> {
    match selection {
        None => Err(QueryError::Usage(UsageError::MissingSelection)),
        Some(w) => match planned(w@) {
            Err(e) => Err(QueryError::Plan(e)),
            Ok(ObjectView::Queries(q)) => Ok(q),
            Ok(ObjectView::Query(q)) => Ok(seq![q]),
            Ok(_) => Err(QueryError::Plan(PlanError::UnsupportedExpression)),
        },
    }
}

/// What a SELECT resolves to: the projection is read first, then the source
/// list, then the WHERE clause.
pub open spec fn resolved(select: Select) -> Result<ApiQueriesView, QueryError> {
    if select.projection@.len() == 0 {
        Err(QueryError::Usage(UsageError::MissingProjection))
    } else {
        match namespaces_of(select.projection@) {
            Err(e) => Err(QueryError::Usage(e)),
            Ok(namespaces) => if select.from@.len() == 0 {
                Err(QueryError::Usage(UsageError::MissingSource))
            } else {
                match contexts_of(select.from@) {
                    Err(e) => Err(QueryError::Usage(e)),
                    Ok(contexts) => match plan_of(select.selection) {
                        Err(e) => Err(e),
                        Ok(queries) => Ok(ApiQueriesView { namespaces, contexts, queries }),
                    },
                }
            },
        }
    }
}

/// What a parse resolves to: the last statement counts, and it has to be a
/// plain SELECT.
pub open spec fn answered(parse: Option<Seq<Stmt>>) -> Result<ApiQueriesView, QueryError> {
    match parse {
        None => Err(QueryError::Usage(UsageError::Syntax)),
        Some(statements) => if statements.len() == 0 {
            Err(QueryError::Usage(UsageError::NoStatement))
        } else {
            match statements.last() {
                Stmt::Query(Body::Select(select)) => resolved(select),
                Stmt::Query(Body::Other) => Err(
                    QueryError::Usage(UsageError::UnsupportedBody),
                ),
                Stmt::Other => Err(QueryError::Usage(UsageError::NotAQuery)),
            }
        },
    }
}

/// The result of a resolution, by its view.
pub open spec fn resolution(r: Result<ApiQueries, QueryError>) -> Result<
    ApiQueriesView,
    QueryError,
> {
    match r {
        Ok(q) => Ok(q@),
        Err(e) => Err(e),
    }
}

/// The names of a list, by their views.
pub open spec fn names(r: Result<Vec<String>, UsageError>) -> Result<Seq<Seq<char>>, UsageError> {
    match r {
        Ok(v) => Ok(texts(v@)),
        Err(e) => Err(e),
    }
}

/// Reads the namespaces off a projection.
pub fn parse_projection(items: &Vec<Projection>) -> (r: Result<Vec<String>, UsageError>)
    ensures
        names(r) == namespaces_of(items@),
{
    let mut namespaces: Vec<String> = Vec::new();
    let mut i: usize = 0;
    proof {
        assert(texts(namespaces@) =~= Seq::empty());
    }
    while i < items.len()
        invariant
            i <= items.len(),
            namespaces_of(items@.take(i as int)) == Ok::<Seq<Seq<char>>, UsageError>(
                texts(namespaces@),
            ),
        decreases items.len() - i,
    {
        proof {
            assert(items@.take(i + 1).drop_last() =~= items@.take(i as int));
            assert(items@.take(i + 1).last() == items@[i as int]);
        }
        let ghost before = namespaces@;
        match &items[i] {
            Projection::UnnamedExpr(o) => {
                namespaces.push(decode(o.as_str()));
            },
            Projection::ExprWithAlias => {
                proof {
                    lemma_namespaces_error(items@, i + 1);
                }
                return Err(UsageError::AliasedProjection);
            },
            Projection::QualifiedWildcard => {
                proof {
                    lemma_namespaces_error(items@, i + 1);
                }
                return Err(UsageError::QualifiedWildcardProjection);
            },
            Projection::Wildcard => {
                proof {
                    lemma_namespaces_error(items@, i + 1);
                }
                return Err(UsageError::WildcardProjection);
            },
        }
        proof {
            assert(texts(namespaces@) =~= texts(before).push(decoded(items@[i as int]->UnnamedExpr_0@)));
        }
        i += 1;
    }
    proof {
        assert(items@.take(i as int) =~= items@);
    }
    Ok(namespaces)
}

/// An error among the first `n` items is the error of the whole projection.
proof fn lemma_namespaces_error(items: Seq<Projection>, n: int)
    requires
        0 <= n <= items.len(),
        namespaces_of(items.take(n)) is Err,
    ensures
        namespaces_of(items) == namespaces_of(items.take(n)),
    decreases items.len() - n,
{
    if n < items.len() {
        assert(items.take(n + 1).drop_last() =~= items.take(n));
        lemma_namespaces_error(items, n + 1);
    } else {
        assert(items.take(n) =~= items);
    }
}

/// Reads the contexts off a source list.
pub fn parse_sources(sources: &Vec<Source>) -> (r: Result<Vec<String>, UsageError>)
    ensures
        names(r) == contexts_of(sources@),
{
    let mut contexts: Vec<String> = Vec::new();
    let mut i: usize = 0;
    proof {
        assert(texts(contexts@) =~= Seq::empty());
    }
    while i < sources.len()
        invariant
            i <= sources.len(),
            contexts_of(sources@.take(i as int)) == Ok::<Seq<Seq<char>>, UsageError>(
                texts(contexts@),
            ),
        decreases sources.len() - i,
    {
        proof {
            assert(sources@.take(i + 1).drop_last() =~= sources@.take(i as int));
            assert(sources@.take(i + 1).last() == sources@[i as int]);
        }
        let ghost before = contexts@;
        match parse_source(&sources[i]) {
            Ok(name) => {
                contexts.push(name);
            },
            Err(e) => {
                proof {
                    lemma_contexts_error(sources@, i + 1);
                }
                return Err(e);
            },
        }
        proof {
            assert(texts(contexts@) =~= texts(before).push(context_of(sources@[i as int])->Ok_0));
        }
        i += 1;
    }
    proof {
        assert(sources@.take(i as int) =~= sources@);
    }
    Ok(contexts)
}

/// Reads the context off one source: a bare table reference without joins,
/// alias, arguments or hints.
pub fn parse_source(source: &Source) -> (r: Result<String, UsageError>)
    ensures
        match r {
            Ok(name) => context_of(*source) == Ok::<Seq<char>, UsageError>(name@),
            Err(e) => context_of(*source) == Err::<Seq<char>, UsageError>(e),
        },
{
    if source.joins.len() != 0 {
        return Err(UsageError::JoinedSource);
    }
    match &source.relation {
        Relation::Table { name, alias, args, with_hints } => {
            if alias.is_some() {
                Err(UsageError::AliasedSource)
            } else if args.len() != 0 {
                Err(UsageError::SourceArguments)
            } else if with_hints.len() != 0 {
                Err(UsageError::SourceHints)
            } else {
                Ok(decode(name.as_str()))
            }
        },
        Relation::Derived => Err(UsageError::DerivedSource),
        Relation::TableFunction => Err(UsageError::TableFunctionSource),
        Relation::NestedJoin => Err(UsageError::NestedJoinSource),
    }
}

/// An error among the first `n` sources is the error of the whole list.
proof fn lemma_contexts_error(sources: Seq<Source>, n: int)
    requires
        0 <= n <= sources.len(),
        contexts_of(sources.take(n)) is Err,
    ensures
        contexts_of(sources) == contexts_of(sources.take(n)),
    decreases sources.len() - n,
{
    if n < sources.len() {
        assert(sources.take(n + 1).drop_last() =~= sources.take(n));
        lemma_contexts_error(sources, n + 1);
    } else {
        assert(sources.take(n) =~= sources);
    }
}

/// Plans a WHERE clause.
pub fn parse_selection(selection: Option<Expression>) -> (r: Result<Vec<Query>, QueryError>)
    ensures
        match r {
            Ok(q) => plan_of(selection) == Ok::<Seq<QueryView>, QueryError>(plan_view(q@)),
            Err(e) => plan_of(selection) == Err::<Seq<QueryView>, QueryError>(e),
        },
{
    let w = match selection {
        Some(w) => w,
        None => {
            return Err(QueryError::Usage(UsageError::MissingSelection));
        },
    };
    match plan_expr(w) {
        Ok(Object::Queries(q)) => Ok(q),
        Ok(Object::Query(q)) => {
            let mut queries: Vec<Query> = Vec::new();
            queries.push(q);
            proof {
                assert(plan_view(queries@) =~= seq![q@]);
            }
            Ok(queries)
        },
        Ok(_) => Err(QueryError::Plan(PlanError::UnsupportedExpression)),
        Err(e) => Err(QueryError::Plan(e)),
    }
}

/// Resolves a SELECT.
pub fn parse_select(select: Select) -> (r: Result<ApiQueries, QueryError>)
    ensures
        resolution(r) == resolved(select),
{
    let Select { projection, from, selection } = select;
    if projection.len() == 0 {
        return Err(QueryError::Usage(UsageError::MissingProjection));
    }
    let namespaces = match parse_projection(&projection) {
        Ok(namespaces) => namespaces,
        Err(e) => {
            return Err(QueryError::Usage(e));
        },
    };
    if from.len() == 0 {
        return Err(QueryError::Usage(UsageError::MissingSource));
    }
    let contexts = match parse_sources(&from) {
        Ok(contexts) => contexts,
        Err(e) => {
            return Err(QueryError::Usage(e));
        },
    };
    match parse_selection(selection) {
        Ok(queries) => Ok(ApiQueries { namespaces, contexts, queries }),
        Err(e) => Err(e),
    }
}

/// Resolves the last statement of a parse.
pub fn parse_statements(parse: Option<Vec<Stmt>>) -> (r: Result<ApiQueries, QueryError>)
    ensures
        resolution(r) == answered(
            match parse {
                Some(v) => Some(v@),
                None => None,
            },
        ),
{
    let mut statements = match parse {
        Some(statements) => statements,
        None => {
            return Err(QueryError::Usage(UsageError::Syntax));
        },
    };
    match statements.pop() {
        None => Err(QueryError::Usage(UsageError::NoStatement)),
        Some(Stmt::Query(Body::Select(select))) => parse_select(select),
        Some(Stmt::Query(Body::Other)) => Err(
            QueryError::Usage(UsageError::UnsupportedBody),
        ),
        Some(Stmt::Other) => Err(QueryError::Usage(UsageError::NotAQuery)),
    }
}

/// What a text resolves to, `encoded` being the text with its dashes
/// replaced: nothing where it holds a token that the grammar has no place
/// for, else what its parse resolves to.
pub open spec fn read(encoded: Seq<char>) -> Result<ApiQueriesView, QueryError> {
    if stray(vstd::utf8::encode_utf8(encoded)) {
        Err(QueryError::Usage(UsageError::UnsupportedToken))
    } else {
        answered(parsed(encoded))
    }
}

/// Parses and resolves the text of a statement. Dashes are carried through
/// the grammar as underscores.
pub fn parse_sql(sql: &str) -> (r: Result<ApiQueries, QueryError>)
    ensures
        resolution(r) == read(encoded(sql@)),
{
    let text = encode(sql);
    if has_stray(text.as_str().as_bytes()) {
        return Err(QueryError::Usage(UsageError::UnsupportedToken));
    }
    let parse = match parse(text.as_str()) {
        Ok(statements) => Some(statements),
        Err(_) => None,
    };
    parse_statements(parse)
}

/// A statement that selects nothing is refused for that, whatever else it
/// holds; one without a WHERE clause is refused as a usage error.
pub proof fn lemma_missing_clauses(select: Select)
    ensures
        select.projection@.len() == 0 ==> resolved(select) == Err::<ApiQueriesView, QueryError>(
            QueryError::Usage(UsageError::MissingProjection),
        ),
        select.selection is None ==> resolved(select) is Err && resolved(select)->Err_0 is Usage,
{
}

/// A projection that names its namespaces names one for each of its items.
pub proof fn lemma_namespaces_len(items: Seq<Projection>)
    ensures
        namespaces_of(items) matches Ok(names) ==> names.len() == items.len(),
    decreases items.len(),
{
    if items.len() > 0 {
        lemma_namespaces_len(items.drop_last());
    }
}

/// A source list that names its contexts names one for each of its sources.
pub proof fn lemma_contexts_len(sources: Seq<Source>)
    ensures
        contexts_of(sources) matches Ok(names) ==> names.len() == sources.len(),
    decreases sources.len(),
{
    if sources.len() > 0 {
        lemma_contexts_len(sources.drop_last());
    }
}

/// What a statement resolves to is never empty: it names a namespace for
/// every item of the projection and a context for every source, at least
/// one of each, and its plan is well formed.
pub proof fn lemma_resolved_well_formed(select: Select)
    ensures
        resolved(select) matches Ok(v) ==> {
            &&& v.namespaces.len() == select.projection@.len() > 0
            &&& v.contexts.len() == select.from@.len() > 0
            &&& well_formed(v.queries)
        },
{
    lemma_namespaces_len(select.projection@);
    lemma_contexts_len(select.from@);
    if let Some(w) = select.selection {
        lemma_planned_well_formed(w@);
    }
}

} // verus!
