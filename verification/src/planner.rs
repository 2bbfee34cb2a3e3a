//! Folding of a WHERE expression into an ordered chain of field conditions.
//!
//! A subtree folds into one of four forms: the segments of a dotted
//! identifier, the text of a string literal, a single condition, or a chain
//! of conditions. A binary node combines the forms of its children:
//!
//! * segments and a literal, under a comparison, make a single condition;
//! * two single conditions, under a connective, make a chain of two;
//! * a chain and a single condition, under a connective, make a longer chain;
//! * any other pair is a mismatch.
//!
//! The connective is carried by the condition on the right, so the first
//! condition of a chain carries none. Chains grow to the right only: the
//! tree `a OR (b AND c)` has no plan.

use crate::codec::{decode, decoded};
use crate::kind::ResourceType;
use vstd::prelude::*;

verus! {

/// How a condition joins the one before it.
#[derive(Debug, Clone, Copy, PartialEq, Eq, Structural)]
pub enum Connective {
    And,
    Or,
}

/// How a field is compared with a value.
#[derive(Debug, Clone, Copy, PartialEq, Eq, Structural)]
pub enum Comparator {
    Eq,
    NotEq,
    Lt,
    LtEq,
    Gt,
    GtEq,
}

/// The operator of a binary node.
#[derive(Debug, Clone, Copy, PartialEq, Eq, Structural)]
pub enum Operator {
    Compare(Comparator),
    Join(Connective),
    Other,
}

/// A literal of the expression tree.
#[derive(Debug, Clone, PartialEq, Eq)]
pub enum Value {
    SingleQuotedString(String),
    DoubleQuotedString(String),
    Other,
}

/// A node of the expression tree of a WHERE clause.
#[derive(Debug, PartialEq, Eq)]
pub enum Expression {
    /// A dotted identifier, segment by segment.
    CompoundIdentifier(Vec<String>),
    BinaryOp { left: Box<Expression>, op: Operator, right: Box<Expression> },
    Value(Value),
    /// Any node of another kind.
    Other,
}

/// What planning reads of an expression tree.
pub enum ExpressionView {
    Segments(Seq<Seq<char>>),
    Literal(Seq<char>),
    Binary { left: Box<ExpressionView>, op: Operator, right: Box<ExpressionView> },
    Unsupported,
}

/// The views of a sequence of strings.
pub open spec fn texts(v: Seq<String>) -> Seq<Seq<char>> {
    Seq::new(v.len(), |i: int| v[i]@)
}

impl View for Value {
    type V = Option<Seq<char>>;

    /// The text of a quoted string; `None` for any other literal.
    open spec fn view(&self) -> Option<Seq<char>> {
        match *self {
            Value::SingleQuotedString(s) => Some(s@),
            Value::DoubleQuotedString(s) => Some(s@),
            Value::Other => None,
        }
    }
}

impl Expression {
    /// What planning reads of the tree: a literal that is no quoted string
    /// counts as unsupported, like a node of any other kind.
    pub open spec fn model(self) -> ExpressionView
        decreases self,
    {
        match self {
            Expression::CompoundIdentifier(idents) => ExpressionView::Segments(texts(idents@)),
            Expression::BinaryOp { left, op, right } => ExpressionView::Binary {
                left: Box::new(left.model()),
                op,
                right: Box::new(right.model()),
            },
            Expression::Value(v) => match v@ {
                Some(s) => ExpressionView::Literal(s),
                None => ExpressionView::Unsupported,
            },
            Expression::Other => ExpressionView::Unsupported,
        }
    }
}

impl View for Expression {
    type V = ExpressionView;

    open spec fn view(&self) -> ExpressionView {
        self.model()
    }
}

/// One condition on a field of a resource.
#[derive(Debug, Clone, PartialEq, Eq)]
pub struct Query {
    /// How the condition joins the one before it; `None` for the first.
    pub key: Option<Connective>,
    pub kind: ResourceType,
    pub field1: String,
    pub field2: String,
    /// The value the field is compared with.
    pub eq: String,
    pub op: Comparator,
}

/// A condition, by the views of its texts.
pub struct QueryView {
    pub key: Option<Connective>,
    pub kind: ResourceType,
    pub field1: Seq<char>,
    pub field2: Seq<char>,
    pub eq: Seq<char>,
    pub op: Comparator,
}

impl View for Query {
    type V = QueryView;

    open spec fn view(&self) -> QueryView {
        QueryView {
            key: self.key,
            kind: self.kind,
            field1: self.field1@,
            field2: self.field2@,
            eq: self.eq@,
            op: self.op,
        }
    }
}

/// The views of a sequence of conditions.
pub open spec fn plan_view(v: Seq<Query>) -> Seq<QueryView> {
    Seq::new(v.len(), |i: int| v[i]@)
}

/// What a subtree folds into.
#[derive(Debug)]
pub enum Object {
    /// The segments of a dotted identifier.
    Strings(Vec<String>),
    /// The text of a string literal.
    Literal(String),
    /// A single condition.
    Query(Query),
    /// A chain of two or more conditions.
    Queries(Vec<Query>),
}

/// What a subtree folds into, by the views of its parts.
pub enum ObjectView {
    Strings(Seq<Seq<char>>),
    Literal(Seq<char>),
    Query(QueryView),
    Queries(Seq<QueryView>),
}

impl View for Object {
    type V = ObjectView;

    open spec fn view(&self) -> ObjectView {
        match self {
            Object::Strings(v) => ObjectView::Strings(texts(v@)),
            Object::Literal(s) => ObjectView::Literal(s@),
            Object::Query(q) => ObjectView::Query(q@),
            Object::Queries(v) => ObjectView::Queries(plan_view(v@)),
        }
    }
}

/// Which of the four forms a folded subtree has.
#[derive(Debug, Clone, Copy, PartialEq, Eq, Structural)]
pub enum Shape {
    Strings,
    Literal,
    Query,
    Queries,
}

/// Why an expression has no plan.
#[derive(Debug, Clone, Copy, PartialEq, Eq, Structural)]
pub enum PlanError {
    /// A node or an operator that has no meaning in a condition chain.
    UnsupportedExpression,
    /// An identifier that is not `kind.field1.field2` with a known kind.
    InvalidFieldPath,
    /// Two operands that no rule combines.
    TypeMismatch { left: Shape, right: Shape },
}

impl ObjectView {
    /// Which of the four forms this is.
    pub open spec fn shape(self) -> Shape {
        match self {
            ObjectView::Strings(_) => Shape::Strings,
            ObjectView::Literal(_) => Shape::Literal,
            ObjectView::Query(_) => Shape::Query,
            ObjectView::Queries(_) => Shape::Queries,
        }
    }
}

impl QueryView {
    /// The condition extended to its predecessor by `c`.
    pub open spec fn stamped(self, c: Connective) -> QueryView {
        QueryView { key: Some(c), ..self }
    }
}

/// The result of planning, by its view.
pub open spec fn outcome(r: Result<Object, PlanError>) -> Result<ObjectView, PlanError> {
    match r {
        Ok(o) => Ok(o@),
        Err(e) => Err(e),
    }
}

/// The condition that an identifier, a comparison and a literal stand for.
pub open spec fn single(a: Seq<Seq<char>>, b: Seq<char>, op: Operator) -> Result<
    ObjectView,
    PlanError,
> {
    if a.len() != 3 {
        Err(PlanError::InvalidFieldPath)
    } else {
        match op {
            Operator::Compare(c) => match ResourceType::named(a[0]) {
                Some(kind) => Ok(
                    ObjectView::Query(
                        QueryView {
                            key: None,
                            kind,
                            field1: a[1],
                            field2: a[2],
                            eq: decoded(b),
                            op: c,
                        },
                    ),
                ),
                None => Err(PlanError::InvalidFieldPath),
            },
            _ => Err(PlanError::UnsupportedExpression),
        }
    }
}

/// The chain that `op` makes of a chain and one more condition.
pub open spec fn extended(a: Seq<QueryView>, b: QueryView, op: Operator) -> Result<
    ObjectView,
    PlanError,
> {
    match op {
        Operator::Join(c) => Ok(ObjectView::Queries(a.push(b.stamped(c)))),
        _ => Err(PlanError::UnsupportedExpression),
    }
}

/// What a binary node folds into, given what its two children folded into.
pub open spec fn combined(l: ObjectView, op: Operator, r: ObjectView) -> Result<
    ObjectView,
    PlanError,
> {
    match (l, r) {
        (ObjectView::Strings(a), ObjectView::Literal(b)) => single(a, b, op),
        (ObjectView::Query(a), ObjectView::Query(b)) => extended(seq![a], b, op),
        (ObjectView::Queries(a), ObjectView::Query(b)) => extended(a, b, op),
        _ => Err(PlanError::TypeMismatch { left: l.shape(), right: r.shape() }),
    }
}

/// What an expression folds into: the left child first, then the right, then
/// the node itself.
pub open spec fn planned(e: ExpressionView) -> Result<ObjectView, PlanError>
    decreases e,
{
    match e {
        ExpressionView::Segments(a) => Ok(ObjectView::Strings(a)),
        ExpressionView::Literal(s) => Ok(ObjectView::Literal(s)),
        ExpressionView::Unsupported => Err(PlanError::UnsupportedExpression),
        ExpressionView::Binary { left, op, right } => match planned(*left) {
            Err(e) => Err(e),
            Ok(l) => match planned(*right) {
                Err(e) => Err(e),
                Ok(r) => combined(l, op, r),
            },
        },
    }
}

/// The tree of one comparison of a dotted identifier with a string literal.
pub open spec fn condition(path: Seq<Seq<char>>, op: Operator, value: Seq<char>) -> ExpressionView {
    ExpressionView::Binary {
        left: Box::new(ExpressionView::Segments(path)),
        op,
        right: Box::new(ExpressionView::Literal(value)),
    }
}

/// The left-leaning tree of `first` followed by each further condition of
/// `rest`, extended to what stands before it by its connective.
pub open spec fn chain(first: ExpressionView, rest: Seq<(Connective, ExpressionView)>) -> ExpressionView
    decreases rest.len(),
{
    if rest.len() == 0 {
        first
    } else {
        ExpressionView::Binary {
            left: Box::new(chain(first, rest.drop_last())),
            op: Operator::Join(rest.last().0),
            right: Box::new(rest.last().1),
        }
    }
}

/// A plan is well formed when it is not empty, its first condition carries
/// no connective and every later one carries one.
pub open spec fn well_formed(plan: Seq<QueryView>) -> bool {
    &&& plan.len() > 0
    &&& plan[0].key is None
    &&& forall|i: int| 0 < i < plan.len() ==> (#[trigger] plan[i]).key is Some
}

/// A comparison of `kind.field1.field2` with a string literal plans to exactly
/// one condition without a connective: the kind that the first segment
/// names, the two field segments as they stand, the comparison, and the
/// literal decoded.
pub proof fn lemma_single_condition(
    path: Seq<Seq<char>>,
    c: Comparator,
    value: Seq<char>,
    kind: ResourceType,
)
    requires
        path.len() == 3,
        ResourceType::named(path[0]) == Some(kind),
    ensures
        planned(condition(path, Operator::Compare(c), value)) == Ok::<ObjectView, PlanError>(
            ObjectView::Query(
                QueryView {
                    key: None,
                    kind,
                    field1: path[1],
                    field2: path[2],
                    eq: decoded(value),
                    op: c,
                },
            ),
        ),
{
    reveal_with_fuel(planned, 2);
}

/// An identifier of fewer or more than three segments, compared with a
/// string literal by whatever operator, has no plan: the field path is
/// invalid.
pub proof fn lemma_segment_count(path: Seq<Seq<char>>, op: Operator, value: Seq<char>)
    requires
        path.len() != 3,
    ensures
        planned(condition(path, op, value)) == Err::<ObjectView, PlanError>(
            PlanError::InvalidFieldPath,
        ),
{
    reveal_with_fuel(planned, 2);
}

/// Whatever an expression plans to is well formed: a single condition
/// carries no connective, and a chain has at least two conditions, of which
/// exactly the first carries none.
pub proof fn lemma_planned_well_formed(e: ExpressionView)
    ensures
        match planned(e) {
            Ok(ObjectView::Query(q)) => q.key is None,
            Ok(ObjectView::Queries(qs)) => qs.len() >= 2 && well_formed(qs),
            _ => true,
        },
    decreases e,
{
    match e {
        ExpressionView::Binary { left, op, right } => {
            lemma_planned_well_formed(*left);
            lemma_planned_well_formed(*right);
        },
        _ => {},
    }
}

/// A chain of N conditions plans to N conditions in source order: the first
/// as it plans alone, each later one as it plans alone but for the
/// connective that joins it, which it carries.
pub proof fn lemma_chain(
    first: ExpressionView,
    rest: Seq<(Connective, ExpressionView)>,
    q0: QueryView,
    qs: Seq<QueryView>,
)
    requires
        rest.len() >= 1,
        qs.len() == rest.len(),
        planned(first) == Ok::<ObjectView, PlanError>(ObjectView::Query(q0)),
        forall|i: int|
            0 <= i < rest.len() ==> planned(#[trigger] rest[i].1) == Ok::<ObjectView, PlanError>(
                ObjectView::Query(qs[i]),
            ),
    ensures
        planned(chain(first, rest)) == Ok::<ObjectView, PlanError>(
            ObjectView::Queries(
                Seq::new(
                    rest.len() + 1,
                    |i: int|
                        if i == 0 {
                            q0
                        } else {
                            qs[i - 1].stamped(rest[i - 1].0)
                        },
                ),
            ),
        ),
        q0.key is None,
    decreases rest.len(),
{
    lemma_planned_well_formed(first);
    let last = rest.last();
    let init = rest.drop_last();
    let expected = Seq::new(
        rest.len() + 1,
        |i: int|
            if i == 0 {
                q0
            } else {
                qs[i - 1].stamped(rest[i - 1].0)
            },
    );
    assert(planned(last.1) == Ok::<ObjectView, PlanError>(ObjectView::Query(qs[rest.len() - 1])));
    if init.len() == 0 {
        assert(chain(first, init) == first);
        assert(expected =~= seq![q0].push(qs[0].stamped(last.0)));
    } else {
        assert forall|i: int| 0 <= i < init.len() implies planned(#[trigger] init[i].1) == Ok::<
            ObjectView,
            PlanError,
        >(ObjectView::Query(qs.drop_last()[i])) by {
            assert(init[i] == rest[i]);
        }
        lemma_chain(first, init, q0, qs.drop_last());
        let before = Seq::new(
            init.len() + 1,
            |i: int|
                if i == 0 {
                    q0
                } else {
                    qs.drop_last()[i - 1].stamped(init[i - 1].0)
                },
        );
        assert(expected =~= before.push(qs[rest.len() - 1].stamped(last.0)));
    }
}

/// Folds an expression tree.
pub fn plan_expr(expr: Expression) -> (r: Result<Object, PlanError>)
    ensures
        outcome(r) == planned(expr@),
    decreases expr,
{
    match expr {
        Expression::CompoundIdentifier(i) => Ok(plan_expr_compound_ident(i)),
        Expression::BinaryOp { left, op, right } => {
            let l = match plan_expr(*left) {
                Ok(l) => l,
                Err(e) => {
                    return Err(e);
                },
            };
            let r = match plan_expr(*right) {
                Ok(r) => r,
                Err(e) => {
                    return Err(e);
                },
            };
            plan_expr_binary_op(l, op, r)
        },
        Expression::Value(v) => plan_expr_value(v),
        Expression::Other => Err(PlanError::UnsupportedExpression),
    }
}

/// A dotted identifier folds into its segments.
pub fn plan_expr_compound_ident(idents: Vec<String>) -> (r: Object)
    ensures
        r@ == ObjectView::Strings(texts(idents@)),
{
    Object::Strings(idents)
}

/// A quoted string folds into its text; no other literal folds.
pub fn plan_expr_value(value: Value) -> (r: Result<Object, PlanError>)
    ensures
        outcome(r) == match value@ {
            Some(s) => Ok::<ObjectView, PlanError>(ObjectView::Literal(s)),
            None => Err(PlanError::UnsupportedExpression),
        },
{
    match value {
        Value::SingleQuotedString(s) => Ok(Object::Literal(s)),
        Value::DoubleQuotedString(s) => Ok(Object::Literal(s)),
        Value::Other => Err(PlanError::UnsupportedExpression),
    }
}

/// Combines what the two children of a binary node folded into.
pub fn plan_expr_binary_op(left: Object, op: Operator, right: Object) -> (r: Result<
    Object,
    PlanError,
>)
    ensures
        outcome(r) == combined(left@, op, right@),
{
    match (left, right) {
        (Object::Strings(a), Object::Literal(b)) => plan_expr_binary_op_query(a, b, op),
        (Object::Query(a), Object::Query(b)) => plan_expr_binary_op_query_vec(a, b, op),
        (Object::Queries(a), Object::Query(b)) => plan_expr_binary_op_query_vec_append(a, b, op),
        (x, y) => Err(PlanError::TypeMismatch { left: shape_of(&x), right: shape_of(&y) }),
    }
}

/// The form of a folded subtree.
pub fn shape_of(o: &Object) -> (r: Shape)
    ensures
        r == o@.shape(),
{
    match o {
        Object::Strings(_) => Shape::Strings,
        Object::Literal(_) => Shape::Literal,
        Object::Query(_) => Shape::Query,
        Object::Queries(_) => Shape::Queries,
    }
}

/// Makes the anchor condition out of `kind.field1.field2`, a comparison and
/// a literal, whose underscores stand for dashes.
pub fn plan_expr_binary_op_query(input: Vec<String>, eq: String, op: Operator) -> (r: Result<
    Object,
    PlanError,
>)
    ensures
        outcome(r) == single(texts(input@), eq@, op),
{
    if input.len() != 3 {
        return Err(PlanError::InvalidFieldPath);
    }
    let c = match op {
        Operator::Compare(c) => c,
        _ => {
            return Err(PlanError::UnsupportedExpression);
        },
    };
    let kind = match ResourceType::from_str(input[0].as_str()) {
        Ok(kind) => kind,
        Err(_) => {
            return Err(PlanError::InvalidFieldPath);
        },
    };
    Ok(
        Object::Query(
            Query {
                key: None,
                kind,
                field1: input[1].clone(),
                field2: input[2].clone(),
                eq: decode(eq.as_str()),
                op: c,
            },
        ),
    )
}

/// Starts a chain: `input` stays as it is and `eq` follows it, extended by `op`.
pub fn plan_expr_binary_op_query_vec(input: Query, eq: Query, op: Operator) -> (r: Result<
    Object,
    PlanError,
>)
    ensures
        outcome(r) == extended(seq![input@], eq@, op),
{
    let mut v: Vec<Query> = Vec::new();
    v.push(input);
    let r = plan_expr_binary_op_query_vec_append(v, eq, op);
    proof {
        assert(plan_view(seq![input]) =~= seq![input@]);
    }
    r
}

/// Extends a chain by `eq`, extended by `op`.
pub fn plan_expr_binary_op_query_vec_append(input: Vec<Query>, eq: Query, op: Operator) -> (r:
    Result<Object, PlanError>)
    ensures
        outcome(r) == extended(plan_view(input@), eq@, op),
{
    let c = match op {
        Operator::Join(c) => c,
        _ => {
            return Err(PlanError::UnsupportedExpression);
        },
    };
    let mut v = input;
    let mut eq = eq;
    eq.key = Some(c);
    v.push(eq);
    proof {
        assert(plan_view(v@) =~= plan_view(input@).push(eq@));
    }
    Ok(Object::Queries(v))
}

} // verus!
