use kubesql::kind::ResourceType;
use kubesql::planner::{
    plan_expr, plan_expr_binary_op, plan_expr_binary_op_query, plan_expr_binary_op_query_vec,
    plan_expr_binary_op_query_vec_append, plan_expr_compound_ident, plan_expr_value, shape_of,
    Comparator, Connective, Expression, Object, Operator, PlanError, Query, Shape, Value,
};

fn strings(parts: &[&str]) -> Vec<String> {
    parts.iter().map(|s| s.to_string()).collect()
}

fn ident(parts: &[&str]) -> Expression {
    Expression::CompoundIdentifier(strings(parts))
}

fn literal(text: &str) -> Expression {
    Expression::Value(Value::SingleQuotedString(text.to_string()))
}

fn binary(left: Expression, op: Operator, right: Expression) -> Expression {
    Expression::BinaryOp { left: Box::new(left), op, right: Box::new(right) }
}

fn condition(path: &[&str], value: &str) -> Expression {
    binary(ident(path), Operator::Compare(Comparator::Eq), literal(value))
}

fn query(key: Option<Connective>, kind: ResourceType, f1: &str, f2: &str, eq: &str) -> Query {
    Query {
        key,
        kind,
        field1: f1.to_string(),
        field2: f2.to_string(),
        eq: eq.to_string(),
        op: Comparator::Eq,
    }
}

fn single(o: Object) -> Query {
    match o {
        Object::Query(q) => q,
        other => panic!("not a single condition: {:?}", other),
    }
}

fn chain(o: Object) -> Vec<Query> {
    match o {
        Object::Queries(q) => q,
        other => panic!("not a chain: {:?}", other),
    }
}

#[test]
fn one_comparison_plans_to_one_anchor_condition() {
    let q = single(plan_expr(condition(&["pod", "status", "phase"], "Running")).unwrap());
    assert_eq!(q, query(None, ResourceType::Pod, "status", "phase", "Running"));
}

#[test]
fn the_value_of_a_condition_is_decoded() {
    let q = single(plan_expr(condition(&["deployment", "metadata", "name"], "my_awesome_app")).unwrap());
    assert_eq!(q.eq, "my-awesome-app");
    assert_eq!(q.kind, ResourceType::Deployment);
    assert_eq!(q.key, None);
}

#[test]
fn the_fields_of_a_condition_are_kept_verbatim() {
    let q = single(plan_expr(condition(&["POD", "Meta_Data", "host_IP"], "x")).unwrap());
    assert_eq!(q.kind, ResourceType::Pod);
    assert_eq!(q.field1, "Meta_Data");
    assert_eq!(q.field2, "host_IP");
}

#[test]
fn the_comparison_is_kept() {
    let e = binary(ident(&["pod", "a", "b"]), Operator::Compare(Comparator::NotEq), literal("x"));
    assert_eq!(single(plan_expr(e).unwrap()).op, Comparator::NotEq);
    let e = binary(ident(&["pod", "a", "b"]), Operator::Compare(Comparator::GtEq), literal("x"));
    assert_eq!(single(plan_expr(e).unwrap()).op, Comparator::GtEq);
}

#[test]
fn a_double_quoted_string_is_a_literal_too() {
    let e = binary(
        ident(&["pod", "a", "b"]),
        Operator::Compare(Comparator::Eq),
        Expression::Value(Value::DoubleQuotedString("x_y".to_string())),
    );
    assert_eq!(single(plan_expr(e).unwrap()).eq, "x-y");
}

#[test]
fn a_path_of_another_length_is_invalid() {
    for path in [&[][..], &["pod"][..], &["pod", "status"][..], &["pod", "a", "b", "c"][..]] {
        let r = plan_expr(condition(path, "x"));
        assert_eq!(r.unwrap_err(), PlanError::InvalidFieldPath);
    }
}

#[test]
fn a_path_of_another_length_is_invalid_whatever_the_operator() {
    let e = binary(ident(&["pod", "a"]), Operator::Join(Connective::And), literal("x"));
    assert_eq!(plan_expr(e).unwrap_err(), PlanError::InvalidFieldPath);
    let e = binary(ident(&["service", "a"]), Operator::Other, literal("x"));
    assert_eq!(plan_expr(e).unwrap_err(), PlanError::InvalidFieldPath);
}

#[test]
fn an_unknown_kind_is_an_invalid_path() {
    let r = plan_expr(condition(&["service", "a", "b"], "x"));
    assert_eq!(r.unwrap_err(), PlanError::InvalidFieldPath);
}

#[test]
fn a_path_needs_a_comparison() {
    let e = binary(ident(&["pod", "a", "b"]), Operator::Join(Connective::Or), literal("x"));
    assert_eq!(plan_expr(e).unwrap_err(), PlanError::UnsupportedExpression);
    let e = binary(ident(&["pod", "a", "b"]), Operator::Other, literal("x"));
    assert_eq!(plan_expr(e).unwrap_err(), PlanError::UnsupportedExpression);
}

#[test]
fn two_conditions_make_a_chain_of_two() {
    let e = binary(
        condition(&["pod", "a", "b"], "x"),
        Operator::Join(Connective::And),
        condition(&["deployment", "c", "d"], "y"),
    );
    let plan = chain(plan_expr(e).unwrap());
    assert_eq!(
        plan,
        vec![
            query(None, ResourceType::Pod, "a", "b", "x"),
            query(Some(Connective::And), ResourceType::Deployment, "c", "d", "y"),
        ]
    );
}

#[test]
fn a_chain_of_n_conditions_has_n_elements_in_source_order() {
    let joins = [Connective::And, Connective::Or, Connective::Or, Connective::And];
    let mut e = condition(&["pod", "f", "g"], "v0");
    for (i, c) in joins.iter().enumerate() {
        let value = format!("v{}", i + 1);
        e = binary(e, Operator::Join(*c), condition(&["pod", "f", "g"], &value));
    }
    let plan = chain(plan_expr(e).unwrap());
    assert_eq!(plan.len(), 5);
    assert_eq!(plan[0].key, None);
    for (i, c) in joins.iter().enumerate() {
        assert_eq!(plan[i + 1].key, Some(*c));
    }
    for (i, q) in plan.iter().enumerate() {
        assert_eq!(q.eq, format!("v{}", i));
    }
}

#[test]
fn a_chain_needs_a_connective() {
    let e = binary(
        condition(&["pod", "a", "b"], "x"),
        Operator::Compare(Comparator::Eq),
        condition(&["pod", "c", "d"], "y"),
    );
    assert_eq!(plan_expr(e).unwrap_err(), PlanError::UnsupportedExpression);
}

#[test]
fn a_chain_on_the_right_is_a_mismatch() {
    let right = binary(
        condition(&["pod", "a", "b"], "x"),
        Operator::Join(Connective::And),
        condition(&["pod", "c", "d"], "y"),
    );
    let e = binary(condition(&["pod", "e", "f"], "z"), Operator::Join(Connective::Or), right);
    assert_eq!(
        plan_expr(e).unwrap_err(),
        PlanError::TypeMismatch { left: Shape::Query, right: Shape::Queries }
    );
}

#[test]
fn operands_that_no_rule_combines_are_named() {
    let e = binary(literal("x"), Operator::Compare(Comparator::Eq), literal("y"));
    assert_eq!(
        plan_expr(e).unwrap_err(),
        PlanError::TypeMismatch { left: Shape::Literal, right: Shape::Literal }
    );
    let e = binary(literal("x"), Operator::Compare(Comparator::Eq), ident(&["pod", "a", "b"]));
    assert_eq!(
        plan_expr(e).unwrap_err(),
        PlanError::TypeMismatch { left: Shape::Literal, right: Shape::Strings }
    );
    let e = binary(
        condition(&["pod", "a", "b"], "x"),
        Operator::Join(Connective::And),
        ident(&["pod", "a", "b"]),
    );
    assert_eq!(
        plan_expr(e).unwrap_err(),
        PlanError::TypeMismatch { left: Shape::Query, right: Shape::Strings }
    );
}

#[test]
fn other_nodes_are_unsupported() {
    assert_eq!(plan_expr(Expression::Other).unwrap_err(), PlanError::UnsupportedExpression);
    assert_eq!(
        plan_expr(Expression::Value(Value::Other)).unwrap_err(),
        PlanError::UnsupportedExpression
    );
    let e = binary(ident(&["pod", "a", "b"]), Operator::Compare(Comparator::Eq), Expression::Other);
    assert_eq!(plan_expr(e).unwrap_err(), PlanError::UnsupportedExpression);
}

#[test]
fn the_error_of_the_left_child_comes_first() {
    let left = condition(&["pod", "a"], "x");
    let e = binary(left, Operator::Join(Connective::And), Expression::Other);
    assert_eq!(plan_expr(e).unwrap_err(), PlanError::InvalidFieldPath);
}

#[test]
fn leaves_fold_into_their_own_forms() {
    let o = plan_expr(ident(&["a", "b"])).unwrap();
    assert_eq!(shape_of(&o), Shape::Strings);
    match plan_expr_compound_ident(strings(&["a", "b"])) {
        Object::Strings(v) => assert_eq!(v, strings(&["a", "b"])),
        other => panic!("unexpected {:?}", other),
    }
    match plan_expr_value(Value::SingleQuotedString("my_v".to_string())).unwrap() {
        Object::Literal(s) => assert_eq!(s, "my_v"),
        other => panic!("unexpected {:?}", other),
    }
    assert_eq!(plan_expr_value(Value::Other).unwrap_err(), PlanError::UnsupportedExpression);
}

#[test]
fn the_pieces_of_a_binary_node() {
    let a = single(
        plan_expr_binary_op_query(
            strings(&["pod", "a", "b"]),
            "x_1".to_string(),
            Operator::Compare(Comparator::Lt),
        )
        .unwrap(),
    );
    assert_eq!(a.eq, "x-1");
    assert_eq!(a.op, Comparator::Lt);
    let b = query(None, ResourceType::Deployment, "c", "d", "y");
    let two = chain(
        plan_expr_binary_op_query_vec(a.clone(), b.clone(), Operator::Join(Connective::Or)).unwrap(),
    );
    assert_eq!(two.len(), 2);
    assert_eq!(two[0], a);
    assert_eq!(two[1].key, Some(Connective::Or));
    let three = chain(
        plan_expr_binary_op_query_vec_append(two, b.clone(), Operator::Join(Connective::And))
            .unwrap(),
    );
    assert_eq!(three.len(), 3);
    assert_eq!(three[2].key, Some(Connective::And));
    assert_eq!(three[2].kind, ResourceType::Deployment);
    let four = chain(
        plan_expr_binary_op(Object::Queries(three), Operator::Join(Connective::Or), Object::Query(b))
            .unwrap(),
    );
    assert_eq!(four.len(), 4);
    assert_eq!(four[0].key, None);
    assert_eq!(four[3].key, Some(Connective::Or));
}
