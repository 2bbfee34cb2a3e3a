use kubesql::executor::{Call, Execution, ExecutionError, Listing};
use kubesql::kind::ResourceType;
use kubesql::parser::{parse_sql, QueryError, UsageError};

fn names(parts: &[&str]) -> Vec<String> {
    parts.iter().map(|s| s.to_string()).collect()
}

fn call(context: &str, namespace: &str, kind: ResourceType, selector: &str) -> Call {
    Call {
        context: context.to_string(),
        namespace: namespace.to_string(),
        kind,
        selector: selector.to_string(),
    }
}

/// Runs a statement against a cluster that answers each listing by `answer`.
fn run(
    sql: &str,
    answer: &dyn Fn(&Call) -> Listing,
) -> Result<(Vec<Call>, Result<Vec<Vec<String>>, ExecutionError>), QueryError> {
    let q = parse_sql(sql)?;
    let mut run = Execution::start(&q);
    let mut calls = Vec::new();
    while let Some(c) = run.pending() {
        assert!(!run.is_done());
        assert_eq!(run.failure(), None);
        run = run.answer(&answer(&c));
        calls.push(c);
    }
    assert!(run.is_done());
    let failure = run.failure();
    let table = run.finish();
    assert_eq!(table.clone().err(), failure);
    Ok((calls, table))
}

fn found(parts: &[&str]) -> Listing {
    Listing::Names(names(parts))
}

#[test]
fn one_condition_is_listed_once_in_every_pair_in_order() {
    let (calls, _) =
        run("SELECT n1, n2 FROM c1, c2 WHERE pod.status.phase = 'Running'", &|_| found(&[])).unwrap();
    let sel = "status.phase=Running";
    assert_eq!(
        calls,
        vec![
            call("c1", "n1", ResourceType::Pod, sel),
            call("c1", "n2", ResourceType::Pod, sel),
            call("c2", "n1", ResourceType::Pod, sel),
            call("c2", "n2", ResourceType::Pod, sel),
        ]
    );
}

#[test]
fn conditions_are_listed_in_chain_order() {
    let (calls, table) = run(
        "SELECT n1 FROM c1, c2 WHERE pod.a.b = 'x' OR deployment.c.d = 'my-y'",
        &|_| found(&[]),
    )
    .unwrap();
    assert_eq!(
        calls,
        vec![
            call("c1", "n1", ResourceType::Pod, "a.b=x"),
            call("c2", "n1", ResourceType::Pod, "a.b=x"),
            call("c1", "n1", ResourceType::Deployment, "c.d=my-y"),
            call("c2", "n1", ResourceType::Deployment, "c.d=my-y"),
        ]
    );
    assert_eq!(
        table.unwrap(),
        vec![names(&["KIND/CONTEXT", "c1", "c2"]), names(&["pod", "-", "-"]), names(&["deployment", "-", "-"])]
    );
}

#[test]
fn a_found_pod_fills_its_cell() {
    let (calls, table) =
        run("SELECT n1 FROM c1 WHERE pod.status.phase='Running'", &|_| found(&["web-1"])).unwrap();
    assert_eq!(calls.len(), 1);
    assert_eq!(table.unwrap(), vec![names(&["KIND/CONTEXT", "c1"]), names(&["pod", "web-1"])]);
}

#[test]
fn an_anchor_that_finds_nothing_leaves_a_dash() {
    let (calls, table) =
        run("SELECT n1 FROM c1 WHERE pod.status.phase='Running'", &|_| found(&[])).unwrap();
    assert_eq!(calls.len(), 1);
    assert_eq!(table.unwrap(), vec![names(&["KIND/CONTEXT", "c1"]), names(&["pod", "-"])]);
}

#[test]
fn an_and_condition_that_finds_nothing_ends_the_run() {
    let (calls, table) = run(
        "SELECT n1, n2 FROM c1 WHERE pod.a.b='x' AND deployment.c.d='y'",
        &|c| {
            if c.kind == ResourceType::Deployment && c.namespace == "n2" {
                found(&[])
            } else {
                found(&["found"])
            }
        },
    )
    .unwrap();
    assert_eq!(table, Err(ExecutionError::NoResourceFound));
    assert_eq!(calls.len(), 4);
    assert_eq!(calls[3], call("c1", "n2", ResourceType::Deployment, "c.d=y"));
}

#[test]
fn an_or_condition_that_finds_nothing_is_passed_over() {
    let (calls, table) = run(
        "SELECT n1, n2 FROM c1 WHERE pod.a.b='x' OR deployment.c.d='y'",
        &|c| {
            if c.kind == ResourceType::Deployment {
                found(&[])
            } else {
                found(&["p-1", "p-2"])
            }
        },
    )
    .unwrap();
    assert_eq!(calls.len(), 4);
    assert_eq!(
        table.unwrap(),
        vec![
            names(&["KIND/CONTEXT", "c1"]),
            names(&["pod", "p-1\np-2\np-1\np-2"]),
            names(&["deployment", "-\n-"]),
        ]
    );
}

#[test]
fn a_statement_without_conditions_reaches_no_listing() {
    let r = run("SELECT n1 FROM c1", &|_| panic!("no listing is due"));
    assert_eq!(r.unwrap_err(), QueryError::Usage(UsageError::MissingSelection));
    let r = run("SELECT * FROM c1 WHERE pod.a.b = 'x'", &|_| panic!("no listing is due"));
    assert_eq!(r.unwrap_err(), QueryError::Usage(UsageError::WildcardProjection));
}

#[test]
fn a_failed_listing_ends_the_run_at_once() {
    let (calls, table) = run(
        "SELECT n1, n2 FROM c1, c2 WHERE pod.a.b='x' OR deployment.c.d='y'",
        &|c| {
            if c.context == "c2" {
                Listing::Failed
            } else {
                found(&["p-1"])
            }
        },
    )
    .unwrap();
    assert_eq!(table, Err(ExecutionError::ListingFailed));
    assert_eq!(calls.len(), 3);
    assert_eq!(calls[2], call("c2", "n1", ResourceType::Pod, "a.b=x"));
}

#[test]
fn a_run_without_targets_is_over_at_once() {
    let q = parse_sql("SELECT n1 FROM c1 WHERE pod.a.b='x'").unwrap();
    let none = kubesql::parser::ApiQueries { namespaces: vec![], ..q };
    let run = Execution::start(&none);
    assert!(run.is_done());
    assert_eq!(run.pending(), None);
    assert_eq!(run.finish(), Ok(vec![names(&["KIND/CONTEXT", "c1"]), names(&["pod", ""])]));
}
