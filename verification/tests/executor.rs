use kubesql::api_builder::ApiBuilder;
use kubesql::executor::{
    field_selector, first_step, next_step, record, targets, validate_contexts, is_known,
    CredentialError, ExecutionError, Listing, Step,
};
use kubesql::kind::ResourceType;
use kubesql::planner::{Comparator, Connective, Query};
use kubesql::printer::Printer;

fn names(parts: &[&str]) -> Vec<String> {
    parts.iter().map(|s| s.to_string()).collect()
}

fn query(key: Option<Connective>, kind: ResourceType) -> Query {
    Query {
        key,
        kind,
        field1: "status".to_string(),
        field2: "phase".to_string(),
        eq: "Running".to_string(),
        op: Comparator::Eq,
    }
}

#[test]
fn the_selector_is_field_dot_field_equals_value() {
    assert_eq!(field_selector(&query(None, ResourceType::Pod)), "status.phase=Running");
    let q = Query {
        key: Some(Connective::And),
        kind: ResourceType::Deployment,
        field1: "metadata".to_string(),
        field2: "name".to_string(),
        eq: "my-awesome-app".to_string(),
        op: Comparator::NotEq,
    };
    assert_eq!(field_selector(&q), "metadata.name=my-awesome-app");
    let q = Query { field1: String::new(), field2: String::new(), eq: String::new(), ..q };
    assert_eq!(field_selector(&q), ".=");
}

#[test]
fn targets_are_the_product_with_contexts_outermost() {
    let contexts = names(&["c1", "c2"]);
    let namespaces = names(&["n1", "n2"]);
    let queries = vec![query(None, ResourceType::Pod)];
    let apis = targets(&contexts, &namespaces, &queries);
    let pairs: Vec<(String, String)> =
        apis.iter().map(|a| (a.get_context().clone(), a.get_namespace().clone())).collect();
    assert_eq!(
        pairs,
        vec![
            ("c1".to_string(), "n1".to_string()),
            ("c1".to_string(), "n2".to_string()),
            ("c2".to_string(), "n1".to_string()),
            ("c2".to_string(), "n2".to_string()),
        ]
    );
}

#[test]
fn the_pair_of_context_i_and_namespace_j_stands_at_i_times_n_plus_j() {
    let contexts = names(&["a", "b", "c"]);
    let namespaces = names(&["x", "y", "z", "w"]);
    let apis = targets(&contexts, &namespaces, &[]);
    assert_eq!(apis.len(), 12);
    for i in 0..3 {
        for j in 0..4 {
            assert_eq!(apis[i * 4 + j].get_context(), &contexts[i]);
            assert_eq!(apis[i * 4 + j].get_namespace(), &namespaces[j]);
        }
    }
}

#[test]
fn no_context_or_no_namespace_gives_no_target() {
    assert_eq!(targets(&[], &names(&["n1"]), &[]).len(), 0);
    assert_eq!(targets(&names(&["c1"]), &[], &[]).len(), 0);
}

#[test]
fn a_new_target_lists_in_the_default_namespace() {
    let api = ApiBuilder::new();
    assert_eq!(api.get_namespace(), "default");
    let api = ApiBuilder::default();
    assert_eq!(api.get_namespace(), "default");
    let api = ApiBuilder::builder().context("c1".to_string()).namespace("n1".to_string());
    assert_eq!(api.get_context(), "c1");
    assert_eq!(api.get_namespace(), "n1");
}

#[test]
fn steps_run_through_every_pair_once_in_order() {
    let mut seen = vec![];
    let mut step = first_step(2, 3);
    while let Some(s) = step {
        seen.push((s.query, s.target));
        step = next_step(s, 2, 3);
    }
    assert_eq!(seen, vec![(0, 0), (0, 1), (0, 2), (1, 0), (1, 1), (1, 2)]);
}

#[test]
fn an_empty_run_has_no_step() {
    assert_eq!(first_step(0, 3), None);
    assert_eq!(first_step(2, 0), None);
    assert_eq!(first_step(0, 0), None);
    assert_eq!(first_step(1, 1), Some(Step { query: 0, target: 0 }));
    assert_eq!(next_step(Step { query: 0, target: 0 }, 1, 1), None);
}

#[test]
fn found_names_are_recorded_one_per_line() {
    let contexts = names(&["c1"]);
    let namespaces = names(&["n1"]);
    let queries = vec![query(Some(Connective::And), ResourceType::Pod)];
    let mut printer =
        Printer::builder().contexts(&contexts).namespaces(&namespaces).queries(&queries);
    let found = Listing::Names(names(&["web-1", "web-2"]));
    assert_eq!(record(&mut printer, &queries[0], "c1", "n1", &found), Ok(()));
    assert_eq!(
        printer.print(),
        vec![names(&["KIND/CONTEXT", "c1"]), names(&["pod", "web-1\nweb-2"])]
    );
}

#[test]
fn nothing_found_fails_only_under_and() {
    let mut printer = Printer::new();
    let none = Listing::Names(vec![]);
    assert_eq!(record(&mut printer, &query(None, ResourceType::Pod), "c", "n", &none), Ok(()));
    assert_eq!(
        record(&mut printer, &query(Some(Connective::Or), ResourceType::Pod), "c", "n", &none),
        Ok(())
    );
    assert_eq!(
        record(&mut printer, &query(Some(Connective::And), ResourceType::Pod), "c", "n", &none),
        Err(ExecutionError::NoResourceFound)
    );
    assert_eq!(printer.print(), vec![names(&["KIND/CONTEXT"])]);
}

#[test]
fn a_failed_listing_fails_the_run() {
    let mut printer = Printer::new();
    for key in [None, Some(Connective::Or), Some(Connective::And)] {
        assert_eq!(
            record(&mut printer, &query(key, ResourceType::Pod), "c", "n", &Listing::Failed),
            Err(ExecutionError::ListingFailed)
        );
    }
    assert_eq!(printer.print(), vec![names(&["KIND/CONTEXT"])]);
}

#[test]
fn a_target_is_complete_with_context_and_namespace() {
    assert!(!ApiBuilder::new().is_complete());
    assert!(ApiBuilder::new().context("c1".to_string()).is_complete());
    let queries = vec![query(None, ResourceType::Pod)];
    for api in targets(&names(&["c1"]), &names(&["n1", "n2"]), &queries) {
        assert!(api.is_complete());
    }
}

#[test]
fn every_context_has_to_be_known() {
    let known = names(&["dev", "prod-eu-1"]);
    assert_eq!(validate_contexts(&known, &names(&["prod-eu-1", "dev", "dev"])), Ok(()));
    assert_eq!(validate_contexts(&known, &[]), Ok(()));
    assert_eq!(
        validate_contexts(&known, &names(&["dev", "stage", "other"])),
        Err(CredentialError::UnknownContext(1))
    );
    assert_eq!(validate_contexts(&[], &names(&["dev"])), Err(CredentialError::UnknownContext(0)));
    assert!(is_known(&known, &"dev".to_string()));
    assert!(!is_known(&known, &"Dev".to_string()));
}
