use kubesql::parser::parse_sql;
use kubesql::planner::Comparator;
use kubesql::sql::has_stray;

#[test]
fn the_four_stray_tokens_are_found() {
    assert!(has_stray(b"]"));
    assert!(has_stray(b"a # b"));
    assert!(has_stray(b"a << b"));
    assert!(has_stray(b"a >> b"));
    assert!(has_stray(b"a <<"));
    assert!(has_stray("\u{e9}>>".as_bytes()));
}

#[test]
fn other_texts_hold_no_stray_token() {
    assert!(!has_stray(b""));
    assert!(!has_stray(b"SELECT n1 FROM c1 WHERE pod.a.b = 'x'"));
    assert!(!has_stray(b"a < b > c <> d [ e"));
    assert!(!has_stray(b"a <> b"));
    assert!(!has_stray(b"a ><"));
    assert!(!has_stray(b"<"));
    assert!(!has_stray(b">"));
    assert!(!has_stray("\u{e9}\u{4e2d}\u{1f600}".as_bytes()));
}

#[test]
fn each_comparison_is_read_off_the_tree() {
    let cases = [
        ("=", Comparator::Eq),
        ("<>", Comparator::NotEq),
        ("!=", Comparator::NotEq),
        ("<", Comparator::Lt),
        ("<=", Comparator::LtEq),
        (">", Comparator::Gt),
        (">=", Comparator::GtEq),
    ];
    for (symbol, op) in cases {
        let sql = format!("SELECT n1 FROM c1 WHERE pod.a.b {} 'x'", symbol);
        let q = parse_sql(&sql).unwrap();
        assert_eq!(q.queries.len(), 1);
        assert_eq!(q.queries[0].op, op);
    }
}

#[test]
fn text_outside_ascii_comes_through() {
    let q = parse_sql("SELECT n1 FROM c1 WHERE pod.a.b = 'caf\u{e9}-\u{4e2d}'").unwrap();
    assert_eq!(q.queries[0].eq, "caf\u{e9}-\u{4e2d}");
}
