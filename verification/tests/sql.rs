use duckdoor::sql::{
    is_blocked_source_function, is_read_only, kind_of_node, may_set_up, source_use,
    validate_init_sql, validate_read_only, validate_source_functions, Name, NamePart,
    ParsedStatement, SourceCollector, SourceUse, SqlValidationError, StatementKind, StatementNode,
    UseKind,
};
use sqlparser::ast::{Statement, Visit};
use sqlparser::dialect::DuckDbDialect;
use sqlparser::parser::Parser;

#[test]
fn accepts_queries() {
    for sql in [
        "SELECT 42",
        "WITH x AS (SELECT 1) SELECT * FROM x",
        "VALUES (1), (2)",
        "EXPLAIN SELECT 42",
        "SELECT * FROM range(3)",
        "SELECT * FROM duckdb_tables()",
        "SELECT 'sqlite_query(''app'', ''SELECT 1'')' AS example",
    ] {
        assert!(validate_read_only(sql).is_ok(), "{sql}");
    }
}

#[test]
fn rejects_writes_and_multiple_statements() {
    for sql in [
        "INSERT INTO t VALUES (1)",
        "CREATE TABLE t(i int)",
        "COPY (SELECT 1) TO '/tmp/x'",
        "SELECT 1; DROP TABLE t",
        "ATTACH '/tmp/x.db' AS x",
    ] {
        assert!(validate_read_only(sql).is_err(), "{sql}");
    }
}

#[test]
fn rejects_direct_and_nested_source_functions() {
    for sql in [
        "SELECT * FROM sqlite_query('app', 'SELECT * FROM events')",
        "SELECT * FROM SQLITE_SCAN('/tmp/app.sqlite', 'events')",
        "SELECT * FROM read_parquet('/tmp/data.parquet')",
        "SELECT * FROM parquet_metadata('/tmp/data.parquet')",
        "SELECT * FROM query('SELECT * FROM sqlite_query(''app'', ''SELECT 1'')')",
        "WITH x AS (SELECT * FROM glob('/tmp/*')) SELECT * FROM x",
        "EXPLAIN SELECT * FROM main.sqlite_query('app', 'SELECT 1')",
    ] {
        let error = validate_read_only(sql).unwrap_err();
        assert!(
            matches!(error, SqlValidationError::SourceFunctionNotAllowed(_)),
            "{sql}: {}",
            error.message()
        );
    }
}

#[test]
fn refusals_tell_what_is_wrong() {
    let report = |sql: &str| validate_read_only(sql).unwrap_err().message();
    assert_eq!(report(" \n\t"), "SQL must not be empty");
    assert_eq!(
        report("SELECT 1; SELECT 2"),
        "exactly one SQL statement is allowed; received 2"
    );
    assert_eq!(
        report("-- nothing"),
        "exactly one SQL statement is allowed; received 0"
    );
    assert_eq!(
        report("DELETE FROM anything WHERE 1 = 0"),
        "only read-only query statements are allowed; got DELETE FROM anything WHERE 1 = 0"
    );
    assert_eq!(
        report("SELECT * FROM main.sqlite_query('app', 'SELECT 1')"),
        "source function 'main.sqlite_query' is not allowed; query registered backend tables or \
         logical views instead"
    );
    assert_eq!(
        report("SELECT * FROM '/tmp/data.parquet'"),
        "source relation '/tmp/data.parquet' is not allowed; query registered backend tables or \
         logical views instead"
    );
    assert!(report("SELEC 1").starts_with("SQL could not be parsed as DuckDB SQL: "));
}

#[test]
fn relations_written_as_strings_are_refused_at_any_depth() {
    for sql in [
        "SELECT * FROM '/tmp/data.parquet'",
        "SELECT 1 WHERE EXISTS (SELECT * FROM 'x.csv')",
        "WITH x AS (SELECT * FROM 'x.csv') SELECT * FROM x",
    ] {
        assert!(
            matches!(
                validate_read_only(sql),
                Err(SqlValidationError::SourceRelationNotAllowed(_))
            ),
            "{sql}"
        );
    }
    assert!(validate_read_only("SELECT * FROM \"quoted table\"").is_ok());
}

#[test]
fn functions_are_blocked_in_expressions_too() {
    assert!(matches!(
        validate_read_only("SELECT upper(sniff_csv('x'))"),
        Err(SqlValidationError::SourceFunctionNotAllowed(_))
    ));
}

#[test]
fn blocked_functions_are_blocked_in_any_case() {
    for name in [
        "read_csv", "READ_JSON", "sqlite_scan", "Parquet_Schema", "GLOB", "query", "query_table",
        "sniff_csv", "sqlite_attach", "Sqlite_Query",
    ] {
        assert!(is_blocked_source_function(name), "{name}");
    }
    for name in ["range", "scan", "reader", "globe", "querying", "my_read_csv"] {
        assert!(!is_blocked_source_function(name), "{name}");
    }
}

fn statement(kind: StatementKind, uses: Vec<SourceUse>) -> ParsedStatement {
    ParsedStatement { kind, inner: vec![kind], uses }
}

fn used(kind: UseKind, last: &str, quote: Option<char>) -> SourceUse {
    SourceUse { kind, last: Some(last.to_owned()), quote, sql: format!("s.{last}") }
}

#[test]
fn the_first_use_that_is_refused_is_reported() {
    let uses = vec![
        used(UseKind::Relation, "t", Some('"')),
        used(UseKind::Function, "range", None),
        used(UseKind::Function, "glob", None),
        used(UseKind::Relation, "f", Some('\'')),
    ];
    let error = validate_source_functions(&statement(StatementKind::Query, uses)).unwrap_err();
    assert_eq!(
        error.message(),
        "source function 's.glob' is not allowed; query registered backend tables or logical \
         views instead"
    );
    let nameless = SourceUse { kind: UseKind::Function, last: None, quote: None, sql: "?".to_owned() };
    assert!(validate_source_functions(&statement(StatementKind::Query, vec![nameless])).is_ok());
    for kind in [
        StatementKind::Query,
        StatementKind::Explain,
        StatementKind::ExplainAnalyze,
        StatementKind::ExplainTable,
    ] {
        assert!(is_read_only(&statement(kind, Vec::new())));
    }
    for kind in [StatementKind::CreateView, StatementKind::CreateMacro, StatementKind::Other] {
        assert!(!is_read_only(&statement(kind, Vec::new())));
    }
}

#[test]
fn scripts_create_views_and_macros_only() {
    assert!(validate_init_sql(
        "CREATE VIEW recent AS SELECT * FROM app.events; CREATE MACRO plus_one(a) AS a + 1;"
    )
    .is_ok());
    assert_eq!(
        validate_init_sql("CREATE VIEW v AS SELECT 1; DROP TABLE t").unwrap_err().message(),
        "init.sql only allows CREATE VIEW and CREATE MACRO; got DROP TABLE t"
    );
    assert!(validate_init_sql("CREATE VIEW")
        .unwrap_err()
        .message()
        .starts_with("init.sql could not be parsed: "));
    assert!(validate_init_sql("").is_ok());
    for kind in [StatementKind::CreateView, StatementKind::CreateMacro] {
        assert!(may_set_up(kind));
    }
    for kind in [StatementKind::Query, StatementKind::Explain, StatementKind::Other] {
        assert!(!may_set_up(kind));
    }
}

fn walked(sql: &str) -> SourceCollector {
    let statements: Vec<Statement> = Parser::parse_sql(&DuckDbDialect {}, sql).unwrap();
    let mut collector = SourceCollector { inner: Vec::new(), uses: Vec::new() };
    assert!(statements[0].visit(&mut collector).is_continue());
    collector
}

#[test]
fn names_are_collected_in_the_order_in_which_they_are_met() {
    let collector = walked("SELECT upper(a) FROM s.t, range(3) WHERE EXISTS (SELECT * FROM 'f')");
    let met: Vec<(UseKind, Option<&str>, Option<char>, &str)> = collector
        .uses
        .iter()
        .map(|u| (u.kind, u.last.as_deref(), u.quote, u.sql.as_str()))
        .collect();
    assert_eq!(
        met,
        [
            (UseKind::Function, Some("upper"), None, "upper"),
            (UseKind::Relation, Some("t"), None, "s.t"),
            (UseKind::Function, Some("range"), None, "range"),
            (UseKind::Relation, Some("range"), None, "range"),
            (UseKind::Relation, Some("f"), Some('\''), "'f'"),
        ]
    );
    assert_eq!(collector.inner, [StatementKind::Query]);
}

#[test]
fn statements_are_collected_at_any_depth() {
    assert_eq!(
        walked("WITH x AS (SELECT 1) INSERT INTO t SELECT * FROM x").inner,
        [StatementKind::Query, StatementKind::Other]
    );
    assert_eq!(
        walked("EXPLAIN ANALYZE SELECT 1").inner,
        [StatementKind::ExplainAnalyze, StatementKind::Query]
    );
}

#[test]
fn the_last_part_of_a_name_counts() {
    let part = |value: &str, quote: Option<char>| NamePart::Identifier {
        value: value.to_owned(),
        quote,
    };
    let name = Name { parts: vec![part("a", None), part("b", Some('"'))], sql: "a.\"b\"".to_owned() };
    let used = source_use(UseKind::Function, &name);
    assert_eq!(used.kind, UseKind::Function);
    assert_eq!(used.last.as_deref(), Some("b"));
    assert_eq!(used.quote, Some('"'));
    assert_eq!(used.sql, "a.\"b\"");
    let name = Name { parts: vec![part("a", None), NamePart::Other], sql: "a.f()".to_owned() };
    let used = source_use(UseKind::Relation, &name);
    assert!(used.last.is_none() && used.quote.is_none());
    assert!(source_use(UseKind::Relation, &Name { parts: Vec::new(), sql: String::new() })
        .last
        .is_none());
}

#[test]
fn writes_behind_with_and_explain_analyze_are_refused() {
    for sql in [
        "WITH x AS (SELECT 1) INSERT INTO t SELECT * FROM x",
        "WITH x AS (SELECT 1) UPDATE t SET a = 1",
        "WITH x AS (SELECT 1) DELETE FROM t",
        "EXPLAIN ANALYZE INSERT INTO t VALUES (1)",
        "EXPLAIN ANALYZE DELETE FROM t",
        "EXPLAIN ANALYZE WITH x AS (SELECT 1) INSERT INTO t SELECT * FROM x",
        "EXPLAIN (ANALYZE) INSERT INTO t VALUES (1)",
        "EXPLAIN (analyze) DELETE FROM t",
        "WITH x AS (INSERT INTO t VALUES (1) RETURNING i) SELECT * FROM x",
        "SELECT * INTO t FROM u",
        "SELECT 1 UNION SELECT i INTO t FROM u",
    ] {
        assert!(
            matches!(validate_read_only(sql), Err(SqlValidationError::NotReadOnly(_))),
            "{sql}"
        );
    }
    assert_eq!(
        validate_read_only("WITH x AS (SELECT 1) INSERT INTO t SELECT * FROM x")
            .unwrap_err()
            .message(),
        "only read-only query statements are allowed; got WITH x AS (SELECT 1) INSERT INTO t \
         SELECT * FROM x"
    );
    for sql in [
        "(WITH x AS (SELECT 1) INSERT INTO t SELECT * FROM x)",
        "WITH x AS (SELECT 1) MERGE INTO t USING x ON t.i = x.i WHEN MATCHED THEN DELETE",
    ] {
        assert!(validate_read_only(sql).is_err(), "{sql}");
    }
    for sql in [
        "EXPLAIN ANALYZE SELECT 1",
        "EXPLAIN INSERT INTO t VALUES (1)",
        "EXPLAIN WITH x AS (SELECT 1) INSERT INTO t SELECT * FROM x",
        "EXPLAIN CREATE TABLE t (i INT)",
        "EXPLAIN SHOW TABLES",
        "EXPLAIN (VERBOSE true) DELETE FROM t",
        "DESCRIBE t",
        "(SELECT 1)",
        "SELECT 1 UNION SELECT 2",
    ] {
        assert!(validate_read_only(sql).is_ok(), "{sql}");
    }
}

#[test]
fn an_inner_statement_that_does_not_read_refuses_the_whole() {
    let holding = |kind: StatementKind| ParsedStatement {
        kind,
        inner: vec![kind, StatementKind::Other],
        uses: Vec::new(),
    };
    assert!(!is_read_only(&holding(StatementKind::Query)));
    assert!(!is_read_only(&holding(StatementKind::ExplainAnalyze)));
    assert!(is_read_only(&holding(StatementKind::Explain)));
}

#[test]
fn what_is_only_explained_opens_no_source_either() {
    assert!(matches!(
        validate_read_only("EXPLAIN INSERT INTO t SELECT * FROM read_csv('x')"),
        Err(SqlValidationError::SourceFunctionNotAllowed(_))
    ));
}

#[test]
fn an_explanation_runs_where_it_analyzes() {
    let kind = |analyze: bool, options: Option<&[&str]>| {
        kind_of_node(&StatementNode::Explain {
            analyze,
            options: options.map(|names| names.iter().map(|name| name.to_string()).collect()),
        })
    };
    assert_eq!(kind(false, None), StatementKind::Explain);
    assert_eq!(kind(true, None), StatementKind::ExplainAnalyze);
    assert_eq!(kind(false, Some(&[])), StatementKind::Explain);
    assert_eq!(kind(false, Some(&["FORMAT", "Analyze"])), StatementKind::ExplainAnalyze);
    assert_eq!(kind(false, Some(&["FORMAT"])), StatementKind::Explain);
}

#[test]
fn long_queries_are_accepted_without_being_written_down() {
    let sql = vec!["SELECT 1"; 500].join(" UNION ALL ");
    assert!(validate_read_only(&sql).is_ok());
}
