//! Splitting and planning queries.
use postgresql_trino_gateway::config::Config;
use postgresql_trino_gateway::query_pipeline::{
    Batch, Failure, Reply, StatementPlan, completion_tag, process_single_statement,
    split_statements,
};
use postgresql_trino_gateway::query_simple::GatewayQueryHandler;
use postgresql_trino_gateway::response::Response;
use postgresql_trino_gateway::wire::{ErrorInfo, FieldFormat, FieldInfo, PgType};

#[test]
fn split_statements_preserves_single_select() {
    let pieces = split_statements("SELECT 1");
    assert_eq!(pieces.len(), 1);
}

#[test]
fn split_statements_separates_two_selects() {
    let pieces = split_statements("SELECT 1; SELECT 2");
    assert_eq!(pieces.len(), 2);
    assert!(pieces[0].to_uppercase().contains("SELECT"));
    assert!(pieces[1].to_uppercase().contains("SELECT"));
}

#[test]
fn split_statements_separates_begin_select_commit() {
    let pieces = split_statements("BEGIN; SELECT 1; COMMIT");
    assert_eq!(pieces.len(), 3);
}

#[test]
fn split_statements_does_not_split_on_semicolon_inside_literal() {
    // The semicolon is inside a single-quoted string and must not cause
    // a split. sqlparser parses this as one SetVariable statement.
    let pieces = split_statements("SET application_name = 'a; b; c'");
    assert_eq!(pieces.len(), 1);
    assert!(pieces[0].contains("a; b; c"));
}

#[test]
fn split_statements_falls_back_on_parse_failure() {
    // DISCARD is parsed by sqlparser; pick something it doesn't model.
    // If sqlparser ever learns the syntax, this test still passes — the
    // contract is "single-element vec on parse failure or single stmt."
    let pieces = split_statements("LISTEN my_channel");
    assert_eq!(pieces.len(), 1);
}

#[test]
fn split_statements_handles_empty_input() {
    let pieces = split_statements("");
    assert_eq!(pieces.len(), 1);
}

#[test]
fn split_statements_separates_multiple_set_commands() {
    let pieces = split_statements("SET a = '1'; SET b = '2'");
    assert_eq!(pieces.len(), 2);
}

/// A trailing semicolon is a statement terminator, not a second
/// (empty) statement. Some ORMs always append one.
#[test]
fn split_statements_handles_trailing_semicolon() {
    let pieces = split_statements("SELECT 1;");
    assert_eq!(pieces.len(), 1);
}

/// Mixed DDL/DML/DQL in one batch — sqlparser handles all three and
/// preserves order through `to_string()`.
#[test]
fn split_statements_handles_mixed_statement_types() {
    let pieces = split_statements(
        "CREATE TABLE foo (id INT); INSERT INTO foo VALUES (1); SELECT * FROM foo",
    );
    assert_eq!(pieces.len(), 3);
    assert!(pieces[0].to_uppercase().contains("CREATE"));
    assert!(pieces[1].to_uppercase().contains("INSERT"));
    assert!(pieces[2].to_uppercase().contains("SELECT"));
}

fn config() -> Config {
    Config {
        listen_addr: "127.0.0.1:5432".to_owned(),
        tls_cert: None,
        tls_key: None,
        trino_host: "h".to_owned(),
        trino_port: 8080,
        trino_catalog: "c".to_owned(),
        trino_schema: "s".to_owned(),
        trino_user: "u".to_owned(),
        trino_ssl: false,
        trino_tls_no_verify: false,
        trino_allow_plaintext_auth: false,
        auth: false,
        allow_insecure_listener: false,
        max_connections: 256,
    }
}

#[test]
fn statements_are_printed_where_there_are_several() {
    assert_eq!(split_statements("select 1 ;select  2"), vec!["SELECT 1", "SELECT 2"]);
    assert_eq!(split_statements("select  1 ;"), vec!["select  1 ;"]);
}

#[test]
fn plans_follow_the_kind_of_statement() {
    let plan = |sql: &str| process_single_statement(sql, &config());
    match plan("SET x = 1") {
        StatementPlan::Reply(r) => match &r[..] {
            [Response::Execution(tag)] => assert_eq!(tag, "SET"),
            other => panic!("unexpected {other:?}"),
        },
        other => panic!("unexpected {other:?}"),
    }
    match plan("SELECT relname FROM pg_class") {
        StatementPlan::Catalog(table) => assert!(table.sql().contains("information_schema.tables")),
        other => panic!("unexpected {other:?}"),
    }
    match plan("SELECT x::int4 FROM t") {
        StatementPlan::Forward(sql) => assert_eq!(sql, "SELECT CAST(x AS INTEGER) FROM t"),
        other => panic!("unexpected {other:?}"),
    }
    let columns = "select CASE WHEN (data_type LIKE '%unsigned%') THEN 1 END AS DATA_TYPE from information_schema.columns";
    match plan(columns) {
        StatementPlan::Forward(sql) => assert!(sql.contains("THEN 'double precision'"), "{sql}"),
        other => panic!("unexpected {other:?}"),
    }
}

#[test]
fn no_columns_means_a_completion_tag() {
    assert_eq!(completion_tag(&vec![]), Some("OK"));
    let column = FieldInfo::new("c", PgType::Int4, FieldFormat::Text);
    assert_eq!(completion_tag(&vec![column]), None);
}

fn failure(message: &str) -> ErrorInfo {
    ErrorInfo::new("ERROR", "42601", message.to_owned())
}

/// Replies of earlier statements are kept, the error is last, and nothing is
/// run after it.
#[test]
fn a_batch_stops_at_its_first_error() {
    let mut batch: Batch<u32, &str> = GatewayQueryHandler.do_query("SELECT 1; SELECT 2; SELECT 3");
    assert_eq!(batch.next_statement(), Some("SELECT 1"));
    batch.accept(Ok(vec![10, 11]));
    assert_eq!(batch.next_statement(), Some("SELECT 2"));
    batch.accept(Err(Failure::User(failure("no"))));
    assert_eq!(batch.next_statement(), None);
    let replies = match batch.finish() {
        Ok(replies) => replies,
        Err(_) => panic!("the batch has replies"),
    };
    let shown: Vec<String> = replies
        .iter()
        .map(|r| match r {
            Reply::Response(n) => n.to_string(),
            Reply::Error(e) => e.message.clone(),
        })
        .collect();
    assert_eq!(shown, vec!["10", "11", "no"]);
}

#[test]
fn an_error_of_a_single_statement_is_the_outcome() {
    let mut batch: Batch<u32, &str> = Batch::process_query("SELECT 1");
    assert_eq!(batch.next_statement(), Some("SELECT 1"));
    batch.accept(Err(Failure::User(failure("no"))));
    assert_eq!(batch.next_statement(), None);
    assert!(matches!(batch.finish(), Err(Failure::User(e)) if e.message == "no"));
}

#[test]
fn a_fatal_error_is_the_outcome_of_a_batch() {
    let mut batch: Batch<u32, &str> = Batch::process_query("SELECT 1; SELECT 2");
    batch.accept(Ok(vec![1]));
    batch.accept(Err(Failure::Fatal("gone")));
    assert_eq!(batch.next_statement(), None);
    assert!(matches!(batch.finish(), Err(Failure::Fatal("gone"))));
}

#[test]
fn all_replies_of_a_batch_are_kept_in_order() {
    let mut batch: Batch<u32, &str> = Batch::process_query("SELECT 1; SELECT 2");
    batch.accept(Ok(vec![1]));
    batch.accept(Ok(vec![2, 3]));
    assert_eq!(batch.next_statement(), None);
    let replies = batch.finish().ok().unwrap();
    let numbers: Vec<u32> = replies
        .iter()
        .map(|r| match r {
            Reply::Response(n) => *n,
            Reply::Error(_) => 0,
        })
        .collect();
    assert_eq!(numbers, vec![1, 2, 3]);
}

#[test]
fn simple_queries_are_text() {
    assert!(GatewayQueryHandler.result_format().is_none());
}
