use migration_views::{
    extract_view_name, filter_sql_string, find_table_stmt, get_latest_migration_file_path,
    get_migration_directory, get_stmt_blocks, get_views, includes_sub_vec, is_migration_dir,
    is_sql_file, operation_stmt_template, split_stmt_string, stmt_targets_view, FsEntry,
    ScanError, ViewError, ViewScan,
};

fn strings(items: &[&str]) -> Vec<String> {
    items.iter().map(|s| s.to_string()).collect()
}

fn entry(path: &str, is_dir: bool, name: Option<&str>, ext: Option<&str>) -> FsEntry {
    FsEntry {
        path: path.to_string(),
        is_dir,
        is_file: !is_dir,
        file_name: name.map(|s| s.to_string()),
        extension: ext.map(|s| s.to_string()),
    }
}

#[test]
fn latest_of_two_versions() {
    let dirs = strings(&["20230101_01", "20230101_02"]);
    assert_eq!(
        get_latest_migration_file_path(&dirs),
        Ok("20230101_02/migration.sql".to_string())
    );
}

#[test]
fn latest_ignores_input_order() {
    let dirs = strings(&["m/20230101_03", "m/20230101_01", "m/20230101_02"]);
    assert_eq!(
        get_latest_migration_file_path(&dirs),
        Ok("m/20230101_03/migration.sql".to_string())
    );
}

#[test]
fn latest_prefers_longer_on_shared_prefix() {
    let dirs = strings(&["v1_10", "v1_1", "v1_09"]);
    assert_eq!(get_latest_migration_file_path(&dirs), Ok("v1_10/migration.sql".to_string()));
}

#[test]
fn latest_without_directories_is_not_found() {
    assert_eq!(get_latest_migration_file_path(&Vec::new()), Err(ScanError::NotFound));
}

#[test]
fn registry_from_view_definition() {
    let scan = get_views(&strings(&["create view \"orders_view\" as select 1;"]));
    assert_eq!(scan.views, strings(&["\"orders_view\""]));
    assert!(scan.unparsed.is_empty());
}

#[test]
fn registry_lowercases_and_dedups() {
    let texts = strings(&[
        "CREATE VIEW Orders AS select 1;",
        "create table t (id int);",
        "create view orders as select 2;",
        "create materialized view items as select 3;",
    ]);
    let scan = get_views(&texts);
    assert_eq!(scan.views, strings(&["orders", "items"]));
    assert!(scan.unparsed.is_empty());
}

#[test]
fn registry_reports_unparsed_sources() {
    let texts = strings(&["create view v1 as select 1;", "-- no view here", "plain;"]);
    let scan = get_views(&texts);
    assert_eq!(scan.views, strings(&["v1"]));
    assert_eq!(scan.unparsed, vec![1usize]);
}

#[test]
fn record_steps() {
    let mut scan = ViewScan::new();
    scan.record(0, "create view a as x", Ok("a".to_string()));
    scan.record(1, "create view a as y", Ok("a".to_string()));
    scan.record(2, "a view without name", Err(ViewError::ParseFailure));
    scan.record(3, "nothing here", Err(ViewError::ParseFailure));
    assert_eq!(scan.views, strings(&["a"]));
    assert_eq!(scan.unparsed, vec![2usize]);
}

#[test]
fn extract_view_name_cases() {
    assert_eq!(extract_view_name("create view v1 as select 1"), Ok("v1".to_string()));
    assert_eq!(extract_view_name("view a as view b as"), Ok("a".to_string()));
    assert_eq!(extract_view_name("view xview as y"), Ok("xview".to_string()));
    assert_eq!(extract_view_name("create view\n v as"), Err(ViewError::ParseFailure));
    assert_eq!(extract_view_name("no definitions"), Err(ViewError::ParseFailure));
}

#[test]
fn statement_targets_registered_view() {
    let stmt = "CREATE TABLE \"orders_view\" (id int);".to_string();
    assert!(find_table_stmt(stmt.clone(), strings(&["orders_view"])));
    assert!(!find_table_stmt(stmt, strings(&["other_view"])));
}

#[test]
fn statement_side_is_case_folded() {
    let stmt = "Create Table \"Orders_View\"".to_string();
    assert!(find_table_stmt(stmt.clone(), strings(&["orders_view"])));
    assert!(!find_table_stmt(stmt, strings(&["Orders_View"])));
}

#[test]
fn alter_statement_targets_view() {
    let stmt = "alter\ntable \"v\" add column x int;".to_string();
    assert!(find_table_stmt(stmt, strings(&["w", "v"])));
    assert!(!find_table_stmt("drop table \"v\";".to_string(), strings(&["v"])));
    assert!(!find_table_stmt("create table \"v\";".to_string(), Vec::new()));
}

#[test]
fn delimiter_glued_to_name_breaks_template() {
    assert!(!find_table_stmt("create table \"v\";".to_string(), strings(&["v"])));
}

#[test]
fn double_space_breaks_template() {
    assert!(!find_table_stmt("create  table \"v\";".to_string(), strings(&["v"])));
}

#[test]
fn targets_with_given_tokens() {
    let tokens = strings(&["create", "table", "\"v\"", "(id"]);
    assert!(stmt_targets_view(&tokens, &strings(&["v"])));
    assert!(!stmt_targets_view(&tokens, &strings(&["V"])));
}

#[test]
fn contains_subsequence_cases() {
    let hay = strings(&["a", "b", "c", "d"]);
    assert!(includes_sub_vec(&hay, &strings(&["b", "c"])));
    assert!(!includes_sub_vec(&Vec::new(), &strings(&["b"])));
    assert!(includes_sub_vec(&strings(&["a"]), &Vec::new()));
    assert!(!includes_sub_vec(&hay, &strings(&["b", "d"])));
    assert!(includes_sub_vec(&hay, &strings(&["c", "d"])));
    assert!(!includes_sub_vec(&hay, &strings(&["d", "e"])));
}

#[test]
fn tokenizer_splits_and_lowercases() {
    assert_eq!(
        split_stmt_string("CREATE  TABLE\n\"X\" (id".to_string()),
        strings(&["create", "", "table", "\"x\"", "(id"])
    );
    assert_eq!(split_stmt_string(String::new()), strings(&[""]));
    assert_eq!(split_stmt_string("a\n".to_string()), strings(&["a", ""]));
}

#[test]
fn template_for_operation() {
    assert_eq!(
        operation_stmt_template("alter", "orders_view"),
        strings(&["alter", "table", "\"orders_view\""])
    );
}

#[test]
fn split_round_trip() {
    for text in ["", "a;b;", "a;b", ";;", "create table x;\n\nselect 1;\n", "no delimiter"] {
        let blocks = get_stmt_blocks(text);
        assert_eq!(blocks.concat(), text);
    }
}

#[test]
fn split_keeps_delimiters() {
    assert_eq!(get_stmt_blocks("a;b;"), strings(&["a;", "b;"]));
    assert_eq!(get_stmt_blocks("a;b"), strings(&["a;", "b"]));
    assert_eq!(get_stmt_blocks(";;\n"), strings(&[";", ";", "\n"]));
    assert!(get_stmt_blocks("").is_empty());
}

#[test]
fn filter_drops_view_tables_and_trims() {
    let mut stmts = get_stmt_blocks(
        "CREATE TABLE \"orders_view\" (id int);\nselect 1;\n alter table \"orders_view\" add x;\n",
    );
    let before = stmts.clone();
    let out = filter_sql_string(&mut stmts, strings(&["orders_view"]));
    assert_eq!(out, "select 1;");
    assert_eq!(stmts, before);
}

#[test]
fn filter_joins_with_newlines() {
    let mut stmts = strings(&["a;", "b;", "create table \"v\" (id int);"]);
    assert_eq!(filter_sql_string(&mut stmts, strings(&["v"])), "a;\nb;");
    let mut none: Vec<String> = Vec::new();
    assert_eq!(filter_sql_string(&mut none, strings(&["v"])), "");
}

#[test]
fn filter_twice_gives_same_result() {
    let mut stmts = get_stmt_blocks("create table \"v\" (a int);\n  insert into t values (1);\n");
    let views = strings(&["v", "w"]);
    let first = filter_sql_string(&mut stmts, views.clone());
    let second = filter_sql_string(&mut stmts, views);
    assert_eq!(first, second);
    assert_eq!(first, "insert into t values (1);");
}

#[test]
fn sql_file_entries() {
    assert_eq!(
        is_sql_file(&entry("m/1/migration.sql", false, Some("migration.sql"), Some("sql"))),
        Some("m/1/migration.sql".to_string())
    );
    assert_eq!(is_sql_file(&entry("m/readme.md", false, Some("readme.md"), Some("md"))), None);
    assert_eq!(is_sql_file(&entry("m/x.sql", true, Some("x.sql"), Some("sql"))), None);
}

#[test]
fn migration_dir_entries() {
    assert_eq!(
        is_migration_dir(&entry("p/migrations", true, Some("migrations"), None)),
        Some("p/migrations".to_string())
    );
    assert_eq!(is_migration_dir(&entry("p/migrations", false, Some("migrations"), None)), None);
    assert_eq!(is_migration_dir(&entry("p/migration", true, Some("migration"), None)), None);
}

#[test]
fn first_migrations_directory_in_walk_order() {
    let entries = vec![
        entry("p", true, Some("p"), None),
        entry("p/a/migrations", true, Some("migrations"), None),
        entry("p/b/migrations", true, Some("migrations"), None),
    ];
    assert_eq!(get_migration_directory(&entries), Ok("p/a/migrations".to_string()));
    assert_eq!(get_migration_directory(&entries[..1].to_vec()), Err(ScanError::NotFound));
}
