use codex_session_selector::indexer::{check_runtime, SchemaState};
use codex_session_selector::schema::{
    canonical_table_ddl, detect_schema, dirty_trigger_statements, fts_state_ddl, fts_table_ddl,
    index_ddl, validate_fts_triggers, Column, ForeignKey, SchemaCatalog, TableInfo, Trigger,
};
use rusqlite::{Connection, OptionalExtension};

fn strings(conn: &Connection, sql: &str, arg: &str) -> Vec<String> {
    let mut stmt = conn.prepare(sql).unwrap();
    let rows = stmt.query_map([arg], |row| row.get::<_, String>(0)).unwrap();
    rows.collect::<rusqlite::Result<Vec<_>>>().unwrap()
}

fn count(conn: &Connection, sql: &str) -> i64 {
    conn.query_row(sql, [], |row| row.get(0)).unwrap()
}

fn has_columns(table: &TableInfo, names: &[&str]) -> bool {
    names.iter().all(|name| table.columns.iter().any(|column| column.name == *name))
}

fn read_table(conn: &Connection, name: String) -> TableInfo {
    let mut stmt = conn
        .prepare("SELECT name, type, \"notnull\", pk FROM pragma_table_info(?1) ORDER BY cid")
        .unwrap();
    let columns = stmt
        .query_map([name.as_str()], |row| {
            Ok(Column {
                name: row.get(0)?,
                data_type: row.get(1)?,
                not_null: row.get::<_, i64>(2)? != 0,
                primary_key: row.get(3)?,
            })
        })
        .unwrap()
        .collect::<rusqlite::Result<Vec<_>>>()
        .unwrap();
    let strict = conn
        .query_row(
            "SELECT strict FROM pragma_table_list WHERE name = ?1",
            [name.as_str()],
            |row| row.get::<_, i64>(0),
        )
        .optional()
        .unwrap()
        .unwrap_or(0);
    let unique_indexes = strings(
        conn,
        "SELECT name FROM pragma_index_list(?1) WHERE \"unique\" = 1",
        &name,
    )
    .into_iter()
    .map(|index| strings(conn, "SELECT name FROM pragma_index_info(?1) ORDER BY seqno", &index))
    .collect();
    let mut stmt = conn
        .prepare("SELECT \"table\", \"from\", \"to\", on_delete FROM pragma_foreign_key_list(?1)")
        .unwrap();
    let foreign_keys = stmt
        .query_map([name.as_str()], |row| {
            Ok(ForeignKey { table: row.get(0)?, from: row.get(1)?, to: row.get(2)?, on_delete: row.get(3)? })
        })
        .unwrap()
        .collect::<rusqlite::Result<Vec<_>>>()
        .unwrap();
    TableInfo { name, columns, strict, unique_indexes, foreign_keys }
}

fn read_catalog(conn: &Connection) -> SchemaCatalog {
    let version = count(conn, "PRAGMA user_version");
    let names = strings(
        conn,
        "SELECT name FROM sqlite_schema WHERE type = ?1 AND name NOT LIKE 'sqlite_%' ORDER BY name",
        "table",
    );
    let tables: Vec<TableInfo> = names.into_iter().map(|name| read_table(conn, name)).collect();
    let mut stmt = conn
        .prepare(
            "SELECT name, sql FROM sqlite_schema
             WHERE type = 'trigger' AND name NOT LIKE 'sqlite_%' ORDER BY name",
        )
        .unwrap();
    let triggers = stmt
        .query_map([], |row| Ok(Trigger { name: row.get(0)?, sql: row.get(1)? }))
        .unwrap()
        .collect::<rusqlite::Result<Vec<_>>>()
        .unwrap();
    let views = count(
        conn,
        "SELECT count(*) FROM sqlite_schema WHERE name NOT LIKE 'sqlite_%' AND type = 'view'",
    ) as u64;
    let fts_sql = conn
        .query_row(
            "SELECT sql FROM sqlite_schema WHERE type = 'table' AND name = 'sessions_fts'",
            [],
            |row| row.get::<_, String>(0),
        )
        .optional()
        .unwrap()
        .unwrap_or_default();
    let table = |name: &str| tables.iter().find(|table| table.name == name);
    let (sync_rows_valid, sync_rows_total) = match table("fts_sync_state") {
        Some(info) if has_columns(info, &["singleton", "dirty"]) => (
            count(
                conn,
                "SELECT count(*) FROM fts_sync_state WHERE singleton = 1 AND dirty IN (0, 1)",
            ),
            count(conn, "SELECT count(*) FROM fts_sync_state"),
        ),
        _ => (0, 0),
    };
    let (metadata_rows, metadata_root) = match table("index_metadata") {
        Some(info) if has_columns(info, &["singleton", "sessions_root"]) => (
            count(conn, "SELECT count(*) FROM index_metadata"),
            conn.query_row(
                "SELECT sessions_root FROM index_metadata WHERE singleton = 1",
                [],
                |row| row.get::<_, String>(0),
            )
            .optional()
            .unwrap(),
        ),
        _ => (0, None),
    };
    SchemaCatalog {
        version,
        tables,
        triggers,
        views,
        fts_sql,
        sync_rows_valid,
        sync_rows_total,
        metadata_rows,
        metadata_root,
    }
}

fn create_canonical_schema(conn: &Connection) {
    conn.execute_batch(&canonical_table_ddl()).unwrap();
    conn.execute_batch(&index_ddl()).unwrap();
}

fn create_schema(conn: &Connection) {
    create_canonical_schema(conn);
    conn.execute_batch(&fts_state_ddl()).unwrap();
    conn.execute_batch(&fts_table_ddl()).unwrap();
    for statement in dirty_trigger_statements() {
        conn.execute_batch(&statement).unwrap();
    }
}

#[test]
fn empty_database_is_detected() {
    let conn = Connection::open_in_memory().unwrap();
    assert_eq!(detect_schema(&read_catalog(&conn)), SchemaState::Empty);
}

#[test]
fn legacy_sessions_only_database_is_detected() {
    let conn = Connection::open_in_memory().unwrap();
    conn.execute_batch(
        "CREATE TABLE sessions (
            path TEXT, id TEXT, timestamp TEXT, cwd TEXT,
            repository_url TEXT, branch TEXT, first_message TEXT
        );",
    )
    .unwrap();
    assert_eq!(detect_schema(&read_catalog(&conn)), SchemaState::Legacy);
}

#[test]
fn legacy_database_with_exec_is_detected() {
    let conn = Connection::open_in_memory().unwrap();
    conn.execute_batch(
        "CREATE TABLE sessions (
            path TEXT, id TEXT, timestamp TEXT, cwd TEXT,
            repository_url TEXT, branch TEXT, first_message TEXT
        );
        CREATE TABLE exec_events (
            session_path TEXT NOT NULL, session_id TEXT,
            event_index INTEGER NOT NULL, call_id TEXT,
            kind TEXT NOT NULL, name TEXT, command TEXT, output TEXT
        );",
    )
    .unwrap();
    assert_eq!(detect_schema(&read_catalog(&conn)), SchemaState::Legacy);
}

#[test]
fn canonical_v1_is_detected_as_migratable() {
    let conn = Connection::open_in_memory().unwrap();
    create_canonical_schema(&conn);
    conn.execute(
        "INSERT INTO index_metadata(singleton, sessions_root) VALUES (1, '/tmp/sessions')",
        [],
    )
    .unwrap();
    conn.execute_batch("PRAGMA user_version = 1;").unwrap();
    assert_eq!(
        detect_schema(&read_catalog(&conn)),
        SchemaState::CanonicalV1 { sessions_root: "/tmp/sessions".to_owned() }
    );
}

#[test]
fn future_schema_is_classified_without_inspection() {
    let conn = Connection::open_in_memory().unwrap();
    conn.execute_batch("PRAGMA user_version = 3;").unwrap();
    assert_eq!(detect_schema(&read_catalog(&conn)), SchemaState::Future { version: 3 });
}

#[test]
fn malformed_version_one_schema_is_unknown() {
    let conn = Connection::open_in_memory().unwrap();
    conn.execute_batch(
        "CREATE TABLE sessions(path TEXT);
         PRAGMA user_version = 1;",
    )
    .unwrap();
    assert!(matches!(
        detect_schema(&read_catalog(&conn)),
        SchemaState::Unknown { version: 1, .. }
    ));
}

#[test]
fn canonical_schema_rejects_unexpected_trigger() {
    let conn = Connection::open_in_memory().unwrap();
    create_canonical_schema(&conn);
    conn.execute(
        "INSERT INTO index_metadata(singleton, sessions_root) VALUES (1, '/tmp/sessions')",
        [],
    )
    .unwrap();
    conn.execute_batch(
        "CREATE TRIGGER unexpected AFTER INSERT ON sessions BEGIN SELECT 1; END;
         PRAGMA user_version = 1;",
    )
    .unwrap();
    assert!(matches!(
        detect_schema(&read_catalog(&conn)),
        SchemaState::Unknown { version: 1, .. }
    ));
}

#[test]
fn schema_v2_uses_contentless_delete_with_expected_columns() {
    let conn = Connection::open_in_memory().unwrap();
    create_schema(&conn);
    conn.execute(
        "INSERT INTO index_metadata(singleton, sessions_root) VALUES (1, '/tmp/sessions')",
        [],
    )
    .unwrap();
    conn.execute_batch("PRAGMA user_version = 2;").unwrap();
    let catalog = read_catalog(&conn);
    assert!(!catalog.tables.iter().any(|table| table.name == "sessions_fts_content"));
    assert_eq!(
        detect_schema(&catalog),
        SchemaState::Current { sessions_root: "/tmp/sessions".to_owned() }
    );
}

#[test]
fn unexpected_version_reports_expected_and_found() {
    let conn = Connection::open_in_memory().unwrap();
    conn.execute_batch("CREATE TABLE other(value TEXT); PRAGMA user_version = 0;").unwrap();
    assert_eq!(
        detect_schema(&read_catalog(&conn)),
        SchemaState::Unknown {
            version: 0,
            reason: "expected schema version 2, found 0".to_owned()
        }
    );
}

#[test]
fn missing_unique_key_is_named_in_the_reason() {
    let conn = Connection::open_in_memory().unwrap();
    create_canonical_schema(&conn);
    conn.execute(
        "INSERT INTO index_metadata(singleton, sessions_root) VALUES (1, '/tmp/sessions')",
        [],
    )
    .unwrap();
    conn.execute_batch("PRAGMA user_version = 1;").unwrap();
    let mut catalog = read_catalog(&conn);
    for table in catalog.tables.iter_mut() {
        if table.name == "exec_events" {
            table.unique_indexes.clear();
        }
    }
    assert_eq!(
        detect_schema(&catalog),
        SchemaState::Unknown {
            version: 1,
            reason: "exec_events is missing required UNIQUE(session_key, event_index)".to_owned()
        }
    );
}

#[test]
fn dropped_cascade_is_named_in_the_reason() {
    let conn = Connection::open_in_memory().unwrap();
    create_canonical_schema(&conn);
    conn.execute(
        "INSERT INTO index_metadata(singleton, sessions_root) VALUES (1, '/tmp/sessions')",
        [],
    )
    .unwrap();
    conn.execute_batch("PRAGMA user_version = 1;").unwrap();
    let mut catalog = read_catalog(&conn);
    for table in catalog.tables.iter_mut() {
        if table.name == "sessions" {
            table.foreign_keys.clear();
        }
    }
    assert_eq!(
        detect_schema(&catalog),
        SchemaState::Unknown {
            version: 1,
            reason: "sessions.source_key is missing its required cascading foreign key".to_owned()
        }
    );
}

#[test]
fn missing_metadata_row_is_reported() {
    let conn = Connection::open_in_memory().unwrap();
    create_canonical_schema(&conn);
    conn.execute_batch("PRAGMA user_version = 1;").unwrap();
    assert_eq!(
        detect_schema(&read_catalog(&conn)),
        SchemaState::Unknown {
            version: 1,
            reason: "canonical index metadata must contain exactly one row".to_owned()
        }
    );
}

#[test]
fn dirty_fts_state_is_reported() {
    let conn = Connection::open_in_memory().unwrap();
    create_schema(&conn);
    conn.execute(
        "INSERT INTO index_metadata(singleton, sessions_root) VALUES (1, '/tmp/sessions')",
        [],
    )
    .unwrap();
    conn.execute_batch("DELETE FROM fts_sync_state; PRAGMA user_version = 2;").unwrap();
    assert_eq!(
        detect_schema(&read_catalog(&conn)),
        SchemaState::Unknown {
            version: 2,
            reason: "fts_sync_state must contain its valid singleton row".to_owned()
        }
    );
}

#[test]
fn trigger_sql_is_compared_up_to_whitespace() {
    let spaced: Vec<Trigger> = dirty_trigger_statements()
        .into_iter()
        .map(|sql| Trigger {
            name: sql.split_whitespace().nth(2).unwrap().to_owned(),
            sql: format!("{};", sql.replace(' ', "\n  ")),
        })
        .collect();
    assert_eq!(validate_fts_triggers(&spaced), Ok(()));
    let missing = spaced[1..].iter().map(|t| Trigger { name: t.name.clone(), sql: t.sql.clone() }).collect();
    assert_eq!(
        validate_fts_triggers(&missing),
        Err("schema v2 dirty trigger set does not match".to_owned())
    );
}

#[test]
fn bundled_sqlite_supports_contentless_delete_fts5() {
    let conn = Connection::open_in_memory().unwrap();
    let version: String = conn.query_row("SELECT sqlite_version()", [], |row| row.get(0)).unwrap();
    let fts5: i64 = conn
        .query_row("SELECT sqlite_compileoption_used('ENABLE_FTS5')", [], |row| row.get(0))
        .unwrap();
    assert_eq!(check_runtime(&version, fts5), Ok(()));
    conn.execute_batch(&fts_state_ddl()).unwrap();
    conn.execute_batch(&fts_table_ddl()).unwrap();
    conn.execute(
        "INSERT INTO sessions_fts(rowid, first_message, cwd, repository_url, branch, timestamp, date, exec_command, exec_output)
         VALUES (1, 'hello', '', '', '', '', '', '', '')",
        [],
    )
    .unwrap();
    conn.execute("DELETE FROM sessions_fts WHERE rowid = 1", []).unwrap();
}
