//! The index schema: the statements that create it, and the check of an existing database's
//! catalog (its tables, columns, keys, triggers and views, as SQLite reports them) against it.

use vstd::prelude::*;

use crate::indexer::{
    classify_schema, contains_text, normalize_sql, normalized_sql, schema_state_of, SchemaState,
    SchemaStateView,
};
use crate::listing::string_views;
use crate::text::{join, join_strings, text_is};

verus! {

/// One column, as `pragma_table_info` reports it.
pub struct Column {
    pub name: String,
    pub data_type: String,
    pub not_null: bool,
    pub primary_key: i64,
}

/// One foreign key, as `pragma_foreign_key_list` reports it.
pub struct ForeignKey {
    pub table: String,
    pub from: String,
    pub to: String,
    pub on_delete: String,
}

/// One user table: its columns in order, its `STRICT` flag, the column lists of its unique
/// indexes, and its foreign keys.
pub struct TableInfo {
    pub name: String,
    pub columns: Vec<Column>,
    pub strict: i64,
    pub unique_indexes: Vec<Vec<String>>,
    pub foreign_keys: Vec<ForeignKey>,
}

/// One user trigger with the SQL that created it.
pub struct Trigger {
    pub name: String,
    pub sql: String,
}

/// What SQLite reports of a database: its `user_version`; its user tables (those not named
/// `sqlite_*`); its user triggers, each once; the number of its user views; the SQL of the
/// `sessions_fts` table (empty where there is none); the rows of `fts_sync_state`, all of them
/// and those that are a valid singleton (zero where there is no such table); and the rows of
/// `index_metadata` with the root of its singleton row.
pub struct SchemaCatalog {
    pub version: i64,
    pub tables: Vec<TableInfo>,
    pub triggers: Vec<Trigger>,
    pub views: u64,
    pub fts_sql: String,
    pub sync_rows_valid: i64,
    pub sync_rows_total: i64,
    pub metadata_rows: i64,
    pub metadata_root: Option<String>,
}

/// A column as a value: name, declared type, `NOT NULL`, and position in the primary key.
pub open spec fn column_view(c: Column) -> (Seq<char>, Seq<char>, bool, i64) {
    (c.name@, c.data_type@, c.not_null, c.primary_key)
}

pub open spec fn column_views(cols: Seq<Column>) -> Seq<(Seq<char>, Seq<char>, bool, i64)> {
    cols.map_values(|c: Column| column_view(c))
}

pub open spec fn column_names(cols: Seq<Column>) -> Seq<Seq<char>> {
    cols.map_values(|c: Column| c.name@)
}

pub open spec fn table_names(tables: Seq<TableInfo>) -> Seq<Seq<char>> {
    tables.map_values(|t: TableInfo| t.name@)
}

/// Whether two name lists hold the same set of names.
pub open spec fn same_names(names: Seq<Seq<char>>, expected: Seq<Seq<char>>) -> bool {
    &&& forall|i: int| 0 <= i < names.len() ==> expected.contains(#[trigger] names[i])
    &&& forall|j: int| 0 <= j < expected.len() ==> names.contains(#[trigger] expected[j])
}

/// The first table with the given name.
pub open spec fn table_named(tables: Seq<TableInfo>, name: Seq<char>) -> Option<TableInfo>
    decreases tables.len(),
{
    if tables.len() == 0 {
        None
    } else if tables[0].name@ == name {
        Some(tables[0])
    } else {
        table_named(tables.drop_first(), name)
    }
}

/// The columns of a table; none for a table that is not there.
pub open spec fn columns_of(tables: Seq<TableInfo>, name: Seq<char>) -> Seq<Column> {
    match table_named(tables, name) {
        Some(t) => t.columns@,
        None => Seq::empty(),
    }
}

pub open spec fn strict_of(tables: Seq<TableInfo>, name: Seq<char>) -> i64 {
    match table_named(tables, name) {
        Some(t) => t.strict,
        None => 0,
    }
}

pub open spec fn unique_indexes_of(tables: Seq<TableInfo>, name: Seq<char>) -> Seq<Seq<Seq<char>>> {
    match table_named(tables, name) {
        Some(t) => t.unique_indexes@.map_values(|ix: Vec<String>| string_views(ix@)),
        None => Seq::empty(),
    }
}

pub open spec fn foreign_keys_of(tables: Seq<TableInfo>, name: Seq<char>) -> Seq<ForeignKey> {
    match table_named(tables, name) {
        Some(t) => t.foreign_keys@,
        None => Seq::empty(),
    }
}

/// The outcome of a check as a value.
pub open spec fn outcome(r: Result<(), String>) -> Result<(), Seq<char>> {
    match r {
        Ok(()) => Ok(()),
        Err(e) => Err(e@),
    }
}

/// `a` where it failed, else `b`.
pub open spec fn first_err(a: Result<(), Seq<char>>, b: Result<(), Seq<char>>) -> Result<(), Seq<char>> {
    if a is Err {
        a
    } else {
        b
    }
}

pub open spec fn index_metadata_layout() -> Seq<(Seq<char>, Seq<char>, bool, i64)> {
    seq![("singleton"@, "INTEGER"@, false, 1i64), ("sessions_root"@, "TEXT"@, true, 0i64)]
}

pub open spec fn source_files_layout() -> Seq<(Seq<char>, Seq<char>, bool, i64)> {
    seq![
        ("source_key"@, "INTEGER"@, false, 1i64),
        ("path"@, "TEXT"@, true, 0i64),
        ("file_size"@, "INTEGER"@, true, 0i64),
        ("modified_secs"@, "INTEGER"@, true, 0i64),
        ("modified_nanos"@, "INTEGER"@, true, 0i64),
        ("parse_status"@, "TEXT"@, true, 0i64),
    ]
}

pub open spec fn sessions_layout() -> Seq<(Seq<char>, Seq<char>, bool, i64)> {
    seq![
        ("path"@, "TEXT"@, true, 0i64),
        ("id"@, "TEXT"@, false, 0i64),
        ("timestamp"@, "TEXT"@, false, 0i64),
        ("cwd"@, "TEXT"@, false, 0i64),
        ("repository_url"@, "TEXT"@, false, 0i64),
        ("branch"@, "TEXT"@, false, 0i64),
        ("first_message"@, "TEXT"@, true, 0i64),
        ("session_key"@, "INTEGER"@, false, 1i64),
        ("source_key"@, "INTEGER"@, true, 0i64),
        ("is_subsession"@, "INTEGER"@, true, 0i64),
        ("has_nonempty_first_message"@, "INTEGER"@, true, 0i64),
    ]
}

pub open spec fn exec_events_layout() -> Seq<(Seq<char>, Seq<char>, bool, i64)> {
    seq![
        ("session_path"@, "TEXT"@, true, 0i64),
        ("session_id"@, "TEXT"@, false, 0i64),
        ("event_index"@, "INTEGER"@, true, 0i64),
        ("call_id"@, "TEXT"@, false, 0i64),
        ("kind"@, "TEXT"@, true, 0i64),
        ("name"@, "TEXT"@, false, 0i64),
        ("command"@, "TEXT"@, true, 0i64),
        ("output"@, "TEXT"@, true, 0i64),
        ("exec_key"@, "INTEGER"@, false, 1i64),
        ("session_key"@, "INTEGER"@, true, 0i64),
    ]
}

pub open spec fn sync_state_layout() -> Seq<(Seq<char>, Seq<char>, bool, i64)> {
    seq![("singleton"@, "INTEGER"@, false, 1i64), ("dirty"@, "INTEGER"@, true, 0i64)]
}

/// A table's columns and `STRICT` flag against the layout it must have.
pub open spec fn table_layout_check(
    tables: Seq<TableInfo>,
    table: Seq<char>,
    expected: Seq<(Seq<char>, Seq<char>, bool, i64)>,
) -> Result<(), Seq<char>> {
    if column_views(columns_of(tables, table)) != expected {
        Err(table + " columns do not match the canonical schema"@)
    } else if strict_of(tables, table) != 1 {
        Err(table + " is not STRICT"@)
    } else {
        Ok(())
    }
}

/// Whether a unique index of `table` covers exactly `cols`, in order.
pub open spec fn unique_check(tables: Seq<TableInfo>, table: Seq<char>, cols: Seq<Seq<char>>) -> Result<(), Seq<char>> {
    if unique_indexes_of(tables, table).contains(cols) {
        Ok(())
    } else {
        Err(table + " is missing required UNIQUE("@ + join(cols, ", "@) + ")"@)
    }
}

pub open spec fn cascades_to(fk: ForeignKey, from: Seq<char>, target_table: Seq<char>, target_column: Seq<char>) -> bool {
    &&& fk.table@ == target_table
    &&& fk.from@ == from
    &&& fk.to@ == target_column
    &&& fk.on_delete@ == "CASCADE"@
}

/// Whether `table.from` refers to `target_table.target_column` with `ON DELETE CASCADE`.
pub open spec fn foreign_key_check(
    tables: Seq<TableInfo>,
    table: Seq<char>,
    from: Seq<char>,
    target_table: Seq<char>,
    target_column: Seq<char>,
) -> Result<(), Seq<char>> {
    if exists|i: int|
        0 <= i < foreign_keys_of(tables, table).len() && #[trigger] cascades_to(
            foreign_keys_of(tables, table)[i],
            from,
            target_table,
            target_column,
        ) {
        Ok(())
    } else {
        Err(table + "."@ + from + " is missing its required cascading foreign key"@)
    }
}

/// The four canonical tables: their layouts (in name order), then their unique keys, then
/// their cascading foreign keys; the first failure is the outcome.
pub open spec fn canonical_tables_check(tables: Seq<TableInfo>) -> Result<(), Seq<char>> {
    first_err(table_layout_check(tables, "exec_events"@, exec_events_layout()),
    first_err(table_layout_check(tables, "index_metadata"@, index_metadata_layout()),
    first_err(table_layout_check(tables, "sessions"@, sessions_layout()),
    first_err(table_layout_check(tables, "source_files"@, source_files_layout()),
    first_err(unique_check(tables, "source_files"@, seq!["path"@]),
    first_err(unique_check(tables, "sessions"@, seq!["source_key"@]),
    first_err(unique_check(tables, "sessions"@, seq!["path"@]),
    first_err(unique_check(tables, "exec_events"@, seq!["session_key"@, "event_index"@]),
    first_err(foreign_key_check(tables, "sessions"@, "source_key"@, "source_files"@, "source_key"@),
              foreign_key_check(tables, "exec_events"@, "session_key"@, "sessions"@, "session_key"@))))))))))
}

/// The search sync table: its layout, its `STRICT` flag, and its one valid row.
pub open spec fn fts_state_check(c: SchemaCatalog) -> Result<(), Seq<char>> {
    if column_views(columns_of(c.tables@, "fts_sync_state"@)) != sync_state_layout() {
        Err("fts_sync_state columns do not match schema v2"@)
    } else if strict_of(c.tables@, "fts_sync_state"@) != 1 {
        Err("fts_sync_state is not STRICT"@)
    } else if c.sync_rows_valid != 1 || c.sync_rows_total != 1 {
        Err("fts_sync_state must contain its valid singleton row"@)
    } else {
        Ok(())
    }
}

/// The columns of the full-text table, in order.
pub open spec fn fts_columns() -> Seq<Seq<char>> {
    seq![
        "first_message"@,
        "cwd"@,
        "repository_url"@,
        "branch"@,
        "timestamp"@,
        "date"@,
        "exec_command"@,
        "exec_output"@,
    ]
}

/// The statement that creates the full-text table.
pub open spec fn fts_table_statement() -> Seq<char> {
    "CREATE VIRTUAL TABLE sessions_fts USING fts5(
    first_message,
    cwd,
    repository_url,
    branch,
    timestamp,
    date,
    exec_command,
    exec_output,
    content='',
    contentless_delete=1,
    tokenize='unicode61 remove_diacritics 2',
    prefix='2 3',
    detail=full,
    columnsize=1
)"@
}

/// The full-text table: its column names, then its SQL up to whitespace and final `;`.
pub open spec fn fts_table_check(c: SchemaCatalog) -> Result<(), Seq<char>> {
    if column_names(columns_of(c.tables@, "sessions_fts"@)) != fts_columns() {
        Err("sessions_fts columns do not match schema v2"@)
    } else if normalized_sql(c.fts_sql@) != normalized_sql(fts_table_statement()) {
        Err("sessions_fts DDL does not match schema v2"@)
    } else {
        Ok(())
    }
}

/// The trigger that marks the search index dirty after `event` on `table`.
pub open spec fn dirty_trigger_sql(name: Seq<char>, event: Seq<char>, table: Seq<char>) -> Seq<char> {
    "CREATE TRIGGER "@ + name + " AFTER "@ + event + " ON "@ + table
        + " BEGIN UPDATE fts_sync_state SET dirty = 1 WHERE singleton = 1; END"@
}

/// The six dirty triggers: name and SQL.
pub open spec fn dirty_triggers() -> Seq<(Seq<char>, Seq<char>)> {
    seq![
        ("sessions_fts_dirty_ai"@, dirty_trigger_sql("sessions_fts_dirty_ai"@, "INSERT"@, "sessions"@)),
        ("sessions_fts_dirty_au"@, dirty_trigger_sql("sessions_fts_dirty_au"@, "UPDATE"@, "sessions"@)),
        ("sessions_fts_dirty_ad"@, dirty_trigger_sql("sessions_fts_dirty_ad"@, "DELETE"@, "sessions"@)),
        ("exec_events_fts_dirty_ai"@, dirty_trigger_sql("exec_events_fts_dirty_ai"@, "INSERT"@, "exec_events"@)),
        ("exec_events_fts_dirty_au"@, dirty_trigger_sql("exec_events_fts_dirty_au"@, "UPDATE"@, "exec_events"@)),
        ("exec_events_fts_dirty_ad"@, dirty_trigger_sql("exec_events_fts_dirty_ad"@, "DELETE"@, "exec_events"@)),
    ]
}

/// The first trigger with the given name.
pub open spec fn trigger_named(ts: Seq<Trigger>, name: Seq<char>) -> Option<Trigger>
    decreases ts.len(),
{
    if ts.len() == 0 {
        None
    } else if ts[0].name@ == name {
        Some(ts[0])
    } else {
        trigger_named(ts.drop_first(), name)
    }
}

/// Whether the database holds a trigger named as `expected.0` whose SQL reads as `expected.1`
/// up to whitespace and a final `;`.
pub open spec fn has_trigger(ts: Seq<Trigger>, expected: (Seq<char>, Seq<char>)) -> bool {
    match trigger_named(ts, expected.0) {
        Some(t) => normalized_sql(t.sql@) == normalized_sql(expected.1),
        None => false,
    }
}

/// The triggers are exactly the six dirty triggers.
pub open spec fn triggers_check(ts: Seq<Trigger>) -> Result<(), Seq<char>> {
    if ts.len() == dirty_triggers().len() && forall|k: int|
        0 <= k < dirty_triggers().len() ==> #[trigger] has_trigger(ts, dirty_triggers()[k]) {
        Ok(())
    } else {
        Err("schema v2 dirty trigger set does not match"@)
    }
}

pub open spec fn v1_tables() -> Seq<Seq<char>> {
    seq!["exec_events"@, "index_metadata"@, "sessions"@, "source_files"@]
}

pub open spec fn v2_tables() -> Seq<Seq<char>> {
    seq![
        "exec_events"@,
        "fts_sync_state"@,
        "index_metadata"@,
        "sessions"@,
        "sessions_fts"@,
        "sessions_fts_config"@,
        "sessions_fts_data"@,
        "sessions_fts_docsize"@,
        "sessions_fts_idx"@,
        "source_files"@,
    ]
}

/// A version 1 index: its four tables, no trigger or view, then the canonical tables.
pub open spec fn v1_check(c: SchemaCatalog) -> Result<(), Seq<char>> {
    if !same_names(table_names(c.tables@), v1_tables()) {
        Err("canonical table set does not match the required schema"@)
    } else if c.triggers@.len() + c.views != 0 {
        Err("canonical schema contains an unexpected trigger or view"@)
    } else {
        canonical_tables_check(c.tables@)
    }
}

/// A version 2 index: its ten tables, no view, then the canonical tables, the sync table,
/// the full-text table and the dirty triggers.
pub open spec fn v2_check(c: SchemaCatalog) -> Result<(), Seq<char>> {
    if !same_names(table_names(c.tables@), v2_tables()) {
        Err("schema v2 table set does not match the required schema"@)
    } else if c.views != 0 {
        Err("schema v2 contains an unexpected view"@)
    } else {
        first_err(canonical_tables_check(c.tables@),
        first_err(fts_state_check(c),
        first_err(fts_table_check(c), triggers_check(c.triggers@))))
    }
}

/// The sessions root recorded in `index_metadata`.
pub open spec fn recorded_root(c: SchemaCatalog) -> Result<Seq<char>, Seq<char>> {
    if c.metadata_rows != 1 {
        Err("canonical index metadata must contain exactly one row"@)
    } else {
        match c.metadata_root {
            Some(root) => Ok(root@),
            None => Err("canonical index metadata is missing its singleton row"@),
        }
    }
}

pub open spec fn legacy_session_columns() -> Seq<Seq<char>> {
    seq!["path"@, "id"@, "timestamp"@, "cwd"@, "repository_url"@, "branch"@, "first_message"@]
}

pub open spec fn legacy_exec_columns() -> Seq<Seq<char>> {
    seq![
        "session_path"@,
        "session_id"@,
        "event_index"@,
        "call_id"@,
        "kind"@,
        "name"@,
        "command"@,
        "output"@,
    ]
}

/// Whether the tables are those that the earlier recorder wrote: `sessions`, with or without
/// `exec_events`, each with its column names in order.
pub open spec fn legacy_layout(c: SchemaCatalog) -> bool {
    let names = table_names(c.tables@);
    &&& same_names(names, seq!["sessions"@]) || same_names(names, seq!["exec_events"@, "sessions"@])
    &&& column_names(columns_of(c.tables@, "sessions"@)) == legacy_session_columns()
    &&& names.contains("exec_events"@) ==> column_names(columns_of(c.tables@, "exec_events"@))
        == legacy_exec_columns()
}

/// What the layout check of versions 1 and 2 finds: the recorded root, or the first failure.
pub open spec fn validation_of(c: SchemaCatalog) -> Result<Seq<char>, Seq<char>> {
    let checked = if c.version == 1 {
        v1_check(c)
    } else {
        v2_check(c)
    };
    match checked {
        Err(e) => Err(e),
        Ok(()) => recorded_root(c),
    }
}

/// The state of the index that the catalog describes.
pub open spec fn catalog_state(c: SchemaCatalog) -> SchemaStateView {
    schema_state_of(c.version, c.tables@.len() > 0, legacy_layout(c), validation_of(c))
}


/// `a` followed by `b`.
fn cat(a: &str, b: &str) -> (r: String)
    ensures
        r@ == a@ + b@,
{
    let mut s = String::from_str(a);
    s.append(b);
    s
}

fn col(name: &str, data_type: &str, not_null: bool, primary_key: i64) -> (c: Column)
    ensures
        column_view(c) == (name@, data_type@, not_null, primary_key),
{
    Column { name: String::from_str(name), data_type: String::from_str(data_type), not_null, primary_key }
}

fn index_metadata_columns() -> (v: Vec<Column>)
    ensures
        column_views(v@) == index_metadata_layout(),
{
    let mut v: Vec<Column> = Vec::new();
    v.push(col("singleton", "INTEGER", false, 1));
    v.push(col("sessions_root", "TEXT", true, 0));
    assert(column_views(v@) =~= index_metadata_layout());
    v
}

fn source_files_columns() -> (v: Vec<Column>)
    ensures
        column_views(v@) == source_files_layout(),
{
    let mut v: Vec<Column> = Vec::new();
    v.push(col("source_key", "INTEGER", false, 1));
    v.push(col("path", "TEXT", true, 0));
    v.push(col("file_size", "INTEGER", true, 0));
    v.push(col("modified_secs", "INTEGER", true, 0));
    v.push(col("modified_nanos", "INTEGER", true, 0));
    v.push(col("parse_status", "TEXT", true, 0));
    assert(column_views(v@) =~= source_files_layout());
    v
}

fn sessions_columns() -> (v: Vec<Column>)
    ensures
        column_views(v@) == sessions_layout(),
{
    let mut v: Vec<Column> = Vec::new();
    v.push(col("path", "TEXT", true, 0));
    v.push(col("id", "TEXT", false, 0));
    v.push(col("timestamp", "TEXT", false, 0));
    v.push(col("cwd", "TEXT", false, 0));
    v.push(col("repository_url", "TEXT", false, 0));
    v.push(col("branch", "TEXT", false, 0));
    v.push(col("first_message", "TEXT", true, 0));
    v.push(col("session_key", "INTEGER", false, 1));
    v.push(col("source_key", "INTEGER", true, 0));
    v.push(col("is_subsession", "INTEGER", true, 0));
    v.push(col("has_nonempty_first_message", "INTEGER", true, 0));
    assert(column_views(v@) =~= sessions_layout());
    v
}

fn exec_events_columns() -> (v: Vec<Column>)
    ensures
        column_views(v@) == exec_events_layout(),
{
    let mut v: Vec<Column> = Vec::new();
    v.push(col("session_path", "TEXT", true, 0));
    v.push(col("session_id", "TEXT", false, 0));
    v.push(col("event_index", "INTEGER", true, 0));
    v.push(col("call_id", "TEXT", false, 0));
    v.push(col("kind", "TEXT", true, 0));
    v.push(col("name", "TEXT", false, 0));
    v.push(col("command", "TEXT", true, 0));
    v.push(col("output", "TEXT", true, 0));
    v.push(col("exec_key", "INTEGER", false, 1));
    v.push(col("session_key", "INTEGER", true, 0));
    assert(column_views(v@) =~= exec_events_layout());
    v
}

fn sync_state_columns() -> (v: Vec<Column>)
    ensures
        column_views(v@) == sync_state_layout(),
{
    let mut v: Vec<Column> = Vec::new();
    v.push(col("singleton", "INTEGER", false, 1));
    v.push(col("dirty", "INTEGER", true, 0));
    assert(column_views(v@) =~= sync_state_layout());
    v
}

/// The first table with the given name (see [`table_named`]).
fn find_table<'a>(tables: &'a Vec<TableInfo>, name: &str) -> (r: Option<&'a TableInfo>)
    ensures
        match r {
            Some(t) => table_named(tables@, name@) == Some(*t),
            None => table_named(tables@, name@) is None,
        },
{
    let mut i: usize = 0;
    assert(tables@.skip(0) =~= tables@);
    while i < tables.len()
        invariant
            i <= tables@.len(),
            table_named(tables@, name@) == table_named(tables@.skip(i as int), name@),
        decreases tables.len() - i,
    {
        assert(tables@.skip(i as int)[0] == tables@[i as int]);
        if text_is(&tables[i].name, name) {
            return Some(&tables[i]);
        }
        assert(tables@.skip(i as int).drop_first() =~= tables@.skip(i + 1));
        i = i + 1;
    }
    assert(tables@.skip(i as int).len() == 0);
    None
}

/// Whether two column lists are the same.
fn same_columns(a: &Vec<Column>, b: &Vec<Column>) -> (r: bool)
    ensures
        r == (column_views(a@) == column_views(b@)),
{
    if a.len() != b.len() {
        assert(column_views(a@).len() != column_views(b@).len());
        return false;
    }
    let mut i: usize = 0;
    while i < a.len()
        invariant
            i <= a@.len(),
            a@.len() == b@.len(),
            forall|k: int| 0 <= k < i ==> column_view(#[trigger] a@[k]) == column_view(b@[k]),
        decreases a.len() - i,
    {
        let same = a[i].name.eq(&b[i].name) && a[i].data_type.eq(&b[i].data_type)
            && a[i].not_null == b[i].not_null && a[i].primary_key == b[i].primary_key;
        if !same {
            assert(column_views(a@)[i as int] != column_views(b@)[i as int]);
            return false;
        }
        i = i + 1;
    }
    assert(column_views(a@) =~= column_views(b@));
    true
}

/// Whether two text lists are the same.
fn same_texts(a: &Vec<String>, b: &Vec<String>) -> (r: bool)
    ensures
        r == (string_views(a@) == string_views(b@)),
{
    if a.len() != b.len() {
        assert(string_views(a@).len() != string_views(b@).len());
        return false;
    }
    let mut i: usize = 0;
    while i < a.len()
        invariant
            i <= a@.len(),
            a@.len() == b@.len(),
            forall|k: int| 0 <= k < i ==> (#[trigger] a@[k])@ == b@[k]@,
        decreases a.len() - i,
    {
        if !a[i].eq(&b[i]) {
            assert(string_views(a@)[i as int] != string_views(b@)[i as int]);
            return false;
        }
        i = i + 1;
    }
    assert(string_views(a@) =~= string_views(b@));
    true
}

/// The names of some columns.
fn names_of_columns(cols: &Vec<Column>) -> (r: Vec<String>)
    ensures
        string_views(r@) == column_names(cols@),
{
    let mut out: Vec<String> = Vec::new();
    let mut i: usize = 0;
    while i < cols.len()
        invariant
            i <= cols@.len(),
            string_views(out@) == column_names(cols@).take(i as int),
        decreases cols.len() - i,
    {
        let ghost before = string_views(out@);
        out.push(cols[i].name.clone());
        assert(string_views(out@) =~= before.push(cols@[i as int].name@));
        assert(column_names(cols@).take(i + 1) =~= column_names(cols@).take(i as int).push(
            cols@[i as int].name@,
        ));
        i = i + 1;
    }
    assert(column_names(cols@).take(cols@.len() as int) =~= column_names(cols@));
    out
}

/// The names of the user tables.
fn names_of_tables(tables: &Vec<TableInfo>) -> (r: Vec<String>)
    ensures
        string_views(r@) == table_names(tables@),
{
    let mut out: Vec<String> = Vec::new();
    let mut i: usize = 0;
    while i < tables.len()
        invariant
            i <= tables@.len(),
            string_views(out@) == table_names(tables@).take(i as int),
        decreases tables.len() - i,
    {
        let ghost before = string_views(out@);
        out.push(tables[i].name.clone());
        assert(string_views(out@) =~= before.push(tables@[i as int].name@));
        assert(table_names(tables@).take(i + 1) =~= table_names(tables@).take(i as int).push(
            tables@[i as int].name@,
        ));
        i = i + 1;
    }
    assert(table_names(tables@).take(tables@.len() as int) =~= table_names(tables@));
    out
}

/// Whether two name lists hold the same set of names (see [`same_names`]).
fn names_match(names: &Vec<String>, expected: &Vec<String>) -> (r: bool)
    ensures
        r == same_names(string_views(names@), string_views(expected@)),
{
    let ghost nv = string_views(names@);
    let ghost ev = string_views(expected@);
    let mut i: usize = 0;
    while i < names.len()
        invariant
            i <= names@.len(),
            nv == string_views(names@),
            ev == string_views(expected@),
            forall|k: int| 0 <= k < i ==> ev.contains(#[trigger] nv[k]),
        decreases names.len() - i,
    {
        if !contains_text(expected.as_slice(), &names[i]) {
            assert(!ev.contains(nv[i as int]));
            return false;
        }
        i = i + 1;
    }
    let mut j: usize = 0;
    while j < expected.len()
        invariant
            j <= expected@.len(),
            nv == string_views(names@),
            ev == string_views(expected@),
            forall|k: int| 0 <= k < names@.len() ==> ev.contains(#[trigger] nv[k]),
            forall|k: int| 0 <= k < j ==> nv.contains(#[trigger] ev[k]),
        decreases expected.len() - j,
    {
        if !contains_text(names.as_slice(), &expected[j]) {
            assert(!nv.contains(ev[j as int]));
            return false;
        }
        j = j + 1;
    }
    true
}

fn texts1(a: &str) -> (v: Vec<String>)
    ensures
        string_views(v@) == seq![a@],
{
    let mut v: Vec<String> = Vec::new();
    v.push(String::from_str(a));
    assert(string_views(v@) =~= seq![a@]);
    v
}

fn texts2(a: &str, b: &str) -> (v: Vec<String>)
    ensures
        string_views(v@) == seq![a@, b@],
{
    let mut v: Vec<String> = Vec::new();
    v.push(String::from_str(a));
    v.push(String::from_str(b));
    assert(string_views(v@) =~= seq![a@, b@]);
    v
}

/// A table's columns and `STRICT` flag (see [`table_layout_check`]).
fn check_table_layout(tables: &Vec<TableInfo>, table: &str, expected: &Vec<Column>) -> (r: Result<(), String>)
    ensures
        outcome(r) == table_layout_check(tables@, table@, column_views(expected@)),
{
    let found = find_table(tables, table);
    let (matches, strict) = match found {
        Some(t) => (same_columns(&t.columns, expected), t.strict),
        None => {
            let none: Vec<Column> = Vec::new();
            assert(none@ =~= Seq::<Column>::empty());
            (same_columns(&none, expected), 0)
        },
    };
    if !matches {
        Err(cat(table, " columns do not match the canonical schema"))
    } else if strict != 1 {
        Err(cat(table, " is not STRICT"))
    } else {
        Ok(())
    }
}

/// Whether a unique index of `table` covers exactly `cols` (see [`unique_check`]).
fn check_unique(tables: &Vec<TableInfo>, table: &str, cols: &Vec<String>) -> (r: Result<(), String>)
    ensures
        outcome(r) == unique_check(tables@, table@, string_views(cols@)),
{
    let ghost want = string_views(cols@);
    let ghost found_sets = unique_indexes_of(tables@, table@);
    match find_table(tables, table) {
        Some(t) => {
            let mut i: usize = 0;
            while i < t.unique_indexes.len()
                invariant
                    i <= t.unique_indexes@.len(),
                    found_sets == t.unique_indexes@.map_values(|ix: Vec<String>| string_views(ix@)),
                    found_sets == unique_indexes_of(tables@, table@),
                    want == string_views(cols@),
                    forall|k: int| 0 <= k < i ==> found_sets[k] != want,
                decreases t.unique_indexes.len() - i,
            {
                if same_texts(&t.unique_indexes[i], cols) {
                    assert(found_sets[i as int] == want);
                    assert(found_sets.len() == t.unique_indexes@.len());
                    assert(found_sets.contains(want));
                    return Ok(());
                }
                i = i + 1;
            }
        },
        None => {},
    }
    let joined = join_strings(cols, ", ");
    assert(cols@.map_values(|p: String| p@) =~= want);
    let head = cat(table, " is missing required UNIQUE(");
    Err(cat(cat(head.as_str(), joined.as_str()).as_str(), ")"))
}

/// Whether `table.from` cascades to `target_table.target_column` (see [`foreign_key_check`]).
fn check_foreign_key(
    tables: &Vec<TableInfo>,
    table: &str,
    from: &str,
    target_table: &str,
    target_column: &str,
) -> (r: Result<(), String>)
    ensures
        outcome(r) == foreign_key_check(tables@, table@, from@, target_table@, target_column@),
{
    let ghost fks = foreign_keys_of(tables@, table@);
    match find_table(tables, table) {
        Some(t) => {
            let mut i: usize = 0;
            while i < t.foreign_keys.len()
                invariant
                    i <= t.foreign_keys@.len(),
                    fks == t.foreign_keys@,
                    fks == foreign_keys_of(tables@, table@),
                    forall|k: int| 0 <= k < i ==> !#[trigger] cascades_to(fks[k], from@, target_table@, target_column@),
                decreases t.foreign_keys.len() - i,
            {
                let fk = &t.foreign_keys[i];
                if text_is(&fk.table, target_table) && text_is(&fk.from, from) && text_is(&fk.to, target_column)
                    && text_is(&fk.on_delete, "CASCADE") {
                    assert(cascades_to(fks[i as int], from@, target_table@, target_column@));
                    assert(0 <= i < fks.len());
                    return Ok(());
                }
                i = i + 1;
            }
        },
        None => {},
    }
    let head = cat(cat(table, ".").as_str(), from);
    Err(cat(head.as_str(), " is missing its required cascading foreign key"))
}

/// The four canonical tables (see [`canonical_tables_check`]).
pub fn validate_canonical_tables(tables: &Vec<TableInfo>) -> (r: Result<(), String>)
    ensures
        outcome(r) == canonical_tables_check(tables@),
{
    let r = check_table_layout(tables, "exec_events", &exec_events_columns());
    if r.is_err() {
        return r;
    }
    let r = check_table_layout(tables, "index_metadata", &index_metadata_columns());
    if r.is_err() {
        return r;
    }
    let r = check_table_layout(tables, "sessions", &sessions_columns());
    if r.is_err() {
        return r;
    }
    let r = check_table_layout(tables, "source_files", &source_files_columns());
    if r.is_err() {
        return r;
    }
    let r = check_unique(tables, "source_files", &texts1("path"));
    if r.is_err() {
        return r;
    }
    let r = check_unique(tables, "sessions", &texts1("source_key"));
    if r.is_err() {
        return r;
    }
    let r = check_unique(tables, "sessions", &texts1("path"));
    if r.is_err() {
        return r;
    }
    let r = check_unique(tables, "exec_events", &texts2("session_key", "event_index"));
    if r.is_err() {
        return r;
    }
    let r = check_foreign_key(tables, "sessions", "source_key", "source_files", "source_key");
    if r.is_err() {
        return r;
    }
    check_foreign_key(tables, "exec_events", "session_key", "sessions", "session_key")
}


/// The search sync table (see [`fts_state_check`]).
pub fn validate_fts_state(c: &SchemaCatalog) -> (r: Result<(), String>)
    ensures
        outcome(r) == fts_state_check(*c),
{
    let expected = sync_state_columns();
    let (matches, strict) = match find_table(&c.tables, "fts_sync_state") {
        Some(t) => (same_columns(&t.columns, &expected), t.strict),
        None => {
            let none: Vec<Column> = Vec::new();
            assert(none@ =~= Seq::<Column>::empty());
            (same_columns(&none, &expected), 0)
        },
    };
    if !matches {
        Err(String::from_str("fts_sync_state columns do not match schema v2"))
    } else if strict != 1 {
        Err(String::from_str("fts_sync_state is not STRICT"))
    } else if c.sync_rows_valid != 1 || c.sync_rows_total != 1 {
        Err(String::from_str("fts_sync_state must contain its valid singleton row"))
    } else {
        Ok(())
    }
}

fn fts_column_list() -> (v: Vec<String>)
    ensures
        string_views(v@) == fts_columns(),
{
    let mut v: Vec<String> = Vec::new();
    v.push(String::from_str("first_message"));
    v.push(String::from_str("cwd"));
    v.push(String::from_str("repository_url"));
    v.push(String::from_str("branch"));
    v.push(String::from_str("timestamp"));
    v.push(String::from_str("date"));
    v.push(String::from_str("exec_command"));
    v.push(String::from_str("exec_output"));
    assert(string_views(v@) =~= fts_columns());
    v
}

/// The statement that creates the full-text table, whose columns are, in order, those of
/// [`fts_columns`]; the column weights of a ranked search follow this order.
pub fn fts_table_ddl() -> (r: String)
    ensures
        r@ == fts_table_statement(),
{
    String::from_str("CREATE VIRTUAL TABLE sessions_fts USING fts5(
    first_message,
    cwd,
    repository_url,
    branch,
    timestamp,
    date,
    exec_command,
    exec_output,
    content='',
    contentless_delete=1,
    tokenize='unicode61 remove_diacritics 2',
    prefix='2 3',
    detail=full,
    columnsize=1
)")
}

/// The full-text table (see [`fts_table_check`]).
pub fn validate_fts_table(c: &SchemaCatalog) -> (r: Result<(), String>)
    ensures
        outcome(r) == fts_table_check(*c),
{
    let names = match find_table(&c.tables, "sessions_fts") {
        Some(t) => names_of_columns(&t.columns),
        None => {
            let none: Vec<String> = Vec::new();
            assert(string_views(none@) =~= column_names(Seq::<Column>::empty()));
            none
        },
    };
    if !same_texts(&names, &fts_column_list()) {
        return Err(String::from_str("sessions_fts columns do not match schema v2"));
    }
    let actual = normalize_sql(c.fts_sql.as_str());
    let expected = normalize_sql(fts_table_ddl().as_str());
    if !actual.eq(&expected) {
        return Err(String::from_str("sessions_fts DDL does not match schema v2"));
    }
    Ok(())
}

/// The SQL of a dirty trigger (see [`dirty_trigger_sql`]).
fn trigger_sql(name: &str, event: &str, table: &str) -> (r: String)
    ensures
        r@ == dirty_trigger_sql(name@, event@, table@),
{
    let mut s = String::from_str("CREATE TRIGGER ");
    s.append(name);
    s.append(" AFTER ");
    s.append(event);
    s.append(" ON ");
    s.append(table);
    s.append(" BEGIN UPDATE fts_sync_state SET dirty = 1 WHERE singleton = 1; END");
    s
}

fn dirty_trigger_list() -> (v: Vec<(String, String)>)
    ensures
        v@.len() == dirty_triggers().len(),
        forall|k: int| 0 <= k < v@.len() ==> (v@[k].0@, v@[k].1@) == #[trigger] dirty_triggers()[k],
{
    let mut v: Vec<(String, String)> = Vec::new();
    v.push((String::from_str("sessions_fts_dirty_ai"), trigger_sql("sessions_fts_dirty_ai", "INSERT", "sessions")));
    v.push((String::from_str("sessions_fts_dirty_au"), trigger_sql("sessions_fts_dirty_au", "UPDATE", "sessions")));
    v.push((String::from_str("sessions_fts_dirty_ad"), trigger_sql("sessions_fts_dirty_ad", "DELETE", "sessions")));
    v.push((String::from_str("exec_events_fts_dirty_ai"), trigger_sql("exec_events_fts_dirty_ai", "INSERT", "exec_events")));
    v.push((String::from_str("exec_events_fts_dirty_au"), trigger_sql("exec_events_fts_dirty_au", "UPDATE", "exec_events")));
    v.push((String::from_str("exec_events_fts_dirty_ad"), trigger_sql("exec_events_fts_dirty_ad", "DELETE", "exec_events")));
    v
}

/// The statements that create the six dirty triggers, in the order of [`dirty_triggers`].
pub fn dirty_trigger_statements() -> (r: Vec<String>)
    ensures
        r@.len() == dirty_triggers().len(),
        forall|k: int| 0 <= k < r@.len() ==> (#[trigger] r@[k])@ == dirty_triggers()[k].1,
{
    let list = dirty_trigger_list();
    let mut out: Vec<String> = Vec::new();
    let mut i: usize = 0;
    while i < list.len()
        invariant
            i <= list@.len(),
            list@.len() == dirty_triggers().len(),
            forall|k: int| 0 <= k < list@.len() ==> (list@[k].0@, list@[k].1@) == #[trigger] dirty_triggers()[k],
            out@.len() == i,
            forall|k: int| 0 <= k < i ==> (#[trigger] out@[k])@ == dirty_triggers()[k].1,
        decreases list.len() - i,
    {
        assert((list@[i as int].0@, list@[i as int].1@) == dirty_triggers()[i as int]);
        out.push(list[i].1.clone());
        i = i + 1;
    }
    out
}

/// The first trigger with the given name (see [`trigger_named`]).
fn find_trigger<'a>(ts: &'a Vec<Trigger>, name: &String) -> (r: Option<&'a Trigger>)
    ensures
        match r {
            Some(t) => trigger_named(ts@, name@) == Some(*t),
            None => trigger_named(ts@, name@) is None,
        },
{
    let mut i: usize = 0;
    assert(ts@.skip(0) =~= ts@);
    while i < ts.len()
        invariant
            i <= ts@.len(),
            trigger_named(ts@, name@) == trigger_named(ts@.skip(i as int), name@),
        decreases ts.len() - i,
    {
        assert(ts@.skip(i as int)[0] == ts@[i as int]);
        if ts[i].name.eq(name) {
            return Some(&ts[i]);
        }
        assert(ts@.skip(i as int).drop_first() =~= ts@.skip(i + 1));
        i = i + 1;
    }
    assert(ts@.skip(i as int).len() == 0);
    None
}

/// The triggers (see [`triggers_check`]).
pub fn validate_fts_triggers(ts: &Vec<Trigger>) -> (r: Result<(), String>)
    ensures
        outcome(r) == triggers_check(ts@),
{
    let expected = dirty_trigger_list();
    if ts.len() != expected.len() {
        return Err(String::from_str("schema v2 dirty trigger set does not match"));
    }
    let mut k: usize = 0;
    while k < expected.len()
        invariant
            k <= expected@.len(),
            expected@.len() == dirty_triggers().len(),
            forall|j: int| 0 <= j < expected@.len() ==> (expected@[j].0@, expected@[j].1@) == #[trigger] dirty_triggers()[j],
            forall|j: int| 0 <= j < k ==> #[trigger] has_trigger(ts@, dirty_triggers()[j]),
        decreases expected.len() - k,
    {
        assert((expected@[k as int].0@, expected@[k as int].1@) == dirty_triggers()[k as int]);
        let ok = match find_trigger(ts, &expected[k].0) {
            Some(t) => {
                let a = normalize_sql(t.sql.as_str());
                let b = normalize_sql(expected[k].1.as_str());
                a.eq(&b)
            },
            None => false,
        };
        if !ok {
            assert(!has_trigger(ts@, dirty_triggers()[k as int]));
            return Err(String::from_str("schema v2 dirty trigger set does not match"));
        }
        k = k + 1;
    }
    Ok(())
}

fn v1_table_list() -> (v: Vec<String>)
    ensures
        string_views(v@) == v1_tables(),
{
    let mut v: Vec<String> = Vec::new();
    v.push(String::from_str("exec_events"));
    v.push(String::from_str("index_metadata"));
    v.push(String::from_str("sessions"));
    v.push(String::from_str("source_files"));
    assert(string_views(v@) =~= v1_tables());
    v
}

fn v2_table_list() -> (v: Vec<String>)
    ensures
        string_views(v@) == v2_tables(),
{
    let mut v: Vec<String> = Vec::new();
    v.push(String::from_str("exec_events"));
    v.push(String::from_str("fts_sync_state"));
    v.push(String::from_str("index_metadata"));
    v.push(String::from_str("sessions"));
    v.push(String::from_str("sessions_fts"));
    v.push(String::from_str("sessions_fts_config"));
    v.push(String::from_str("sessions_fts_data"));
    v.push(String::from_str("sessions_fts_docsize"));
    v.push(String::from_str("sessions_fts_idx"));
    v.push(String::from_str("source_files"));
    assert(string_views(v@) =~= v2_tables());
    v
}

/// A version 1 index (see [`v1_check`]).
pub fn validate_v1(c: &SchemaCatalog) -> (r: Result<(), String>)
    ensures
        outcome(r) == v1_check(*c),
{
    if !names_match(&names_of_tables(&c.tables), &v1_table_list()) {
        return Err(String::from_str("canonical table set does not match the required schema"));
    }
    if c.triggers.len() > 0 || c.views > 0 {
        return Err(String::from_str("canonical schema contains an unexpected trigger or view"));
    }
    validate_canonical_tables(&c.tables)
}

/// A version 2 index (see [`v2_check`]).
pub fn validate_current(c: &SchemaCatalog) -> (r: Result<(), String>)
    ensures
        outcome(r) == v2_check(*c),
{
    if !names_match(&names_of_tables(&c.tables), &v2_table_list()) {
        return Err(String::from_str("schema v2 table set does not match the required schema"));
    }
    if c.views > 0 {
        return Err(String::from_str("schema v2 contains an unexpected view"));
    }
    let r = validate_canonical_tables(&c.tables);
    if r.is_err() {
        return r;
    }
    let r = validate_fts_state(c);
    if r.is_err() {
        return r;
    }
    let r = validate_fts_table(c);
    if r.is_err() {
        return r;
    }
    validate_fts_triggers(&c.triggers)
}

/// The sessions root recorded in the index (see [`recorded_root`]).
pub fn current_root(c: &SchemaCatalog) -> (r: Result<String, String>)
    ensures
        match r {
            Ok(root) => recorded_root(*c) == Ok::<Seq<char>, Seq<char>>(root@),
            Err(e) => recorded_root(*c) == Err::<Seq<char>, Seq<char>>(e@),
        },
{
    if c.metadata_rows != 1 {
        return Err(String::from_str("canonical index metadata must contain exactly one row"));
    }
    match &c.metadata_root {
        Some(root) => Ok(root.clone()),
        None => Err(String::from_str("canonical index metadata is missing its singleton row")),
    }
}

fn legacy_session_list() -> (v: Vec<String>)
    ensures
        string_views(v@) == legacy_session_columns(),
{
    let mut v: Vec<String> = Vec::new();
    v.push(String::from_str("path"));
    v.push(String::from_str("id"));
    v.push(String::from_str("timestamp"));
    v.push(String::from_str("cwd"));
    v.push(String::from_str("repository_url"));
    v.push(String::from_str("branch"));
    v.push(String::from_str("first_message"));
    assert(string_views(v@) =~= legacy_session_columns());
    v
}

fn legacy_exec_list() -> (v: Vec<String>)
    ensures
        string_views(v@) == legacy_exec_columns(),
{
    let mut v: Vec<String> = Vec::new();
    v.push(String::from_str("session_path"));
    v.push(String::from_str("session_id"));
    v.push(String::from_str("event_index"));
    v.push(String::from_str("call_id"));
    v.push(String::from_str("kind"));
    v.push(String::from_str("name"));
    v.push(String::from_str("command"));
    v.push(String::from_str("output"));
    assert(string_views(v@) =~= legacy_exec_columns());
    v
}

/// The column names of a table; none for a table that is not there.
fn column_names_of(tables: &Vec<TableInfo>, name: &str) -> (r: Vec<String>)
    ensures
        string_views(r@) == column_names(columns_of(tables@, name@)),
{
    match find_table(tables, name) {
        Some(t) => names_of_columns(&t.columns),
        None => {
            let none: Vec<String> = Vec::new();
            assert(string_views(none@) =~= column_names(Seq::<Column>::empty()));
            none
        },
    }
}

/// Whether the tables are those of the earlier recorder (see [`legacy_layout`]).
pub fn is_legacy(c: &SchemaCatalog) -> (b: bool)
    ensures
        b == legacy_layout(*c),
{
    let names = names_of_tables(&c.tables);
    let one = texts1("sessions");
    let two = texts2("exec_events", "sessions");
    if !names_match(&names, &one) && !names_match(&names, &two) {
        return false;
    }
    if !same_texts(&column_names_of(&c.tables, "sessions"), &legacy_session_list()) {
        return false;
    }
    let exec_name = String::from_str("exec_events");
    if contains_text(names.as_slice(), &exec_name) {
        return same_texts(&column_names_of(&c.tables, "exec_events"), &legacy_exec_list());
    }
    true
}

/// What the layout check of versions 1 and 2 finds (see [`validation_of`]).
fn validate_layout(c: &SchemaCatalog) -> (r: Result<String, String>)
    ensures
        match r {
            Ok(root) => validation_of(*c) == Ok::<Seq<char>, Seq<char>>(root@),
            Err(e) => validation_of(*c) == Err::<Seq<char>, Seq<char>>(e@),
        },
{
    let checked = if c.version == 1 {
        validate_v1(c)
    } else {
        validate_current(c)
    };
    match checked {
        Err(e) => Err(e),
        Ok(()) => current_root(c),
    }
}

/// The state of the index that the catalog describes (see [`catalog_state`]).
pub fn detect_schema(c: &SchemaCatalog) -> (r: SchemaState)
    ensures
        r@ == catalog_state(*c),
{
    let legacy = is_legacy(c);
    let validation = validate_layout(c);
    classify_schema(c.version, c.tables.len() > 0, legacy, validation)
}


/// The statements that create the four canonical tables.
pub open spec fn canonical_table_statements() -> Seq<char> {
    "
CREATE TABLE index_metadata (
    singleton INTEGER PRIMARY KEY CHECK (singleton = 1),
    sessions_root TEXT NOT NULL
) STRICT;

CREATE TABLE source_files (
    source_key INTEGER PRIMARY KEY,
    path TEXT NOT NULL UNIQUE,
    file_size INTEGER NOT NULL CHECK (file_size >= 0),
    modified_secs INTEGER NOT NULL CHECK (modified_secs >= 0),
    modified_nanos INTEGER NOT NULL
        CHECK (modified_nanos >= 0 AND modified_nanos < 1000000000),
    parse_status TEXT NOT NULL
        CHECK (parse_status IN ('indexed', 'skipped'))
) STRICT;

CREATE TABLE sessions (
    path TEXT NOT NULL,
    id TEXT,
    timestamp TEXT,
    cwd TEXT,
    repository_url TEXT,
    branch TEXT,
    first_message TEXT NOT NULL,
    session_key INTEGER PRIMARY KEY,
    source_key INTEGER NOT NULL UNIQUE
        REFERENCES source_files(source_key) ON DELETE CASCADE,
    is_subsession INTEGER NOT NULL
        CHECK (is_subsession IN (0, 1)),
    has_nonempty_first_message INTEGER NOT NULL
        CHECK (has_nonempty_first_message IN (0, 1)),
    UNIQUE (path)
) STRICT;

CREATE TABLE exec_events (
    session_path TEXT NOT NULL,
    session_id TEXT,
    event_index INTEGER NOT NULL CHECK (event_index >= 0),
    call_id TEXT,
    kind TEXT NOT NULL,
    name TEXT,
    command TEXT NOT NULL,
    output TEXT NOT NULL,
    exec_key INTEGER PRIMARY KEY,
    session_key INTEGER NOT NULL
        REFERENCES sessions(session_key) ON DELETE CASCADE,
    UNIQUE (session_key, event_index)
) STRICT;
"@
}

/// The statements that create the four canonical tables.
pub fn canonical_table_ddl() -> (r: String)
    ensures
        r@ == canonical_table_statements(),
{
    String::from_str("
CREATE TABLE index_metadata (
    singleton INTEGER PRIMARY KEY CHECK (singleton = 1),
    sessions_root TEXT NOT NULL
) STRICT;

CREATE TABLE source_files (
    source_key INTEGER PRIMARY KEY,
    path TEXT NOT NULL UNIQUE,
    file_size INTEGER NOT NULL CHECK (file_size >= 0),
    modified_secs INTEGER NOT NULL CHECK (modified_secs >= 0),
    modified_nanos INTEGER NOT NULL
        CHECK (modified_nanos >= 0 AND modified_nanos < 1000000000),
    parse_status TEXT NOT NULL
        CHECK (parse_status IN ('indexed', 'skipped'))
) STRICT;

CREATE TABLE sessions (
    path TEXT NOT NULL,
    id TEXT,
    timestamp TEXT,
    cwd TEXT,
    repository_url TEXT,
    branch TEXT,
    first_message TEXT NOT NULL,
    session_key INTEGER PRIMARY KEY,
    source_key INTEGER NOT NULL UNIQUE
        REFERENCES source_files(source_key) ON DELETE CASCADE,
    is_subsession INTEGER NOT NULL
        CHECK (is_subsession IN (0, 1)),
    has_nonempty_first_message INTEGER NOT NULL
        CHECK (has_nonempty_first_message IN (0, 1)),
    UNIQUE (path)
) STRICT;

CREATE TABLE exec_events (
    session_path TEXT NOT NULL,
    session_id TEXT,
    event_index INTEGER NOT NULL CHECK (event_index >= 0),
    call_id TEXT,
    kind TEXT NOT NULL,
    name TEXT,
    command TEXT NOT NULL,
    output TEXT NOT NULL,
    exec_key INTEGER PRIMARY KEY,
    session_key INTEGER NOT NULL
        REFERENCES sessions(session_key) ON DELETE CASCADE,
    UNIQUE (session_key, event_index)
) STRICT;
")
}

/// The statements that create the ordinary indexes, where they are missing.
pub open spec fn index_statements() -> Seq<char> {
    "
CREATE INDEX IF NOT EXISTS sessions_timestamp_idx ON sessions(timestamp);
CREATE INDEX IF NOT EXISTS sessions_cwd_idx ON sessions(cwd);
CREATE INDEX IF NOT EXISTS exec_events_session_path_idx ON exec_events(session_path);
CREATE INDEX IF NOT EXISTS exec_events_session_id_idx ON exec_events(session_id);
"@
}

/// The statements that create the ordinary indexes, where they are missing.
pub fn index_ddl() -> (r: String)
    ensures
        r@ == index_statements(),
{
    String::from_str("
CREATE INDEX IF NOT EXISTS sessions_timestamp_idx ON sessions(timestamp);
CREATE INDEX IF NOT EXISTS sessions_cwd_idx ON sessions(cwd);
CREATE INDEX IF NOT EXISTS exec_events_session_path_idx ON exec_events(session_path);
CREATE INDEX IF NOT EXISTS exec_events_session_id_idx ON exec_events(session_id);
")
}

/// The statements that create the search sync table with its one row, marked dirty.
pub open spec fn fts_state_statements() -> Seq<char> {
    "
CREATE TABLE fts_sync_state (
    singleton INTEGER PRIMARY KEY CHECK (singleton = 1),
    dirty INTEGER NOT NULL CHECK (dirty IN (0, 1))
) STRICT;

INSERT INTO fts_sync_state(singleton, dirty) VALUES (1, 1);

"@
}

/// The statements that create the search sync table with its one row, marked dirty.
pub fn fts_state_ddl() -> (r: String)
    ensures
        r@ == fts_state_statements(),
{
    String::from_str("
CREATE TABLE fts_sync_state (
    singleton INTEGER PRIMARY KEY CHECK (singleton = 1),
    dirty INTEGER NOT NULL CHECK (dirty IN (0, 1))
) STRICT;

INSERT INTO fts_sync_state(singleton, dirty) VALUES (1, 1);

")
}


/// A database whose version is newer than this library's is classified by its version alone,
/// whatever its tables hold.
pub proof fn lemma_future_schema_not_inspected(c: SchemaCatalog)
    requires
        c.version > crate::indexer::SCHEMA_VERSION,
    ensures
        catalog_state(c) == (SchemaStateView::Future { version: c.version }),
{
}

/// A database with no version and no tables is empty, whatever else it holds.
pub proof fn lemma_blank_database_is_empty(c: SchemaCatalog)
    requires
        c.version == 0,
        c.tables@.len() == 0,
    ensures
        catalog_state(c) == SchemaStateView::Empty,
{
}

} // verus!

