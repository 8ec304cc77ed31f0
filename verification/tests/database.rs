use fluxchat::database::{initialize_db, Statement, Value, DATABASE_PATH};

#[test]
fn an_opened_database_is_left_alone() {
    let setup = initialize_db(true);
    assert_eq!(setup.notice, "Database found! Loading...");
    assert!(setup.statements.is_empty());
}

#[test]
fn a_new_database_gets_its_tables() {
    let setup = initialize_db(false);
    assert_eq!(setup.notice, "Database not found! Generating a new one :3");
    let starts: Vec<&str> = setup
        .statements
        .iter()
        .map(|s| s.sql.split(" (").next().unwrap())
        .collect();
    assert_eq!(
        starts,
        [
            "CREATE TABLE bot_users",
            "CREATE TABLE flux_chat_rooms",
            "CREATE TABLE flux_chat_users",
            "CREATE TABLE sumyself",
            "INSERT INTO sumyself",
        ]
    );
    assert!(setup.statements.iter().all(|s| s.params.is_empty()));
}

#[test]
fn the_schema_is_sql_that_the_statements_fit() {
    let conn = rusqlite::Connection::open_in_memory().unwrap();
    for s in initialize_db(false).statements {
        conn.execute(s.sql, ()).unwrap();
    }
    let used: bool = conn
        .query_row(Statement::select_sumyself().sql, (), |row| row.get(0))
        .unwrap();
    assert!(!used);
    assert_eq!(conn.execute(Statement::update_sumyself().sql, ()).unwrap(), 1);
    let used: bool = conn
        .query_row(Statement::select_sumyself().sql, (), |row| row.get(0))
        .unwrap();
    assert!(used);
    assert_eq!(conn.execute(Statement::update_sumyself().sql, ()).unwrap(), 0);
}

#[test]
fn statements_carry_their_parameters() {
    let s = Statement::with_text("SELECT ?1", "x");
    assert_eq!(s.sql, "SELECT ?1");
    assert_eq!(s.params, [Value::Text("x".to_string())]);
    assert!(Statement::plain("SELECT 1").params.is_empty());
    assert_eq!(DATABASE_PATH, "./db1.db");
}
