use fluxchat::database::{initialize_db, DbError, Statement, Value};
use fluxchat::users::{BotUser, BotUserRow, FluxChatUser, FluxChatUserRow};
use rusqlite::types::Value as Sql;
use rusqlite::{params_from_iter, Connection};

fn text(s: &str) -> Value {
    Value::Text(s.to_string())
}

fn error() -> DbError {
    DbError { message: "no such table".to_string() }
}

fn sample() -> BotUser {
    BotUser {
        matrix_user: "@a:b.c".to_string(),
        ticket_room: "t".to_string(),
        attached_to: "ABCD-EFGH".to_string(),
        as_anon: true,
        is_admin: false,
        is_banned: true,
    }
}

fn values(s: &Statement) -> Vec<Sql> {
    s.params
        .iter()
        .map(|v| match v {
            Value::Text(t) => Sql::Text(t.clone()),
            Value::Flag(b) => Sql::Integer(*b as i64),
        })
        .collect()
}

fn database() -> Connection {
    let conn = Connection::open_in_memory().unwrap();
    for s in initialize_db(false).statements {
        conn.execute(s.sql, ()).unwrap();
    }
    conn
}

fn execute(conn: &Connection, s: &Statement) -> usize {
    conn.execute(s.sql, params_from_iter(values(s))).unwrap()
}

fn read(conn: &Connection, matrix_user: &str) -> BotUser {
    let s = BotUser::load_statement(matrix_user);
    let row = conn
        .query_row(s.sql, params_from_iter(values(&s)), |row| {
            Ok(BotUserRow {
                ticket_room: row.get(1)?,
                attached_to: row.get(2)?,
                as_anon: row.get(3)?,
                is_admin: row.get(4)?,
                is_banned: row.get(5)?,
            })
        })
        .unwrap();
    BotUser::load_from_db(matrix_user.to_string(), Ok(row)).unwrap()
}

#[test]
fn a_new_user_is_nobody_special() {
    let user = BotUser::initialize_user("@a:b.c".to_string());
    assert_eq!(user.matrix_user, "@a:b.c");
    assert_eq!(user.ticket_room, "");
    assert_eq!(user.attached_to, "");
    assert!(!user.as_anon && !user.is_admin && !user.is_banned);
}

#[test]
fn bot_user_statements() {
    let user = sample();
    assert_eq!(
        user.insert_statement().params,
        [
            text("@a:b.c"),
            text("t"),
            text("ABCD-EFGH"),
            Value::Flag(true),
            Value::Flag(false),
            Value::Flag(true),
        ]
    );
    assert_eq!(
        user.push_statement().params,
        [
            text("t"),
            text("ABCD-EFGH"),
            Value::Flag(true),
            Value::Flag(false),
            Value::Flag(true),
            text("@a:b.c"),
        ]
    );
    assert!(user.push_statement().sql.ends_with("WHERE matrix_user=?6"));
    assert_eq!(
        BotUser::find_statement("@a:b.c").sql,
        "SELECT matrix_user FROM bot_users WHERE matrix_user=?1"
    );
    assert_eq!(BotUser::find_statement("@a:b.c").params, [text("@a:b.c")]);
    assert_eq!(
        BotUser::load_statement("@a:b.c").sql,
        "SELECT * FROM bot_users WHERE matrix_user=?1"
    );
}

#[test]
fn a_user_reads_back_as_stored() {
    let conn = database();
    let mut user = sample();
    assert_eq!(execute(&conn, &user.insert_statement()), 1);
    assert_eq!(execute(&conn, &BotUser::initialize_user("@x:y.z".to_string()).insert_statement()), 1);
    assert_eq!(read(&conn, "@a:b.c"), user);
    user.is_admin = true;
    user.is_banned = false;
    user.attached_to = String::new();
    assert_eq!(execute(&conn, &user.push_statement()), 1);
    assert_eq!(read(&conn, "@a:b.c"), user);
    assert_eq!(read(&conn, "@x:y.z"), BotUser::initialize_user("@x:y.z".to_string()));
}

#[test]
fn pushing_a_user_hands_it_back() {
    let user = sample();
    assert_eq!(user.push_to_db(Ok(())), Ok(user.clone()));
    assert_eq!(user.push_to_db(Err(error())), Err(error()));
}

#[test]
fn a_user_that_cannot_be_read_is_an_error() {
    assert_eq!(BotUser::load_from_db("@a:b.c".to_string(), Err(error())), Err(error()));
    assert_eq!(FluxChatUser::load_from_db("@a:b.c".to_string(), Err(error())), Err(error()));
}

#[test]
fn members_go_by_their_identifier() {
    let member = FluxChatUser::initialize_user("@a:b.c", false, "ABCD-EFGH");
    assert_eq!(member.display_name, "@a:b.c");
    assert!(!member.is_anon);
    assert_eq!(member.chat_id, "ABCD-EFGH");
    assert_eq!(member, FluxChatUser::member("@a:b.c", None, "ABCD-EFGH"));
}

#[test]
fn anonymous_members_go_by_six_letters() {
    let mut seen = std::collections::HashSet::new();
    for _ in 0..50 {
        let member = FluxChatUser::initialize_user("@a:b.c", true, "ABCD-EFGH");
        assert!(member.is_anon);
        assert_eq!(member.matrix_user, "@a:b.c");
        assert_eq!(member.display_name.len(), 6);
        assert!(member.display_name.chars().all(|c| c.is_ascii_uppercase()));
        seen.insert(member.display_name);
    }
    assert!(seen.len() > 1);
}

#[test]
fn an_alias_makes_a_member_anonymous() {
    let member = FluxChatUser::member("@a:b.c", Some("QWERTY".to_string()), "ABCD-EFGH");
    assert_eq!(member.display_name, "QWERTY");
    assert!(member.is_anon);
    assert_eq!(
        member.push_statement().params,
        [text("@a:b.c"), text("QWERTY"), Value::Flag(true), text("ABCD-EFGH")]
    );
    assert_eq!(member.push_to_db(Ok(())), Ok(member.clone()));
    assert_eq!(member.push_to_db(Err(error())), Err(error()));
}

#[test]
fn a_member_reads_back_as_stored() {
    let conn = database();
    let plain = FluxChatUser::member("@a:b.c", None, "ABCD-EFGH");
    let anon = FluxChatUser::member("@a:b.c", Some("QWERTY".to_string()), "IJKL-MNOP");
    execute(&conn, &plain.push_statement());
    execute(&conn, &anon.push_statement());
    for member in [plain, anon] {
        let s = FluxChatUser::load_statement("@a:b.c", member.is_anon);
        let row = conn
            .query_row(s.sql, params_from_iter(values(&s)), |row| {
                Ok(FluxChatUserRow {
                    display_name: row.get(1)?,
                    is_anon: row.get(2)?,
                    chat_id: row.get(3)?,
                })
            })
            .unwrap();
        assert_eq!(FluxChatUser::load_from_db("@a:b.c".to_string(), Ok(row)), Ok(member));
    }
}

#[test]
fn the_last_update_wins() {
    let conn = database();
    execute(&conn, &BotUser::initialize_user("@a:b.c".to_string()).insert_statement());
    execute(&conn, &BotUser::initialize_user("@o:b.c".to_string()).insert_statement());
    let earlier = BotUser { matrix_user: "@a:b.c".to_string(), ..sample() };
    let mut later = BotUser::initialize_user("@a:b.c".to_string());
    later.ticket_room = "later".to_string();
    execute(&conn, &earlier.push_statement());
    execute(&conn, &later.push_statement());
    assert_eq!(read(&conn, "@a:b.c"), later);
    execute(&conn, &later.push_statement());
    assert_eq!(read(&conn, "@a:b.c"), later);
    assert_eq!(read(&conn, "@o:b.c"), BotUser::initialize_user("@o:b.c".to_string()));
}

#[test]
fn a_member_is_read_under_its_own_anonymity() {
    let conn = database();
    let answer = |is_anon: bool| {
        let s = FluxChatUser::load_statement("@a:b.c", is_anon);
        conn.query_row(s.sql, rusqlite::params_from_iter(values(&s)), |r| r.get::<usize, String>(1))
            .ok()
    };
    let known = FluxChatUser::member("@a:b.c", None, "ABCD-EFGH");
    execute(&conn, &known.push_statement());
    let alias = FluxChatUser::member("@a:b.c", Some("QWERTY".to_string()), "IJKL-MNOP");
    let before = answer(false);
    assert_eq!(answer(true), None);
    execute(&conn, &alias.push_statement());
    assert_eq!(answer(true), Some("QWERTY".to_string()));
    assert_eq!(answer(false), before);
}
