use fluxchat::clock::current_date;
use fluxchat::database::{initialize_db, DbError, Statement, Value};
use fluxchat::random::{letters, random_letters};
use fluxchat::rooms::{DeliveryStep, Fault, FluxChatRoom, FluxChatRoomRow};
use fluxchat::users::{BotUser, FluxChatUser};
use rusqlite::types::Value as Sql;
use rusqlite::{params_from_iter, Connection};

fn db_error() -> DbError {
    DbError { message: "locked".to_string() }
}

fn room() -> FluxChatRoom {
    FluxChatRoom::opened(
        "ABCD".to_string(),
        "EFGH",
        "2024-05-31 17:04:09".to_string(),
        "@a:b.c",
    )
}

fn sql_values(s: &Statement) -> Vec<Sql> {
    s.params
        .iter()
        .map(|v| match v {
            Value::Text(t) => Sql::Text(t.clone()),
            Value::Flag(b) => Sql::Integer(*b as i64),
        })
        .collect()
}

fn run(conn: &Connection, s: &Statement) {
    conn.execute(s.sql, params_from_iter(sql_values(s))).unwrap();
}

fn new_database() -> Connection {
    let conn = Connection::open_in_memory().unwrap();
    for s in initialize_db(false).statements {
        conn.execute(s.sql, ()).unwrap();
    }
    conn
}

#[test]
fn a_room_of_two_halves() {
    let room = room();
    assert_eq!(room.id, "ABCD-EFGH");
    assert_eq!(room.creation_date, "2024-05-31 17:04:09");
    assert_eq!(room.creator, "@a:b.c");
    assert!(!room.is_closed);
}

#[test]
fn a_new_room_has_an_identifier_and_a_date() {
    let mut seen = std::collections::HashSet::new();
    for _ in 0..50 {
        let room = FluxChatRoom::admin_new("@a:b.c");
        let (head, tail) = room.id.split_once('-').unwrap();
        for half in [head, tail] {
            assert_eq!(half.len(), 4);
            assert!(half.chars().all(|c| c.is_ascii_uppercase()));
        }
        assert_eq!(room.creator, "@a:b.c");
        assert!(!room.is_closed);
        assert_eq!(room.creation_date.len(), 19);
        seen.insert(room.id);
    }
    assert!(seen.len() > 1);
}

#[test]
fn dates_can_be_read_back() {
    let date = current_date();
    let parsed = chrono::NaiveDateTime::parse_from_str(&date, "%Y-%m-%d %H:%M:%S").unwrap();
    let age = chrono::Local::now().naive_local() - parsed;
    assert!(age.num_seconds().abs() < 3600);
}

#[test]
fn letters_are_as_many_as_asked_for() {
    assert_eq!(random_letters(0), "");
    let letters = random_letters(2000);
    assert_eq!(letters.len(), 2000);
    assert!(letters.bytes().all(|b| (65..=90).contains(&b)));
    assert!(letters.contains('A') && letters.contains('Z'));
}

#[test]
fn letters_have_the_codes_that_were_drawn() {
    assert_eq!(letters(&vec![65, 90, 77, 77]), "AZMM");
    assert_eq!(letters(&vec![]), "");
}

#[test]
fn room_statements() {
    let mut room = room();
    assert_eq!(
        room.insert_statement().params,
        [
            Value::Text("ABCD-EFGH".to_string()),
            Value::Text("2024-05-31 17:04:09".to_string()),
            Value::Text("@a:b.c".to_string()),
            Value::Flag(false),
        ]
    );
    room.is_closed = true;
    assert_eq!(
        room.push_statement().params,
        [Value::Text("ABCD-EFGH".to_string()), Value::Flag(true)]
    );
    let mut other = room.clone();
    other.creator = "@x:y.z".to_string();
    assert_eq!(other.push_statement(), room.push_statement());
    assert_eq!(room.push_to_db(Ok(())), Ok(room.clone()));
    assert_eq!(room.push_to_db(Err(db_error())), Err(db_error()));
}

#[test]
fn a_room_reads_back_as_stored() {
    let conn = new_database();
    let mut room = room();
    run(&conn, &room.insert_statement());
    for closed in [false, true] {
        room.is_closed = closed;
        run(&conn, &room.push_statement());
        let s = FluxChatRoom::load_statement("ABCD-EFGH");
        let row = conn
            .query_row(s.sql, params_from_iter(sql_values(&s)), |row| {
                Ok(FluxChatRoomRow {
                    creation_date: row.get(1)?,
                    creator: row.get(2)?,
                    is_closed: row.get(3)?,
                })
            })
            .unwrap();
        assert_eq!(FluxChatRoom::load_from_db("ABCD-EFGH".to_string(), Ok(row)), Ok(room.clone()));
    }
    assert_eq!(FluxChatRoom::load_from_db("x".to_string(), Err(db_error())), Err(db_error()));
}

#[test]
fn closing_a_chat_leaves_the_others_open() {
    let conn = new_database();
    let mut closed = room();
    let other = FluxChatRoom { id: "WXYZ-WXYZ".to_string(), ..room() };
    run(&conn, &closed.insert_statement());
    run(&conn, &other.insert_statement());
    closed.is_closed = true;
    run(&conn, &closed.push_statement());
    for room in [closed, other] {
        let s = FluxChatRoom::load_statement(&room.id);
        let row = conn
            .query_row(s.sql, params_from_iter(sql_values(&s)), |row| {
                Ok(FluxChatRoomRow {
                    creation_date: row.get(1)?,
                    creator: row.get(2)?,
                    is_closed: row.get(3)?,
                })
            })
            .unwrap();
        assert_eq!(FluxChatRoom::load_from_db(room.id.clone(), Ok(row)), Ok(room));
    }
}

#[test]
fn recipients_are_those_attached_under_the_same_name() {
    let conn = new_database();
    let attach = |id: &str, chat: &str, anon: bool, alias: Option<&str>| {
        let mut user = BotUser::initialize_user(id.to_string());
        user.attached_to = chat.to_string();
        user.as_anon = anon;
        run(&conn, &user.insert_statement());
        let member = FluxChatUser::member(id, alias.map(str::to_string), "ABCD-EFGH");
        run(&conn, &member.push_statement());
    };
    attach("@in:b.c", "ABCD-EFGH", false, None);
    attach("@anon:b.c", "ABCD-EFGH", true, Some("QWERTY"));
    attach("@gone:b.c", "", false, None);
    attach("@elsewhere:b.c", "IJKL-MNOP", false, None);
    attach("@othername:b.c", "ABCD-EFGH", true, None);
    let s = room().recipients_statement();
    let mut stmt = conn.prepare(s.sql).unwrap();
    let mut ids: Vec<String> = stmt
        .query_map(params_from_iter(sql_values(&s)), |row| row.get(0))
        .unwrap()
        .map(|id| id.unwrap())
        .collect();
    ids.sort();
    assert_eq!(ids, ["@anon:b.c", "@in:b.c"]);
}

#[test]
fn a_message_goes_to_every_recipient() {
    let rows = vec![Ok("@a:b.c".to_string()), Ok("@d:e.f".to_string())];
    let mut delivery = room().send_message("hi", Ok(rows)).unwrap();
    for id in ["@a:b.c", "@d:e.f"] {
        assert_eq!(
            delivery.step(),
            DeliveryStep::Send { user_id: id.to_string(), text: "hi".to_string() }
        );
    }
    assert_eq!(delivery.step(), DeliveryStep::Done("fine"));
    assert_eq!(delivery.step(), DeliveryStep::Done("fine"));
}

#[test]
fn nobody_to_send_to() {
    let mut delivery = room().send_message("hi", Ok(vec![])).unwrap();
    assert_eq!(delivery.step(), DeliveryStep::Done("fine"));
    assert_eq!(room().send_message("hi", Err(db_error())), Err(db_error()));
}

#[test]
fn delivery_stops_at_what_is_no_identifier() {
    for bad in ["", "a:b.c", "@a", "@a:", "@a:b c"] {
        let rows = vec![Ok("@a:b.c".to_string()), Ok(bad.to_string()), Ok("@d:e.f".to_string())];
        let mut delivery = room().send_message("hi", Ok(rows)).unwrap();
        assert!(matches!(delivery.step(), DeliveryStep::Send { .. }));
        for _ in 0..2 {
            assert_eq!(delivery.step(), DeliveryStep::Broken(Fault::UserId(bad.to_string())));
        }
    }
}

#[test]
fn delivery_stops_at_a_row_that_cannot_be_read() {
    let mut delivery = room().send_message("hi", Ok(vec![Err(db_error())])).unwrap();
    assert_eq!(delivery.step(), DeliveryStep::Broken(Fault::Database(db_error())));
}

#[test]
fn a_step_goes_by_what_the_identifier_was_parsed_to() {
    let rows = || Ok(vec![Ok("x".to_string())]);
    let mut delivery = room().send_message("hi", rows()).unwrap();
    assert_eq!(
        delivery.step_given(None),
        DeliveryStep::Broken(Fault::UserId("x".to_string()))
    );
    assert_eq!(
        delivery.step_given(Some("@x:y.z".to_string())),
        DeliveryStep::Send { user_id: "@x:y.z".to_string(), text: "hi".to_string() }
    );
    assert_eq!(delivery.next, 1);
    assert_eq!(delivery.step_given(None), DeliveryStep::Done("fine"));
}
