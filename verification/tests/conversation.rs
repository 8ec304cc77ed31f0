//! Whole turns, answered by a database in memory.

use fluxchat::database::{initialize_db, DbError, Statement, Value};
use fluxchat::rooms::FluxChatRoomRow;
use fluxchat::turn::{on_room_message, Action, Event, Reply};
use fluxchat::users::{BotUserRow, FluxChatUserRow};
use rusqlite::types::Value as Sql;
use rusqlite::{params_from_iter, Connection};

struct World {
    conn: Connection,
    replies: Vec<Reply>,
    delivered: Vec<(String, String)>,
    steps: usize,
    /// Whether the search for a sender fails.
    searching_fails: bool,
}

fn params(s: &Statement) -> Vec<Sql> {
    s.params
        .iter()
        .map(|v| match v {
            Value::Text(t) => Sql::Text(t.clone()),
            Value::Flag(b) => Sql::Integer(*b as i64),
        })
        .collect()
}

fn err(e: rusqlite::Error) -> DbError {
    DbError { message: e.to_string() }
}

impl World {
    fn new() -> World {
        let conn = Connection::open_in_memory().unwrap();
        for s in initialize_db(false).statements {
            conn.execute(s.sql, ()).unwrap();
        }
        World { conn, replies: vec![], delivered: vec![], steps: 0, searching_fails: false }
    }

    fn row<T>(
        &self,
        s: &Statement,
        read: impl FnOnce(&rusqlite::Row<'_>) -> rusqlite::Result<T>,
    ) -> Result<T, DbError> {
        self.conn.query_row(s.sql, params_from_iter(params(s)), read).map_err(err)
    }

    /// A message that is dealt with to the end.
    fn says(&mut self, sender: &str, body: &str) {
        match self.hears(sender, body) {
            Action::Finish => (),
            other => panic!("{other:?}"),
        }
    }

    /// A message, and what its turn ends with.
    fn hears(&mut self, sender: &str, body: &str) -> Action {
        self.replies.clear();
        self.delivered.clear();
        self.steps = 0;
        let (mut turn, mut action) =
            on_room_message(true, sender, Some("@bot:b.c"), Some(body)).unwrap().unwrap();
        loop {
            let event = match action {
                Action::Finish | Action::Fail(_) | Action::Abort(_) => return action,
                Action::Find(s) => {
                    let found = self.row(&s, |r| r.get::<usize, String>(0)).is_ok();
                    Event::Found(found && !self.searching_fails)
                }
                Action::FetchBotUser(s) => Event::BotUserRead(self.row(&s, |r| {
                    Ok(BotUserRow {
                        ticket_room: r.get(1)?,
                        attached_to: r.get(2)?,
                        as_anon: r.get(3)?,
                        is_admin: r.get(4)?,
                        is_banned: r.get(5)?,
                    })
                })),
                Action::FetchRoom(s) => Event::RoomRead(self.row(&s, |r| {
                    Ok(FluxChatRoomRow {
                        creation_date: r.get(1)?,
                        creator: r.get(2)?,
                        is_closed: r.get(3)?,
                    })
                })),
                Action::FetchChatUser(s) => Event::ChatUserRead(self.row(&s, |r| {
                    Ok(FluxChatUserRow {
                        display_name: r.get(1)?,
                        is_anon: r.get(2)?,
                        chat_id: r.get(3)?,
                    })
                })),
                Action::FetchRecipients(s) => {
                    let mut stmt = self.conn.prepare(s.sql).unwrap();
                    let rows = stmt
                        .query_map(params_from_iter(params(&s)), |r| r.get::<usize, String>(0))
                        .unwrap();
                    Event::RecipientsRead(Ok(rows.map(|r| r.map_err(err)).collect()))
                }
                Action::FetchUsed(s) => Event::UsedRead(self.row(&s, |r| r.get(0))),
                Action::Execute(s) => Event::Executed(
                    self.conn
                        .execute(s.sql, params_from_iter(params(&s)))
                        .map(|_| ())
                        .map_err(err),
                ),
                Action::DrawRoom { .. } | Action::DrawChatUser { .. } => unreachable!(),
                Action::Reply(reply) => {
                    self.replies.push(reply);
                    Event::Sent(true)
                }
                Action::Deliver { user_id, text } => {
                    self.delivered.push((user_id, text));
                    Event::Sent(true)
                }
                Action::Note(_) => Event::Noted,
            };
            self.steps += 1;
            let (next, asked) = turn.step(event);
            turn = next;
            action = asked;
        }
    }

    fn count(&self, sql: &str) -> usize {
        self.conn.query_row(sql, (), |r| r.get(0)).unwrap()
    }

    /// The rows of a table, each column in the form that SQLite prints.
    fn rows(&self, table: &str) -> Vec<String> {
        let mut stmt = self.conn.prepare(&format!("SELECT * FROM {table}")).unwrap();
        let columns = stmt.column_count();
        let rows = stmt
            .query_map((), |r| {
                let mut row = vec![];
                for i in 0..columns {
                    row.push(format!("{:?}", r.get::<usize, Sql>(i)?));
                }
                Ok(row.join(" "))
            })
            .unwrap();
        rows.map(|r| r.unwrap()).collect()
    }

    fn is_sound(&self) -> bool {
        let twins = "SELECT COUNT(*) FROM (SELECT 1 FROM bot_users GROUP BY matrix_user HAVING COUNT(*) > 1)";
        let strays = "SELECT COUNT(*) FROM bot_users AS b WHERE attached_to != '' AND NOT (
            EXISTS (SELECT 1 FROM flux_chat_rooms WHERE id=b.attached_to)
            AND EXISTS (SELECT 1 FROM flux_chat_users AS m WHERE m.matrix_user=b.matrix_user
                AND m.is_anon=b.as_anon AND m.chat_id=b.attached_to))";
        self.count(twins) == 0 && self.count(strays) == 0
    }

    /// From here on the database refuses to change rows in this way.
    fn refuse(&self, what: &str) {
        self.conn
            .execute(
                &format!("CREATE TRIGGER no BEFORE {what} BEGIN SELECT RAISE(ABORT, 'no'); END"),
                (),
            )
            .unwrap();
    }

    fn allow(&self) {
        self.conn.execute("DROP TRIGGER no", ()).unwrap();
    }
}

#[test]
fn the_first_to_ask_owns_the_bot() {
    let mut world = World::new();
    world.says("@a:b.c", "!sumyself");
    assert_eq!(world.replies, [Reply::Sumyself]);
    world.says("@x:y.z", "!sumyself");
    assert!(world.replies.is_empty());
    world.says("@x:y.z", "!chat create");
    assert!(world.replies.is_empty());
    assert_eq!(world.count("SELECT COUNT(*) FROM flux_chat_rooms"), 0);
    assert_eq!(world.count("SELECT COUNT(*) FROM bot_users WHERE is_admin=1"), 1);
}

#[test]
fn a_chat_is_created_and_used() {
    let mut world = World::new();
    world.says("@a:b.c", "!sumyself");
    world.says("@a:b.c", "!chat -A create create");
    assert_eq!(world.count("SELECT COUNT(*) FROM flux_chat_rooms"), 1);
    let id = match &world.replies[..] {
        [Reply::ChatCreated { id, display_name }] => {
            assert_eq!(display_name.len(), 6);
            id.clone()
        }
        other => panic!("{other:?}"),
    };
    let attached: String = world
        .conn
        .query_row("SELECT attached_to FROM bot_users", (), |r| r.get(0))
        .unwrap();
    assert_eq!(attached, id);
    for body in ["hello", "!help", "!sumyself"] {
        world.says("@a:b.c", body);
        assert!(world.replies.is_empty());
        assert_eq!(world.delivered, [("@a:b.c".to_string(), body.to_string())]);
    }
}

#[test]
fn a_turn_is_over_soon() {
    let mut world = World::new();
    for body in ["hi", "!help", "!chat", "!sumyself", "!chat -A create", "hi"] {
        world.says("@a:b.c", body);
        assert!(world.steps <= 10 + world.delivered.len(), "{body}");
    }
    assert_eq!(world.count("SELECT COUNT(*) FROM bot_users"), 1);
}

#[test]
fn nobody_loses_a_row_or_a_right() {
    let mut world = World::new();
    world.says("@o:b.c", "hi");
    world.says("@a:b.c", "!sumyself");
    let others = world.rows("bot_users")[0].clone();
    for body in ["!help", "!sumyself", "!chat create", "hello", "!sumyself"] {
        let rooms = world.rows("flux_chat_rooms");
        let members = world.rows("flux_chat_users");
        world.says("@a:b.c", body);
        assert_eq!(world.rows("bot_users").len(), 2, "{body}");
        assert_eq!(world.rows("bot_users")[0], others, "{body}");
        assert!(world.rows("flux_chat_rooms").starts_with(&rooms), "{body}");
        assert!(world.rows("flux_chat_users").starts_with(&members), "{body}");
        let admins = "SELECT COUNT(*) FROM bot_users WHERE is_admin=1 AND matrix_user='@a:b.c'";
        assert_eq!(world.count(admins), 1, "{body}");
        assert_eq!(world.count("SELECT used FROM sumyself"), 1, "{body}");
        assert!(world.is_sound(), "{body}");
    }
    assert_eq!(world.rows("flux_chat_rooms").len(), 1);
    assert_eq!(world.rows("flux_chat_users").len(), 1);
}

#[test]
fn the_tables_stay_sound_where_the_database_fails() {
    let failures = [
        ("INSERT ON flux_chat_rooms", 0, 0),
        ("INSERT ON flux_chat_users", 1, 0),
        ("UPDATE ON bot_users", 1, 1),
    ];
    for (what, rooms, members) in failures {
        let mut world = World::new();
        world.says("@a:b.c", "!sumyself");
        world.refuse(what);
        let end = world.hears("@a:b.c", "!chat create");
        assert!(matches!(end, Action::Fail(_) | Action::Abort(_)), "{what}");
        assert!(world.replies.is_empty(), "{what}");
        assert_eq!(world.rows("flux_chat_rooms").len(), rooms, "{what}");
        assert_eq!(world.rows("flux_chat_users").len(), members, "{what}");
        assert!(world.is_sound(), "{what}");
        world.allow();
        world.says("@a:b.c", "!chat create");
        assert_eq!(world.replies.len(), 1, "{what}");
        assert!(world.is_sound(), "{what}");
    }
}

#[test]
fn a_right_that_was_used_up_in_vain_is_used_up() {
    let mut world = World::new();
    world.says("@a:b.c", "hi");
    world.refuse("UPDATE ON bot_users");
    assert!(matches!(world.hears("@a:b.c", "!sumyself"), Action::Abort(_)));
    world.allow();
    assert_eq!(world.count("SELECT used FROM sumyself"), 1);
    world.says("@a:b.c", "!sumyself");
    assert_eq!(world.count("SELECT COUNT(*) FROM bot_users WHERE is_admin=1"), 0);
}

#[test]
fn a_message_reaches_the_chat_and_nobody_else() {
    let mut world = World::new();
    world.says("@o:b.c", "hi");
    world.says("@a:b.c", "!sumyself");
    world.says("@a:b.c", "!chat create");
    let id: String = world
        .conn
        .query_row("SELECT id FROM flux_chat_rooms", (), |r| r.get(0))
        .unwrap();
    world
        .conn
        .execute("INSERT INTO bot_users VALUES ('@m:b.c', '', ?1, 1, 0, 0)", [&id])
        .unwrap();
    world
        .conn
        .execute("INSERT INTO flux_chat_users VALUES ('@m:b.c', 'ABCDEF', 1, ?1)", [&id])
        .unwrap();
    for sender in ["@a:b.c", "@m:b.c"] {
        world.says(sender, "hello");
        let mut told = world.delivered.clone();
        told.sort();
        assert_eq!(
            told,
            [
                ("@a:b.c".to_string(), "hello".to_string()),
                ("@m:b.c".to_string(), "hello".to_string()),
            ]
        );
    }
    world.says("@o:b.c", "hello");
    assert!(world.delivered.is_empty());
}

#[test]
fn a_message_is_told_once_for_each_pair_of_rows() {
    let mut world = World::new();
    world.says("@a:b.c", "!sumyself");
    world.says("@a:b.c", "!chat create");
    let again = "INSERT INTO flux_chat_users SELECT * FROM flux_chat_users";
    for times in [1, 2, 4] {
        world.says("@a:b.c", "hello");
        assert_eq!(world.delivered, vec![("@a:b.c".to_string(), "hello".to_string()); times]);
        world.conn.execute(again, ()).unwrap();
    }
}

#[test]
fn a_recipient_that_cannot_be_read_changes_no_row() {
    let mut world = World::new();
    world.says("@a:b.c", "!sumyself");
    world.says("@a:b.c", "!chat create");
    let user = "INSERT INTO bot_users SELECT X'ff', '', attached_to, as_anon, 0, 0 FROM bot_users";
    let member = "INSERT INTO flux_chat_users SELECT X'ff', 'QWERTY', is_anon, chat_id FROM flux_chat_users";
    world.conn.execute(user, ()).unwrap();
    world.conn.execute(member, ()).unwrap();
    let before = ["bot_users", "flux_chat_rooms", "flux_chat_users"].map(|t| world.rows(t));
    assert!(matches!(world.hears("@a:b.c", "hello"), Action::Abort(_)));
    let after = ["bot_users", "flux_chat_rooms", "flux_chat_users"].map(|t| world.rows(t));
    assert_eq!(after, before);
    assert!(world.delivered.len() <= 1);
}

#[test]
fn what_survives_a_search_that_fails() {
    let mut world = World::new();
    world.says("@o:b.c", "hi");
    world.says("@a:b.c", "!sumyself");
    world.says("@a:b.c", "!chat create");
    let before = ["bot_users", "flux_chat_rooms", "flux_chat_users"].map(|t| world.rows(t));
    world.searching_fails = true;
    for body in ["hello", "!chat create", "!sumyself"] {
        world.says("@a:b.c", body);
        assert!(world.delivered.is_empty(), "{body}");
    }
    let after = ["bot_users", "flux_chat_rooms", "flux_chat_users"].map(|t| world.rows(t));
    assert_eq!(after[0][..2], before[0][..]);
    assert_eq!(after[0].len(), 5);
    assert_eq!(after[1..], before[1..]);
    world.searching_fails = false;
    world.says("@a:b.c", "hello");
    assert_eq!(world.delivered, [("@a:b.c".to_string(), "hello".to_string())]);
}

#[test]
fn a_right_that_is_free_goes_to_whom_the_search_missed() {
    let mut world = World::new();
    world.says("@o:b.c", "hi");
    world.conn.execute("UPDATE bot_users SET is_banned=1, attached_to='x'", ()).unwrap();
    world.searching_fails = true;
    world.says("@o:b.c", "!sumyself");
    assert_eq!(world.count("SELECT COUNT(*) FROM bot_users WHERE is_admin=1"), 2);
    assert_eq!(world.count("SELECT COUNT(*) FROM bot_users WHERE is_banned=1"), 0);
    assert_eq!(world.count("SELECT used FROM sumyself"), 1);
}
