use fluxchat::database::{DbError, Value};
use fluxchat::options::{ChatCommand, ChatCommandOptions};
use fluxchat::rooms::{Delivery, DeliveryStep, Fault, FluxChatRoom, FluxChatRoomRow};
use fluxchat::turn::{on_room_message, Action, Command, Event, Note, Reply, Stage, Turn};
use fluxchat::users::{BotUser, BotUserRow, FluxChatUser, FluxChatUserRow};

const SENDER: &str = "@a:b.c";
const BOT: &str = "@bot:b.c";

fn failure() -> DbError {
    DbError { message: "locked".to_string() }
}

fn broken() -> Action {
    Action::Abort(Fault::Database(failure()))
}

fn stored(is_admin: bool, attached_to: &str) -> BotUserRow {
    BotUserRow {
        ticket_room: "t".to_string(),
        attached_to: attached_to.to_string(),
        as_anon: false,
        is_admin,
        is_banned: true,
    }
}

fn start(body: &str) -> Turn {
    on_room_message(true, SENDER, Some(BOT), Some(body)).unwrap().unwrap().0
}

/// The turn of a message whose sender is in the database, and what it asks for.
fn known(body: &str, row: BotUserRow) -> (Turn, Action) {
    let (turn, _) = start(body).advance(Event::Found(true));
    turn.advance(Event::BotUserRead(Ok(row)))
}

fn drawn_room() -> FluxChatRoom {
    FluxChatRoom::opened("ABCD".to_string(), "EFGH", "2024-05-31 17:04:09".to_string(), SENDER)
}

fn execute_ok() -> Event {
    Event::Executed(Ok(()))
}

fn words(body: &str) -> Vec<String> {
    body.split_whitespace().map(str::to_string).collect()
}

#[test]
fn messages_that_are_left_alone() {
    assert!(on_room_message(false, SENDER, Some(BOT), Some("!help")).unwrap().is_none());
    assert!(on_room_message(false, SENDER, None, Some("!help")).unwrap().is_none());
    assert!(on_room_message(true, BOT, Some(BOT), Some("!help")).unwrap().is_none());
    assert!(on_room_message(true, SENDER, Some(BOT), None).unwrap().is_none());
    assert_eq!(on_room_message(true, SENDER, None, Some("!help")), Err(Fault::NotLoggedIn));
    assert_eq!(on_room_message(true, SENDER, None, None), Err(Fault::NotLoggedIn));
}

#[test]
fn a_message_is_taken_up() {
    let (turn, action) = on_room_message(true, SENDER, Some(BOT), Some("hi")).unwrap().unwrap();
    assert_eq!(turn.user, BotUser::initialize_user(SENDER.to_string()));
    assert_eq!(turn.body, "hi");
    assert_eq!(turn.stage, Stage::Lookup);
    assert_eq!(action, Action::Find(BotUser::find_statement(SENDER)));
}

#[test]
fn newcomers_are_registered() {
    let fresh = BotUser::initialize_user(SENDER.to_string());
    let (turn, action) = start("!help").advance(Event::Found(false));
    assert_eq!(action, Action::Execute(fresh.insert_statement()));
    let (turn, action) = turn.advance(execute_ok());
    assert_eq!(turn.user, fresh);
    assert_eq!(action, Action::Reply(Reply::Help));
    let (turn, _) = start("!help").advance(Event::Found(false));
    let (turn, action) = turn.advance(Event::Executed(Err(failure())));
    assert_eq!(action, broken());
    assert_eq!(turn.stage, Stage::Over);
}

#[test]
fn known_senders_are_read() {
    let (turn, action) = start("hi").advance(Event::Found(true));
    assert_eq!(action, Action::FetchBotUser(BotUser::load_statement(SENDER)));
    let (after, action) = turn.advance(Event::BotUserRead(Err(failure())));
    assert_eq!(action, broken());
    assert_eq!(after.stage, Stage::Over);
    let (turn, action) = known("hi", stored(true, ""));
    assert_eq!(turn.user, BotUser::load_from_db(SENDER.to_string(), Ok(stored(true, ""))).unwrap());
    assert_eq!(action, Action::Finish);
}

#[test]
fn commands_exclude_each_other() {
    for (body, command) in [
        ("!help", Command::Help),
        ("!helpme", Command::Help),
        ("!chat", Command::Chat),
        ("!chatter", Command::Chat),
        ("!sumyself now", Command::Sumyself),
        ("!sum", Command::Other),
        ("", Command::Other),
        ("help", Command::Other),
        (" !help", Command::Other),
    ] {
        assert_eq!(Command::read(body), command, "{body}");
    }
}

#[test]
fn help_is_replied() {
    let (turn, action) = known("!help", stored(false, ""));
    assert_eq!(action, Action::Reply(Reply::Help));
    let (turn, action) = turn.advance(Event::Sent(true));
    assert_eq!(action, Action::Finish);
    assert_eq!(turn.stage, Stage::Over);
    let (turn, _) = known("!help", stored(false, ""));
    assert_eq!(turn.advance(Event::Sent(false)).1, Action::Abort(Fault::Unsent));
}

#[test]
fn chat_without_arguments_is_explained() {
    for body in ["!chat", "!chat\tcreate"] {
        assert_eq!(known(body, stored(true, "")).1, Action::Reply(Reply::ChatUsage));
    }
}

#[test]
fn an_admin_creates_a_chat() {
    let body = "!chat -A create -T";
    let (turn, action) = known(body, stored(true, ""));
    assert_eq!(action, Action::Note(Note::Arguments(words(body))));
    let (turn, action) = turn.advance(Event::Noted);
    assert_eq!(action, Action::DrawRoom { creator: SENDER.to_string() });
    let (turn, action) = turn.advance(Event::RoomDrawn(drawn_room()));
    assert_eq!(action, Action::Execute(drawn_room().insert_statement()));
    let (turn, action) = turn.advance(execute_ok());
    assert_eq!(
        action,
        Action::DrawChatUser {
            matrix_user: SENDER.to_string(),
            is_anon: true,
            chat_id: "ABCD-EFGH".to_string(),
        }
    );
    let member = FluxChatUser::member(SENDER, Some("QWERTY".to_string()), "ABCD-EFGH");
    let (turn, action) = turn.advance(Event::ChatUserDrawn(member.clone()));
    assert_eq!(action, Action::Execute(member.push_statement()));
    let (turn, action) = turn.advance(execute_ok());
    assert_eq!(turn.user.attached_to, "ABCD-EFGH");
    assert!(turn.user.as_anon);
    assert_eq!(action, Action::Execute(turn.user.push_statement()));
    let (turn, action) = turn.advance(execute_ok());
    assert_eq!(
        action,
        Action::Reply(Reply::ChatCreated {
            id: "ABCD-EFGH".to_string(),
            display_name: "QWERTY".to_string(),
        })
    );
    let (turn, action) = turn.advance(Event::Sent(true));
    assert_eq!(action, Action::Note(Note::GotOptions));
    let (turn, action) = turn.advance(Event::Noted);
    assert_eq!(action, Action::Finish);
    assert_eq!(turn.user.matrix_user, SENDER);
    assert_eq!(turn.user.ticket_room, "t");
    assert!(turn.user.is_banned && turn.user.is_admin);
}

#[test]
fn creation_that_fails() {
    let at = |stage: Stage| Turn {
        user: BotUser::load_from_db(SENDER.to_string(), Ok(stored(true, ""))).unwrap(),
        body: "!chat create".to_string(),
        stage,
    };
    let creation = || fluxchat::turn::Creation {
        anonymous: false,
        options: ChatCommandOptions::new(),
    };
    let member = || FluxChatUser::member(SENDER, None, "ABCD-EFGH");
    let refused = || Event::Executed(Err(failure()));
    let (turn, action) = at(Stage::InsertRoom(creation(), drawn_room())).advance(refused());
    assert_eq!(action, broken());
    assert_eq!(turn.user.attached_to, "");
    let (turn, action) =
        at(Stage::InsertChatUser(creation(), drawn_room(), member())).advance(refused());
    assert_eq!(action, Action::Fail(failure()));
    assert_eq!(turn.user.attached_to, "");
    assert_eq!(turn.stage, Stage::Over);
    let (_, action) = at(Stage::Attach(creation(), drawn_room(), member())).advance(refused());
    assert_eq!(action, broken());
}

#[test]
fn only_admins_create_chats() {
    let (turn, action) = known("!chat create", stored(false, ""));
    assert_eq!(action, Action::Note(Note::Arguments(words("!chat create"))));
    assert_eq!(turn.advance(Event::Noted).1, Action::Finish);
    let (turn, _) = known("!chat create -T", stored(false, ""));
    let (turn, action) = turn.advance(Event::Noted);
    assert_eq!(action, Action::Note(Note::GotOptions));
    assert_eq!(turn.advance(Event::Noted).1, Action::Finish);
}

#[test]
fn an_admin_asks_for_nothing_else() {
    for body in ["!chat attach", "!chat delete", "!chat close x", "!chat "] {
        let (turn, _) = known(body, stored(true, ""));
        assert_eq!(turn.advance(Event::Noted).1, Action::Finish, "{body}");
    }
}

#[test]
fn a_chat_command_by_hand() {
    let turn = known("hi", stored(true, "")).0;
    let options = ChatCommandOptions::new();
    let (turn, action) = turn.chat(ChatCommand { options, create: Some(true) });
    assert_eq!(action, Action::DrawRoom { creator: SENDER.to_string() });
    assert_eq!(turn.chat(ChatCommand { options, create: None }).1, Action::Finish);
}

#[test]
fn ownership_is_taken_once() {
    let (turn, action) = known("!sumyself", stored(false, ""));
    let select = fluxchat::database::Statement::select_sumyself();
    assert_eq!(action, Action::FetchUsed(select));
    let (turn, action) = turn.advance(Event::UsedRead(Ok(false)));
    let update = fluxchat::database::Statement::update_sumyself();
    assert_eq!(action, Action::Execute(update));
    assert!(!turn.user.is_admin);
    let (turn, action) = turn.advance(execute_ok());
    assert!(turn.user.is_admin);
    assert_eq!(action, Action::Execute(turn.user.push_statement()));
    let (turn, action) = turn.advance(execute_ok());
    assert_eq!(action, Action::Reply(Reply::Sumyself));
    assert_eq!(turn.advance(Event::Sent(true)).1, Action::Finish);

    let (turn, _) = known("!sumyself", stored(false, ""));
    let (turn, action) = turn.advance(Event::UsedRead(Ok(true)));
    assert_eq!(action, Action::Finish);
    assert!(!turn.user.is_admin);
}

#[test]
fn taking_over_that_fails() {
    let (turn, _) = known("!sumyself", stored(false, ""));
    assert_eq!(turn.advance(Event::UsedRead(Err(failure()))).1, broken());
    let (turn, _) = known("!sumyself", stored(false, ""));
    let (turn, _) = turn.advance(Event::UsedRead(Ok(false)));
    let (turn, action) = turn.advance(Event::Executed(Err(failure())));
    assert_eq!(action, broken());
    assert!(!turn.user.is_admin);
    let (turn, _) = known("!sumyself", stored(false, ""));
    let (turn, _) = turn.advance(Event::UsedRead(Ok(false)));
    let (turn, _) = turn.advance(execute_ok());
    assert_eq!(turn.advance(Event::Executed(Err(failure()))).1, broken());
}

fn at_recipients(body: &str) -> Turn {
    let (turn, action) = known(body, stored(true, "ABCD-EFGH"));
    assert_eq!(action, Action::FetchRoom(FluxChatRoom::load_statement("ABCD-EFGH")));
    let (turn, action) = turn.advance(Event::RoomRead(Ok(FluxChatRoomRow {
        creation_date: "2024-05-31 17:04:09".to_string(),
        creator: SENDER.to_string(),
        is_closed: false,
    })));
    assert_eq!(action, Action::FetchChatUser(FluxChatUser::load_statement(SENDER, false)));
    let (turn, action) = turn.advance(Event::ChatUserRead(Ok(FluxChatUserRow {
        display_name: SENDER.to_string(),
        is_anon: false,
        chat_id: "ABCD-EFGH".to_string(),
    })));
    assert_eq!(action, Action::FetchRecipients(drawn_room().recipients_statement()));
    turn
}

#[test]
fn attached_users_speak_in_their_chat() {
    for body in ["hi", "!help", "!chat create", "!sumyself"] {
        let mut turn = at_recipients(body);
        let ids = [SENDER, "@d:e.f", "@g:h.i"];
        let rows = ids.iter().map(|id| Ok(id.to_string())).collect();
        let mut event = Event::RecipientsRead(Ok(rows));
        for id in ids {
            let (next, action) = turn.advance(event);
            assert_eq!(
                action,
                Action::Deliver { user_id: id.to_string(), text: body.to_string() }
            );
            turn = next;
            event = Event::Sent(true);
        }
        let (turn, action) = turn.advance(event);
        assert_eq!(action, Action::Finish);
        assert_eq!(turn.stage, Stage::Over);
    }
}

#[test]
fn a_relay_that_fails() {
    let (turn, _) = known("hi", stored(false, "ABCD-EFGH"));
    assert_eq!(turn.advance(Event::RoomRead(Err(failure()))).1, broken());
    let turn = Turn { stage: Stage::LoadChatUser(drawn_room()), ..start("hi") };
    assert_eq!(turn.advance(Event::ChatUserRead(Err(failure()))).1, broken());
    let turn = at_recipients("hi");
    assert_eq!(turn.advance(Event::RecipientsRead(Err(failure()))).1, broken());
    let rows = Ok(vec![Ok("@d:e.f".to_string()), Ok("nobody".to_string())]);
    let (turn, _) = at_recipients("hi").advance(Event::RecipientsRead(rows));
    assert_eq!(
        turn.advance(Event::Sent(true)).1,
        Action::Abort(Fault::UserId("nobody".to_string()))
    );
    let rows = Ok(vec![Ok("@d:e.f".to_string())]);
    let (turn, _) = at_recipients("hi").advance(Event::RecipientsRead(rows));
    assert_eq!(turn.advance(Event::Sent(false)).1, Action::Abort(Fault::Unsent));
    let rows = Ok(vec![Err(failure())]);
    assert_eq!(at_recipients("hi").advance(Event::RecipientsRead(rows)).1, broken());
}

#[test]
fn a_relay_by_hand() {
    let delivery = || Delivery { message: "hi".to_string(), recipients: vec![], next: 0 };
    let (turn, action) = start("hi").relay(
        delivery(),
        DeliveryStep::Send { user_id: "@d:e.f".to_string(), text: "hi".to_string() },
    );
    assert_eq!(turn.stage, Stage::Relay(delivery()));
    assert_eq!(
        action,
        Action::Deliver { user_id: "@d:e.f".to_string(), text: "hi".to_string() }
    );
    assert_eq!(turn.relay(delivery(), DeliveryStep::Done("fine")).1, Action::Finish);
    let step = DeliveryStep::Broken(Fault::UserId("x".to_string()));
    assert_eq!(
        start("hi").relay(delivery(), step).1,
        Action::Abort(Fault::UserId("x".to_string()))
    );
}

#[test]
fn what_was_not_asked_for_ends_the_turn() {
    let (turn, action) = start("hi").advance(Event::Noted);
    assert_eq!(action, Action::Abort(Fault::OutOfTurn));
    assert_eq!(turn.stage, Stage::Over);
    let (turn, action) = turn.advance(Event::Found(true));
    assert_eq!(action, Action::Abort(Fault::OutOfTurn));
    assert_eq!(turn.stage, Stage::Over);
}

#[test]
fn statements_of_a_turn_carry_the_sender() {
    let (turn, _) = known("!sumyself", stored(false, ""));
    let (turn, _) = turn.advance(Event::UsedRead(Ok(false)));
    let (_, action) = turn.advance(execute_ok());
    match action {
        Action::Execute(s) => {
            assert_eq!(s.params.last(), Some(&Value::Text(SENDER.to_string())));
            assert_eq!(s.params[3], Value::Flag(true));
        }
        other => panic!("{other:?}"),
    }
}

#[test]
fn replies_have_keys() {
    let created = Reply::ChatCreated { id: String::new(), display_name: String::new() };
    assert_eq!(Reply::Help.key(), "commands.help.message");
    assert_eq!(Reply::ChatUsage.key(), "commands.chat.usage");
    assert_eq!(created.key(), "commands.chat.create.success");
    assert_eq!(Reply::Sumyself.key(), "commands.sumyself.success");
}

#[test]
fn a_step_draws_the_chat_and_its_creator() {
    for (body, anonymous) in [("!chat create", false), ("!chat -A create", true)] {
        let (turn, _) = known(body, stored(true, ""));
        let (turn, action) = turn.step(Event::Noted);
        let room = match &turn.stage {
            Stage::InsertRoom(creation, room) => {
                assert_eq!(creation.anonymous, anonymous);
                room.clone()
            }
            other => panic!("{other:?}"),
        };
        assert_eq!(action, Action::Execute(room.insert_statement()));
        assert_eq!(room.creator, SENDER);
        assert!(!room.is_closed);
        let (head, tail) = room.id.split_once('-').unwrap();
        for half in [head, tail] {
            assert_eq!(half.len(), 4);
            assert!(half.chars().all(|c| c.is_ascii_uppercase()));
        }

        let (turn, action) = turn.step(execute_ok());
        let member = match &turn.stage {
            Stage::InsertChatUser(_, of, member) => {
                assert_eq!(*of, room);
                member.clone()
            }
            other => panic!("{other:?}"),
        };
        assert_eq!(action, Action::Execute(member.push_statement()));
        assert_eq!(member.matrix_user, SENDER);
        assert_eq!(member.chat_id, room.id);
        assert_eq!(member.is_anon, anonymous);
        if anonymous {
            assert_eq!(member.display_name.len(), 6);
        } else {
            assert_eq!(member.display_name, SENDER);
        }
    }
}

#[test]
fn a_step_with_nothing_to_draw_advances() {
    assert_eq!(start("hi").step(Event::Found(false)), start("hi").advance(Event::Found(false)));
    assert_eq!(start("hi").step(Event::Noted).1, Action::Abort(Fault::OutOfTurn));
}

#[test]
fn updates_of_an_admin_leave_it_one() {
    let (turn, _) = known("!chat create", stored(true, ""));
    let (turn, _) = turn.step(Event::Noted);
    let (turn, _) = turn.step(execute_ok());
    let (turn, action) = turn.step(execute_ok());
    assert!(turn.user.is_admin);
    match action {
        Action::Execute(s) => {
            assert_eq!(s.params[3], Value::Flag(true));
            assert_eq!(s.params[0], Value::Text("t".to_string()));
            assert_eq!(s.params[4], Value::Flag(true));
            assert_eq!(s.params[5], Value::Text(SENDER.to_string()));
        }
        other => panic!("{other:?}"),
    }
}
