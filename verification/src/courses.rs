//! The courses that turns take: what is asked for from a message on to the end
//! of its turn.

use crate::database::{StatementView, ValueView, SELECT_SUMYSELF, UPDATE_SUMYSELF};
use crate::laws::{
    actions, deliveries, law_chat_creation, law_members_get_the_message, lemma_run_in_two_parts,
    names_user, relay_end, run, sent_to, Row,
};
use crate::options::{
    law_options_are_spelled_out, law_what_a_command_asks_for, ChatCommand, ChatCommandOptions,
};
use crate::rooms::{
    is_user_id, law_chat_insertion_hands_over_all_columns, law_chats_are_found_by_identifier,
    rows_view, DeliveryStepView, DeliveryView, FaultView, FluxChatRoomRowView, FluxChatRoomView,
    INSERT_FLUX_CHAT_ROOM, SELECT_FLUX_CHAT_ROOM, SELECT_RECIPIENTS,
};
use crate::text::words;
use crate::turn::{
    Action, ActionView, Command, Creation, Event, EventView, Note, NoteView, Reply, ReplyView,
    Stage, StageView, Turn, TurnView,
};
use crate::users::{
    law_insertion_hands_over_all_columns, law_membership_hands_over_all_columns,
    law_update_hands_over_all_columns, BotUserRowView, BotUserView, FluxChatUserRowView,
    FluxChatUserView, INSERT_BOT_USER, INSERT_FLUX_CHAT_USER, SELECT_BOT_USER,
    SELECT_FLUX_CHAT_USER, UPDATE_BOT_USER,
};
use vstd::prelude::*;

verus! {

/// What is found out about a sender: a row that is read, or nobody, who is then
/// stored.
pub open spec fn introduction(read: Option<BotUserRowView>) -> Seq<EventView> {
    match read {
        Some(row) => seq![EventView::Found(true), EventView::BotUserRead(Ok(row))],
        None => seq![EventView::Found(false), EventView::Executed(Ok(()))],
    }
}

/// What is asked for to find that out: the row of the sender, or that a row is
/// stored that holds nothing but the sender's identifier.
pub open spec fn inquiry(sender: Seq<char>, read: Option<BotUserRowView>) -> ActionView {
    match read {
        Some(_) => ActionView::FetchBotUser(
            StatementView { sql: SELECT_BOT_USER@, params: seq![ValueView::Text(sender)] },
        ),
        None => ActionView::Execute(
            StatementView {
                sql: INSERT_BOT_USER@,
                params: seq![
                    ValueView::Text(sender),
                    ValueView::Text(Seq::empty()),
                    ValueView::Text(Seq::empty()),
                    ValueView::Flag(false),
                    ValueView::Flag(false),
                    ValueView::Flag(false),
                ],
            },
        ),
    }
}

/// The sender by what was found out.
pub open spec fn speaker(sender: Seq<char>, read: Option<BotUserRowView>) -> BotUserView {
    match read {
        Some(row) => BotUserView {
            matrix_user: sender,
            ticket_room: row.ticket_room,
            attached_to: row.attached_to,
            as_anon: row.as_anon,
            is_admin: row.is_admin,
            is_banned: row.is_banned,
        },
        None => BotUserView {
            matrix_user: sender,
            ticket_room: Seq::empty(),
            attached_to: Seq::empty(),
            as_anon: false,
            is_admin: false,
            is_banned: false,
        },
    }
}

/// The update of a user, column by column.
pub open spec fn storing(user: BotUserView) -> ActionView {
    ActionView::Execute(
        StatementView {
            sql: UPDATE_BOT_USER@,
            params: seq![
                ValueView::Text(user.ticket_room),
                ValueView::Text(user.attached_to),
                ValueView::Flag(user.as_anon),
                ValueView::Flag(user.is_admin),
                ValueView::Flag(user.is_banned),
                ValueView::Text(user.matrix_user),
            ],
        },
    )
}

/// Whether the words of a command hold an option.
pub open spec fn with_options(args: Seq<Seq<char>>) -> bool {
    ||| args.contains("-A"@)
    ||| args.contains("--anonymous"@)
    ||| args.contains("-F"@)
    ||| args.contains("--fuckanons"@)
    ||| args.contains("-T"@)
    ||| args.contains("--ticket"@)
}

/// What is asked for at the end of a `!chat` command: that it had options is
/// noted where it had.
pub open spec fn parting(args: Seq<Seq<char>>) -> Seq<ActionView> {
    if with_options(args) {
        seq![ActionView::Note(NoteView::GotOptions), ActionView::Finish]
    } else {
        seq![ActionView::Finish]
    }
}

/// How that is answered.
pub open spec fn farewell(args: Seq<Seq<char>>) -> Seq<EventView> {
    if with_options(args) {
        seq![EventView::Noted]
    } else {
        Seq::empty()
    }
}

/// One event more: what it leaves, and what is asked for then.
proof fn lemma_one_event_more(turn: TurnView, events: Seq<EventView>, event: EventView)
    ensures
        run(turn, events.push(event)) == run(turn, events).advance(event).0,
        actions(turn, events.push(event)) == actions(turn, events).push(
            run(turn, events).advance(event).1,
        ),
{
    assert(events.push(event).drop_last() =~= events);
}

proof fn lemma_no_event(turn: TurnView)
    ensures
        run(turn, Seq::empty()) == turn,
        actions(turn, Seq::empty()) == Seq::<ActionView>::empty(),
{
}

/// What is asked for of an event and those that follow it.
proof fn lemma_first_event(turn: TurnView, event: EventView, rest: Seq<EventView>)
    ensures
        run(turn, seq![event] + rest) == run(turn.advance(event).0, rest),
        actions(turn, seq![event] + rest) == seq![turn.advance(event).1] + actions(
            turn.advance(event).0,
            rest,
        ),
{
    lemma_no_event(turn);
    lemma_one_event_more(turn, Seq::empty(), event);
    assert(Seq::<EventView>::empty().push(event) =~= seq![event]);
    assert(Seq::<ActionView>::empty().push(turn.advance(event).1) =~= seq![turn.advance(event).1]);
    lemma_run_in_two_parts(turn, seq![event], rest);
}

/// A turn begins with the sender's identifier and the text that was sent, and
/// with nothing else.
pub proof fn law_turns_begin_with_nothing_known(sender: Seq<char>, body: Seq<char>)
    ensures
        TurnView::begin(sender, body).user == speaker(sender, None),
        TurnView::begin(sender, body).body == body,
        TurnView::begin(sender, body).stage is Lookup,
{
}

/// A turn finds out about its sender, whoever that is, and then goes on by
/// that and the text that was sent.
proof fn lemma_introduction(
    sender: Seq<char>,
    body: Seq<char>,
    read: Option<BotUserRowView>,
    rest: Seq<EventView>,
)
    ensures
        ({
            let turn = TurnView::begin(sender, body);
            let here = run(turn, introduction(read));
            let asked = TurnView { user: speaker(sender, read), body, stage: here.stage };
            &&& here.user == speaker(sender, read) && here.body == body
            &&& asked.dispatch().0 == here
            &&& run(turn, introduction(read) + rest) == run(here, rest)
            &&& actions(turn, introduction(read) + rest) == seq![
                inquiry(sender, read),
                asked.dispatch().1,
            ] + actions(here, rest)
        }),
{
    let turn = TurnView::begin(sender, body);
    let events = introduction(read);
    let first = seq![events[0]];
    law_insertion_hands_over_all_columns(turn.user);
    lemma_no_event(turn);
    lemma_one_event_more(turn, Seq::empty(), events[0]);
    assert(Seq::<EventView>::empty().push(events[0]) =~= first);
    lemma_one_event_more(turn, first, events[1]);
    assert(first.push(events[1]) =~= events);
    let here = run(turn, events);
    let asked = TurnView { user: speaker(sender, read), body, stage: here.stage };
    assert(actions(turn, events) =~= seq![inquiry(sender, read), asked.dispatch().1]);
    lemma_run_in_two_parts(turn, events, rest);
}

/// `!help` is answered with the help message, whoever asks, unless from within
/// a chat: that is all that is done.
pub proof fn law_help_is_given(sender: Seq<char>, body: Seq<char>, read: Option<BotUserRowView>)
    requires
        speaker(sender, read).attached_to.len() == 0,
        "!help"@.is_prefix_of(body),
    ensures
        actions(
            TurnView::begin(sender, body),
            introduction(read) + seq![EventView::Sent(true)],
        ) == seq![inquiry(sender, read), ActionView::Reply(ReplyView::Help), ActionView::Finish],
        run(
            TurnView::begin(sender, body),
            introduction(read) + seq![EventView::Sent(true)],
        ).user == speaker(sender, read),
{
    let turn = TurnView::begin(sender, body);
    let rest = seq![EventView::Sent(true)];
    let here = run(turn, introduction(read));
    lemma_introduction(sender, body, read, rest);
    lemma_first_event(here, EventView::Sent(true), Seq::empty());
    lemma_no_event(here.advance(EventView::Sent(true)).0);
    assert(rest + Seq::empty() =~= rest);
    assert(actions(turn, introduction(read) + rest) =~= seq![
        inquiry(sender, read),
        ActionView::Reply(ReplyView::Help),
        ActionView::Finish,
    ]);
}

/// What is asked for as often as something happens.
proof fn lemma_course(turn: TurnView, events: Seq<EventView>)
    ensures
        actions(turn, events).len() == events.len(),
        run(turn, events.take(0)) == turn,
        run(turn, events.take(events.len() as int)) == run(turn, events),
    decreases events.len(),
{
    assert(events.take(events.len() as int) =~= events);
    assert(events.take(0) =~= Seq::empty());
    if events.len() > 0 {
        lemma_course(turn, events.drop_last());
    }
}

/// What a turn is left with after the event with an index, and what it asks for
/// then.
proof fn lemma_at(turn: TurnView, events: Seq<EventView>, k: int)
    requires
        0 <= k < events.len(),
    ensures
        run(turn, events.take(k + 1)) == run(turn, events.take(k)).advance(events[k]).0,
        actions(turn, events)[k] == run(turn, events.take(k)).advance(events[k]).1,
    decreases events.len(),
{
    let before = events.drop_last();
    lemma_course(turn, before);
    if k < before.len() {
        lemma_at(turn, before, k);
        assert(before.take(k + 1) =~= events.take(k + 1));
        assert(before.take(k) =~= events.take(k));
        assert(actions(turn, events)[k] == actions(turn, before)[k]);
    } else {
        assert(events.take(k) =~= before);
        assert(events.take(k + 1) =~= events);
    }
}

/// `!chat` without a space is answered with how it is used, whoever asks,
/// unless from within a chat: that is all that is done.
pub proof fn law_chat_usage_is_given(
    sender: Seq<char>,
    body: Seq<char>,
    read: Option<BotUserRowView>,
)
    requires
        speaker(sender, read).attached_to.len() == 0,
        "!chat"@.is_prefix_of(body),
        !body.contains(' '),
    ensures
        actions(
            TurnView::begin(sender, body),
            introduction(read) + seq![EventView::Sent(true)],
        ) == seq![
            inquiry(sender, read),
            ActionView::Reply(ReplyView::ChatUsage),
            ActionView::Finish,
        ],
        run(
            TurnView::begin(sender, body),
            introduction(read) + seq![EventView::Sent(true)],
        ).user == speaker(sender, read),
{
    let turn = TurnView::begin(sender, body);
    let rest = seq![EventView::Sent(true)];
    let here = run(turn, introduction(read));
    lemma_commands(body);
    lemma_introduction(sender, body, read, rest);
    lemma_course(here, rest);
    lemma_at(here, rest, 0);
    assert(actions(turn, introduction(read) + rest) =~= seq![
        inquiry(sender, read),
        ActionView::Reply(ReplyView::ChatUsage),
        ActionView::Finish,
    ]);
}

/// A text that begins with none of the three commands is left alone, whoever
/// sends it, unless from within a chat.
pub proof fn law_other_texts_are_left_alone(
    sender: Seq<char>,
    body: Seq<char>,
    read: Option<BotUserRowView>,
)
    requires
        speaker(sender, read).attached_to.len() == 0,
        !"!help"@.is_prefix_of(body),
        !"!chat"@.is_prefix_of(body),
        !"!sumyself"@.is_prefix_of(body),
    ensures
        actions(TurnView::begin(sender, body), introduction(read)) == seq![
            inquiry(sender, read),
            ActionView::Finish,
        ],
        run(TurnView::begin(sender, body), introduction(read)).user == speaker(sender, read),
{
    let turn = TurnView::begin(sender, body);
    let here = run(turn, introduction(read));
    lemma_introduction(sender, body, read, Seq::empty());
    lemma_no_event(here);
    assert(introduction(read) + Seq::<EventView>::empty() =~= introduction(read));
    assert(actions(turn, introduction(read)) =~= seq![inquiry(sender, read), ActionView::Finish]);
}

/// The command that a text begins with, by its letters.
proof fn lemma_commands(body: Seq<char>)
    ensures
        "!help"@.is_prefix_of(body) ==> Command::of(body) == Command::Help,
        "!chat"@.is_prefix_of(body) ==> Command::of(body) == Command::Chat,
        "!sumyself"@.is_prefix_of(body) ==> Command::of(body) == Command::Sumyself,
{
    reveal_strlit("!help");
    reveal_strlit("!chat");
    reveal_strlit("!sumyself");
    if "!help"@.is_prefix_of(body) {
        assert(body[1] == "!help"@[1]);
    }
    if "!chat"@.is_prefix_of(body) {
        assert(body[1] == "!chat"@[1]);
    }
    if "!sumyself"@.is_prefix_of(body) {
        assert(body[1] == "!sumyself"@[1]);
    }
}

/// The command that a text begins with is told by its letters alone, `!help`,
/// `!chat` or `!sumyself`, whatever follows them.
pub proof fn law_commands_by_their_letters(body: Seq<char>)
    ensures
        Command::of(body) == Command::Help <==> "!help"@.is_prefix_of(body),
        Command::of(body) == Command::Chat <==> "!chat"@.is_prefix_of(body),
        Command::of(body) == Command::Sumyself <==> "!sumyself"@.is_prefix_of(body),
{
    lemma_commands(body);
}

/// `!sumyself` makes whoever asks first an admin, whoever that is, unless from
/// within a chat: the right to is used up, the sender is stored with all
/// columns as they were but for that one, and told so.
pub proof fn law_the_first_to_ask_becomes_an_admin(
    sender: Seq<char>,
    body: Seq<char>,
    read: Option<BotUserRowView>,
)
    requires
        speaker(sender, read).attached_to.len() == 0,
        "!sumyself"@.is_prefix_of(body),
    ensures
        ({
            let turn = TurnView::begin(sender, body);
            let owner = BotUserView { is_admin: true, ..speaker(sender, read) };
            let events = introduction(read) + seq![
                EventView::UsedRead(Ok(false)),
                EventView::Executed(Ok(())),
                EventView::Executed(Ok(())),
                EventView::Sent(true),
            ];
            &&& run(turn, events).user == owner
            &&& actions(turn, events) == seq![
                inquiry(sender, read),
                ActionView::FetchUsed(
                    StatementView { sql: SELECT_SUMYSELF@, params: Seq::empty() },
                ),
                ActionView::Execute(
                    StatementView { sql: UPDATE_SUMYSELF@, params: Seq::empty() },
                ),
                storing(owner),
                ActionView::Reply(ReplyView::Sumyself),
                ActionView::Finish,
            ]
        }),
{
    let turn = TurnView::begin(sender, body);
    let owner = BotUserView { is_admin: true, ..speaker(sender, read) };
    let rest = seq![
        EventView::UsedRead(Ok(false)),
        EventView::Executed(Ok(())),
        EventView::Executed(Ok(())),
        EventView::Sent(true),
    ];
    let here = run(turn, introduction(read));
    lemma_commands(body);
    law_update_hands_over_all_columns(owner);
    lemma_introduction(sender, body, read, rest);
    lemma_course(here, rest);
    lemma_at(here, rest, 0);
    lemma_at(here, rest, 1);
    lemma_at(here, rest, 2);
    lemma_at(here, rest, 3);
    assert(actions(turn, introduction(read) + rest) =~= seq![
        inquiry(sender, read),
        ActionView::FetchUsed(StatementView { sql: SELECT_SUMYSELF@, params: Seq::empty() }),
        ActionView::Execute(StatementView { sql: UPDATE_SUMYSELF@, params: Seq::empty() }),
        storing(owner),
        ActionView::Reply(ReplyView::Sumyself),
        ActionView::Finish,
    ]);
}

/// `!sumyself` does nothing once the right to become the owner has been used
/// up, whoever asks.
pub proof fn law_others_ask_in_vain(
    sender: Seq<char>,
    body: Seq<char>,
    read: Option<BotUserRowView>,
)
    requires
        speaker(sender, read).attached_to.len() == 0,
        "!sumyself"@.is_prefix_of(body),
    ensures
        ({
            let turn = TurnView::begin(sender, body);
            let events = introduction(read) + seq![EventView::UsedRead(Ok(true))];
            &&& run(turn, events).user == speaker(sender, read)
            &&& actions(turn, events) == seq![
                inquiry(sender, read),
                ActionView::FetchUsed(
                    StatementView { sql: SELECT_SUMYSELF@, params: Seq::empty() },
                ),
                ActionView::Finish,
            ]
        }),
{
    let turn = TurnView::begin(sender, body);
    let rest = seq![EventView::UsedRead(Ok(true))];
    let here = run(turn, introduction(read));
    lemma_commands(body);
    lemma_introduction(sender, body, read, rest);
    lemma_course(here, rest);
    lemma_at(here, rest, 0);
    assert(actions(turn, introduction(read) + rest) =~= seq![
        inquiry(sender, read),
        ActionView::FetchUsed(StatementView { sql: SELECT_SUMYSELF@, params: Seq::empty() }),
        ActionView::Finish,
    ]);
}

/// The options of a command are noted where one of them is among its words.
proof fn lemma_options(args: Seq<Seq<char>>)
    ensures
        ({
            let options = ChatCommandOptions::among(args);
            with_options(args) <==> options.anonymous || options.fuckanons || options.ticket
        }),
{
    law_options_are_spelled_out(args);
    let options = ChatCommandOptions::among(args);
    if options.anonymous {
        let i = choose|i: int|
            0 <= i < args.len() && (#[trigger] args[i] == "-A"@ || args[i] == "--anonymous"@);
        assert(args.contains(args[i]));
    }
    if options.fuckanons {
        let i = choose|i: int|
            0 <= i < args.len() && (#[trigger] args[i] == "-F"@ || args[i] == "--fuckanons"@);
        assert(args.contains(args[i]));
    }
    if options.ticket {
        let i = choose|i: int|
            0 <= i < args.len() && (#[trigger] args[i] == "-T"@ || args[i] == "--ticket"@);
        assert(args.contains(args[i]));
    }
    if with_options(args) {
        let word = choose|word: Seq<char>| #[trigger]
            args.contains(word) && (word == "-A"@ || word == "--anonymous"@ || word == "-F"@
                || word == "--fuckanons"@ || word == "-T"@ || word == "--ticket"@);
        let i = choose|i: int| 0 <= i < args.len() && args[i] == word;
        assert(args[i] == word);
    }
}

/// `!chat` with a space has its words noted, and then whether there are options
/// among them, and does nothing else, whoever asks from outside a chat, where
/// `create` is not among the words or the sender is no admin.
pub proof fn law_chat_without_creation(
    sender: Seq<char>,
    body: Seq<char>,
    read: Option<BotUserRowView>,
)
    requires
        speaker(sender, read).attached_to.len() == 0,
        "!chat"@.is_prefix_of(body),
        body.contains(' '),
        !speaker(sender, read).is_admin || !words(body).contains("create"@),
    ensures
        ({
            let turn = TurnView::begin(sender, body);
            let args = words(body);
            let events = introduction(read) + (seq![EventView::Noted] + farewell(args));
            &&& run(turn, events).user == speaker(sender, read)
            &&& actions(turn, events) == seq![
                inquiry(sender, read),
                ActionView::Note(NoteView::Arguments(args)),
            ] + parting(args)
        }),
{
    let turn = TurnView::begin(sender, body);
    let args = words(body);
    let rest = seq![EventView::Noted] + farewell(args);
    let here = run(turn, introduction(read));
    lemma_commands(body);
    lemma_options(args);
    law_what_a_command_asks_for(args, 0);
    assert forall|i: int| 0 <= i < args.len() && !args.contains("create"@) implies #[trigger] args[i]
        != "create"@ by {
        assert(args.contains(args[i]));
    }
    lemma_introduction(sender, body, read, rest);
    lemma_course(here, rest);
    lemma_at(here, rest, 0);
    if with_options(args) {
        lemma_at(here, rest, 1);
    }
    assert(actions(turn, introduction(read) + rest) =~= seq![
        inquiry(sender, read),
        ActionView::Note(NoteView::Arguments(args)),
    ] + parting(args));
}

/// `!chat` with `create` among its words gives an admin who is in no chat a new
/// one, whoever the admin is otherwise, whatever the other words are, and
/// whichever chat and member are drawn: the chat is stored, then the admin as
/// its member, then that the admin is in it, with all other columns as they
/// were; and the admin is told the identifier of the chat and the own name in
/// it. The member is anonymous where `-A` or `--anonymous` stands before the
/// first `create`.
pub proof fn law_an_admin_gets_a_chat(
    sender: Seq<char>,
    body: Seq<char>,
    row: BotUserRowView,
    k: int,
    room: FluxChatRoomView,
    member: FluxChatUserView,
)
    requires
        row.is_admin,
        row.attached_to.len() == 0,
        "!chat"@.is_prefix_of(body),
        body.contains(' '),
        0 <= k < words(body).len(),
        words(body)[k] == "create"@,
        forall|i: int| 0 <= i < k ==> #[trigger] words(body)[i] != "create"@,
    ensures
        ({
            let turn = TurnView::begin(sender, body);
            let args = words(body);
            let anonymous = exists|i: int|
                0 <= i < k && (#[trigger] args[i] == "-A"@ || args[i] == "--anonymous"@);
            let user = BotUserView {
                matrix_user: sender,
                ticket_room: row.ticket_room,
                attached_to: room.id,
                as_anon: anonymous,
                is_admin: true,
                is_banned: row.is_banned,
            };
            let events = introduction(Some(row)) + creation_of(args, room, member);
            &&& run(turn, events).user == user
            &&& actions(turn, events) == seq![
                inquiry(sender, Some(row)),
                ActionView::Note(NoteView::Arguments(args)),
                ActionView::DrawRoom { creator: sender },
                ActionView::Execute(
                    StatementView {
                        sql: INSERT_FLUX_CHAT_ROOM@,
                        params: seq![
                            ValueView::Text(room.id),
                            ValueView::Text(room.creation_date),
                            ValueView::Text(room.creator),
                            ValueView::Flag(room.is_closed),
                        ],
                    },
                ),
                ActionView::DrawChatUser {
                    matrix_user: sender,
                    is_anon: anonymous,
                    chat_id: room.id,
                },
                ActionView::Execute(
                    StatementView {
                        sql: INSERT_FLUX_CHAT_USER@,
                        params: seq![
                            ValueView::Text(member.matrix_user),
                            ValueView::Text(member.display_name),
                            ValueView::Flag(member.is_anon),
                            ValueView::Text(member.chat_id),
                        ],
                    },
                ),
                storing(user),
                ActionView::Reply(
                    ReplyView::ChatCreated { id: room.id, display_name: member.display_name },
                ),
            ] + parting(args)
        }),
{
    let turn = TurnView::begin(sender, body);
    let args = words(body);
    let read = Some(row);
    let rest = creation_of(args, room, member);
    let here = run(turn, introduction(read));
    let anonymous = exists|i: int|
        0 <= i < k && (#[trigger] args[i] == "-A"@ || args[i] == "--anonymous"@);
    let user = BotUserView {
        matrix_user: sender,
        ticket_room: row.ticket_room,
        attached_to: room.id,
        as_anon: anonymous,
        is_admin: true,
        is_banned: row.is_banned,
    };
    lemma_commands(body);
    lemma_options(args);
    law_what_a_command_asks_for(args, k);
    law_chat_insertion_hands_over_all_columns(room);
    law_membership_hands_over_all_columns(member);
    law_update_hands_over_all_columns(user);
    lemma_introduction(sender, body, read, rest);
    lemma_chat_is_asked_for(sender, body, row);
    lemma_creation(here, args, anonymous, room, member);
    let all = actions(turn, introduction(read) + rest);
    let asked = seq![inquiry(sender, read), ActionView::Note(NoteView::Arguments(args))];
    assert(all == asked + (created(sender, anonymous, room, member, user) + parting(args)));
    assert(created(sender, anonymous, room, member, user).len() == 6);
    assert(asked + (created(sender, anonymous, room, member, user) + parting(args)) =~= seq![
        asked[0],
        asked[1],
        created(sender, anonymous, room, member, user)[0],
        created(sender, anonymous, room, member, user)[1],
        created(sender, anonymous, room, member, user)[2],
        created(sender, anonymous, room, member, user)[3],
        created(sender, anonymous, room, member, user)[4],
        created(sender, anonymous, room, member, user)[5],
    ] + parting(args));
}

/// What is asked for while a chat is created.
spec fn created(
    sender: Seq<char>,
    anonymous: bool,
    room: FluxChatRoomView,
    member: FluxChatUserView,
    user: BotUserView,
) -> Seq<ActionView> {
    seq![
        ActionView::DrawRoom { creator: sender },
        ActionView::Execute(room.insert()),
        ActionView::DrawChatUser { matrix_user: sender, is_anon: anonymous, chat_id: room.id },
        ActionView::Execute(member.insert()),
        ActionView::Execute(user.update()),
        ActionView::Reply(
            ReplyView::ChatCreated { id: room.id, display_name: member.display_name },
        ),
    ]
}

proof fn lemma_chat_is_asked_for(sender: Seq<char>, body: Seq<char>, row: BotUserRowView)
    requires
        row.attached_to.len() == 0,
        "!chat"@.is_prefix_of(body),
        body.contains(' '),
    ensures
        ({
            let here = run(TurnView::begin(sender, body), introduction(Some(row)));
            let user = speaker(sender, Some(row));
            let asked = TurnView { user, body, stage: here.stage };
            &&& here.stage == StageView::Arguments(ChatCommand::of(words(body)))
            &&& here.user == user
            &&& asked.dispatch().1 == ActionView::Note(NoteView::Arguments(words(body)))
        }),
{
    lemma_commands(body);
    lemma_introduction(sender, body, Some(row), Seq::empty());
}

proof fn lemma_parting(turn: TurnView, args: Seq<Seq<char>>)
    requires
        turn.stage == StageView::Reply(ChatCommandOptions::among(args)),
    ensures
        actions(turn, seq![EventView::Sent(true)] + farewell(args)) == parting(args),
        run(turn, seq![EventView::Sent(true)] + farewell(args)).user == turn.user,
{
    let rest = seq![EventView::Sent(true)] + farewell(args);
    lemma_options(args);
    lemma_course(turn, rest);
    lemma_at(turn, rest, 0);
    if with_options(args) {
        lemma_at(turn, rest, 1);
    }
    assert(actions(turn, rest) =~= parting(args));
}

proof fn lemma_creation(
    here: TurnView,
    args: Seq<Seq<char>>,
    anonymous: bool,
    room: FluxChatRoomView,
    member: FluxChatUserView,
)
    requires
        here.stage == StageView::Arguments(ChatCommand::of(args)),
        ChatCommand::of(args).create == Some(anonymous),
        here.user.is_admin,
    ensures
        ({
            let user = BotUserView { as_anon: anonymous, attached_to: room.id, ..here.user };
            let rest = creation_of(args, room, member);
            &&& run(here, rest).user == user
            &&& actions(here, rest) == created(
                here.user.matrix_user,
                anonymous,
                room,
                member,
                user,
            ) + parting(args)
        }),
{
    let command = ChatCommand::of(args);
    let first = seq![
        EventView::Noted,
        EventView::RoomDrawn(room),
        EventView::Executed(Ok(())),
        EventView::ChatUserDrawn(member),
        EventView::Executed(Ok(())),
        EventView::Executed(Ok(())),
    ];
    let second = seq![EventView::Sent(true)] + farewell(args);
    law_chat_creation(here, command, anonymous, room, member);
    law_what_a_command_asks_for(args, 0);
    lemma_parting(run(here, first), args);
    lemma_run_in_two_parts(here, first, second);
    assert(creation_of(args, room, member) =~= first + second);
}

/// How the creation of a chat is answered where nothing fails.
pub open spec fn creation_of(
    args: Seq<Seq<char>>,
    room: FluxChatRoomView,
    member: FluxChatUserView,
) -> Seq<EventView> {
    seq![
        EventView::Noted,
        EventView::RoomDrawn(room),
        EventView::Executed(Ok(())),
        EventView::ChatUserDrawn(member),
        EventView::Executed(Ok(())),
        EventView::Executed(Ok(())),
        EventView::Sent(true),
    ] + farewell(args)
}

/// How the relaying of a message is answered up to the recipients where nothing
/// fails.
pub open spec fn way_to_the_recipients(
    chat: FluxChatRoomRowView,
    place: FluxChatUserRowView,
) -> Seq<EventView> {
    seq![EventView::RoomRead(Ok(chat)), EventView::ChatUserRead(Ok(place))]
}

/// Up to the recipients nothing depends on who speaks or what is said: the chat
/// that the sender is in is read, then the sender as the member of it, then its
/// recipients.
proof fn lemma_way_to_the_recipients(
    sender: Seq<char>,
    body: Seq<char>,
    row: BotUserRowView,
    chat: FluxChatRoomRowView,
    place: FluxChatUserRowView,
    rows: Seq<Row>,
    k: nat,
)
    requires
        row.attached_to.len() > 0,
        k <= rows.len(),
        forall|i: int| 0 <= i < k ==> names_user(#[trigger] rows[i]),
        k < rows.len() ==> !names_user(rows[k as int]),
    ensures
        ({
            let turn = TurnView::begin(sender, body);
            let events = introduction(Some(row)) + (way_to_the_recipients(chat, place) + sent_to(
                rows,
                k,
            ));
            &&& run(turn, events).user == speaker(sender, Some(row))
            &&& actions(turn, events) == seq![
                inquiry(sender, Some(row)),
                ActionView::FetchRoom(
                    StatementView {
                        sql: SELECT_FLUX_CHAT_ROOM@,
                        params: seq![ValueView::Text(row.attached_to)],
                    },
                ),
                ActionView::FetchChatUser(
                    StatementView {
                        sql: SELECT_FLUX_CHAT_USER@,
                        params: seq![ValueView::Text(sender), ValueView::Flag(row.as_anon)],
                    },
                ),
                ActionView::FetchRecipients(
                    StatementView {
                        sql: SELECT_RECIPIENTS@,
                        params: seq![ValueView::Text(row.attached_to)],
                    },
                ),
            ] + deliveries(rows, k, body).push(relay_end(rows, k))
        }),
{
    let turn = TurnView::begin(sender, body);
    let way = way_to_the_recipients(chat, place);
    let here = run(turn, introduction(Some(row)));
    let there = run(here, way);
    lemma_introduction(sender, body, Some(row), way + sent_to(rows, k));
    lemma_course(here, way);
    lemma_at(here, way, 0);
    lemma_at(here, way, 1);
    let room = FluxChatRoomView::stored(row.attached_to, chat);
    law_chats_are_found_by_identifier(room);
    assert(there.stage == StageView::Recipients(room));
    lemma_run_in_two_parts(here, way, sent_to(rows, k));
    law_members_get_the_message(there, room, rows, k);
    lemma_speaker_stays(there, sent_to(rows, k));
    let asked = seq![
        inquiry(sender, Some(row)),
        ActionView::FetchRoom(
            StatementView {
                sql: SELECT_FLUX_CHAT_ROOM@,
                params: seq![ValueView::Text(row.attached_to)],
            },
        ),
    ];
    let told = deliveries(rows, k, body).push(relay_end(rows, k));
    assert(actions(here, way) =~= seq![actions(here, way)[0], actions(here, way)[1]]);
    assert(actions(
        turn,
        introduction(Some(row)) + (way + sent_to(rows, k)),
    ) =~= asked + actions(here, way) + told);
    assert(asked + actions(here, way) + told =~= seq![
        asked[0],
        asked[1],
        actions(here, way)[0],
        actions(here, way)[1],
    ] + told);
}

proof fn lemma_speaker_stays(turn: TurnView, events: Seq<EventView>)
    requires
        turn.stage is Recipients || turn.stage is Relay || turn.stage is Over,
    ensures
        run(turn, events).user == turn.user,
        run(turn, events).stage is Recipients || run(turn, events).stage is Relay || run(
            turn,
            events,
        ).stage is Over,
    decreases events.len(),
{
    if events.len() > 0 {
        lemma_speaker_stays(turn, events.drop_last());
    }
}

/// Whoever is in a chat speaks to it, admin or not, anonymous or not, banned or
/// not, and whatever is said: the chat is read, then the sender as a member of
/// it under the own anonymity, then its recipients; each of them is sent the
/// text as it is, in their order, and then the turn is over.
pub proof fn law_whoever_is_in_a_chat_speaks_to_it(
    sender: Seq<char>,
    body: Seq<char>,
    row: BotUserRowView,
    chat: FluxChatRoomRowView,
    place: FluxChatUserRowView,
    ids: Seq<Seq<char>>,
)
    requires
        row.attached_to.len() > 0,
        forall|i: int| 0 <= i < ids.len() ==> is_user_id(#[trigger] ids[i]),
    ensures
        ({
            let turn = TurnView::begin(sender, body);
            let rows = ids.map_values(|id: Seq<char>| Ok::<Seq<char>, Seq<char>>(id));
            let events = introduction(Some(row)) + (way_to_the_recipients(chat, place) + (seq![
                EventView::RecipientsRead(Ok(rows)),
            ] + Seq::new(ids.len(), |i: int| EventView::Sent(true))));
            &&& run(turn, events).user == speaker(sender, Some(row))
            &&& actions(turn, events) == seq![
                inquiry(sender, Some(row)),
                ActionView::FetchRoom(
                    StatementView {
                        sql: SELECT_FLUX_CHAT_ROOM@,
                        params: seq![ValueView::Text(row.attached_to)],
                    },
                ),
                ActionView::FetchChatUser(
                    StatementView {
                        sql: SELECT_FLUX_CHAT_USER@,
                        params: seq![ValueView::Text(sender), ValueView::Flag(row.as_anon)],
                    },
                ),
                ActionView::FetchRecipients(
                    StatementView {
                        sql: SELECT_RECIPIENTS@,
                        params: seq![ValueView::Text(row.attached_to)],
                    },
                ),
            ] + ids.map_values(
                |id: Seq<char>| ActionView::Deliver { user_id: id, text: body },
            ).push(ActionView::Finish)
        }),
{
    let rows = ids.map_values(|id: Seq<char>| Ok::<Seq<char>, Seq<char>>(id));
    assert forall|i: int| 0 <= i < rows.len() implies names_user(#[trigger] rows[i]) by {
        assert(is_user_id(ids[i]));
    }
    lemma_way_to_the_recipients(sender, body, row, chat, place, rows, ids.len());
    assert(deliveries(rows, ids.len(), body) =~= ids.map_values(
        |id: Seq<char>| ActionView::Deliver { user_id: id, text: body },
    ));
    assert(sent_to(rows, ids.len()) =~= seq![EventView::RecipientsRead(Ok(rows))] + Seq::new(
        ids.len(),
        |i: int| EventView::Sent(true),
    ));
}

/// Where a row of recipients cannot be read or names no user, those before it
/// have been sent the text, and the turn ends with that row's error or text.
pub proof fn law_speaking_stops_at_a_bad_row(
    sender: Seq<char>,
    body: Seq<char>,
    row: BotUserRowView,
    chat: FluxChatRoomRowView,
    place: FluxChatUserRowView,
    ids: Seq<Seq<char>>,
    bad: Row,
    others: Seq<Row>,
)
    requires
        row.attached_to.len() > 0,
        forall|i: int| 0 <= i < ids.len() ==> is_user_id(#[trigger] ids[i]),
        bad matches Ok(id) ==> !is_user_id(id),
    ensures
        ({
            let turn = TurnView::begin(sender, body);
            let rows = ids.map_values(|id: Seq<char>| Ok::<Seq<char>, Seq<char>>(id)).push(bad)
                + others;
            let events = introduction(Some(row)) + (way_to_the_recipients(chat, place) + (seq![
                EventView::RecipientsRead(Ok(rows)),
            ] + Seq::new(ids.len(), |i: int| EventView::Sent(true))));
            let n = ids.len() as int;
            &&& actions(turn, events).len() == n + 5
            &&& forall|i: int|
                0 <= i < n ==> #[trigger] actions(turn, events)[i + 4] == (ActionView::Deliver {
                    user_id: ids[i],
                    text: body,
                })
            &&& actions(turn, events)[n + 4] == ActionView::Abort(
                match bad {
                    Ok(id) => FaultView::UserId(id),
                    Err(e) => FaultView::Database(e),
                },
            )
        }),
{
    let rows = ids.map_values(|id: Seq<char>| Ok::<Seq<char>, Seq<char>>(id)).push(bad) + others;
    assert forall|i: int| 0 <= i < ids.len() implies names_user(#[trigger] rows[i]) by {
        assert(is_user_id(ids[i]));
    }
    assert(rows[ids.len() as int] == bad);
    lemma_way_to_the_recipients(sender, body, row, chat, place, rows, ids.len());
    assert(sent_to(rows, ids.len()) =~= seq![EventView::RecipientsRead(Ok(rows))] + Seq::new(
        ids.len(),
        |i: int| EventView::Sent(true),
    ));
    assert forall|i: int| 0 <= i < ids.len() implies #[trigger] deliveries(
        rows,
        ids.len(),
        body,
    )[i] == (ActionView::Deliver { user_id: ids[i], text: body }) by {
        assert(rows[i] == Ok::<Seq<char>, Seq<char>>(ids[i]));
    }
}

/// A chat that is being created is stored as it was drawn, whoever creates it
/// and whatever the options: then its creator becomes a member as that was
/// drawn, is put into the chat under the anonymity that was asked for, with all
/// other columns as they were, and is told.
pub proof fn law_a_drawn_chat_is_stored(
    turn: TurnView,
    creation: Creation,
    room: FluxChatRoomView,
    member: FluxChatUserView,
)
    requires
        turn.stage == StageView::DrawRoom(creation),
    ensures
        ({
            let user = BotUserView {
                attached_to: room.id,
                as_anon: creation.anonymous,
                ..turn.user
            };
            let events = seq![
                EventView::RoomDrawn(room),
                EventView::Executed(Ok(())),
                EventView::ChatUserDrawn(member),
                EventView::Executed(Ok(())),
                EventView::Executed(Ok(())),
            ];
            let asked = actions(turn, events);
            &&& asked.len() == 5
            &&& asked[0] == ActionView::Execute(room.insert())
            &&& asked[1] == (ActionView::DrawChatUser {
                matrix_user: turn.user.matrix_user,
                is_anon: creation.anonymous,
                chat_id: room.id,
            })
            &&& asked[2] == ActionView::Execute(member.insert())
            &&& asked[3] == storing(user)
            &&& asked[4] == ActionView::Reply(
                ReplyView::ChatCreated { id: room.id, display_name: member.display_name },
            )
            &&& run(turn, events).user == user
            &&& run(turn, events).body == turn.body
            &&& run(turn, events).stage == StageView::Reply(creation.options)
        }),
{
    let user = BotUserView { attached_to: room.id, as_anon: creation.anonymous, ..turn.user };
    let events = seq![
        EventView::RoomDrawn(room),
        EventView::Executed(Ok(())),
        EventView::ChatUserDrawn(member),
        EventView::Executed(Ok(())),
        EventView::Executed(Ok(())),
    ];
    law_update_hands_over_all_columns(user);
    lemma_course(turn, events);
    lemma_at(turn, events, 0);
    lemma_at(turn, events, 1);
    lemma_at(turn, events, 2);
    lemma_at(turn, events, 3);
    lemma_at(turn, events, 4);
}

/// After a reply the turn is over, once it has been noted that there were
/// options, where there were.
pub proof fn law_replies_come_last(turn: TurnView, options: ChatCommandOptions)
    requires
        turn.stage == StageView::Reply(options),
    ensures
        ({
            let (next, asked) = turn.advance(EventView::Sent(true));
            &&& next.user == turn.user && next.body == turn.body
            &&& if options.anonymous || options.fuckanons || options.ticket {
                &&& asked == ActionView::Note(NoteView::GotOptions)
                &&& next.advance(EventView::Noted).1 is Finish
                &&& next.advance(EventView::Noted).0.user == turn.user
            } else {
                asked is Finish
            }
        }),
{
}

/// Whether an event is of the kind that a turn waits for.
pub open spec fn awaited(stage: StageView, event: EventView) -> bool {
    match stage {
        StageView::Lookup => event is Found,
        StageView::Load => event is BotUserRead,
        StageView::LoadRoom => event is RoomRead,
        StageView::LoadChatUser(_) => event is ChatUserRead,
        StageView::Recipients(_) => event is RecipientsRead,
        StageView::Used => event is UsedRead,
        StageView::Register
        | StageView::InsertRoom(_, _)
        | StageView::InsertChatUser(_, _, _)
        | StageView::Attach(_, _, _)
        | StageView::UseUp
        | StageView::Promote => event is Executed,
        StageView::DrawRoom(_) => event is RoomDrawn,
        StageView::DrawChatUser(_, _) => event is ChatUserDrawn,
        StageView::Relay(_) | StageView::Reply(_) => event is Sent,
        StageView::Arguments(_) | StageView::Closing => event is Noted,
        StageView::Over => false,
    }
}

/// The error of the database that an event brings.
pub open spec fn database_error(event: EventView) -> Option<Seq<char>> {
    match event {
        EventView::BotUserRead(Err(e)) => Some(e),
        EventView::RoomRead(Err(e)) => Some(e),
        EventView::ChatUserRead(Err(e)) => Some(e),
        EventView::RecipientsRead(Err(e)) => Some(e),
        EventView::UsedRead(Err(e)) => Some(e),
        EventView::Executed(Err(e)) => Some(e),
        _ => None,
    }
}

/// An event of another kind than the turn waits for ends it, as does any event
/// where it is over: the bot cannot go on, and the sender is left as known.
pub proof fn law_unasked_answers_end_the_turn(turn: TurnView, event: EventView)
    requires
        !awaited(turn.stage, event),
    ensures
        turn.advance(event).1 == ActionView::Abort(FaultView::OutOfTurn),
        turn.advance(event).0.stage is Over,
        turn.advance(event).0.user == turn.user,
        turn.advance(event).0.body == turn.body,
{
}

/// An error of the database ends the turn with that error, at whatever stage:
/// it is handed to whoever called the bot where a membership was to be stored,
/// and elsewhere the bot cannot go on. A message that was not sent ends the
/// turn too. The sender is left as known.
pub proof fn law_failures_end_the_turn(turn: TurnView, event: EventView)
    requires
        awaited(turn.stage, event),
        database_error(event) is Some || event == EventView::Sent(false),
    ensures
        turn.advance(event).1 == (match database_error(event) {
            Some(e) => if turn.stage is InsertChatUser {
                ActionView::Fail(e)
            } else {
                ActionView::Abort(FaultView::Database(e))
            },
            None => ActionView::Abort(FaultView::Unsent),
        }),
        turn.advance(event).0.stage is Over,
        turn.advance(event).0.user == turn.user,
        turn.advance(event).0.body == turn.body,
{
}

/// Nothing but a failure makes the bot unable to go on: after an answer of the
/// kind that the turn waits for, that is no error and no unsent message, a turn
/// breaks off only where the next recipient's row cannot be read or names no
/// user.
pub proof fn law_good_answers_are_followed(turn: TurnView, event: EventView)
    requires
        awaited(turn.stage, event),
        database_error(event) is None,
        event != EventView::Sent(false),
        turn.advance(event).1 is Abort || turn.advance(event).1 is Fail,
    ensures
        ({
            let (rows, next) = match (turn.stage, event) {
                (StageView::Relay(delivery), _) => (delivery.recipients, delivery.next as int),
                (_, EventView::RecipientsRead(Ok(rows))) => (rows, 0int),
                _ => (Seq::empty(), 0int),
            };
            &&& 0 <= next < rows.len()
            &&& !names_user(rows[next])
            &&& turn.advance(event).1 == ActionView::Abort(
                match rows[next] {
                    Ok(id) => FaultView::UserId(id),
                    Err(e) => FaultView::Database(e),
                },
            )
        }),
{
}

/// What a turn asks for is what it then waits for.
pub proof fn law_what_is_asked_for_is_awaited(turn: TurnView, event: EventView)
    ensures
        ({
            let (next, asked) = turn.advance(event);
            match asked {
                ActionView::Find(_) => false,
                ActionView::FetchBotUser(_) => next.stage is Load,
                ActionView::FetchRoom(_) => next.stage is LoadRoom,
                ActionView::FetchChatUser(_) => next.stage is LoadChatUser,
                ActionView::FetchRecipients(_) => next.stage is Recipients,
                ActionView::FetchUsed(_) => next.stage is Used,
                ActionView::Execute(_) => next.stage is Register || next.stage is InsertRoom
                    || next.stage is InsertChatUser || next.stage is Attach || next.stage is UseUp
                    || next.stage is Promote,
                ActionView::DrawRoom { .. } => next.stage is DrawRoom,
                ActionView::DrawChatUser { .. } => next.stage is DrawChatUser,
                ActionView::Reply(_) => next.stage is Reply,
                ActionView::Deliver { .. } => next.stage is Relay,
                ActionView::Note(_) => next.stage is Arguments || next.stage is Closing,
                ActionView::Finish | ActionView::Fail(_) | ActionView::Abort(_) => next.stage
                    is Over,
            }
        }),
{
}

/// Once the sender is known, whoever is in a chat has that chat read, and
/// whoever is not has the command followed that the text begins with; no other
/// column has any influence on that. Neither the sender nor the text changes.
pub proof fn law_what_is_asked_for_first(turn: TurnView)
    ensures
        ({
            let (next, asked) = turn.dispatch();
            &&& next.user == turn.user && next.body == turn.body
            &&& turn.user.attached_to.len() > 0 ==> next.stage is LoadRoom && asked
                == ActionView::FetchRoom(
                StatementView {
                    sql: SELECT_FLUX_CHAT_ROOM@,
                    params: seq![ValueView::Text(turn.user.attached_to)],
                },
            )
            &&& turn.user.attached_to.len() == 0 ==> {
                &&& "!help"@.is_prefix_of(turn.body) ==> asked == ActionView::Reply(ReplyView::Help)
                &&& "!chat"@.is_prefix_of(turn.body) && !turn.body.contains(' ') ==> asked
                    == ActionView::Reply(ReplyView::ChatUsage)
                &&& "!chat"@.is_prefix_of(turn.body) && turn.body.contains(' ') ==> asked
                    == ActionView::Note(NoteView::Arguments(words(turn.body))) && next.stage
                    == StageView::Arguments(ChatCommand::of(words(turn.body)))
                &&& "!sumyself"@.is_prefix_of(turn.body) ==> next.stage is Used && asked
                    == ActionView::FetchUsed(
                    StatementView { sql: SELECT_SUMYSELF@, params: Seq::empty() },
                )
                &&& !"!help"@.is_prefix_of(turn.body) && !"!chat"@.is_prefix_of(turn.body)
                    && !"!sumyself"@.is_prefix_of(turn.body) ==> next.stage is Over && asked
                    is Finish
                &&& asked is Reply ==> next.stage == StageView::Reply(
                    ChatCommandOptions { anonymous: false, fuckanons: false, ticket: false },
                )
            }
        }),
{
    lemma_commands(turn.body);
}

/// Once the words of a command have been noted, an admin who asks for a chat
/// has one drawn, whoever that is otherwise; of everyone else it is noted
/// whether there were options, and then the turn is over. Neither the sender
/// nor the text changes.
pub proof fn law_what_a_command_leads_to(turn: TurnView, command: ChatCommand)
    ensures
        ({
            let (next, asked) = turn.chat(command);
            let options = command.options;
            &&& next.user == turn.user && next.body == turn.body
            &&& if turn.user.is_admin && command.create is Some {
                &&& asked == (ActionView::DrawRoom { creator: turn.user.matrix_user })
                &&& next.stage == StageView::DrawRoom(
                    Creation { anonymous: command.create->0, options },
                )
            } else if options.anonymous || options.fuckanons || options.ticket {
                asked == ActionView::Note(NoteView::GotOptions) && next.stage is Closing
            } else {
                asked is Finish && next.stage is Over
            }
        }),
{
}

/// A step of a delivery is performed as it was asked for. Neither the sender nor
/// the text changes.
pub proof fn law_what_a_delivery_leads_to(
    turn: TurnView,
    delivery: DeliveryView,
    step: DeliveryStepView,
)
    ensures
        ({
            let (next, asked) = turn.relay(delivery, step);
            &&& next.user == turn.user && next.body == turn.body
            &&& match step {
                DeliveryStepView::Send { user_id, text } => asked == (ActionView::Deliver {
                    user_id,
                    text,
                }) && next.stage == StageView::Relay(delivery),
                DeliveryStepView::Broken(fault) => asked == ActionView::Abort(fault) && next.stage
                    is Over,
                DeliveryStepView::Done(_) => asked is Finish && next.stage is Over,
            }
        }),
{
}

/// A step is an event, and where something is to be drawn then, what was drawn
/// besides: nothing is drawn where nothing was to be.
pub proof fn law_steps_draw_what_is_to_be_drawn(
    turn: TurnView,
    event: EventView,
    next: TurnView,
    action: ActionView,
)
    ensures
        turn.steps_to(event, next, action) <==> match turn.advance(event).1 {
            ActionView::DrawRoom { creator } => exists|room: FluxChatRoomView|
                room.drawn(creator) && (next, action) == #[trigger] turn.advance(event).0.advance(
                    EventView::RoomDrawn(room),
                ),
            ActionView::DrawChatUser { matrix_user, is_anon, chat_id } => exists|
                member: FluxChatUserView,
            |
                member.drawn(matrix_user, is_anon, chat_id) && (next, action)
                    == #[trigger] turn.advance(event).0.advance(EventView::ChatUserDrawn(member)),
            _ => (next, action) == turn.advance(event),
        },
{
    let here = turn.advance(event).0;
    match turn.advance(event).1 {
        ActionView::DrawRoom { creator } => {
            assert forall|room: FluxChatRoomView| #[trigger]
                here.goes_on(EventView::RoomDrawn(room), next, action) == ((next, action)
                    == here.advance(EventView::RoomDrawn(room))) by {}
            if exists|room: FluxChatRoomView|
                room.drawn(creator) && (next, action) == #[trigger] here.advance(
                    EventView::RoomDrawn(room),
                ) {
                let room = choose|room: FluxChatRoomView|
                    room.drawn(creator) && (next, action) == #[trigger] here.advance(
                        EventView::RoomDrawn(room),
                    );
                assert(here.goes_on(EventView::RoomDrawn(room), next, action));
            }
        },
        ActionView::DrawChatUser { matrix_user, is_anon, chat_id } => {
            if exists|member: FluxChatUserView|
                member.drawn(matrix_user, is_anon, chat_id) && (next, action)
                    == #[trigger] here.advance(EventView::ChatUserDrawn(member)) {
                let member = choose|member: FluxChatUserView|
                    member.drawn(matrix_user, is_anon, chat_id) && (next, action)
                        == #[trigger] here.advance(EventView::ChatUserDrawn(member));
                assert(here.goes_on(EventView::ChatUserDrawn(member), next, action));
            }
        },
        _ => {},
    }
}

/// Turns, replies and notes show all that they hold.
pub proof fn law_turns_show_all_they_hold(turn: Turn, reply: Reply, note: Note)
    ensures
        turn@.user == turn.user@,
        turn@.body == turn.body@,
        turn@.stage == turn.stage@,
        match reply {
            Reply::Help => reply@ is Help,
            Reply::ChatUsage => reply@ is ChatUsage,
            Reply::ChatCreated { id, display_name } => reply@ == (ReplyView::ChatCreated {
                id: id@,
                display_name: display_name@,
            }),
            Reply::Sumyself => reply@ is Sumyself,
        },
        match note {
            Note::Arguments(args) => note@ is Arguments && note@->Arguments_0.len() == args@.len()
                && forall|i: int|
                0 <= i < args@.len() ==> #[trigger] note@->Arguments_0[i] == args@[i]@,
            Note::GotOptions => note@ is GotOptions,
        },
{
}

/// Actions show all that they hold.
pub proof fn law_actions_show_all_they_hold(action: Action)
    ensures
        match action {
            Action::Find(s) => action@ == ActionView::Find(s@),
            Action::FetchBotUser(s) => action@ == ActionView::FetchBotUser(s@),
            Action::FetchRoom(s) => action@ == ActionView::FetchRoom(s@),
            Action::FetchChatUser(s) => action@ == ActionView::FetchChatUser(s@),
            Action::FetchRecipients(s) => action@ == ActionView::FetchRecipients(s@),
            Action::FetchUsed(s) => action@ == ActionView::FetchUsed(s@),
            Action::Execute(s) => action@ == ActionView::Execute(s@),
            Action::DrawRoom { creator } => action@ == (ActionView::DrawRoom {
                creator: creator@,
            }),
            Action::DrawChatUser { matrix_user, is_anon, chat_id } => action@ == (
            ActionView::DrawChatUser { matrix_user: matrix_user@, is_anon, chat_id: chat_id@ }),
            Action::Reply(reply) => action@ == ActionView::Reply(reply@),
            Action::Deliver { user_id, text } => action@ == (ActionView::Deliver {
                user_id: user_id@,
                text: text@,
            }),
            Action::Note(note) => action@ == ActionView::Note(note@),
            Action::Finish => action@ is Finish,
            Action::Fail(e) => action@ == ActionView::Fail(e.message@),
            Action::Abort(fault) => action@ == ActionView::Abort(fault@),
        },
{
}

/// Events show all that they hold.
pub proof fn law_events_show_all_they_hold(event: Event)
    ensures
        match event {
            Event::Found(found) => event@ == EventView::Found(found),
            Event::BotUserRead(Ok(row)) => event@ == EventView::BotUserRead(Ok(row@)),
            Event::RoomRead(Ok(row)) => event@ == EventView::RoomRead(Ok(row@)),
            Event::ChatUserRead(Ok(row)) => event@ == EventView::ChatUserRead(Ok(row@)),
            Event::RecipientsRead(Ok(rows)) => event@ == EventView::RecipientsRead(
                Ok(rows_view(rows@)),
            ),
            Event::UsedRead(Ok(used)) => event@ == EventView::UsedRead(Ok(used)),
            Event::Executed(Ok(_)) => event@ == EventView::Executed(Ok(())),
            Event::BotUserRead(Err(e)) => event@ == EventView::BotUserRead(Err(e.message@)),
            Event::RoomRead(Err(e)) => event@ == EventView::RoomRead(Err(e.message@)),
            Event::ChatUserRead(Err(e)) => event@ == EventView::ChatUserRead(Err(e.message@)),
            Event::RecipientsRead(Err(e)) => event@ == EventView::RecipientsRead(Err(e.message@)),
            Event::UsedRead(Err(e)) => event@ == EventView::UsedRead(Err(e.message@)),
            Event::Executed(Err(e)) => event@ == EventView::Executed(Err(e.message@)),
            Event::RoomDrawn(room) => event@ == EventView::RoomDrawn(room@),
            Event::ChatUserDrawn(member) => event@ == EventView::ChatUserDrawn(member@),
            Event::Sent(sent) => event@ == EventView::Sent(sent),
            Event::Noted => event@ is Noted,
        },
{
}

/// Stages show all that they hold.
pub proof fn law_stages_show_all_they_hold(stage: Stage)
    ensures
        match stage {
            Stage::Lookup => stage@ is Lookup,
            Stage::Load => stage@ is Load,
            Stage::Register => stage@ is Register,
            Stage::LoadRoom => stage@ is LoadRoom,
            Stage::LoadChatUser(room) => stage@ == StageView::LoadChatUser(room@),
            Stage::Recipients(room) => stage@ == StageView::Recipients(room@),
            Stage::Relay(delivery) => stage@ == StageView::Relay(delivery@),
            Stage::Arguments(command) => stage@ == StageView::Arguments(command),
            Stage::DrawRoom(creation) => stage@ == StageView::DrawRoom(creation),
            Stage::InsertRoom(creation, room) => stage@ == StageView::InsertRoom(creation, room@),
            Stage::DrawChatUser(creation, room) => stage@ == StageView::DrawChatUser(
                creation,
                room@,
            ),
            Stage::InsertChatUser(creation, room, member) => stage@ == StageView::InsertChatUser(
                creation,
                room@,
                member@,
            ),
            Stage::Attach(creation, room, member) => stage@ == StageView::Attach(
                creation,
                room@,
                member@,
            ),
            Stage::Used => stage@ is Used,
            Stage::UseUp => stage@ is UseUp,
            Stage::Promote => stage@ is Promote,
            Stage::Reply(options) => stage@ == StageView::Reply(options),
            Stage::Closing => stage@ is Closing,
            Stage::Over => stage@ is Over,
        },
{
}

} // verus!
