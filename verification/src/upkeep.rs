//! What a turn does to the tables of the database.

use crate::database::{statement, ValueView, UPDATE_SUMYSELF};
use crate::laws::{
    actions, law_steps_are_runs, lemma_run_of_one_or_two, run, steps_by, Exchange, Row,
};
use crate::rooms::{DeliveryView, FluxChatRoomView};
use crate::tables::{
    flag, law_new_chats_get_a_row, law_new_members_get_a_row, law_new_users_get_a_row,
    law_right_is_used_up, law_updates_are_read_back, law_updates_set_all_columns,
    law_users_are_found_by_identifier, text, Tables,
};
use crate::turn::{ActionView, Command, EventView, ReplyView, StageView, TurnView};
use crate::users::{BotUserView, FluxChatUserView, FIND_BOT_USER};
use vstd::prelude::*;
use vstd::seq_lib::{to_multiset_build, to_multiset_contains};

verus! {

/// What a turn has asked for last.
pub open spec fn asked(turn: TurnView, events: Seq<EventView>) -> ActionView {
    if events.len() == 0 {
        ActionView::Find(
            statement(FIND_BOT_USER@, seq![ValueView::Text(turn.user.matrix_user)]),
        )
    } else {
        run(turn, events.drop_last()).advance(events.last()).1
    }
}

/// How many of the rows fit.
pub open spec fn count<A>(rows: Seq<A>, fits: spec_fn(A) -> bool) -> nat
    decreases rows.len(),
{
    if rows.len() == 0 {
        0
    } else {
        count(rows.drop_last(), fits) + if fits(rows.last()) {
            1nat
        } else {
            0nat
        }
    }
}

impl Tables {
    /// Whether an event can be the answer to what was asked: what is read is
    /// what the tables hold, and what is drawn is what was to be drawn.
    ///
    /// The database may fail at any time, and so may a message. A row of
    /// recipients may be unreadable. A search for the sender that fails counts
    /// as one that found nobody, so that this may also be the answer where the
    /// sender has a row.
    pub open spec fn answer(self, asked: ActionView, event: EventView) -> bool {
        match (asked, event) {
            (ActionView::Find(s), EventView::Found(found)) => found ==> self.bot_user(
                text(s, 0),
            ) is Some,
            (ActionView::FetchBotUser(s), EventView::BotUserRead(Ok(row))) => self.bot_user(
                text(s, 0),
            ) == Some(BotUserView::stored(text(s, 0), row)),
            (ActionView::FetchRoom(s), EventView::RoomRead(Ok(row))) => self.flux_chat_room(
                text(s, 0),
            ) == Some(FluxChatRoomView::stored(text(s, 0), row)),
            (ActionView::FetchChatUser(s), EventView::ChatUserRead(Ok(row))) => self.flux_chat_user(
                text(s, 0),
                flag(s, 1),
            ) == Some(FluxChatUserView::stored(text(s, 0), row)),
            (ActionView::FetchRecipients(s), EventView::RecipientsRead(Ok(rows))) => self.joins(
                rows,
                text(s, 0),
            ),
            (ActionView::FetchUsed(_), EventView::UsedRead(Ok(used))) => used == self.used,
            (ActionView::FetchBotUser(_), EventView::BotUserRead(Err(_))) => true,
            (ActionView::FetchRoom(_), EventView::RoomRead(Err(_))) => true,
            (ActionView::FetchChatUser(_), EventView::ChatUserRead(Err(_))) => true,
            (ActionView::FetchRecipients(_), EventView::RecipientsRead(Err(_))) => true,
            (ActionView::FetchUsed(_), EventView::UsedRead(Err(_))) => true,
            (ActionView::Execute(_), EventView::Executed(_)) => true,
            (ActionView::DrawRoom { creator }, EventView::RoomDrawn(room)) => room.drawn(creator),
            (
                ActionView::DrawChatUser { matrix_user, is_anon, chat_id },
                EventView::ChatUserDrawn(member),
            ) => member.drawn(matrix_user, is_anon, chat_id),
            (ActionView::Reply(_), EventView::Sent(_)) => true,
            (ActionView::Deliver { .. }, EventView::Sent(_)) => true,
            (ActionView::Note(_), EventView::Noted) => true,
            _ => false,
        }
    }

    /// The tables after an event: where it says that a statement was run, what
    /// that did to them.
    pub open spec fn after(self, asked: ActionView, event: EventView) -> Tables {
        match (asked, event) {
            (ActionView::Execute(s), EventView::Executed(Ok(_))) => self.run(s),
            _ => self,
        }
    }

    /// Whether a user is in a chat, as one of its members.
    pub open spec fn in_chat(self, matrix_user: Seq<char>, chat_id: Seq<char>) -> bool {
        exists|i: int, j: int|
            #![trigger self.bot_users[i], self.flux_chat_users[j]]
            {
                &&& 0 <= i < self.bot_users.len()
                &&& 0 <= j < self.flux_chat_users.len()
                &&& self.bot_users[i].matrix_user == matrix_user
                &&& self.bot_users[i].attached_to == chat_id
                &&& self.flux_chat_users[j].matrix_user == matrix_user
                &&& self.flux_chat_users[j].is_anon == self.bot_users[i].as_anon
                &&& self.flux_chat_users[j].chat_id == chat_id
            }
    }

    /// How many rows of members a row of a user goes with, where that user is in
    /// a chat: those of the same user, under the same anonymity, in that chat.
    pub open spec fn seats(self, user: BotUserView, chat_id: Seq<char>) -> nat {
        count(
            self.flux_chat_users,
            |row: FluxChatUserView|
                row.matrix_user == user.matrix_user && row.is_anon == user.as_anon && row.chat_id
                    == chat_id && user.attached_to == chat_id,
        )
    }

    /// How many pairs there are of a row of a user and a row of a member that
    /// put that user into a chat.
    pub open spec fn pairs(self, matrix_user: Seq<char>, chat_id: Seq<char>) -> nat
        decreases self.bot_users.len(),
    {
        if self.bot_users.len() == 0 {
            0
        } else {
            let user = self.bot_users.last();
            let earlier = Tables { bot_users: self.bot_users.drop_last(), ..self };
            earlier.pairs(matrix_user, chat_id) + if user.matrix_user == matrix_user {
                self.seats(user, chat_id)
            } else {
                0
            }
        }
    }

    /// Whether these can be the rows of the recipients in a chat: one for each
    /// pair of a row of a user and a row of a member that put that user into
    /// it, except where one cannot be read.
    pub open spec fn joins(self, rows: Seq<Row>, chat_id: Seq<char>) -> bool {
        &&& forall|id: Seq<char>|
            #[trigger] rows.to_multiset().count(Ok(id)) <= self.pairs(id, chat_id)
        &&& (forall|i: int| 0 <= i < rows.len() ==> (#[trigger] rows[i]) is Ok) ==> forall|
            id: Seq<char>,
        | #[trigger]
            rows.to_multiset().count(Ok(id)) == self.pairs(id, chat_id)
    }

    /// Whether a user is an admin. Who has no row is none.
    pub open spec fn is_admin(self, matrix_user: Seq<char>) -> bool {
        self.bot_user(matrix_user) matches Some(row) && row.is_admin
    }

    /// What is known of a user: the row, or nothing but the identifier.
    pub open spec fn known(self, matrix_user: Seq<char>) -> BotUserView {
        match self.bot_user(matrix_user) {
            Some(row) => row,
            None => BotUserView::fresh(matrix_user),
        }
    }
}

/// The tables after the events of a turn.
pub open spec fn tables_after(tables: Tables, turn: TurnView, events: Seq<EventView>) -> Tables
    decreases events.len(),
{
    if events.len() == 0 {
        tables
    } else {
        tables_after(tables, turn, events.drop_last()).after(
            asked(turn, events.drop_last()),
            events.last(),
        )
    }
}

/// Whether each of the events of a turn can be the answer to what the turn had
/// asked for, as the tables were at that time.
pub open spec fn honest(tables: Tables, turn: TurnView, events: Seq<EventView>) -> bool
    decreases events.len(),
{
    events.len() == 0 || {
        &&& honest(tables, turn, events.drop_last())
        &&& tables_after(tables, turn, events.drop_last()).answer(
            asked(turn, events.drop_last()),
            events.last(),
        )
    }
}

/// Whether the search for the sender found nobody.
pub open spec fn sender_missed(events: Seq<EventView>) -> bool {
    events.len() > 0 && events[0] == EventView::Found(false)
}

/// Whether the search for the sender did not fail: it found nobody only where
/// the sender has no row.
pub open spec fn searched(tables: Tables, sender: Seq<char>, events: Seq<EventView>) -> bool {
    sender_missed(events) ==> tables.bot_user(sender) is None
}

/// What a turn takes its sender for: what is known of the sender, or nobody
/// special where the search missed the sender.
pub open spec fn taken_for(tables: Tables, sender: Seq<char>, missed: bool) -> BotUserView {
    if missed {
        BotUserView::fresh(sender)
    } else {
        tables.known(sender)
    }
}

/// Whether a message takes over the bot: it is a `!sumyself` of someone who is
/// taken for being in no chat, and nobody has taken over before.
pub open spec fn claims(tables: Tables, sender: Seq<char>, missed: bool, body: Seq<char>) -> bool {
    Command::of(body) == Command::Sumyself && taken_for(tables, sender, missed).attached_to.len()
        == 0 && !tables.used
}

/// The tables once the sender has a row: a new one where the search missed the
/// sender.
pub open spec fn enrolled(tables: Tables, sender: Seq<char>, missed: bool) -> Tables {
    if missed {
        Tables { bot_users: tables.bot_users.push(BotUserView::fresh(sender)), ..tables }
    } else {
        tables
    }
}

/// The tables with a chat more.
pub open spec fn with_chat(tables: Tables, room: FluxChatRoomView) -> Tables {
    Tables { flux_chat_rooms: tables.flux_chat_rooms.push(room), ..tables }
}

/// The tables with a chat and its first member more.
pub open spec fn with_member(
    tables: Tables,
    room: FluxChatRoomView,
    member: FluxChatUserView,
) -> Tables {
    Tables {
        flux_chat_rooms: tables.flux_chat_rooms.push(room),
        flux_chat_users: tables.flux_chat_users.push(member),
        ..tables
    }
}

/// The tables with a chat and its first member more, who is in it.
pub open spec fn with_creator(
    tables: Tables,
    user: BotUserView,
    room: FluxChatRoomView,
    member: FluxChatUserView,
) -> Tables {
    with_member(tables, room, member).with_columns(in_room(user, room, member))
}

/// A user who is in a chat as a member of it.
pub open spec fn in_room(
    user: BotUserView,
    room: FluxChatRoomView,
    member: FluxChatUserView,
) -> BotUserView {
    BotUserView { attached_to: room.id, as_anon: member.is_anon, ..user }
}

/// The tables after someone has taken over.
pub open spec fn taken_over(tables: Tables, user: BotUserView) -> Tables {
    Tables { used: true, ..tables }.with_columns(BotUserView { is_admin: true, ..user })
}

/// Whether this can be left of the tables by a message that does not take
/// over: the sender may have got a row, and an admin in no chat may have got
/// some way towards a chat.
pub open spec fn grown(tables: Tables, sender: Seq<char>, missed: bool, left: Tables) -> bool {
    let user = taken_for(tables, sender, missed);
    let with_sender = enrolled(tables, sender, missed);
    ||| left == tables
    ||| left == with_sender
    ||| {
        &&& user.is_admin
        &&& user.attached_to.len() == 0
        &&& {
            ||| exists|room: FluxChatRoomView| left == #[trigger] with_chat(with_sender, room)
            ||| exists|room: FluxChatRoomView, member: FluxChatUserView|
                left == #[trigger] with_member(with_sender, room, member) && member.drawn(
                    sender,
                    member.is_anon,
                    room.id,
                )
            ||| exists|room: FluxChatRoomView, member: FluxChatUserView|
                left == #[trigger] with_creator(with_sender, user, room, member) && member.drawn(
                    sender,
                    member.is_anon,
                    room.id,
                )
        }
    }
}

/// Whether this can be left of the tables by a message that was dealt with to
/// the end.
pub open spec fn settled(
    tables: Tables,
    sender: Seq<char>,
    missed: bool,
    body: Seq<char>,
    left: Tables,
) -> bool {
    if claims(tables, sender, missed, body) {
        left == taken_over(enrolled(tables, sender, missed), taken_for(tables, sender, missed))
    } else {
        grown(tables, sender, missed, left)
    }
}

/// Whether this can be left of the tables at any time of a turn.
pub open spec fn changed(
    tables: Tables,
    sender: Seq<char>,
    missed: bool,
    body: Seq<char>,
    left: Tables,
) -> bool {
    ||| grown(tables, sender, missed, left)
    ||| claims(tables, sender, missed, body) && left == (Tables {
        used: true,
        ..enrolled(tables, sender, missed)
    })
    ||| claims(tables, sender, missed, body) && left == taken_over(
        enrolled(tables, sender, missed),
        taken_for(tables, sender, missed),
    )
}

/// What holds at each stage of a turn of the sender, of what was asked for
/// last, and of what is left of the tables.
spec fn keeps(
    tables: Tables,
    sender: Seq<char>,
    missed: bool,
    body: Seq<char>,
    now: TurnView,
    asked: ActionView,
    left: Tables,
) -> bool {
    let user = taken_for(tables, sender, missed);
    let with_sender = enrolled(tables, sender, missed);
    let alone = user.attached_to.len() == 0;
    let chat = alone && Command::of(body) == Command::Chat;
    let sumyself = alone && Command::of(body) == Command::Sumyself;
    &&& now.body == body
    &&& now.stage is Lookup || missed || tables.bot_user(sender) is Some
    &&& match now.stage {
        StageView::Lookup => {
            &&& left == tables
            &&& now.user == BotUserView::fresh(sender)
            &&& asked matches ActionView::Find(s) && text(s, 0) == sender
        },
        StageView::Load => {
            &&& left == tables
            &&& now.user == BotUserView::fresh(sender)
            &&& !missed && tables.bot_user(sender) is Some
            &&& asked matches ActionView::FetchBotUser(s) && text(s, 0) == sender
        },
        StageView::Register => {
            &&& left == tables
            &&& now.user == BotUserView::fresh(sender)
            &&& missed
            &&& asked == ActionView::Execute(now.user.insert())
        },
        StageView::LoadRoom => left == with_sender && !alone && now.user == user
            && asked is FetchRoom,
        StageView::LoadChatUser(_) => left == with_sender && !alone && now.user == user
            && asked is FetchChatUser,
        StageView::Recipients(_) => left == with_sender && !alone && now.user == user
            && asked is FetchRecipients,
        StageView::Relay(_) => left == with_sender && !alone && now.user == user
            && asked is Deliver,
        StageView::Arguments(_) => left == with_sender && chat && now.user == user && asked is Note,
        StageView::DrawRoom(_) => left == with_sender && chat && now.user == user && user.is_admin
            && asked == ActionView::DrawRoom { creator: sender },
        StageView::InsertRoom(_, room) => left == with_sender && chat && now.user == user
            && user.is_admin && asked == ActionView::Execute(room.insert()),
        StageView::DrawChatUser(creation, room) => {
            &&& left == with_chat(with_sender, room)
            &&& chat && now.user == user && user.is_admin
            &&& asked == ActionView::DrawChatUser {
                matrix_user: sender,
                is_anon: creation.anonymous,
                chat_id: room.id,
            }
        },
        StageView::InsertChatUser(creation, room, member) => {
            &&& left == with_chat(with_sender, room)
            &&& chat && now.user == user && user.is_admin
            &&& asked == ActionView::Execute(member.insert())
            &&& member.drawn(sender, creation.anonymous, room.id)
        },
        StageView::Attach(creation, room, member) => {
            &&& left == with_member(with_sender, room, member)
            &&& chat && now.user == in_room(user, room, member) && user.is_admin
            &&& asked == ActionView::Execute(now.user.update())
            &&& member.drawn(sender, creation.anonymous, room.id)
        },
        StageView::Used => left == with_sender && sumyself && now.user == user
            && asked is FetchUsed,
        StageView::UseUp => {
            &&& left == with_sender && sumyself && now.user == user && !tables.used
            &&& asked matches ActionView::Execute(s) && s == statement(UPDATE_SUMYSELF@, Seq::empty())
        },
        StageView::Promote => {
            &&& left == (Tables { used: true, ..with_sender })
            &&& sumyself && !tables.used
            &&& now.user == (BotUserView { is_admin: true, ..user })
            &&& asked == ActionView::Execute(now.user.update())
        },
        StageView::Reply(_) => settled(tables, sender, missed, body, left) && alone && asked is Reply,
        StageView::Closing => settled(tables, sender, missed, body, left) && alone && asked is Note,
        StageView::Over => {
            &&& changed(tables, sender, missed, body, left)
            &&& (asked is Finish || asked is Fail) ==> settled(tables, sender, missed, body, left)
            &&& asked is Finish || asked is Fail || asked is Abort
        },
    }
}
/// What holds at a stage holds at the next.
proof fn lemma_keeps(
    tables: Tables,
    sender: Seq<char>,
    missed: bool,
    body: Seq<char>,
    was: TurnView,
    asked: ActionView,
    left: Tables,
    event: EventView,
)
    requires
        keeps(tables, sender, missed, body, was, asked, left),
        left.answer(asked, event),
        was.stage is Lookup ==> missed == (event == EventView::Found(false)),
    ensures
        keeps(
            tables,
            sender,
            missed,
            body,
            was.advance(event).0,
            was.advance(event).1,
            left.after(asked, event),
        ),
{
    let user = taken_for(tables, sender, missed);
    let with_sender = enrolled(tables, sender, missed);
    law_users_are_found_by_identifier(tables, sender);
    match was.stage {
        StageView::Register => {
            law_new_users_get_a_row(left, BotUserView::fresh(sender));
            assert(left.run(was.user.insert()) == with_sender);
        },
        StageView::InsertRoom(_, room) => {
            law_new_chats_get_a_row(left, room);
            assert(left.run(room.insert()) == with_chat(with_sender, room));
        },
        StageView::InsertChatUser(_, room, member) => {
            law_new_members_get_a_row(left, member);
            assert(left.run(member.insert()) == with_member(with_sender, room, member));
            assert(left == with_chat(with_sender, room));
        },
        StageView::Attach(_, room, member) => {
            law_updates_set_all_columns(left, was.user);
            assert(left.run(was.user.update()) == with_creator(with_sender, user, room, member));
            assert(left == with_member(with_sender, room, member));
        },
        StageView::UseUp => {
            law_right_is_used_up(left);
        },
        StageView::Promote => {
            law_updates_set_all_columns(left, was.user);
        },
        _ => {},
    }
}

proof fn lemma_keeps_all_along(
    tables: Tables,
    sender: Seq<char>,
    body: Seq<char>,
    events: Seq<EventView>,
)
    requires
        honest(tables, TurnView::begin(sender, body), events),
    ensures
        ({
            let turn = TurnView::begin(sender, body);
            keeps(
                tables,
                sender,
                sender_missed(events),
                body,
                run(turn, events),
                asked(turn, events),
                tables_after(tables, turn, events),
            )
        }),
        run(TurnView::begin(sender, body), events).stage is Lookup ==> events.len() == 0,
    decreases events.len(),
{
    let turn = TurnView::begin(sender, body);
    if events.len() > 0 {
        let before = events.drop_last();
        lemma_keeps_all_along(tables, sender, body, before);
        if before.len() > 0 {
            assert(before[0] == events[0]);
        }
        lemma_keeps(
            tables,
            sender,
            sender_missed(events),
            body,
            run(turn, before),
            asked(turn, before),
            tables_after(tables, turn, before),
            events.last(),
        );
    }
}

/// Whether a turn has been dealt with to the end.
pub open spec fn dealt_with(turn: TurnView, events: Seq<EventView>) -> bool {
    asked(turn, events) is Finish || asked(turn, events) is Fail
}

/// A turn does nothing to the tables but what its message is for. It gives a
/// sender whom the search missed a row. For an admin it stores a chat, then the admin as a member,
/// then that the admin is in it. For who takes over it uses up the right to,
/// then stores the new admin. Whatever fails, it stops between two of these;
/// and a message that takes over and is dealt with to the end has done both.
pub proof fn law_turns_do_nothing_else(
    tables: Tables,
    sender: Seq<char>,
    body: Seq<char>,
    events: Seq<EventView>,
)
    requires
        honest(tables, TurnView::begin(sender, body), events),
    ensures
        ({
            let turn = TurnView::begin(sender, body);
            let left = tables_after(tables, turn, events);
            let missed = sender_missed(events);
            &&& changed(tables, sender, missed, body, left)
            &&& dealt_with(turn, events) ==> settled(tables, sender, missed, body, left)
        }),
{
    let turn = TurnView::begin(sender, body);
    let left = tables_after(tables, turn, events);
    let missed = sender_missed(events);
    lemma_keeps_all_along(tables, sender, body, events);
    let now = run(turn, events);
    match now.stage {
        StageView::DrawChatUser(_, room) => {
            assert(left == with_chat(enrolled(tables, sender, missed), room));
        },
        StageView::InsertChatUser(_, room, _) => {
            assert(left == with_chat(enrolled(tables, sender, missed), room));
        },
        StageView::Attach(_, room, member) => {
            assert(left == with_member(enrolled(tables, sender, missed), room, member));
        },
        _ => {},
    }
}

/// What the changes of a turn do to the row of anyone.
proof fn lemma_bot_user_after(
    tables: Tables,
    sender: Seq<char>,
    missed: bool,
    body: Seq<char>,
    left: Tables,
    other: Seq<char>,
)
    requires
        changed(tables, sender, missed, body, left),
        missed || tables.bot_user(sender) is Some,
    ensures
        other != sender ==> left.bot_user(other) == tables.bot_user(other),
        tables.is_admin(other) ==> left.is_admin(other),
        tables.used ==> left.used,
        grown(tables, sender, missed, left) ==> left.used == tables.used && left.is_admin(other)
            == tables.is_admin(other),
        left == taken_over(
            enrolled(tables, sender, missed),
            taken_for(tables, sender, missed),
        ) ==> left.used && left.is_admin(sender),
{
    let user = taken_for(tables, sender, missed);
    let with_sender = enrolled(tables, sender, missed);
    law_users_are_found_by_identifier(tables, sender);
    if missed {
        assert(with_sender.bot_users.drop_last() =~= tables.bot_users);
    }
    assert(with_sender.bot_user(sender) == (if tables.bot_user(sender) is Some {
        tables.bot_user(sender)
    } else {
        Some(user)
    }));
    assert(other != sender ==> with_sender.bot_user(other) == tables.bot_user(other));
    let promoted = BotUserView { is_admin: true, ..user };
    let owned = Tables { used: true, ..with_sender };
    assert(owned.bot_user(sender) == with_sender.bot_user(sender));
    assert(owned.bot_user(other) == with_sender.bot_user(other));
    law_updates_are_read_back(owned, promoted, other);
    law_updates_set_all_columns(owned, promoted);
    assert forall|room: FluxChatRoomView, member: FluxChatUserView|
        left == #[trigger] with_creator(with_sender, user, room, member) implies (other != sender
        ==> left.bot_user(other) == with_sender.bot_user(other)) && left.bot_user(sender) == Some(
        in_room(user, room, member),
    ) && left.used == tables.used by {
        let joined = with_member(with_sender, room, member);
        assert(joined.bot_user(sender) == with_sender.bot_user(sender));
        assert(joined.bot_user(other) == with_sender.bot_user(other));
        law_updates_are_read_back(joined, in_room(user, room, member), other);
        law_updates_set_all_columns(joined, in_room(user, room, member));
    }
}

/// One message takes over, the first `!sumyself` of someone who is taken for
/// being in no chat, and the right to is used up with it. Where a message has
/// been dealt with to the end, the right is used up where it was before or the
/// message takes over, and an admin is who was one before, or who takes over.
pub proof fn law_admins_are_who_took_over(
    tables: Tables,
    sender: Seq<char>,
    body: Seq<char>,
    events: Seq<EventView>,
    other: Seq<char>,
)
    requires
        honest(tables, TurnView::begin(sender, body), events),
        dealt_with(TurnView::begin(sender, body), events),
    ensures
        ({
            let left = tables_after(tables, TurnView::begin(sender, body), events);
            let claim = claims(tables, sender, sender_missed(events), body);
            &&& left.used == (tables.used || claim)
            &&& left.is_admin(other) == (tables.is_admin(other) || other == sender && claim)
        }),
{
    let left = tables_after(tables, TurnView::begin(sender, body), events);
    law_turns_do_nothing_else(tables, sender, body, events);
    lemma_keeps_all_along(tables, sender, body, events);
    lemma_bot_user_after(tables, sender, sender_missed(events), body, left, other);
}

/// Where the search for the sender did not fail, a message takes over where it
/// is a `!sumyself`, the sender is in no chat by the tables, and nobody has
/// taken over before.
pub proof fn law_who_takes_over(
    tables: Tables,
    sender: Seq<char>,
    body: Seq<char>,
    events: Seq<EventView>,
)
    requires
        searched(tables, sender, events),
    ensures
        taken_for(tables, sender, sender_missed(events)) == tables.known(sender),
        claims(tables, sender, sender_missed(events), body) <==> Command::of(body)
            == Command::Sumyself && tables.known(sender).attached_to.len() == 0 && !tables.used,
{
}

/// At no time of a turn is anyone an admin no longer, or is the right to take
/// over free again; and of anyone but the sender what is read is as before.
pub proof fn law_nobody_loses_anything(
    tables: Tables,
    sender: Seq<char>,
    body: Seq<char>,
    events: Seq<EventView>,
    other: Seq<char>,
)
    requires
        honest(tables, TurnView::begin(sender, body), events),
    ensures
        ({
            let left = tables_after(tables, TurnView::begin(sender, body), events);
            &&& tables.is_admin(other) ==> left.is_admin(other)
            &&& tables.used ==> left.used
            &&& other != sender ==> left.bot_user(other) == tables.bot_user(other)
        }),
{
    let left = tables_after(tables, TurnView::begin(sender, body), events);
    law_turns_do_nothing_else(tables, sender, body, events);
    lemma_keeps_all_along(tables, sender, body, events);
    if events.len() > 0 {
        lemma_bot_user_after(tables, sender, sender_missed(events), body, left, other);
    }
}

impl Tables {
    /// Whether no user has two rows.
    pub open spec fn one_row_each(self) -> bool {
        forall|i: int, j: int|
            0 <= i < j < self.bot_users.len() ==> (#[trigger] self.bot_users[i]).matrix_user != (
            #[trigger] self.bot_users[j]).matrix_user
    }

    /// Whether a chat is stored under an identifier.
    pub open spec fn has_chat(self, id: Seq<char>) -> bool {
        exists|i: int|
            0 <= i < self.flux_chat_rooms.len() && (#[trigger] self.flux_chat_rooms[i]).id == id
    }

    /// Whether a user is stored as a member of a chat, anonymous or not.
    pub open spec fn has_member(self, matrix_user: Seq<char>, is_anon: bool, id: Seq<char>) -> bool {
        exists|i: int|
            0 <= i < self.flux_chat_users.len() && {
                let row = #[trigger] self.flux_chat_users[i];
                row.matrix_user == matrix_user && row.is_anon == is_anon && row.chat_id == id
            }
    }

    /// Whether whoever is in a chat is in one that is stored, as a member of it
    /// that is stored.
    pub open spec fn attachments_stored(self) -> bool {
        forall|i: int|
            0 <= i < self.bot_users.len() && self.bot_users[i].attached_to.len() > 0 ==> {
                let row = #[trigger] self.bot_users[i];
                self.has_chat(row.attached_to) && self.has_member(
                    row.matrix_user,
                    row.as_anon,
                    row.attached_to,
                )
            }
    }

    /// Whether the tables hold what others held: every row at its place, those
    /// of chats and members as they were, those of users too but for the
    /// sender's, which keeps its identifier; and at most one row more in each,
    /// that of users the sender's.
    pub open spec fn keeps_rows(self, earlier: Tables, sender: Seq<char>) -> bool {
        &&& earlier.bot_users.len() <= self.bot_users.len() <= earlier.bot_users.len() + 1
        &&& forall|i: int|
            0 <= i < earlier.bot_users.len() ==> {
                let row = earlier.bot_users[i];
                let now = #[trigger] self.bot_users[i];
                &&& row.matrix_user != sender ==> now == row
                &&& now.matrix_user == row.matrix_user
            }
        &&& self.bot_users.len() > earlier.bot_users.len() ==> self.bot_users.last().matrix_user
            == sender
        &&& earlier.flux_chat_rooms.is_prefix_of(self.flux_chat_rooms)
        &&& self.flux_chat_rooms.len() <= earlier.flux_chat_rooms.len() + 1
        &&& earlier.flux_chat_users.is_prefix_of(self.flux_chat_users)
        &&& self.flux_chat_users.len() <= earlier.flux_chat_users.len() + 1
    }

    /// Whether the rows of users that others held have kept their ticket rooms
    /// and whether they are banned.
    pub open spec fn keeps_columns(self, earlier: Tables) -> bool {
        forall|i: int|
            0 <= i < earlier.bot_users.len() ==> {
                let row = earlier.bot_users[i];
                let now = #[trigger] self.bot_users[i];
                now.ticket_room == row.ticket_room && now.is_banned == row.is_banned
            }
    }
}

/// Where no user has two rows, the row that is found is the only one.
proof fn lemma_only_row(tables: Tables, sender: Seq<char>)
    requires
        tables.one_row_each(),
    ensures
        forall|i: int|
            0 <= i < tables.bot_users.len() && (#[trigger] tables.bot_users[i]).matrix_user
                == sender ==> tables.bot_user(sender) == Some(tables.bot_users[i]),
{
    law_users_are_found_by_identifier(tables, sender);
    assert forall|i: int|
        0 <= i < tables.bot_users.len() && (#[trigger] tables.bot_users[i]).matrix_user
            == sender implies tables.bot_user(sender) == Some(tables.bot_users[i]) by {
        let row = tables.bot_user(sender)->0;
        let j = choose|j: int| 0 <= j < tables.bot_users.len() && tables.bot_users[j] == row;
        assert(i == j);
    }
}

/// Storing the columns of a user moves no row, and changes none of another.
proof fn lemma_columns_stored(tables: Tables, user: BotUserView)
    ensures
        tables.with_columns(user).bot_users.len() == tables.bot_users.len(),
        forall|i: int|
            0 <= i < tables.bot_users.len() ==> #[trigger] tables.with_columns(user).bot_users[i]
                == (if tables.bot_users[i].matrix_user == user.matrix_user {
                user
            } else {
                tables.bot_users[i]
            }),
{
}

/// No row is lost in a turn, at any time of it and whatever fails: rows of
/// chats and members stay as they were, rows of users too but for the
/// sender's, which keeps its identifier. Each of the three tables gets one row
/// at most, that of users the sender's, and only where the search missed the
/// sender. The sender's row keeps its ticket room and whether it is banned,
/// where it is the only one and the search did not fail.
pub proof fn law_rows_are_kept(
    tables: Tables,
    sender: Seq<char>,
    body: Seq<char>,
    events: Seq<EventView>,
)
    requires
        honest(tables, TurnView::begin(sender, body), events),
    ensures
        ({
            let left = tables_after(tables, TurnView::begin(sender, body), events);
            &&& left.keeps_rows(tables, sender)
            &&& left.bot_users.len() > tables.bot_users.len() ==> sender_missed(events)
            &&& tables.one_row_each() && searched(tables, sender, events) ==> left.keeps_columns(
                tables,
            )
        }),
{
    let left = tables_after(tables, TurnView::begin(sender, body), events);
    let missed = sender_missed(events);
    let user = taken_for(tables, sender, missed);
    let with_sender = enrolled(tables, sender, missed);
    let plain = tables.one_row_each() && searched(tables, sender, events);
    law_turns_do_nothing_else(tables, sender, body, events);
    law_users_are_found_by_identifier(tables, sender);
    if plain {
        lemma_only_row(tables, sender);
    }
    lemma_columns_stored(
        Tables { used: true, ..with_sender },
        BotUserView { is_admin: true, ..user },
    );
    assert forall|room: FluxChatRoomView, member: FluxChatUserView|
        left == #[trigger] with_creator(with_sender, user, room, member) implies left.keeps_rows(
        tables,
        sender,
    ) && left.bot_users.len() == with_sender.bot_users.len() && (plain ==> left.keeps_columns(
        tables,
    )) by {
        lemma_columns_stored(with_member(with_sender, room, member), in_room(user, room, member));
    }
}

/// Rows of chats and members that come behind the others leave every
/// attachment stored.
proof fn lemma_stored_with_more(tables: Tables, more: Tables)
    requires
        tables.attachments_stored(),
        more.bot_users == tables.bot_users,
        tables.flux_chat_rooms.is_prefix_of(more.flux_chat_rooms),
        tables.flux_chat_users.is_prefix_of(more.flux_chat_users),
    ensures
        more.attachments_stored(),
{
    assert forall|i: int|
        0 <= i < more.bot_users.len() && more.bot_users[i].attached_to.len() > 0 implies {
        let row = #[trigger] more.bot_users[i];
        more.has_chat(row.attached_to) && more.has_member(
            row.matrix_user,
            row.as_anon,
            row.attached_to,
        )
    } by {
        let row = tables.bot_users[i];
        assert(tables.has_chat(row.attached_to));
        let j = choose|j: int|
            0 <= j < tables.flux_chat_rooms.len() && (#[trigger] tables.flux_chat_rooms[j]).id
                == row.attached_to;
        assert(more.flux_chat_rooms[j] == tables.flux_chat_rooms[j]);
        let k = choose|k: int|
            0 <= k < tables.flux_chat_users.len() && {
                let member = #[trigger] tables.flux_chat_users[k];
                member.matrix_user == row.matrix_user && member.is_anon == row.as_anon
                    && member.chat_id == row.attached_to
            };
        assert(more.flux_chat_users[k] == tables.flux_chat_users[k]);
    }
}

/// Columns that put a user into no chat, or into a stored one as a stored
/// member, leave every attachment stored.
proof fn lemma_stored_with_columns(tables: Tables, user: BotUserView)
    requires
        tables.attachments_stored(),
        user.attached_to.len() > 0 ==> tables.has_chat(user.attached_to) && tables.has_member(
            user.matrix_user,
            user.as_anon,
            user.attached_to,
        ),
    ensures
        tables.with_columns(user).attachments_stored(),
{
    let left = tables.with_columns(user);
    lemma_columns_stored(tables, user);
    assert forall|i: int|
        0 <= i < left.bot_users.len() && left.bot_users[i].attached_to.len() > 0 implies {
        let row = #[trigger] left.bot_users[i];
        left.has_chat(row.attached_to) && left.has_member(
            row.matrix_user,
            row.as_anon,
            row.attached_to,
        )
    } by {
        let row = left.bot_users[i];
        assert(tables.has_chat(row.attached_to));
        assert(tables.has_member(row.matrix_user, row.as_anon, row.attached_to));
        assert(left.flux_chat_rooms == tables.flux_chat_rooms);
        assert(left.flux_chat_users == tables.flux_chat_users);
    }
}

/// A new row of the sender leaves every attachment stored.
proof fn lemma_stored_with_sender(tables: Tables, sender: Seq<char>, missed: bool)
    requires
        tables.attachments_stored(),
    ensures
        enrolled(tables, sender, missed).attachments_stored(),
{
    let left = enrolled(tables, sender, missed);
    assert forall|i: int|
        0 <= i < left.bot_users.len() && left.bot_users[i].attached_to.len() > 0 implies {
        let row = #[trigger] left.bot_users[i];
        left.has_chat(row.attached_to) && left.has_member(
            row.matrix_user,
            row.as_anon,
            row.attached_to,
        )
    } by {
        let row = tables.bot_users[i];
        assert(tables.has_chat(row.attached_to));
        assert(tables.has_member(row.matrix_user, row.as_anon, row.attached_to));
        assert(left.flux_chat_rooms == tables.flux_chat_rooms);
        assert(left.flux_chat_users == tables.flux_chat_users);
    }
}

/// What holds of the tables of users, chats and members together is kept in a
/// turn, at any time of it and whatever fails: whoever is in a chat is in one
/// that is stored, as a member of it that is stored.
pub proof fn law_attachments_stay_stored(
    tables: Tables,
    sender: Seq<char>,
    body: Seq<char>,
    events: Seq<EventView>,
)
    requires
        tables.attachments_stored(),
        honest(tables, TurnView::begin(sender, body), events),
    ensures
        tables_after(tables, TurnView::begin(sender, body), events).attachments_stored(),
{
    let left = tables_after(tables, TurnView::begin(sender, body), events);
    let missed = sender_missed(events);
    let user = taken_for(tables, sender, missed);
    let with_sender = enrolled(tables, sender, missed);
    law_turns_do_nothing_else(tables, sender, body, events);
    law_users_are_found_by_identifier(tables, sender);
    lemma_stored_with_sender(tables, sender, missed);
    assert forall|room: FluxChatRoomView|
        left == #[trigger] with_chat(with_sender, room) implies left.attachments_stored() by {
        lemma_stored_with_more(with_sender, left);
    }
    assert forall|room: FluxChatRoomView, member: FluxChatUserView|
        left == #[trigger] with_member(with_sender, room, member) implies left.attachments_stored() by {
        lemma_stored_with_more(with_sender, left);
    }
    assert forall|room: FluxChatRoomView, member: FluxChatUserView|
        left == #[trigger] with_creator(with_sender, user, room, member) && member.drawn(
            sender,
            member.is_anon,
            room.id,
        ) implies left.attachments_stored() by {
        let joined = with_member(with_sender, room, member);
        lemma_stored_with_more(with_sender, joined);
        assert(joined.flux_chat_rooms.last() == room);
        assert(joined.flux_chat_users.last() == member);
        lemma_stored_with_columns(joined, in_room(user, room, member));
    }
    if claims(tables, sender, missed, body) {
        let owned = Tables { used: true, ..with_sender };
        lemma_stored_with_more(with_sender, owned);
        lemma_stored_with_columns(owned, BotUserView { is_admin: true, ..user });
    }
}

/// No user gets a second row, at any time of a turn, where the search for the
/// sender did not fail.
pub proof fn law_users_keep_to_one_row(
    tables: Tables,
    sender: Seq<char>,
    body: Seq<char>,
    events: Seq<EventView>,
)
    requires
        tables.one_row_each(),
        honest(tables, TurnView::begin(sender, body), events),
        searched(tables, sender, events),
    ensures
        tables_after(tables, TurnView::begin(sender, body), events).one_row_each(),
{
    let left = tables_after(tables, TurnView::begin(sender, body), events);
    law_rows_are_kept(tables, sender, body, events);
    law_users_are_found_by_identifier(tables, sender);
    assert forall|i: int, j: int| 0 <= i < j < left.bot_users.len() implies (
    #[trigger] left.bot_users[i]).matrix_user != (#[trigger] left.bot_users[j]).matrix_user by {
        assert(tables.bot_users[i].matrix_user == left.bot_users[i].matrix_user);
        if j < tables.bot_users.len() {
            assert(tables.bot_users[j].matrix_user == left.bot_users[j].matrix_user);
        }
    }
}

/// How often a turn has asked for a text to be delivered to a user.
pub open spec fn times_told(
    turn: TurnView,
    events: Seq<EventView>,
    user_id: Seq<char>,
    text: Seq<char>,
) -> nat {
    actions(turn, events).to_multiset().count(ActionView::Deliver { user_id, text })
}

/// Who is told after an event was told before, or is told with it.
proof fn lemma_times_told(
    turn: TurnView,
    events: Seq<EventView>,
    user_id: Seq<char>,
    text: Seq<char>,
)
    ensures
        times_told(turn, events, user_id, text) == (if events.len() == 0 {
            0
        } else {
            times_told(turn, events.drop_last(), user_id, text) + if asked(turn, events) == (
            ActionView::Deliver { user_id, text }) {
                1nat
            } else {
                0nat
            }
        }),
{
    if events.len() == 0 {
        to_multiset_contains(
            actions(turn, events),
            ActionView::Deliver { user_id, text },
        );
    } else {
        to_multiset_build(actions(turn, events.drop_last()), asked(turn, events));
    }
}

/// What comes first among some rows comes as often among all of them, or more
/// often.
proof fn lemma_count_up_to(rows: Seq<Row>, k: int, row: Row)
    requires
        0 <= k <= rows.len(),
    ensures
        rows.take(k).to_multiset().count(row) <= rows.to_multiset().count(row),
        k < rows.len() ==> rows.take(k + 1).to_multiset().count(row) == rows.take(
            k,
        ).to_multiset().count(row) + if rows[k] == row {
            1nat
        } else {
            0nat
        },
    decreases rows.len() - k,
{
    if k < rows.len() {
        lemma_count_up_to(rows, k + 1, row);
        to_multiset_build(rows.take(k), rows[k]);
        assert(rows.take(k + 1) =~= rows.take(k).push(rows[k]));
    } else {
        assert(rows.take(k) =~= rows);
    }
}

proof fn lemma_count<A>(rows: Seq<A>, fits: spec_fn(A) -> bool)
    ensures
        count(rows, fits) > 0 <==> exists|i: int| 0 <= i < rows.len() && fits(#[trigger] rows[i]),
    decreases rows.len(),
{
    if rows.len() > 0 {
        let earlier = rows.drop_last();
        lemma_count(earlier, fits);
        if count(earlier, fits) > 0 {
            let i = choose|i: int| 0 <= i < earlier.len() && fits(#[trigger] earlier[i]);
            assert(rows[i] == earlier[i]);
        } else if exists|i: int| 0 <= i < rows.len() && fits(#[trigger] rows[i]) {
            let i = choose|i: int| 0 <= i < rows.len() && fits(#[trigger] rows[i]);
            if i < earlier.len() {
                assert(earlier[i] == rows[i]);
            }
        }
        if fits(rows.last()) {
            assert(rows[rows.len() - 1] == rows.last());
        }
    }
}

/// Who is in a chat is who some pair of rows puts into it.
pub proof fn law_pairs_put_users_into_chats(
    tables: Tables,
    matrix_user: Seq<char>,
    chat_id: Seq<char>,
)
    ensures
        tables.pairs(matrix_user, chat_id) > 0 <==> tables.in_chat(matrix_user, chat_id),
    decreases tables.bot_users.len(),
{
    let users = tables.bot_users;
    let members = tables.flux_chat_users;
    if users.len() > 0 {
        let user = users.last();
        let earlier = Tables { bot_users: users.drop_last(), ..tables };
        let fits = |row: FluxChatUserView|
            row.matrix_user == user.matrix_user && row.is_anon == user.as_anon && row.chat_id
                == chat_id && user.attached_to == chat_id;
        law_pairs_put_users_into_chats(earlier, matrix_user, chat_id);
        lemma_count(members, fits);
        assert(tables.seats(user, chat_id) == count(members, fits));
        if tables.in_chat(matrix_user, chat_id) {
            let (i, j) = choose|i: int, j: int|
                #![trigger tables.bot_users[i], tables.flux_chat_users[j]]
                {
                    &&& 0 <= i < tables.bot_users.len()
                    &&& 0 <= j < tables.flux_chat_users.len()
                    &&& tables.bot_users[i].matrix_user == matrix_user
                    &&& tables.bot_users[i].attached_to == chat_id
                    &&& tables.flux_chat_users[j].matrix_user == matrix_user
                    &&& tables.flux_chat_users[j].is_anon == tables.bot_users[i].as_anon
                    &&& tables.flux_chat_users[j].chat_id == chat_id
                };
            if i < users.len() - 1 {
                assert(earlier.bot_users[i] == users[i] && earlier.flux_chat_users[j]
                    == members[j]);
            } else {
                assert(fits(members[j]));
            }
        }
        if earlier.in_chat(matrix_user, chat_id) {
            let (i, j) = choose|i: int, j: int|
                #![trigger earlier.bot_users[i], earlier.flux_chat_users[j]]
                {
                    &&& 0 <= i < earlier.bot_users.len()
                    &&& 0 <= j < earlier.flux_chat_users.len()
                    &&& earlier.bot_users[i].matrix_user == matrix_user
                    &&& earlier.bot_users[i].attached_to == chat_id
                    &&& earlier.flux_chat_users[j].matrix_user == matrix_user
                    &&& earlier.flux_chat_users[j].is_anon == earlier.bot_users[i].as_anon
                    &&& earlier.flux_chat_users[j].chat_id == chat_id
                };
            assert(tables.bot_users[i] == earlier.bot_users[i] && tables.flux_chat_users[j]
                == earlier.flux_chat_users[j]);
        }
        if user.matrix_user == matrix_user && tables.seats(user, chat_id) > 0 {
            let j = choose|j: int| 0 <= j < members.len() && fits(#[trigger] members[j]);
            assert(tables.bot_users[users.len() - 1] == user && tables.flux_chat_users[j]
                == members[j]);
        }
    }
}

/// What holds of a turn of someone in a chat at each of its stages: of those
/// whom it has told something, how often, and of those whom it has not told
/// yet.
spec fn relayed(
    tables: Tables,
    chat_id: Seq<char>,
    turn: TurnView,
    events: Seq<EventView>,
) -> bool {
    let now = run(turn, events);
    &&& forall|id: Seq<char>, text: Seq<char>|
        text != turn.body ==> #[trigger] times_told(turn, events, id, text) == 0
    &&& match now.stage {
        StageView::Relay(delivery) => {
            &&& delivery.message == turn.body
            &&& delivery.next <= delivery.recipients.len()
            &&& tables.joins(delivery.recipients, chat_id)
            &&& forall|k: int|
                0 <= k < delivery.next ==> (#[trigger] delivery.recipients[k]) is Ok
            &&& forall|id: Seq<char>| #[trigger]
                times_told(turn, events, id, turn.body) == delivery.recipients.take(
                    delivery.next as int,
                ).to_multiset().count(Ok(id))
        },
        StageView::Over => {
            &&& forall|id: Seq<char>| #[trigger]
                times_told(turn, events, id, turn.body) <= tables.pairs(id, chat_id)
            &&& asked(turn, events) is Finish ==> forall|id: Seq<char>| #[trigger]
                times_told(turn, events, id, turn.body) == tables.pairs(id, chat_id)
        },
        _ => {
            &&& forall|id: Seq<char>| #[trigger] times_told(turn, events, id, turn.body) == 0
            &&& now.stage matches StageView::LoadChatUser(room) ==> room.id == chat_id
            &&& now.stage matches StageView::Recipients(room) ==> room.id == chat_id && asked(
                turn,
                events,
            ) == ActionView::FetchRecipients(room.recipients())
        },
    }
}

/// A turn that has told the first of the recipients goes on to the next.
proof fn lemma_tells_the_next(
    tables: Tables,
    chat_id: Seq<char>,
    turn: TurnView,
    events: Seq<EventView>,
    delivery: DeliveryView,
)
    requires
        events.len() > 0,
        delivery.message == turn.body,
        delivery.next <= delivery.recipients.len(),
        tables.joins(delivery.recipients, chat_id),
        forall|k: int| 0 <= k < delivery.next ==> (#[trigger] delivery.recipients[k]) is Ok,
        forall|id: Seq<char>, text: Seq<char>|
            text != turn.body ==> #[trigger] times_told(turn, events.drop_last(), id, text) == 0,
        forall|id: Seq<char>| #[trigger]
            times_told(turn, events.drop_last(), id, turn.body) == delivery.recipients.take(
                delivery.next as int,
            ).to_multiset().count(Ok(id)),
        (run(turn, events), asked(turn, events)) == run(turn, events.drop_last()).relay(
            delivery.after(delivery.step()),
            delivery.step(),
        ),
    ensures
        relayed(tables, chat_id, turn, events),
{
    let before = events.drop_last();
    let rows = delivery.recipients;
    let k = delivery.next as int;
    assert forall|id: Seq<char>, text: Seq<char>|
        text != turn.body implies #[trigger] times_told(turn, events, id, text) == 0 by {
        lemma_times_told(turn, events, id, text);
        assert(times_told(turn, before, id, text) == 0);
    }
    assert forall|id: Seq<char>| #[trigger]
        times_told(turn, events, id, turn.body) == (if delivery.step() is Send {
            rows.take(k + 1).to_multiset().count(Ok(id))
        } else {
            rows.take(k).to_multiset().count(Ok(id))
        }) && rows.take(k).to_multiset().count(Ok(id)) <= tables.pairs(id, chat_id) by {
        lemma_times_told(turn, events, id, turn.body);
        assert(times_told(turn, before, id, turn.body) == rows.take(k).to_multiset().count(
            Ok(id),
        ));
        lemma_count_up_to(rows, k, Ok(id));
        assert(rows.to_multiset().count(Ok(id)) <= tables.pairs(id, chat_id));
    }
    if k == rows.len() {
        assert(rows.take(k) =~= rows);
        assert forall|id: Seq<char>| #[trigger]
            times_told(turn, events, id, turn.body) == tables.pairs(id, chat_id) by {
            assert(rows.to_multiset().count(Ok(id)) == tables.pairs(id, chat_id));
        }
    }
}

proof fn lemma_relayed(tables: Tables, sender: Seq<char>, body: Seq<char>, events: Seq<EventView>)
    requires
        honest(tables, TurnView::begin(sender, body), events),
        taken_for(tables, sender, sender_missed(events)).attached_to.len() > 0,
    ensures
        relayed(
            tables,
            taken_for(tables, sender, sender_missed(events)).attached_to,
            TurnView::begin(sender, body),
            events,
        ),
    decreases events.len(),
{
    let turn = TurnView::begin(sender, body);
    let chat_id = taken_for(tables, sender, sender_missed(events)).attached_to;
    if events.len() == 0 {
        assert forall|id: Seq<char>, text: Seq<char>| #[trigger]
            times_told(turn, events, id, text) == 0 by {
            lemma_times_told(turn, events, id, text);
        }
    } else {
        let before = events.drop_last();
        let was = run(turn, before);
        let now = run(turn, events);
        if before.len() > 0 {
            assert(before[0] == events[0]);
        }
        lemma_relayed(tables, sender, body, before);
        lemma_keeps_all_along(tables, sender, body, before);
        lemma_keeps_all_along(tables, sender, body, events);
        match (was.stage, events.last()) {
            (StageView::Recipients(room), EventView::RecipientsRead(Ok(rows))) => {
                let delivery = DeliveryView { message: body, recipients: rows, next: 0 };
                assert forall|id: Seq<char>| #[trigger]
                    times_told(turn, before, id, body) == rows.take(0).to_multiset().count(
                        Ok(id),
                    ) by {
                    to_multiset_contains(rows.take(0), Ok(id));
                }
                lemma_tells_the_next(tables, chat_id, turn, events, delivery);
            },
            (StageView::Relay(delivery), EventView::Sent(true)) => {
                lemma_tells_the_next(tables, chat_id, turn, events, delivery);
            },
            _ => {
                assert forall|id: Seq<char>, text: Seq<char>| #[trigger]
                    times_told(turn, events, id, text) == times_told(turn, before, id, text) by {
                    lemma_times_told(turn, events, id, text);
                }
                if let StageView::Relay(delivery) = was.stage {
                    let rows = delivery.recipients;
                    assert forall|id: Seq<char>| #[trigger]
                        times_told(turn, events, id, body) <= tables.pairs(id, chat_id) by {
                        lemma_count_up_to(rows, delivery.next as int, Ok(id));
                        assert(rows.to_multiset().count(Ok(id)) <= tables.pairs(id, chat_id));
                        assert(times_told(turn, before, id, body) <= tables.pairs(id, chat_id));
                    }
                }
            },
        }
    }
}

/// What someone in a chat says is told word for word, and to nobody more often
/// than there are pairs of a row of a user and a row of a member that put that
/// user into the chat; and where the turn comes to its end, everyone has been
/// told exactly as often.
pub proof fn law_messages_reach_the_chat(
    tables: Tables,
    sender: Seq<char>,
    body: Seq<char>,
    events: Seq<EventView>,
)
    requires
        honest(tables, TurnView::begin(sender, body), events),
        taken_for(tables, sender, sender_missed(events)).attached_to.len() > 0,
    ensures
        ({
            let turn = TurnView::begin(sender, body);
            let chat_id = taken_for(tables, sender, sender_missed(events)).attached_to;
            &&& forall|id: Seq<char>, text: Seq<char>| #[trigger]
                times_told(turn, events, id, text) <= (if text == body {
                    tables.pairs(id, chat_id)
                } else {
                    0
                })
            &&& asked(turn, events) is Finish ==> forall|id: Seq<char>| #[trigger]
                times_told(turn, events, id, body) == tables.pairs(id, chat_id)
        }),
{
    let turn = TurnView::begin(sender, body);
    let chat_id = taken_for(tables, sender, sender_missed(events)).attached_to;
    lemma_relayed(tables, sender, body, events);
    lemma_keeps_all_along(tables, sender, body, events);
    if let StageView::Relay(delivery) = run(turn, events).stage {
        let rows = delivery.recipients;
        assert forall|id: Seq<char>| #[trigger]
            times_told(turn, events, id, body) <= tables.pairs(id, chat_id) by {
            lemma_count_up_to(rows, delivery.next as int, Ok(id));
            assert(rows.to_multiset().count(Ok(id)) <= tables.pairs(id, chat_id));
        }
    }
    assert forall|id: Seq<char>, text: Seq<char>| #[trigger]
        times_told(turn, events, id, text) <= (if text == body {
            tables.pairs(id, chat_id)
        } else {
            0
        }) by {
        assert(times_told(turn, events, id, turn.body) <= tables.pairs(id, chat_id));
    }
}

/// Nobody is told anything by a message of someone who is in no chat.
pub proof fn law_commands_are_told_to_nobody(
    tables: Tables,
    sender: Seq<char>,
    body: Seq<char>,
    events: Seq<EventView>,
    user_id: Seq<char>,
    text: Seq<char>,
)
    requires
        honest(tables, TurnView::begin(sender, body), events),
        taken_for(tables, sender, sender_missed(events)).attached_to.len() == 0,
    ensures
        times_told(TurnView::begin(sender, body), events, user_id, text) == 0,
{
    lemma_told_nobody(tables, sender, body, events, events, user_id, text);
}

/// The same of the first events of a turn.
proof fn lemma_told_nobody(
    tables: Tables,
    sender: Seq<char>,
    body: Seq<char>,
    events: Seq<EventView>,
    so_far: Seq<EventView>,
    user_id: Seq<char>,
    text: Seq<char>,
)
    requires
        so_far.is_prefix_of(events),
        honest(tables, TurnView::begin(sender, body), so_far),
        taken_for(tables, sender, sender_missed(events)).attached_to.len() == 0,
    ensures
        times_told(TurnView::begin(sender, body), so_far, user_id, text) == 0,
    decreases so_far.len(),
{
    let turn = TurnView::begin(sender, body);
    lemma_times_told(turn, so_far, user_id, text);
    if so_far.len() > 0 {
        lemma_told_nobody(tables, sender, body, events, so_far.drop_last(), user_id, text);
        lemma_keeps_all_along(tables, sender, body, so_far);
        assert(so_far[0] == events[0]);
    }
}

/// Who is told that a chat was created is in it, and was an admin before.
pub proof fn law_creators_are_in_their_chat(
    tables: Tables,
    sender: Seq<char>,
    body: Seq<char>,
    events: Seq<EventView>,
    id: Seq<char>,
    display_name: Seq<char>,
)
    requires
        honest(tables, TurnView::begin(sender, body), events),
        asked(TurnView::begin(sender, body), events) == ActionView::Reply(
            ReplyView::ChatCreated { id, display_name },
        ),
    ensures
        tables.is_admin(sender),
        tables_after(tables, TurnView::begin(sender, body), events).in_chat(sender, id),
{
    let turn = TurnView::begin(sender, body);
    let before = events.drop_last();
    let was = run(turn, before);
    let earlier = tables_after(tables, turn, before);
    let left = tables_after(tables, turn, events);
    lemma_keeps_all_along(tables, sender, body, before);
    law_users_are_found_by_identifier(tables, sender);
    law_updates_set_all_columns(earlier, was.user);
    lemma_columns_stored(earlier, was.user);
    let rows = earlier.bot_users;
    let user = tables.known(sender);
    if before.len() > 0 {
        assert(before[0] == events[0]);
    }
    assert(tables.bot_users.contains(user));
    let i = choose|i: int| 0 <= i < rows.len() && rows[i] == user;
    let j = earlier.flux_chat_users.len() - 1;
    assert(left.bot_users[i] == was.user);
    assert(left.flux_chat_users[j] == was.stage->Attach_2);
}

/// The tables after the turns of some messages, one after the other.
pub open spec fn tables_at(tables: Tables, log: Seq<Exchange>) -> Tables
    decreases log.len(),
{
    if log.len() == 0 {
        tables
    } else {
        tables_after(tables_at(tables, log.drop_last()), log.last().turn(), log.last().events)
    }
}

/// Whether in the turns of some messages, one after the other, each event can
/// be the answer to what was asked for.
pub open spec fn all_honest(tables: Tables, log: Seq<Exchange>) -> bool
    decreases log.len(),
{
    log.len() == 0 || {
        &&& all_honest(tables, log.drop_last())
        &&& honest(tables_at(tables, log.drop_last()), log.last().turn(), log.last().events)
    }
}

/// Whether in the turns of some messages no search for the sender failed.
pub open spec fn all_searched(tables: Tables, log: Seq<Exchange>) -> bool
    decreases log.len(),
{
    log.len() == 0 || {
        &&& all_searched(tables, log.drop_last())
        &&& searched(tables_at(tables, log.drop_last()), log.last().sender, log.last().events)
    }
}

/// However many messages there are, whoever is in a chat is in one that is
/// stored, as a member of it that is stored; and no user gets a second row,
/// where no search for a sender failed.
pub proof fn law_tables_stay_sound(tables: Tables, log: Seq<Exchange>)
    requires
        all_honest(tables, log),
    ensures
        tables.attachments_stored() ==> tables_at(tables, log).attachments_stored(),
        tables.one_row_each() && all_searched(tables, log) ==> tables_at(
            tables,
            log,
        ).one_row_each(),
    decreases log.len(),
{
    if log.len() > 0 {
        let last = log.last();
        let earlier = tables_at(tables, log.drop_last());
        law_tables_stay_sound(tables, log.drop_last());
        if tables.attachments_stored() {
            law_attachments_stay_stored(earlier, last.sender, last.body, last.events);
        }
        if tables.one_row_each() && all_searched(tables, log) {
            law_users_keep_to_one_row(earlier, last.sender, last.body, last.events);
        }
    }
}

/// The turns of the first messages are answered as the turns of all are.
proof fn lemma_honest_up_to(tables: Tables, log: Seq<Exchange>, k: int)
    requires
        all_honest(tables, log),
        0 <= k <= log.len(),
    ensures
        all_honest(tables, log.take(k)),
    decreases log.len(),
{
    if k == log.len() {
        assert(log.take(k) =~= log);
    } else {
        lemma_honest_up_to(tables, log.drop_last(), k);
        assert(log.drop_last().take(k) =~= log.take(k));
    }
}

/// A right that is used up stays so.
proof fn lemma_used_for_ever(tables: Tables, log: Seq<Exchange>, k: int)
    requires
        all_honest(tables, log),
        0 <= k <= log.len(),
        tables_at(tables, log.take(k)).used,
    ensures
        tables_at(tables, log).used,
    decreases log.len(),
{
    if k == log.len() {
        assert(log.take(k) =~= log);
    } else {
        let last = log.last();
        let earlier = tables_at(tables, log.drop_last());
        assert(log.drop_last().take(k) =~= log.take(k));
        lemma_used_for_ever(tables, log.drop_last(), k);
        law_nobody_loses_anything(earlier, last.sender, last.body, last.events, last.sender);
    }
}

/// The bot is taken over once, however many messages there are: after a
/// message that takes over and is dealt with to the end, none does.
pub proof fn law_the_bot_is_taken_over_once(tables: Tables, log: Seq<Exchange>, i: int, j: int)
    requires
        all_honest(tables, log),
        0 <= i < j < log.len(),
        claims(
            tables_at(tables, log.take(i)),
            log[i].sender,
            sender_missed(log[i].events),
            log[i].body,
        ),
        dealt_with(log[i].turn(), log[i].events),
    ensures
        !claims(
            tables_at(tables, log.take(j)),
            log[j].sender,
            sender_missed(log[j].events),
            log[j].body,
        ),
{
    let first = log.take(i + 1);
    let at = log[i];
    assert(first.drop_last() =~= log.take(i));
    lemma_honest_up_to(tables, log, i + 1);
    law_admins_are_who_took_over(
        tables_at(tables, log.take(i)),
        at.sender,
        at.body,
        at.events,
        at.sender,
    );
    lemma_honest_up_to(tables, log, j);
    assert(log.take(j).take(i + 1) =~= first);
    lemma_used_for_ever(tables, log.take(j), i + 1);
}

/// A turn on its way: what is left of it, what it has asked for last, and what
/// is left of the tables.
pub struct Stop {
    pub turn: TurnView,
    pub action: ActionView,
    pub tables: Tables,
}

/// Whether events lead from the beginning of a turn to a stop of it, and each
/// can be the answer to what was asked for.
pub open spec fn leads_to(
    tables: Tables,
    turn: TurnView,
    events: Seq<EventView>,
    stop: Stop,
) -> bool {
    &&& honest(tables, turn, events)
    &&& run(turn, events) == stop.turn
    &&& asked(turn, events) == stop.action
    &&& tables_after(tables, turn, events) == stop.tables
}

/// Whether a turn steps from its beginning from one stop to the next, each time
/// at an event that can be the answer to what was asked for.
pub open spec fn walks(
    tables: Tables,
    turn: TurnView,
    stops: Seq<Stop>,
    events: Seq<EventView>,
) -> bool {
    &&& stops.len() == events.len() + 1
    &&& stops[0] == (Stop { turn, action: asked(turn, Seq::empty()), tables })
    &&& forall|i: int| 0 <= i < events.len() ==> #[trigger] steps_on(stops, events, i)
}

/// Whether a turn steps from the stop with an index to the next.
pub open spec fn steps_on(stops: Seq<Stop>, events: Seq<EventView>, i: int) -> bool {
    let here = stops[i];
    let next = stops[i + 1];
    &&& here.tables.answer(here.action, events[i])
    &&& here.turn.steps_to(events[i], next.turn, next.action)
    &&& next.tables == here.tables.after(here.action, events[i])
}

/// One event more.
proof fn lemma_one_more(tables: Tables, turn: TurnView, events: Seq<EventView>, event: EventView)
    requires
        honest(tables, turn, events),
        tables_after(tables, turn, events).answer(asked(turn, events), event),
    ensures
        leads_to(
            tables,
            turn,
            events.push(event),
            Stop {
                turn: run(turn, events).advance(event).0,
                action: run(turn, events).advance(event).1,
                tables: tables_after(tables, turn, events).after(asked(turn, events), event),
            },
        ),
{
    assert(events.push(event).drop_last() =~= events);
}

/// What the bot does in steps is a run: to every stop of a turn that steps,
/// each time at an event that can be the answer to what was asked for, events
/// lead, each of which can be the answer to what was asked for. So what holds
/// of all such events holds of all such steps.
pub proof fn law_walks_are_honest_runs(
    tables: Tables,
    turn: TurnView,
    stops: Seq<Stop>,
    events: Seq<EventView>,
    k: int,
)
    requires
        walks(tables, turn, stops, events),
        0 <= k < stops.len(),
    ensures
        exists|all: Seq<EventView>| #[trigger] leads_to(tables, turn, all, stops[k]),
    decreases k,
{
    if k == 0 {
        assert(leads_to(tables, turn, Seq::empty(), stops[0]));
    } else {
        law_walks_are_honest_runs(tables, turn, stops, events, k - 1);
        let before = choose|all: Seq<EventView>| #[trigger]
            leads_to(tables, turn, all, stops[k - 1]);
        assert(steps_on(stops, events, k - 1));
        lemma_one_step_more(tables, turn, before, events[k - 1], stops[k - 1], stops[k]);
    }
}

/// What a step draws can be the answer to what was to be drawn, and leaves the
/// tables as they are.
proof fn lemma_drawn(tables: Tables, turn: TurnView, event: EventView, events: Seq<EventView>)
    requires
        steps_by(turn, event, events),
        events.len() == 2,
    ensures
        tables.answer(turn.advance(event).1, events[1]),
        tables.after(turn.advance(event).1, events[1]) == tables,
{
    let question = turn.advance(event).1;
    assert(question is DrawRoom || question is DrawChatUser);
}

/// One event more, and what it makes the turn draw.
proof fn lemma_two_more(
    tables: Tables,
    turn: TurnView,
    before: Seq<EventView>,
    event: EventView,
    step: Seq<EventView>,
    here: Stop,
)
    requires
        leads_to(tables, turn, before, here),
        here.tables.answer(here.action, event),
        steps_by(here.turn, event, step),
        step.len() == 2,
    ensures
        leads_to(
            tables,
            turn,
            before.push(event).push(step[1]),
            Stop {
                turn: here.turn.advance(event).0.advance(step[1]).0,
                action: here.turn.advance(event).0.advance(step[1]).1,
                tables: here.tables.after(here.action, event),
            },
        ),
{
    let left = here.tables.after(here.action, event);
    lemma_one_more(tables, turn, before, event);
    lemma_drawn(left, here.turn, event, step);
    lemma_one_more(tables, turn, before.push(event), step[1]);
}

#[verifier::spinoff_prover]
#[verifier::rlimit(30)]
proof fn lemma_one_step_more(
    tables: Tables,
    turn: TurnView,
    before: Seq<EventView>,
    event: EventView,
    here: Stop,
    next: Stop,
)
    requires
        leads_to(tables, turn, before, here),
        here.tables.answer(here.action, event),
        here.turn.steps_to(event, next.turn, next.action),
        next.tables == here.tables.after(here.action, event),
    ensures
        exists|all: Seq<EventView>| #[trigger] leads_to(tables, turn, all, next),
{
    law_steps_are_runs(here.turn, event, next.turn, next.action);
    let step = choose|events: Seq<EventView>| #[trigger]
        steps_by(here.turn, event, events) && run(here.turn, events) == next.turn && actions(
            here.turn,
            events,
        ).last() == next.action;
    if step.len() == 2 {
        assert(step =~= seq![event, step[1]]);
        lemma_run_of_one_or_two(here.turn, event, step[1]);
        lemma_two_more(tables, turn, before, event, step, here);
        assert(leads_to(tables, turn, before.push(event).push(step[1]), next));
    } else {
        assert(step =~= seq![event]);
        lemma_run_of_one_or_two(here.turn, event, event);
        lemma_one_more(tables, turn, before, event);
        assert(leads_to(tables, turn, before.push(event), next));
    }
}

} // verus!
