//! What holds of every turn, whatever the outside world answers.

use crate::database::{statement, StatementView, ValueView, SELECT_SUMYSELF, UPDATE_SUMYSELF};
use crate::options::ChatCommand;
use crate::rooms::{
    is_user_id, DeliveryView, FaultView, FluxChatRoomView, INSERT_FLUX_CHAT_ROOM,
    SELECT_FLUX_CHAT_ROOM,
};
use crate::tables::lemma_texts_differ;
use crate::turn::{
    ActionView, Command, EventView, ReplyView, StageView, TurnView, CHAT, HELP, SUMYSELF,
};
use crate::users::{
    law_bot_user_reads_back, BotUserRowView, BotUserView, FluxChatUserView, INSERT_BOT_USER,
    INSERT_FLUX_CHAT_USER, UPDATE_BOT_USER,
};
use vstd::prelude::*;

verus! {

/// The turn that is left once all events have been taken into account.
pub open spec fn run(turn: TurnView, events: Seq<EventView>) -> TurnView
    decreases events.len(),
{
    if events.len() == 0 {
        turn
    } else {
        run(turn, events.drop_last()).advance(events.last()).0
    }
}

/// What a turn asks for after each of the events.
pub open spec fn actions(turn: TurnView, events: Seq<EventView>) -> Seq<ActionView>
    decreases events.len(),
{
    if events.len() == 0 {
        Seq::empty()
    } else {
        actions(turn, events.drop_last()).push(
            run(turn, events.drop_last()).advance(events.last()).1,
        )
    }
}

/// The actions are as many as the events, and each is asked for by the turn
/// that the events before have left.
proof fn lemma_actions(turn: TurnView, events: Seq<EventView>)
    ensures
        actions(turn, events).len() == events.len(),
        forall|i: int|
            #![trigger actions(turn, events)[i]]
            0 <= i < events.len() ==> actions(turn, events)[i] == run(turn, events.take(i)).advance(
                events[i],
            ).1,
    decreases events.len(),
{
    if events.len() > 0 {
        let before = events.drop_last();
        lemma_actions(turn, before);
        assert forall|i: int|
            #![trigger actions(turn, events)[i]]
            0 <= i < events.len() implies actions(turn, events)[i] == run(
            turn,
            events.take(i),
        ).advance(events[i]).1 by {
            if i < before.len() {
                assert(actions(turn, events)[i] == actions(turn, before)[i]);
                assert(before.take(i) =~= events.take(i));
            } else {
                assert(events.take(i) =~= before);
            }
        }
    }
}

/// Events that follow one another can be taken into account in two parts.
pub proof fn lemma_run_in_two_parts(turn: TurnView, a: Seq<EventView>, b: Seq<EventView>)
    ensures
        run(turn, a + b) == run(run(turn, a), b),
        actions(turn, a + b) == actions(turn, a) + actions(run(turn, a), b),
    decreases b.len(),
{
    if b.len() == 0 {
        assert(a + b =~= a);
        assert(actions(turn, a) + actions(run(turn, a), b) =~= actions(turn, a));
    } else {
        lemma_run_in_two_parts(turn, a, b.drop_last());
        assert((a + b).drop_last() =~= a + b.drop_last());
        assert(actions(turn, a + b) =~= actions(turn, a) + actions(run(turn, a), b));
    }
}

/// A message begins with one command at most, so that the order in which they
/// are looked for does not matter.
pub proof fn law_commands_exclude_each_other(body: Seq<char>)
    ensures
        Command::of(body) == Command::Help <==> HELP@.is_prefix_of(body),
        Command::of(body) == Command::Chat <==> CHAT@.is_prefix_of(body),
        Command::of(body) == Command::Sumyself <==> SUMYSELF@.is_prefix_of(body),
        Command::of(body) == Command::Other <==> !HELP@.is_prefix_of(body) && !CHAT@.is_prefix_of(
            body,
        ) && !SUMYSELF@.is_prefix_of(body),
{
    reveal_strlit("!help");
    reveal_strlit("!chat");
    reveal_strlit("!sumyself");
    if HELP@.is_prefix_of(body) {
        assert(body[1] == HELP@[1]);
    }
    if CHAT@.is_prefix_of(body) {
        assert(body[1] == CHAT@[1]);
    }
    if SUMYSELF@.is_prefix_of(body) {
        assert(body[1] == SUMYSELF@[1]);
    }
}

/// Whether a turn relays its message to a chat.
pub open spec fn relaying(stage: StageView) -> bool {
    stage is LoadRoom || stage is LoadChatUser || stage is Recipients || stage is Relay
}

/// Whether an action belongs to the relaying of a message: the rows of the
/// chat and its members are read, the message is delivered, and that is all.
pub open spec fn relays(action: ActionView) -> bool {
    action is FetchRoom || action is FetchChatUser || action is FetchRecipients || action is Deliver
        || action is Finish || action is Abort
}

proof fn lemma_relaying_goes_on(turn: TurnView, events: Seq<EventView>)
    requires
        relaying(turn.stage) || turn.stage is Over,
    ensures
        relaying(run(turn, events).stage) || run(turn, events).stage is Over,
        run(turn, events).user == turn.user,
        forall|i: int| 0 <= i < events.len() ==> relays(#[trigger] actions(turn, events)[i]),
        actions(turn, events).len() == events.len(),
    decreases events.len(),
{
    if events.len() > 0 {
        lemma_relaying_goes_on(turn, events.drop_last());
        let before = actions(turn, events.drop_last());
        assert forall|i: int| 0 <= i < events.len() implies relays(
            #[trigger] actions(turn, events)[i],
        ) by {
            if i < events.len() - 1 {
                assert(actions(turn, events)[i] == before[i]);
            }
        }
    }
}

/// Who is attached to a chat can use no command of the bot: whatever the text
/// is, and whatever the database and the room answer, the message is relayed
/// or the turn ends. Nothing is written, nobody is replied to, and the sender
/// stays as stored.
pub proof fn law_attached_users_issue_no_command(
    sender: Seq<char>,
    body: Seq<char>,
    row: BotUserRowView,
    rest: Seq<EventView>,
)
    requires
        row.attached_to.len() > 0,
    ensures
        ({
            let events = seq![EventView::Found(true), EventView::BotUserRead(Ok(row))] + rest;
            let turn = TurnView::begin(sender, body);
            &&& run(turn, events).user == BotUserView::stored(sender, row)
            &&& actions(turn, events).len() == events.len()
            &&& forall|i: int|
                1 <= i < events.len() ==> relays(#[trigger] actions(turn, events)[i])
        }),
{
    let known = seq![EventView::Found(true), EventView::BotUserRead(Ok(row))];
    let turn = TurnView::begin(sender, body);
    reveal_with_fuel(run, 3);
    reveal_with_fuel(actions, 3);
    assert(known.drop_last() =~= seq![EventView::Found(true)]);
    assert(known.drop_last().drop_last() =~= Seq::empty());
    let here = run(turn, known);
    assert(here == turn.advance(known[0]).0.advance(known[1]).0);
    assert(actions(turn, known)[1] is FetchRoom);
    lemma_run_in_two_parts(turn, known, rest);
    lemma_relaying_goes_on(here, rest);
    let all = actions(turn, known + rest);
    assert forall|i: int| 1 <= i < known.len() + rest.len() implies relays(#[trigger] all[i]) by {
        if i >= known.len() {
            assert(all[i] == actions(here, rest)[i - known.len()]);
        } else {
            assert(all[i] == actions(turn, known)[i]);
        }
    }
}

/// Whether a turn creates a chat.
pub open spec fn creating(stage: StageView) -> bool {
    stage is DrawRoom || stage is InsertRoom || stage is DrawChatUser || stage is InsertChatUser
        || stage is Attach
}

/// Whether the database has said of the sender that it is an admin.
pub open spec fn read_as_admin(events: Seq<EventView>) -> bool {
    exists|i: int|
        0 <= i < events.len() && (#[trigger] events[i] matches EventView::BotUserRead(Ok(row))
            && row.is_admin)
}

proof fn lemma_creators_are_admins(sender: Seq<char>, body: Seq<char>, events: Seq<EventView>)
    ensures
        ({
            let now = run(TurnView::begin(sender, body), events);
            &&& now.stage is Lookup || now.stage is Load || now.stage is Register ==> now.user
                == BotUserView::fresh(sender)
            &&& now.stage is Arguments && now.user.is_admin ==> read_as_admin(events)
            &&& creating(now.stage) ==> read_as_admin(events)
        }),
    decreases events.len(),
{
    if events.len() > 0 {
        let before = events.drop_last();
        lemma_creators_are_admins(sender, body, before);
        if read_as_admin(before) {
            let i = choose|i: int|
                0 <= i < before.len() && (#[trigger] before[i] matches EventView::BotUserRead(
                    Ok(row),
                ) && row.is_admin);
            assert(events[i] == before[i]);
        }
        assert(events[events.len() - 1] == events.last());
    }
}

/// Only admins create chats: a turn asks for a new chat, and goes on to store
/// it and its creator, only where the database had said that the sender is an
/// admin.
pub proof fn law_only_admins_create_chats(sender: Seq<char>, body: Seq<char>, events: Seq<EventView>)
    ensures
        ({
            let turn = TurnView::begin(sender, body);
            &&& actions(turn, events).len() == events.len()
            &&& forall|i: int|
                0 <= i < events.len() && ((#[trigger] actions(turn, events)[i]) is DrawRoom
                    || actions(turn, events)[i] is DrawChatUser) ==> read_as_admin(events.take(i))
            &&& creating(run(turn, events).stage) ==> read_as_admin(events)
        }),
{
    let turn = TurnView::begin(sender, body);
    lemma_actions(turn, events);
    lemma_creators_are_admins(sender, body, events);
    assert forall|i: int|
        0 <= i < events.len() && ((#[trigger] actions(turn, events)[i]) is DrawRoom || actions(
            turn,
            events,
        )[i] is DrawChatUser) implies read_as_admin(events.take(i)) by {
        lemma_creators_are_admins(sender, body, events.take(i));
        let now = run(turn, events.take(i));
        assert(actions(turn, events)[i] == now.advance(events[i]).1);
        assert(now.stage is Arguments || now.stage is InsertRoom);
    }
}

/// How far a turn is from its end, in stages.
pub open spec fn stages_left(stage: StageView) -> nat {
    match stage {
        StageView::Lookup => 10,
        StageView::Load => 9,
        StageView::Register => 9,
        StageView::Arguments(_) => 8,
        StageView::DrawRoom(_) => 7,
        StageView::InsertRoom(_, _) => 6,
        StageView::DrawChatUser(_, _) => 5,
        StageView::InsertChatUser(_, _, _) => 4,
        StageView::Attach(_, _, _) => 3,
        StageView::LoadRoom => 4,
        StageView::LoadChatUser(_) => 3,
        StageView::Recipients(_) => 2,
        StageView::Relay(_) => 1,
        StageView::Used => 5,
        StageView::UseUp => 4,
        StageView::Promote => 3,
        StageView::Reply(_) => 2,
        StageView::Closing => 1,
        StageView::Over => 0,
    }
}

/// How many of the recipients a turn has not reached yet.
pub open spec fn recipients_left(stage: StageView) -> int {
    match stage {
        StageView::Relay(delivery) => delivery.recipients.len() - delivery.next,
        _ => 0,
    }
}

/// Every event brings a turn nearer to its end, by a stage or, while it
/// relays, by a recipient; and what is over stays over.
pub proof fn law_every_event_brings_the_end_nearer(turn: TurnView, event: EventView)
    ensures
        ({
            let next = turn.advance(event).0;
            if turn.stage is Over {
                next.stage is Over
            } else {
                ||| stages_left(next.stage) < stages_left(turn.stage)
                ||| next.stage is Relay && turn.stage is Relay && 0 <= recipients_left(next.stage)
                    < recipients_left(turn.stage)
            }
        }),
{
}

/// Whether no more than `n` recipients are read in any of the events.
pub open spec fn at_most_recipients(events: Seq<EventView>, n: nat) -> bool {
    forall|i: int|
        0 <= i < events.len() ==> (#[trigger] events[i] matches EventView::RecipientsRead(Ok(rows))
            ==> rows.len() <= n)
}

/// Every turn ends, whatever the answers: it is over after ten events and one
/// more for each of the recipients.
pub proof fn law_turns_end(sender: Seq<char>, body: Seq<char>, events: Seq<EventView>, n: nat)
    requires
        at_most_recipients(events, n),
        events.len() >= 10 + n,
    ensures
        run(TurnView::begin(sender, body), events).stage is Over,
{
    lemma_stages_pass(sender, body, events, n);
}

proof fn lemma_stages_pass(sender: Seq<char>, body: Seq<char>, events: Seq<EventView>, n: nat)
    requires
        at_most_recipients(events, n),
    ensures
        ({
            let now = run(TurnView::begin(sender, body), events);
            ||| now.stage is Over
            ||| now.stage is Relay && 0 <= recipients_left(now.stage) && 1 + recipients_left(
                now.stage,
            ) <= 10 + n - events.len()
            ||| !(now.stage is Relay) && stages_left(now.stage) <= 10 - events.len()
        }),
    decreases events.len(),
{
    if events.len() > 0 {
        let before = events.drop_last();
        assert forall|i: int| 0 <= i < before.len() implies (
        #[trigger] before[i] matches EventView::RecipientsRead(Ok(rows)) ==> rows.len() <= n) by {
            assert(before[i] == events[i]);
        }
        lemma_stages_pass(sender, body, before, n);
        law_every_event_brings_the_end_nearer(
            run(TurnView::begin(sender, body), before),
            events.last(),
        );
        assert(events[events.len() - 1] == events.last());
    }
}

proof fn lemma_past_the_creation(turn: TurnView, events: Seq<EventView>)
    ensures
        stages_left(run(turn, events).stage) <= stages_left(turn.stage),
        forall|i: int|
            0 <= i < events.len() && (#[trigger] actions(turn, events)[i]) is DrawRoom
                ==> stages_left(run(turn, events).stage) <= 7,
        forall|i: int|
            0 <= i < events.len() && (#[trigger] actions(turn, events)[i]) is Reply
                ==> stages_left(run(turn, events).stage) <= 2 && !relaying(run(turn, events).stage),
        forall|i: int, j: int|
            0 <= i < j < events.len() && (#[trigger] actions(turn, events)[i]) is DrawRoom ==> !((
            #[trigger] actions(turn, events)[j]) is DrawRoom),
        forall|i: int, j: int|
            0 <= i < j < events.len() && (#[trigger] actions(turn, events)[i]) is Reply ==> !((
            #[trigger] actions(turn, events)[j]) is Reply),
    decreases events.len(),
{
    lemma_actions(turn, events);
    if events.len() > 0 {
        let before = events.drop_last();
        lemma_past_the_creation(turn, before);
        lemma_actions(turn, before);
        law_every_event_brings_the_end_nearer(run(turn, before), events.last());
        let a = actions(turn, events);
        let b = actions(turn, before);
        assert(forall|i: int| 0 <= i < before.len() ==> a[i] == b[i]);
    }
}

/// A message creates one chat at most, and gets one reply at most, whatever
/// its text and whatever the answers.
pub proof fn law_one_chat_and_one_reply(turn: TurnView, events: Seq<EventView>)
    ensures
        actions(turn, events).len() == events.len(),
        forall|i: int, j: int|
            0 <= i < j < events.len() && (#[trigger] actions(turn, events)[i]) is DrawRoom ==> !((
            #[trigger] actions(turn, events)[j]) is DrawRoom),
        forall|i: int, j: int|
            0 <= i < j < events.len() && (#[trigger] actions(turn, events)[i]) is Reply ==> !((
            #[trigger] actions(turn, events)[j]) is Reply),
{
    lemma_actions(turn, events);
    lemma_past_the_creation(turn, events);
}

/// A turn never changes whose turn it is, nor the text that was sent. Once
/// the sender has been read, neither its ticket room nor whether it is banned
/// changes.
pub proof fn law_identity_is_kept(turn: TurnView, events: Seq<EventView>)
    ensures
        run(turn, events).user.matrix_user == turn.user.matrix_user,
        run(turn, events).body == turn.body,
        !(turn.stage is Lookup || turn.stage is Load) ==> run(turn, events).user.ticket_room
            == turn.user.ticket_room && run(turn, events).user.is_banned == turn.user.is_banned && !(
        run(turn, events).stage is Lookup || run(turn, events).stage is Load),
    decreases events.len(),
{
    if events.len() > 0 {
        law_identity_is_kept(turn, events.drop_last());
    }
}

/// Whether a turn asked for the action after the event with the index `i`, and
/// the next event was the answer.
pub open spec fn answered(
    turn: TurnView,
    events: Seq<EventView>,
    i: int,
    action: ActionView,
    answer: EventView,
) -> bool {
    0 <= i < events.len() - 1 && actions(turn, events)[i] == action && events[i + 1] == answer
}

/// The question whether the right to become the owner has been used up.
pub open spec fn ask_used() -> ActionView {
    ActionView::FetchUsed(statement(SELECT_SUMYSELF@, Seq::empty()))
}

/// The update that uses up the right to become the owner.
pub open spec fn use_up() -> ActionView {
    ActionView::Execute(statement(UPDATE_SUMYSELF@, Seq::empty()))
}

/// Whether the database has answered that the right to become the owner is
/// free.
pub open spec fn read_as_free(turn: TurnView, events: Seq<EventView>) -> bool {
    exists|i: int| #[trigger]
        answered(turn, events, i, ask_used(), EventView::UsedRead(Ok(false)))
}

/// Whether the right to become the owner has been used up.
pub open spec fn used_up(turn: TurnView, events: Seq<EventView>) -> bool {
    exists|i: int| #[trigger]
        answered(turn, events, i, use_up(), EventView::Executed(Ok(())))
}

/// What has been answered stays so.
proof fn lemma_answered_before(
    turn: TurnView,
    events: Seq<EventView>,
    i: int,
    action: ActionView,
    answer: EventView,
)
    requires
        events.len() > 0,
        answered(turn, events.drop_last(), i, action, answer),
    ensures
        answered(turn, events, i, action, answer),
{
    lemma_actions(turn, events);
    lemma_actions(turn, events.drop_last());
    assert(actions(turn, events)[i] == actions(turn, events.drop_last())[i]);
}

/// Whether the sender is an admin after the events whom the database did not
/// know as one.
pub open spec fn takes_over(sender: Seq<char>, body: Seq<char>, events: Seq<EventView>) -> bool {
    run(TurnView::begin(sender, body), events).user.is_admin && !read_as_admin(events)
}

/// Nobody becomes an admin but by using up the right to: the message was a
/// `!sumyself`, the database had answered that the right was free, and then it
/// had used it up.
pub proof fn law_taking_over_uses_up_the_right(
    sender: Seq<char>,
    body: Seq<char>,
    events: Seq<EventView>,
)
    requires
        takes_over(sender, body, events),
    ensures
        Command::of(body) == Command::Sumyself,
        read_as_free(TurnView::begin(sender, body), events),
        used_up(TurnView::begin(sender, body), events),
{
    lemma_way_to_ownership(sender, body, events);
}

proof fn lemma_way_to_ownership(sender: Seq<char>, body: Seq<char>, events: Seq<EventView>)
    ensures
        ({
            let turn = TurnView::begin(sender, body);
            let now = run(turn, events);
            &&& takes_over(sender, body, events) ==> Command::of(body) == Command::Sumyself
                && read_as_free(turn, events) && used_up(turn, events)
            &&& now.stage is Used ==> Command::of(body) == Command::Sumyself && events.len() > 0
                && actions(turn, events).last() == ask_used()
            &&& now.stage is UseUp ==> Command::of(body) == Command::Sumyself && events.len() > 0
                && actions(turn, events).last() == use_up() && read_as_free(turn, events)
        }),
    decreases events.len(),
{
    let turn = TurnView::begin(sender, body);
    law_identity_is_kept(turn, events);
    if events.len() > 0 {
        let before = events.drop_last();
        let was = run(turn, before);
        lemma_way_to_ownership(sender, body, before);
        law_identity_is_kept(turn, before);
        lemma_actions(turn, events);
        lemma_actions(turn, before);
        assert(events[events.len() - 1] == events.last());
        if read_as_admin(before) {
            let i = choose|i: int|
                0 <= i < before.len() && (#[trigger] before[i] matches EventView::BotUserRead(
                    Ok(row),
                ) && row.is_admin);
            assert(events[i] == before[i]);
        }
        if read_as_free(turn, before) {
            let free = EventView::UsedRead(Ok(false));
            let i = choose|i: int| #[trigger] answered(turn, before, i, ask_used(), free);
            lemma_answered_before(turn, events, i, ask_used(), free);
        }
        if used_up(turn, before) {
            let done = EventView::Executed(Ok(()));
            let i = choose|i: int| #[trigger] answered(turn, before, i, use_up(), done);
            lemma_answered_before(turn, events, i, use_up(), done);
        }
        let last = events.len() - 2;
        if was.stage is Used {
            assert(actions(turn, events)[last] == actions(turn, before)[last]);
            assert(answered(turn, events, last, ask_used(), events.last()));
        }
        if was.stage is UseUp {
            assert(actions(turn, events)[last] == actions(turn, before)[last]);
            assert(answered(turn, events, last, use_up(), events.last()));
            if let EventView::Executed(Ok(nothing)) = events.last() {
                assert(nothing == ());
            }
        }
    }
}

/// A message, and what was answered in its turn.
pub struct Exchange {
    pub sender: Seq<char>,
    pub body: Seq<char>,
    pub events: Seq<EventView>,
}

impl Exchange {
    /// The turn of the message.
    pub open spec fn turn(self) -> TurnView {
        TurnView::begin(self.sender, self.body)
    }

    /// Whether the sender becomes an admin.
    pub open spec fn takes_over(self) -> bool {
        takes_over(self.sender, self.body, self.events)
    }

    /// Whether the database answers by what it holds: where it is asked
    /// whether the right to become the owner has been used up, the answer is
    /// no only where it was free before the turn and has not been used up in it.
    pub open spec fn honest(self, used: bool) -> bool {
        forall|i: int| #[trigger]
            answered(self.turn(), self.events, i, ask_used(), EventView::UsedRead(Ok(false)))
                ==> !used && !used_up(self.turn(), self.events.take(i + 1))
    }
}

/// Whether the right to become the owner has been used up by some messages.
pub open spec fn used_by(log: Seq<Exchange>) -> bool
    decreases log.len(),
{
    log.len() > 0 && (used_by(log.drop_last()) || used_up(log.last().turn(), log.last().events))
}

/// The bot is taken over once: of all messages that one database ever answers,
/// one after the other, a single one at most makes its sender an admin.
pub proof fn law_one_owner(log: Seq<Exchange>)
    requires
        forall|k: int| 0 <= k < log.len() ==> (#[trigger] log[k]).honest(used_by(log.take(k))),
    ensures
        forall|i: int, j: int|
            0 <= i < j < log.len() && (#[trigger] log[i]).takes_over() ==> !(
            #[trigger] log[j]).takes_over(),
{
    assert forall|i: int, j: int|
        0 <= i < j < log.len() && (#[trigger] log[i]).takes_over() implies !(
    #[trigger] log[j]).takes_over() by {
        if log[j].takes_over() {
            law_taking_over_uses_up_the_right(log[i].sender, log[i].body, log[i].events);
            law_taking_over_uses_up_the_right(log[j].sender, log[j].body, log[j].events);
            lemma_used_by_one(log.take(j), i);
            assert(log[j].honest(used_by(log.take(j))));
            let free = EventView::UsedRead(Ok(false));
            let at = choose|at: int| #[trigger]
                answered(log[j].turn(), log[j].events, at, ask_used(), free);
            assert(answered(log[j].turn(), log[j].events, at, ask_used(), free));
        }
    }
}

proof fn lemma_used_by_one(log: Seq<Exchange>, i: int)
    requires
        0 <= i < log.len(),
        used_up(log[i].turn(), log[i].events),
    ensures
        used_by(log),
    decreases log.len(),
{
    if i < log.len() - 1 {
        assert(log.drop_last()[i] == log[i]);
        lemma_used_by_one(log.drop_last(), i);
    }
}

/// Where the right to become the owner has been used up, nobody becomes an
/// admin: the turn ends, and the sender stays as it was.
pub proof fn law_used_ownership_is_refused(turn: TurnView, rest: Seq<EventView>)
    requires
        turn.stage is Used,
    ensures
        turn.advance(EventView::UsedRead(Ok(true))).1 == ActionView::Finish,
        run(turn, seq![EventView::UsedRead(Ok(true))] + rest).user == turn.user,
{
    let used = seq![EventView::UsedRead(Ok(true))];
    reveal_with_fuel(run, 2);
    assert(used.drop_last() =~= Seq::empty());
    let here = run(turn, used);
    assert(here == turn.advance(used[0]).0);
    lemma_run_in_two_parts(turn, used, rest);
    lemma_relaying_goes_on(here, rest);
}

/// A row of recipients, or the message of its error.
pub type Row = Result<Seq<char>, Seq<char>>;

/// Whether a row names a Matrix user.
pub open spec fn names_user(row: Row) -> bool {
    row matches Ok(id) && is_user_id(id)
}

/// The messages to the first `k` recipients, one after the other.
pub open spec fn deliveries(rows: Seq<Row>, k: nat, text: Seq<char>) -> Seq<ActionView> {
    Seq::new(k, |i: int| ActionView::Deliver { user_id: rows[i]->Ok_0, text })
}

/// What a relay ends with after `k` messages: the end of the turn where all
/// have been reached, else the fault of the row that is next.
pub open spec fn relay_end(rows: Seq<Row>, k: nat) -> ActionView {
    if k >= rows.len() {
        ActionView::Finish
    } else {
        ActionView::Abort(
            match rows[k as int] {
                Ok(id) => FaultView::UserId(id),
                Err(e) => FaultView::Database(e),
            },
        )
    }
}

/// The recipients are read, and then `k` messages are sent.
pub open spec fn sent_to(rows: Seq<Row>, k: nat) -> Seq<EventView> {
    seq![EventView::RecipientsRead(Ok(rows))] + Seq::new(k, |i: int| EventView::Sent(true))
}

/// The members of a chat get a message one after the other, each the text as
/// it was sent, in the order in which they were read. Nobody is left out, the
/// sender neither. Where a row cannot be read or names no user, those before
/// it have got the message, and nobody after it does.
pub proof fn law_members_get_the_message(
    turn: TurnView,
    room: FluxChatRoomView,
    rows: Seq<Row>,
    k: nat,
)
    requires
        turn.stage == StageView::Recipients(room),
        k <= rows.len(),
        forall|i: int| 0 <= i < k ==> names_user(#[trigger] rows[i]),
        k < rows.len() ==> !names_user(rows[k as int]),
    ensures
        actions(turn, sent_to(rows, k)) == deliveries(rows, k, turn.body).push(relay_end(rows, k)),
        run(turn, sent_to(rows, k)).stage is Over,
{
    let events = sent_to(rows, k);
    let asked = deliveries(rows, k, turn.body).push(relay_end(rows, k));
    lemma_deliver_up_to(turn, room, rows, k, k as int);
    assert(events.take(events.len() as int) =~= events);
    assert(asked.take(asked.len() as int) =~= asked);
}

/// After `j` messages have been sent, the next recipient is the one with the
/// index `j`.
proof fn lemma_deliver_up_to(
    turn: TurnView,
    room: FluxChatRoomView,
    rows: Seq<Row>,
    k: nat,
    j: int,
)
    requires
        turn.stage == StageView::Recipients(room),
        0 <= j <= k <= rows.len(),
        forall|i: int| 0 <= i < k ==> names_user(#[trigger] rows[i]),
        k < rows.len() ==> !names_user(rows[k as int]),
    ensures
        ({
            let now = run(turn, sent_to(rows, k).take(j + 1));
            &&& actions(turn, sent_to(rows, k).take(j + 1)) == deliveries(rows, k, turn.body).push(
                relay_end(rows, k),
            ).take(j + 1)
            &&& now.body == turn.body
            &&& j < k ==> now.stage == StageView::Relay(
                DeliveryView { message: turn.body, recipients: rows, next: (j + 1) as nat },
            )
            &&& j == k ==> now.stage is Over
        }),
    decreases j,
{
    let events = sent_to(rows, k).take(j + 1);
    let asked = deliveries(rows, k, turn.body).push(relay_end(rows, k));
    let before = sent_to(rows, k).take(j);
    assert(events.drop_last() =~= before);
    if j < k {
        assert(names_user(rows[j]));
    }
    if j == 0 {
        assert(before =~= Seq::empty());
        assert(events.last() == EventView::RecipientsRead(Ok(rows)));
        assert(actions(turn, before) =~= asked.take(0));
    } else {
        lemma_deliver_up_to(turn, room, rows, k, j - 1);
        assert(events.last() == EventView::Sent(true));
    }
    assert(actions(turn, events) =~= asked.take(j + 1));
}

/// A chat is created step by step: an admin who asks for one has it stored,
/// then the own membership, then is attached to it and told its identifier and
/// the name that the chat knows; and is left attached to it, and otherwise as
/// before.
pub proof fn law_chat_creation(
    turn: TurnView,
    command: ChatCommand,
    anonymous: bool,
    room: FluxChatRoomView,
    member: FluxChatUserView,
)
    requires
        turn.stage == StageView::Arguments(command),
        command.create == Some(anonymous),
        turn.user.is_admin,
    ensures
        ({
            let events = seq![
                EventView::Noted,
                EventView::RoomDrawn(room),
                EventView::Executed(Ok(())),
                EventView::ChatUserDrawn(member),
                EventView::Executed(Ok(())),
                EventView::Executed(Ok(())),
            ];
            let attached = BotUserView {
                as_anon: anonymous,
                attached_to: room.id,
                ..turn.user
            };
            &&& actions(turn, events) == seq![
                ActionView::DrawRoom { creator: turn.user.matrix_user },
                ActionView::Execute(room.insert()),
                ActionView::DrawChatUser {
                    matrix_user: turn.user.matrix_user,
                    is_anon: anonymous,
                    chat_id: room.id,
                },
                ActionView::Execute(member.insert()),
                ActionView::Execute(attached.update()),
                ActionView::Reply(
                    ReplyView::ChatCreated { id: room.id, display_name: member.display_name },
                ),
            ]
            &&& run(turn, events).user == attached
            &&& run(turn, events).stage == StageView::Reply(command.options)
        }),
{
    let events = seq![
        EventView::Noted,
        EventView::RoomDrawn(room),
        EventView::Executed(Ok(())),
        EventView::ChatUserDrawn(member),
        EventView::Executed(Ok(())),
        EventView::Executed(Ok(())),
    ];
    lemma_take_one_more(turn, events, 0);
    lemma_take_one_more(turn, events, 1);
    lemma_take_one_more(turn, events, 2);
    lemma_take_one_more(turn, events, 3);
    lemma_take_one_more(turn, events, 4);
    lemma_take_one_more(turn, events, 5);
    assert(events.take(0) =~= Seq::empty());
    assert(events.take(6) =~= events);
}

/// One event more is one step more.
proof fn lemma_take_one_more(turn: TurnView, events: Seq<EventView>, k: int)
    requires
        0 <= k < events.len(),
    ensures
        run(turn, events.take(k + 1)) == run(turn, events.take(k)).advance(events[k]).0,
        actions(turn, events.take(k + 1)) == actions(turn, events.take(k)).push(
            run(turn, events.take(k)).advance(events[k]).1,
        ),
{
    assert(events.take(k + 1).drop_last() =~= events.take(k));
    assert(events.take(k + 1).last() == events[k]);
}

/// The bot is taken over step by step: where the right is free, it is used up
/// before the sender is stored as an admin, and then the sender is told.
pub proof fn law_taking_over(turn: TurnView)
    requires
        turn.stage is Used,
    ensures
        ({
            let events = seq![
                EventView::UsedRead(Ok(false)),
                EventView::Executed(Ok(())),
                EventView::Executed(Ok(())),
            ];
            let admin = BotUserView { is_admin: true, ..turn.user };
            &&& actions(turn, events) == seq![
                ActionView::Execute(statement(UPDATE_SUMYSELF@, Seq::empty())),
                ActionView::Execute(admin.update()),
                ActionView::Reply(ReplyView::Sumyself),
            ]
            &&& run(turn, events).user == admin
        }),
{
    let events = seq![
        EventView::UsedRead(Ok(false)),
        EventView::Executed(Ok(())),
        EventView::Executed(Ok(())),
    ];
    lemma_take_one_more(turn, events, 0);
    lemma_take_one_more(turn, events, 1);
    lemma_take_one_more(turn, events, 2);
    assert(events.take(0) =~= Seq::empty());
    assert(events.take(3) =~= events);
}

/// Who has been attached to a chat speaks in it from the next message on,
/// whatever that message is: where the database hands back the row that the
/// update stored, the turn goes for that chat.
pub proof fn law_attached_users_speak_in_their_chat(
    user: BotUserView,
    row: BotUserRowView,
    body: Seq<char>,
)
    requires
        user.attached_to.len() > 0,
        user.update().params.drop_last() == row.values(),
    ensures
        ({
            let turn = TurnView::begin(user.matrix_user, body);
            let read = turn.advance(EventView::Found(true)).0.advance(
                EventView::BotUserRead(Ok(row)),
            );
            &&& read.0.user == user
            &&& read.0.stage is LoadRoom
            &&& read.1 == ActionView::FetchRoom(
                statement(SELECT_FLUX_CHAT_ROOM@, seq![ValueView::Text(user.attached_to)]),
            )
        }),
{
    law_bot_user_reads_back(user, row);
}

/// Someone new is registered as nobody special, and then heard: not an admin,
/// not banned, in no chat.
pub proof fn law_newcomers_are_registered(sender: Seq<char>, body: Seq<char>)
    ensures
        ({
            let turn = TurnView::begin(sender, body);
            let registered = turn.advance(EventView::Found(false));
            &&& registered.1 == ActionView::Execute(BotUserView::fresh(sender).insert())
            &&& registered.0.advance(EventView::Executed(Ok(()))).0.user == BotUserView::fresh(
                sender,
            )
            &&& !relaying(registered.0.advance(EventView::Executed(Ok(()))).0.stage)
        }),
{
}

/// What was read of the sender: the row, or nothing but the identifier.
pub open spec fn user_as_read(sender: Seq<char>, events: Seq<EventView>) -> BotUserView {
    if events.len() >= 2 && events[0] == EventView::Found(true) {
        match events[1] {
            EventView::BotUserRead(Ok(row)) => BotUserView::stored(sender, row),
            _ => BotUserView::fresh(sender),
        }
    } else {
        BotUserView::fresh(sender)
    }
}

proof fn lemma_user_as_read(sender: Seq<char>, body: Seq<char>, events: Seq<EventView>)
    ensures
        ({
            let now = run(TurnView::begin(sender, body), events);
            let read = user_as_read(sender, events);
            &&& now.stage is Lookup <==> events.len() == 0
            &&& now.stage is Load <==> events == seq![EventView::Found(true)]
            &&& now.stage is Register ==> events == seq![EventView::Found(false)]
            &&& now.user.matrix_user == sender
            &&& now.user.ticket_room == read.ticket_room
            &&& now.user.is_banned == read.is_banned
            &&& read.is_admin ==> now.user.is_admin
            &&& !(now.stage is Attach || now.stage is Promote || now.stage is Reply || now.stage
                is Closing || now.stage is Over) ==> now.user == read
        }),
    decreases events.len(),
{
    if events.len() > 0 {
        let before = events.drop_last();
        lemma_user_as_read(sender, body, before);
        if before.len() == 0 {
            assert(events =~= seq![events.last()]);
            assert(seq![events.last()][0] == events.last());
        } else if before.len() == 1 {
            assert(before =~= seq![events[0]]);
            assert(seq![events[0]][0] == events[0]);
            assert(seq![EventView::Found(true)][0] == EventView::Found(true));
            assert(events[1] == events.last());
        } else {
            assert(before[0] == events[0] && before[1] == events[1]);
        }
    }
}

/// Whether a statement is one that a turn runs after the events: the insertion
/// of a sender who was not found, of the chat that was drawn or of the member
/// that was drawn, the update that uses up the right to become the owner, or an
/// update of the sender. That names the sender, leaves the ticket room and the
/// ban as they were read, and leaves an admin one.
pub open spec fn writes(
    sender: Seq<char>,
    body: Seq<char>,
    events: Seq<EventView>,
    s: StatementView,
) -> bool {
    let user = run(TurnView::begin(sender, body), events).user;
    let read = user_as_read(sender, events);
    ||| events == seq![EventView::Found(false)] && s == BotUserView::fresh(sender).insert()
    ||| events.last() matches EventView::RoomDrawn(room) && s == room.insert()
    ||| events.last() matches EventView::ChatUserDrawn(member) && s == member.insert()
    ||| s == statement(UPDATE_SUMYSELF@, Seq::empty())
    ||| s == user.update() && user.matrix_user == sender && user.ticket_room == read.ticket_room
        && user.is_banned == read.is_banned && (read.is_admin ==> user.is_admin)
}

/// A turn changes rows by five statements and no others: the insertions of a
/// newcomer, of a chat and of its creator as a member, the update that uses up
/// the right to become the owner, and an update of the sender alone. None of
/// them comes twice in a turn.
pub proof fn law_what_a_turn_writes(sender: Seq<char>, body: Seq<char>, events: Seq<EventView>)
    ensures
        ({
            let asked = actions(TurnView::begin(sender, body), events);
            &&& asked.len() == events.len()
            &&& forall|i: int|
                0 <= i < asked.len() ==> (#[trigger] asked[i] matches ActionView::Execute(s)
                    ==> writes(sender, body, events.take(i + 1), s))
            &&& forall|i: int, j: int|
                0 <= i < j < asked.len() && (#[trigger] asked[i]) is Execute && (
                #[trigger] asked[j]) is Execute ==> asked[i]->Execute_0.sql
                    != asked[j]->Execute_0.sql
        }),
{
    let turn = TurnView::begin(sender, body);
    let asked = actions(turn, events);
    lemma_actions(turn, events);
    assert forall|i: int| 0 <= i < asked.len() implies (#[trigger] asked[i] matches
        ActionView::Execute(s) ==> writes(sender, body, events.take(i + 1), s)) by {
        lemma_writes(sender, body, events, i);
    }
    assert forall|i: int, j: int|
        0 <= i < j < asked.len() && (#[trigger] asked[i]) is Execute && (
        #[trigger] asked[j]) is Execute implies asked[i]->Execute_0.sql
        != asked[j]->Execute_0.sql by {
        lemma_no_statement_twice(turn, events, i, j);
    }
}

proof fn lemma_writes(sender: Seq<char>, body: Seq<char>, events: Seq<EventView>, i: int)
    requires
        0 <= i < events.len(),
    ensures
        run(TurnView::begin(sender, body), events.take(i)).advance(events[i]).1 matches
            ActionView::Execute(s) ==> writes(sender, body, events.take(i + 1), s),
{
    let so_far = events.take(i + 1);
    assert(so_far.drop_last() =~= events.take(i));
    assert(so_far.last() == events[i]);
    lemma_user_as_read(sender, body, events.take(i));
    lemma_user_as_read(sender, body, so_far);
}

proof fn lemma_no_statement_twice(turn: TurnView, events: Seq<EventView>, i: int, j: int)
    requires
        0 <= i < j < events.len(),
    ensures
        ({
            let first = run(turn, events.take(i)).advance(events[i]).1;
            let second = run(turn, events.take(j)).advance(events[j]).1;
            first is Execute && second is Execute ==> first->Execute_0.sql
                != second->Execute_0.sql
        }),
{
    let first = events.take(i + 1);
    let second = events.take(j + 1);
    let between = events.subrange(i + 1, j + 1);
    assert(first.drop_last() =~= events.take(i));
    assert(second.drop_last() =~= events.take(j));
    assert(second =~= first + between);
    lemma_run_in_two_parts(turn, first, between);
    lemma_executing(run(turn, events.take(i)), events[i]);
    lemma_executing(run(turn, events.take(j)), events[j]);
    if sql_at(run(turn, first).stage) is Some {
        lemma_nearer(run(turn, first), between);
    }
    lemma_texts_differ();
}

/// The text of the statement that a turn waits for at a stage.
spec fn sql_at(stage: StageView) -> Option<Seq<char>> {
    match stage {
        StageView::Register => Some(INSERT_BOT_USER@),
        StageView::InsertRoom(_, _) => Some(INSERT_FLUX_CHAT_ROOM@),
        StageView::InsertChatUser(_, _, _) => Some(INSERT_FLUX_CHAT_USER@),
        StageView::Attach(_, _, _) => Some(UPDATE_BOT_USER@),
        StageView::UseUp => Some(UPDATE_SUMYSELF@),
        StageView::Promote => Some(UPDATE_BOT_USER@),
        _ => None,
    }
}

proof fn lemma_executing(turn: TurnView, event: EventView)
    ensures
        turn.advance(event).1 matches ActionView::Execute(s) ==> sql_at(turn.advance(event).0.stage)
            == Some(s.sql),
{
}

/// A turn that waits for no message and is not over gets nearer to its end.
proof fn lemma_nearer(turn: TurnView, events: Seq<EventView>)
    requires
        events.len() > 0,
        !(turn.stage is Relay),
        !(turn.stage is Over),
    ensures
        stages_left(run(turn, events).stage) < stages_left(turn.stage),
{
    let first = events.take(1);
    let rest = events.skip(1);
    assert(events =~= first + rest);
    assert(first.drop_last() =~= Seq::empty());
    lemma_run_in_two_parts(turn, first, rest);
    lemma_past_the_creation(run(turn, first), rest);
    law_every_event_brings_the_end_nearer(turn, events[0]);
    assert(run(turn, first) == turn.advance(first.last()).0) by {
        assert(run(turn, first.drop_last()) == turn);
    }
}

/// An admin stays one: once the sender has been read as an admin, it is one in
/// every turn that is left, and each update of the sender says so.
pub proof fn law_admins_stay_admins(turn: TurnView, events: Seq<EventView>)
    requires
        !(turn.stage is Lookup || turn.stage is Load),
    ensures
        actions(turn, events).len() == events.len(),
        turn.user.is_admin ==> run(turn, events).user.is_admin,
        forall|i: int|
            0 <= i < events.len() ==> (#[trigger] actions(turn, events)[i] matches
                ActionView::Execute(s) ==> (s.sql == UPDATE_BOT_USER@ ==> s == run(
                turn,
                events.take(i + 1),
            ).user.update() && (turn.user.is_admin ==> run(
                turn,
                events.take(i + 1),
            ).user.is_admin))),
    decreases events.len(),
{
    lemma_actions(turn, events);
    if events.len() > 0 {
        let before = events.drop_last();
        law_admins_stay_admins(turn, before);
        law_identity_is_kept(turn, before);
        lemma_actions(turn, before);
        lemma_texts_differ();
        assert forall|i: int| 0 <= i < events.len() implies (#[trigger] actions(
            turn,
            events,
        )[i] matches ActionView::Execute(s) ==> (s.sql == UPDATE_BOT_USER@ ==> s == run(
            turn,
            events.take(i + 1),
        ).user.update() && (turn.user.is_admin ==> run(
            turn,
            events.take(i + 1),
        ).user.is_admin))) by {
            if i < before.len() {
                assert(actions(turn, events)[i] == actions(turn, before)[i]);
                assert(before.take(i + 1) =~= events.take(i + 1));
            } else {
                assert(events.take(i + 1) =~= events);
            }
        }
    }
}

/// Whether the database has answered that it ran a statement.
pub open spec fn ran(turn: TurnView, events: Seq<EventView>, s: StatementView) -> bool {
    exists|i: int| #[trigger]
        answered(turn, events, i, ActionView::Execute(s), EventView::Executed(Ok(())))
}

/// Whether a member was drawn where a turn had asked for one.
pub open spec fn drew(
    turn: TurnView,
    events: Seq<EventView>,
    is_anon: bool,
    chat_id: Seq<char>,
    member: FluxChatUserView,
) -> bool {
    exists|i: int| #[trigger]
        answered(
            turn,
            events,
            i,
            ActionView::DrawChatUser { matrix_user: turn.user.matrix_user, is_anon, chat_id },
            EventView::ChatUserDrawn(member),
        )
}

/// Whether a chat was stored, and a member that was drawn for it.
pub open spec fn backed(
    turn: TurnView,
    events: Seq<EventView>,
    is_anon: bool,
    room: FluxChatRoomView,
    member: FluxChatUserView,
) -> bool {
    &&& ran(turn, events, room.insert())
    &&& drew(turn, events, is_anon, room.id, member)
    &&& ran(turn, events, member.insert())
}

/// What has been run and drawn stays so.
proof fn lemma_backed_before(turn: TurnView, events: Seq<EventView>)
    requires
        events.len() > 0,
    ensures
        forall|s: StatementView| #[trigger]
            ran(turn, events.drop_last(), s) ==> ran(turn, events, s),
        forall|is_anon: bool, chat_id: Seq<char>, member: FluxChatUserView| #[trigger]
            drew(turn, events.drop_last(), is_anon, chat_id, member) ==> drew(
                turn,
                events,
                is_anon,
                chat_id,
                member,
            ),
        forall|is_anon: bool, room: FluxChatRoomView, member: FluxChatUserView| #[trigger]
            backed(turn, events.drop_last(), is_anon, room, member) ==> backed(
                turn,
                events,
                is_anon,
                room,
                member,
            ),
{
    let before = events.drop_last();
    assert forall|s: StatementView| #[trigger] ran(turn, before, s) implies ran(turn, events, s) by {
        let done = EventView::Executed(Ok(()));
        let i = choose|i: int| #[trigger]
            answered(turn, before, i, ActionView::Execute(s), done);
        lemma_answered_before(turn, events, i, ActionView::Execute(s), done);
    }
    assert forall|is_anon: bool, chat_id: Seq<char>, member: FluxChatUserView| #[trigger]
        drew(turn, before, is_anon, chat_id, member) implies drew(
        turn,
        events,
        is_anon,
        chat_id,
        member,
    ) by {
        let matrix_user = turn.user.matrix_user;
        let question = ActionView::DrawChatUser { matrix_user, is_anon, chat_id };
        let answer = EventView::ChatUserDrawn(member);
        let i = choose|i: int| #[trigger] answered(turn, before, i, question, answer);
        lemma_answered_before(turn, events, i, question, answer);
    }
}

/// On the way into a chat its rows are stored one after the other.
proof fn lemma_way_into_a_chat(turn: TurnView, events: Seq<EventView>)
    requires
        turn.stage is Lookup,
    ensures
        match run(turn, events).stage {
            StageView::InsertRoom(_, room) => events.len() > 0 && actions(turn, events).last()
                == ActionView::Execute(room.insert()),
            StageView::DrawChatUser(creation, room) => {
                &&& events.len() > 0
                &&& ran(turn, events, room.insert())
                &&& actions(turn, events).last() == (ActionView::DrawChatUser {
                    matrix_user: turn.user.matrix_user,
                    is_anon: creation.anonymous,
                    chat_id: room.id,
                })
            },
            StageView::InsertChatUser(creation, room, member) => {
                &&& events.len() > 0
                &&& ran(turn, events, room.insert())
                &&& drew(turn, events, creation.anonymous, room.id, member)
                &&& actions(turn, events).last() == ActionView::Execute(member.insert())
            },
            StageView::Attach(creation, room, member) => {
                &&& backed(turn, events, creation.anonymous, room, member)
                &&& run(turn, events).user.as_anon == creation.anonymous
                &&& run(turn, events).user.attached_to == room.id
            },
            _ => true,
        },
    decreases events.len(),
{
    if events.len() > 0 {
        let before = events.drop_last();
        let was = run(turn, before);
        let asked = actions(turn, before);
        lemma_way_into_a_chat(turn, before);
        law_identity_is_kept(turn, before);
        lemma_backed_before(turn, events);
        if before.len() > 0 {
            let last = events.len() - 2;
            lemma_actions(turn, events);
            lemma_actions(turn, before);
            assert(answered(turn, events, last, asked.last(), events.last()));
        }
        if let EventView::Executed(Ok(nothing)) = events.last() {
            assert(nothing == ());
        }
        match (was.stage, events.last()) {
            (StageView::InsertRoom(_, room), EventView::Executed(Ok(_))) => {
                assert(ran(turn, events, room.insert()));
            },
            (StageView::DrawChatUser(creation, room), EventView::ChatUserDrawn(member)) => {
                assert(drew(turn, events, creation.anonymous, room.id, member));
            },
            (
                StageView::InsertChatUser(creation, room, member),
                EventView::Executed(Ok(_)),
            ) => {
                assert(ran(turn, events, member.insert()));
                assert(backed(turn, events, creation.anonymous, room, member));
            },
            _ => {},
        }
    }
}

/// An event moves the sender into another chat only where it was read or where
/// its membership was stored.
proof fn lemma_who_moves(turn: TurnView, event: EventView)
    requires
        !(turn.stage is Load),
        !(turn.advance(event).0.stage is Attach),
    ensures
        turn.advance(event).0.user.attached_to == turn.user.attached_to,
        turn.advance(event).0.user.as_anon == turn.user.as_anon,
{
}

/// Whether the sender is in the chat that was read, and as the member that was
/// read, or in one that was stored.
spec fn placed(turn: TurnView, events: Seq<EventView>, read: BotUserView) -> bool {
    let user = run(turn, events).user;
    ||| user.attached_to == read.attached_to && user.as_anon == read.as_anon
    ||| exists|room: FluxChatRoomView, member: FluxChatUserView| #[trigger]
        backed(turn, events, user.as_anon, room, member) && user.attached_to == room.id
}

proof fn lemma_placed(sender: Seq<char>, body: Seq<char>, events: Seq<EventView>)
    ensures
        placed(TurnView::begin(sender, body), events, user_as_read(sender, events)),
    decreases events.len(),
{
    let turn = TurnView::begin(sender, body);
    lemma_user_as_read(sender, body, events);
    if events.len() > 0 {
        let before = events.drop_last();
        let was = run(turn, before);
        let now = run(turn, events);
        lemma_user_as_read(sender, body, before);
        if was.stage is Load {
            assert(now.stage is Over ==> now.user == was.user || now.user == user_as_read(
                sender,
                events,
            )) by {
                assert(seq![EventView::Found(true)][0] == EventView::Found(true));
                assert(events[0] == before[0]);
                assert(events[1] == events.last());
            }
        } else if now.stage is Attach {
            lemma_way_into_a_chat(turn, events);
        } else {
            lemma_placed(sender, body, before);
            lemma_who_moves(was, events.last());
            lemma_backed_before(turn, events);
            if before.len() == 1 {
                assert(before =~= seq![events[0]]);
            } else if before.len() > 1 {
                assert(before[0] == events[0] && before[1] == events[1]);
            }
            assert(user_as_read(sender, before) == user_as_read(sender, events));
        }
    }
}

/// Nobody gets into a chat that is not stored: where the sender is in another
/// chat than was read, or as another member, the database had answered that it
/// ran the insertion of a chat with that identifier, and that of a member who
/// was drawn for the sender, with that anonymity, and for that chat.
pub proof fn law_attachments_are_backed(sender: Seq<char>, body: Seq<char>, events: Seq<EventView>)
    requires
        ({
            let user = run(TurnView::begin(sender, body), events).user;
            let read = user_as_read(sender, events);
            user.attached_to != read.attached_to || user.as_anon != read.as_anon
        }),
    ensures
        ({
            let turn = TurnView::begin(sender, body);
            let user = run(turn, events).user;
            exists|room: FluxChatRoomView, member: FluxChatUserView| #[trigger]
                backed(turn, events, user.as_anon, room, member) && user.attached_to == room.id
        }),
{
    lemma_placed(sender, body, events);
}

/// Whether a turn that steps at an event takes these events into account: that
/// one, and where it then asks for something to be drawn, what was drawn.
pub open spec fn steps_by(turn: TurnView, event: EventView, events: Seq<EventView>) -> bool {
    &&& events.len() > 0
    &&& events[0] == event
    &&& match turn.advance(event).1 {
        ActionView::DrawRoom { creator } => events.len() == 2 && (events[1] matches
            EventView::RoomDrawn(room) && room.drawn(creator)),
        ActionView::DrawChatUser { matrix_user, is_anon, chat_id } => events.len() == 2 && (
        events[1] matches EventView::ChatUserDrawn(member) && member.drawn(
            matrix_user,
            is_anon,
            chat_id,
        )),
        _ => events.len() == 1,
    }
}

/// The turn that one event leaves, and then another, with what is asked for.
pub proof fn lemma_run_of_one_or_two(turn: TurnView, a: EventView, b: EventView)
    ensures
        run(turn, seq![a]) == turn.advance(a).0,
        actions(turn, seq![a]).last() == turn.advance(a).1,
        run(turn, seq![a, b]) == turn.advance(a).0.advance(b).0,
        actions(turn, seq![a, b]).last() == turn.advance(a).0.advance(b).1,
{
    assert(seq![a].drop_last() =~= Seq::empty());
    assert(seq![a, b].drop_last() =~= seq![a]);
    assert(run(turn, seq![a].drop_last()) == turn);
}

/// A step is a run: where a turn can step at an event to another, with what it
/// then asks for, a run of one event or two leads there, and asks for that
/// last. It begins with that event; the other is something that was drawn as
/// was asked for.
pub proof fn law_steps_are_runs(
    turn: TurnView,
    event: EventView,
    next: TurnView,
    action: ActionView,
)
    requires
        turn.steps_to(event, next, action),
    ensures
        exists|events: Seq<EventView>| #[trigger]
            steps_by(turn, event, events) && run(turn, events) == next && actions(
                turn,
                events,
            ).last() == action,
{
    let here = turn.advance(event).0;
    let second = match turn.advance(event).1 {
        ActionView::DrawRoom { creator } => {
            let room = choose|room: FluxChatRoomView|
                room.drawn(creator) && #[trigger] here.goes_on(
                    EventView::RoomDrawn(room),
                    next,
                    action,
                );
            Some(EventView::RoomDrawn(room))
        },
        ActionView::DrawChatUser { matrix_user, is_anon, chat_id } => {
            let member = choose|member: FluxChatUserView|
                member.drawn(matrix_user, is_anon, chat_id) && #[trigger] here.goes_on(
                    EventView::ChatUserDrawn(member),
                    next,
                    action,
                );
            Some(EventView::ChatUserDrawn(member))
        },
        _ => None,
    };
    match second {
        Some(drawn) => {
            lemma_run_of_one_or_two(turn, event, drawn);
            assert(steps_by(turn, event, seq![event, drawn]));
        },
        None => {
            lemma_run_of_one_or_two(turn, event, event);
            assert(steps_by(turn, event, seq![event]));
        },
    }
}

} // verus!
