//! One message and what the bot does about it.
//!
//! A [`Turn`] starts where a message is taken up and asks for one [`Action`]
//! at a time. Whoever performs it hands the outcome back as an [`Event`], to
//! [`Turn::step`], and so on until the turn is over.

use crate::database::{
    statement, DbError, Statement, StatementView, ValueView, SELECT_SUMYSELF, UPDATE_SUMYSELF,
};
use crate::options::{ChatCommand, ChatCommandOptions};
use crate::rooms::{
    rows_view, Delivery, DeliveryStep, DeliveryStepView, DeliveryView, Fault, FaultView,
    FluxChatRoom, FluxChatRoomRow, FluxChatRoomRowView, FluxChatRoomView, SELECT_FLUX_CHAT_ROOM,
};
use crate::text::{same_text, starts_with, texts, words, ParseArguments};
use crate::users::{
    BotUser, BotUserRow, BotUserRowView, BotUserView, FluxChatUser, FluxChatUserRow,
    FluxChatUserRowView, FluxChatUserView, FIND_BOT_USER, SELECT_BOT_USER, SELECT_FLUX_CHAT_USER,
};
use vstd::prelude::*;

verus! {

pub const HELP: &'static str = "!help";

pub const CHAT: &'static str = "!chat";

pub const SUMYSELF: &'static str = "!sumyself";

/// What a message asks the bot for.
#[derive(Debug, Clone, Copy, PartialEq, Eq, Structural)]
pub enum Command {
    Help,
    Chat,
    Sumyself,
    Other,
}

impl Command {
    /// The command that a message begins with.
    pub open spec fn of(body: Seq<char>) -> Command {
        if HELP@.is_prefix_of(body) {
            Command::Help
        } else if CHAT@.is_prefix_of(body) {
            Command::Chat
        } else if SUMYSELF@.is_prefix_of(body) {
            Command::Sumyself
        } else {
            Command::Other
        }
    }

    /// Reads the command that a message begins with.
    pub fn read(body: &str) -> (command: Command)
        ensures
            command == Command::of(body@),
    {
        if starts_with(body, HELP) {
            Command::Help
        } else if starts_with(body, CHAT) {
            Command::Chat
        } else if starts_with(body, SUMYSELF) {
            Command::Sumyself
        } else {
            Command::Other
        }
    }
}

/// What the bot says in the room that the message came from.
#[derive(Debug, PartialEq, Eq)]
pub enum Reply {
    Help,
    ChatUsage,
    ChatCreated { id: String, display_name: String },
    Sumyself,
}

/// What a [`Reply`] holds.
pub enum ReplyView {
    Help,
    ChatUsage,
    ChatCreated { id: Seq<char>, display_name: Seq<char> },
    Sumyself,
}

impl View for Reply {
    type V = ReplyView;

    open spec fn view(&self) -> ReplyView {
        match self {
            Reply::Help => ReplyView::Help,
            Reply::ChatUsage => ReplyView::ChatUsage,
            Reply::ChatCreated { id, display_name } => ReplyView::ChatCreated {
                id: id@,
                display_name: display_name@,
            },
            Reply::Sumyself => ReplyView::Sumyself,
        }
    }
}

impl Reply {
    /// The key under which the reply's text is translated.
    pub fn key(&self) -> (key: &'static str)
        ensures
            key@ == match self {
                Reply::Help => "commands.help.message"@,
                Reply::ChatUsage => "commands.chat.usage"@,
                Reply::ChatCreated { .. } => "commands.chat.create.success"@,
                Reply::Sumyself => "commands.sumyself.success"@,
            },
    {
        match self {
            Reply::Help => "commands.help.message",
            Reply::ChatUsage => "commands.chat.usage",
            Reply::ChatCreated { .. } => "commands.chat.create.success",
            Reply::Sumyself => "commands.sumyself.success",
        }
    }
}

/// What is noted for the operator.
#[derive(Debug, PartialEq, Eq)]
pub enum Note {
    /// The words of a command.
    Arguments(Vec<String>),
    /// The command had options.
    GotOptions,
}

/// What a [`Note`] holds.
pub enum NoteView {
    Arguments(Seq<Seq<char>>),
    GotOptions,
}

impl View for Note {
    type V = NoteView;

    open spec fn view(&self) -> NoteView {
        match self {
            Note::Arguments(args) => NoteView::Arguments(texts(args@)),
            Note::GotOptions => NoteView::GotOptions,
        }
    }
}

/// What a turn asks for.
#[derive(Debug, PartialEq, Eq)]
pub enum Action {
    /// Find out whether there is a row. Answered by [`Event::Found`].
    Find(Statement),
    /// Read a row of `bot_users`. Answered by [`Event::BotUserRead`].
    FetchBotUser(Statement),
    /// Read a row of `flux_chat_rooms`. Answered by [`Event::RoomRead`].
    FetchRoom(Statement),
    /// Read a row of `flux_chat_users`. Answered by [`Event::ChatUserRead`].
    FetchChatUser(Statement),
    /// Read the first column of all rows. Answered by [`Event::RecipientsRead`].
    FetchRecipients(Statement),
    /// Read the one column of the row. Answered by [`Event::UsedRead`].
    FetchUsed(Statement),
    /// Run the statement. Answered by [`Event::Executed`].
    Execute(Statement),
    /// Make a new chat of the creator. Answered by [`Event::RoomDrawn`], which
    /// [`Turn::step`] sees to.
    DrawRoom { creator: String },
    /// Make a new member of a chat. Answered by [`Event::ChatUserDrawn`], which
    /// [`Turn::step`] sees to.
    DrawChatUser { matrix_user: String, is_anon: bool, chat_id: String },
    /// Say something in the room. Answered by [`Event::Sent`].
    Reply(Reply),
    /// Send the text to the user's direct room. Answered by [`Event::Sent`].
    Deliver { user_id: String, text: String },
    /// Note something. Answered by [`Event::Noted`].
    Note(Note),
    /// The turn is over.
    Finish,
    /// The turn is over, with an error for whoever called the bot.
    Fail(DbError),
    /// The turn is over, and the bot cannot go on.
    Abort(Fault),
}

/// What an [`Action`] holds.
pub enum ActionView {
    Find(StatementView),
    FetchBotUser(StatementView),
    FetchRoom(StatementView),
    FetchChatUser(StatementView),
    FetchRecipients(StatementView),
    FetchUsed(StatementView),
    Execute(StatementView),
    DrawRoom { creator: Seq<char> },
    DrawChatUser { matrix_user: Seq<char>, is_anon: bool, chat_id: Seq<char> },
    Reply(ReplyView),
    Deliver { user_id: Seq<char>, text: Seq<char> },
    Note(NoteView),
    Finish,
    Fail(Seq<char>),
    Abort(FaultView),
}

impl View for Action {
    type V = ActionView;

    open spec fn view(&self) -> ActionView {
        match self {
            Action::Find(s) => ActionView::Find(s@),
            Action::FetchBotUser(s) => ActionView::FetchBotUser(s@),
            Action::FetchRoom(s) => ActionView::FetchRoom(s@),
            Action::FetchChatUser(s) => ActionView::FetchChatUser(s@),
            Action::FetchRecipients(s) => ActionView::FetchRecipients(s@),
            Action::FetchUsed(s) => ActionView::FetchUsed(s@),
            Action::Execute(s) => ActionView::Execute(s@),
            Action::DrawRoom { creator } => ActionView::DrawRoom { creator: creator@ },
            Action::DrawChatUser { matrix_user, is_anon, chat_id } => ActionView::DrawChatUser {
                matrix_user: matrix_user@,
                is_anon: *is_anon,
                chat_id: chat_id@,
            },
            Action::Reply(reply) => ActionView::Reply(reply@),
            Action::Deliver { user_id, text } => ActionView::Deliver {
                user_id: user_id@,
                text: text@,
            },
            Action::Note(note) => ActionView::Note(note@),
            Action::Finish => ActionView::Finish,
            Action::Fail(e) => ActionView::Fail(e.message@),
            Action::Abort(fault) => ActionView::Abort(fault@),
        }
    }
}

/// What became of an [`Action`].
#[derive(Debug, PartialEq, Eq)]
pub enum Event {
    Found(bool),
    BotUserRead(Result<BotUserRow, DbError>),
    RoomRead(Result<FluxChatRoomRow, DbError>),
    ChatUserRead(Result<FluxChatUserRow, DbError>),
    RecipientsRead(Result<Vec<Result<String, DbError>>, DbError>),
    UsedRead(Result<bool, DbError>),
    Executed(Result<(), DbError>),
    RoomDrawn(FluxChatRoom),
    ChatUserDrawn(FluxChatUser),
    /// Whether the message was sent.
    Sent(bool),
    Noted,
}

/// What an [`Event`] holds.
pub enum EventView {
    Found(bool),
    BotUserRead(Result<BotUserRowView, Seq<char>>),
    RoomRead(Result<FluxChatRoomRowView, Seq<char>>),
    ChatUserRead(Result<FluxChatUserRowView, Seq<char>>),
    RecipientsRead(Result<Seq<Result<Seq<char>, Seq<char>>>, Seq<char>>),
    UsedRead(Result<bool, Seq<char>>),
    Executed(Result<(), Seq<char>>),
    RoomDrawn(FluxChatRoomView),
    ChatUserDrawn(FluxChatUserView),
    Sent(bool),
    Noted,
}

impl View for Event {
    type V = EventView;

    open spec fn view(&self) -> EventView {
        match self {
            Event::Found(b) => EventView::Found(*b),
            Event::BotUserRead(Ok(row)) => EventView::BotUserRead(Ok(row@)),
            Event::BotUserRead(Err(e)) => EventView::BotUserRead(Err(e.message@)),
            Event::RoomRead(Ok(row)) => EventView::RoomRead(Ok(row@)),
            Event::RoomRead(Err(e)) => EventView::RoomRead(Err(e.message@)),
            Event::ChatUserRead(Ok(row)) => EventView::ChatUserRead(Ok(row@)),
            Event::ChatUserRead(Err(e)) => EventView::ChatUserRead(Err(e.message@)),
            Event::RecipientsRead(Ok(rows)) => EventView::RecipientsRead(Ok(rows_view(rows@))),
            Event::RecipientsRead(Err(e)) => EventView::RecipientsRead(Err(e.message@)),
            Event::UsedRead(Ok(used)) => EventView::UsedRead(Ok(*used)),
            Event::UsedRead(Err(e)) => EventView::UsedRead(Err(e.message@)),
            Event::Executed(Ok(_)) => EventView::Executed(Ok(())),
            Event::Executed(Err(e)) => EventView::Executed(Err(e.message@)),
            Event::RoomDrawn(room) => EventView::RoomDrawn(room@),
            Event::ChatUserDrawn(user) => EventView::ChatUserDrawn(user@),
            Event::Sent(sent) => EventView::Sent(*sent),
            Event::Noted => EventView::Noted,
        }
    }
}

/// A chat that is being created.
#[derive(Debug, Clone, Copy, PartialEq, Eq, Structural)]
pub struct Creation {
    /// Whether its creator is anonymous in it.
    pub anonymous: bool,
    /// The options of the command.
    pub options: ChatCommandOptions,
}

/// What a turn waits for.
#[derive(Debug, PartialEq, Eq)]
pub enum Stage {
    /// Whether the sender is in the database.
    Lookup,
    /// The sender's row.
    Load,
    /// The sender's insertion.
    Register,
    /// The row of the chat that the sender is in.
    LoadRoom,
    /// The sender's row among the members of the chat.
    LoadChatUser(FluxChatRoom),
    /// The members of the chat.
    Recipients(FluxChatRoom),
    /// A message to a member.
    Relay(Delivery),
    /// The note of a command's words.
    Arguments(ChatCommand),
    /// A new chat.
    DrawRoom(Creation),
    /// The insertion of the new chat.
    InsertRoom(Creation, FluxChatRoom),
    /// The creator as a member of the new chat.
    DrawChatUser(Creation, FluxChatRoom),
    /// The insertion of that member.
    InsertChatUser(Creation, FluxChatRoom, FluxChatUser),
    /// The update that puts the sender into the new chat.
    Attach(Creation, FluxChatRoom, FluxChatUser),
    /// Whether the right to become the owner has been used up.
    Used,
    /// The update that uses it up.
    UseUp,
    /// The update that makes the sender an admin.
    Promote,
    /// A reply, to a command with these options.
    Reply(ChatCommandOptions),
    /// The last note.
    Closing,
    /// Nothing: the turn is over.
    Over,
}

/// What a [`Stage`] holds.
pub enum StageView {
    Lookup,
    Load,
    Register,
    LoadRoom,
    LoadChatUser(FluxChatRoomView),
    Recipients(FluxChatRoomView),
    Relay(DeliveryView),
    Arguments(ChatCommand),
    DrawRoom(Creation),
    InsertRoom(Creation, FluxChatRoomView),
    DrawChatUser(Creation, FluxChatRoomView),
    InsertChatUser(Creation, FluxChatRoomView, FluxChatUserView),
    Attach(Creation, FluxChatRoomView, FluxChatUserView),
    Used,
    UseUp,
    Promote,
    Reply(ChatCommandOptions),
    Closing,
    Over,
}

impl View for Stage {
    type V = StageView;

    open spec fn view(&self) -> StageView {
        match self {
            Stage::Lookup => StageView::Lookup,
            Stage::Load => StageView::Load,
            Stage::Register => StageView::Register,
            Stage::LoadRoom => StageView::LoadRoom,
            Stage::LoadChatUser(room) => StageView::LoadChatUser(room@),
            Stage::Recipients(room) => StageView::Recipients(room@),
            Stage::Relay(delivery) => StageView::Relay(delivery@),
            Stage::Arguments(command) => StageView::Arguments(*command),
            Stage::DrawRoom(creation) => StageView::DrawRoom(*creation),
            Stage::InsertRoom(creation, room) => StageView::InsertRoom(*creation, room@),
            Stage::DrawChatUser(creation, room) => StageView::DrawChatUser(*creation, room@),
            Stage::InsertChatUser(creation, room, member) => StageView::InsertChatUser(
                *creation,
                room@,
                member@,
            ),
            Stage::Attach(creation, room, member) => StageView::Attach(*creation, room@, member@),
            Stage::Used => StageView::Used,
            Stage::UseUp => StageView::UseUp,
            Stage::Promote => StageView::Promote,
            Stage::Reply(options) => StageView::Reply(*options),
            Stage::Closing => StageView::Closing,
            Stage::Over => StageView::Over,
        }
    }
}

/// What the bot does about a message.
#[derive(Debug, PartialEq, Eq)]
pub struct Turn {
    /// The sender, as far as known.
    pub user: BotUser,
    /// The text of the message.
    pub body: String,
    pub stage: Stage,
}

/// What a [`Turn`] holds.
pub struct TurnView {
    pub user: BotUserView,
    pub body: Seq<char>,
    pub stage: StageView,
}

impl View for Turn {
    type V = TurnView;

    open spec fn view(&self) -> TurnView {
        TurnView { user: self.user@, body: self.body@, stage: self.stage@ }
    }
}

impl TurnView {
    /// The turn of a message, before anything has been found out.
    pub open spec fn begin(sender: Seq<char>, body: Seq<char>) -> TurnView {
        TurnView { user: BotUserView::fresh(sender), body, stage: StageView::Lookup }
    }

    /// The turn at another stage, with what it asks for there.
    pub open spec fn to(self, stage: StageView, action: ActionView) -> (TurnView, ActionView) {
        (TurnView { stage, ..self }, action)
    }

    /// The turn of another sender.
    pub open spec fn of(self, user: BotUserView) -> TurnView {
        TurnView { user, ..self }
    }

    /// The end.
    pub open spec fn finish(self) -> (TurnView, ActionView) {
        self.to(StageView::Over, ActionView::Finish)
    }

    /// The end, where the bot cannot go on.
    pub open spec fn abort(self, fault: FaultView) -> (TurnView, ActionView) {
        self.to(StageView::Over, ActionView::Abort(fault))
    }

    /// A reply, and then the end.
    pub open spec fn reply(self, reply: ReplyView, options: ChatCommandOptions) -> (
        TurnView,
        ActionView,
    ) {
        self.to(StageView::Reply(options), ActionView::Reply(reply))
    }

    /// The end of a command with options: they are noted, if there are any.
    pub open spec fn close(self, options: ChatCommandOptions) -> (TurnView, ActionView) {
        if options.anonymous || options.fuckanons || options.ticket {
            self.to(StageView::Closing, ActionView::Note(NoteView::GotOptions))
        } else {
            self.finish()
        }
    }

    /// What is done once the sender is known. Who is in a chat speaks to its
    /// members; who is not speaks to the bot.
    pub open spec fn dispatch(self) -> (TurnView, ActionView) {
        if self.user.attached_to.len() > 0 {
            self.to(
                StageView::LoadRoom,
                ActionView::FetchRoom(
                    statement(
                        SELECT_FLUX_CHAT_ROOM@,
                        seq![ValueView::Text(self.user.attached_to)],
                    ),
                ),
            )
        } else {
            match Command::of(self.body) {
                Command::Help => self.reply(ReplyView::Help, no_options()),
                Command::Chat => if self.body.contains(' ') {
                    self.to(
                        StageView::Arguments(ChatCommand::of(words(self.body))),
                        ActionView::Note(NoteView::Arguments(words(self.body))),
                    )
                } else {
                    self.reply(ReplyView::ChatUsage, no_options())
                },
                Command::Sumyself => self.to(
                    StageView::Used,
                    ActionView::FetchUsed(statement(SELECT_SUMYSELF@, Seq::empty())),
                ),
                Command::Other => self.finish(),
            }
        }
    }

    /// What is done once the words of a `!chat` command have been noted: an
    /// admin who asks for a chat gets one.
    pub open spec fn chat(self, command: ChatCommand) -> (TurnView, ActionView) {
        match command.create {
            Some(anonymous) if self.user.is_admin => self.to(
                StageView::DrawRoom(Creation { anonymous, options: command.options }),
                ActionView::DrawRoom { creator: self.user.matrix_user },
            ),
            _ => self.close(command.options),
        }
    }

    /// What is done about a step that a delivery has asked for.
    pub open spec fn relay(self, delivery: DeliveryView, step: DeliveryStepView) -> (
        TurnView,
        ActionView,
    ) {
        match step {
            DeliveryStepView::Send { user_id, text } => self.to(
                StageView::Relay(delivery),
                ActionView::Deliver { user_id, text },
            ),
            DeliveryStepView::Broken(fault) => self.abort(fault),
            DeliveryStepView::Done(_) => self.finish(),
        }
    }

    /// The sender as a member of a chat.
    pub open spec fn attached(self, anonymous: bool, room: FluxChatRoomView) -> BotUserView {
        BotUserView { as_anon: anonymous, attached_to: room.id, ..self.user }
    }

    /// The sender as an admin.
    pub open spec fn promoted(self) -> BotUserView {
        BotUserView { is_admin: true, ..self.user }
    }

    /// What is done about an event: the turn that is left, and what it asks
    /// for. An event that the turn does not wait for ends it.
    pub open spec fn advance(self, event: EventView) -> (TurnView, ActionView) {
        match (self.stage, event) {
            (StageView::Lookup, EventView::Found(true)) => self.to(
                StageView::Load,
                ActionView::FetchBotUser(
                    statement(SELECT_BOT_USER@, seq![ValueView::Text(self.user.matrix_user)]),
                ),
            ),
            (StageView::Lookup, EventView::Found(false)) => self.to(
                StageView::Register,
                ActionView::Execute(self.user.insert()),
            ),
            (StageView::Load, EventView::BotUserRead(Ok(row))) => self.of(
                BotUserView::stored(self.user.matrix_user, row),
            ).dispatch(),
            (StageView::Load, EventView::BotUserRead(Err(e))) => self.abort(FaultView::Database(e)),
            (StageView::Register, EventView::Executed(Ok(_))) => self.dispatch(),
            (StageView::Register, EventView::Executed(Err(e))) => self.abort(
                FaultView::Database(e),
            ),
            (StageView::LoadRoom, EventView::RoomRead(Ok(row))) => self.to(
                StageView::LoadChatUser(FluxChatRoomView::stored(self.user.attached_to, row)),
                ActionView::FetchChatUser(
                    statement(
                        SELECT_FLUX_CHAT_USER@,
                        seq![
                            ValueView::Text(self.user.matrix_user),
                            ValueView::Flag(self.user.as_anon),
                        ],
                    ),
                ),
            ),
            (StageView::LoadRoom, EventView::RoomRead(Err(e))) => self.abort(
                FaultView::Database(e),
            ),
            (StageView::LoadChatUser(room), EventView::ChatUserRead(Ok(_))) => self.to(
                StageView::Recipients(room),
                ActionView::FetchRecipients(room.recipients()),
            ),
            (StageView::LoadChatUser(_), EventView::ChatUserRead(Err(e))) => self.abort(
                FaultView::Database(e),
            ),
            (StageView::Recipients(_), EventView::RecipientsRead(Ok(recipients))) => {
                let delivery = DeliveryView { message: self.body, recipients, next: 0 };
                self.relay(delivery.after(delivery.step()), delivery.step())
            },
            (StageView::Recipients(_), EventView::RecipientsRead(Err(e))) => self.abort(
                FaultView::Database(e),
            ),
            (StageView::Relay(delivery), EventView::Sent(true)) => self.relay(
                delivery.after(delivery.step()),
                delivery.step(),
            ),
            (StageView::Relay(_), EventView::Sent(false)) => self.abort(FaultView::Unsent),
            (StageView::Arguments(command), EventView::Noted) => self.chat(command),
            (StageView::DrawRoom(creation), EventView::RoomDrawn(room)) => self.to(
                StageView::InsertRoom(creation, room),
                ActionView::Execute(room.insert()),
            ),
            (StageView::InsertRoom(creation, room), EventView::Executed(Ok(_))) => self.to(
                StageView::DrawChatUser(creation, room),
                ActionView::DrawChatUser {
                    matrix_user: self.user.matrix_user,
                    is_anon: creation.anonymous,
                    chat_id: room.id,
                },
            ),
            (StageView::InsertRoom(_, _), EventView::Executed(Err(e))) => self.abort(
                FaultView::Database(e),
            ),
            (StageView::DrawChatUser(creation, room), EventView::ChatUserDrawn(member)) => self.to(
                StageView::InsertChatUser(creation, room, member),
                ActionView::Execute(member.insert()),
            ),
            (
                StageView::InsertChatUser(creation, room, member),
                EventView::Executed(Ok(_)),
            ) => self.of(self.attached(creation.anonymous, room)).to(
                StageView::Attach(creation, room, member),
                ActionView::Execute(self.attached(creation.anonymous, room).update()),
            ),
            (StageView::InsertChatUser(_, _, _), EventView::Executed(Err(e))) => self.to(
                StageView::Over,
                ActionView::Fail(e),
            ),
            (StageView::Attach(creation, room, member), EventView::Executed(Ok(_))) => self.reply(
                ReplyView::ChatCreated { id: room.id, display_name: member.display_name },
                creation.options,
            ),
            (StageView::Attach(_, _, _), EventView::Executed(Err(e))) => self.abort(
                FaultView::Database(e),
            ),
            (StageView::Used, EventView::UsedRead(Ok(true))) => self.finish(),
            (StageView::Used, EventView::UsedRead(Ok(false))) => self.to(
                StageView::UseUp,
                ActionView::Execute(statement(UPDATE_SUMYSELF@, Seq::empty())),
            ),
            (StageView::Used, EventView::UsedRead(Err(e))) => self.abort(FaultView::Database(e)),
            (StageView::UseUp, EventView::Executed(Ok(_))) => self.of(self.promoted()).to(
                StageView::Promote,
                ActionView::Execute(self.promoted().update()),
            ),
            (StageView::UseUp, EventView::Executed(Err(e))) => self.abort(FaultView::Database(e)),
            (StageView::Promote, EventView::Executed(Ok(_))) => self.reply(
                ReplyView::Sumyself,
                no_options(),
            ),
            (StageView::Promote, EventView::Executed(Err(e))) => self.abort(FaultView::Database(e)),
            (StageView::Reply(options), EventView::Sent(true)) => self.close(options),
            (StageView::Reply(_), EventView::Sent(false)) => self.abort(FaultView::Unsent),
            (StageView::Closing, EventView::Noted) => self.finish(),
            _ => self.abort(FaultView::OutOfTurn),
        }
    }
}

impl TurnView {
    /// Whether a turn can be left with this and ask for that once it has taken
    /// an event into account and drawn what it then asks to be drawn: a chat of
    /// the creator it names, or the member of a chat that it names.
    pub open spec fn steps_to(self, event: EventView, turn: TurnView, action: ActionView) -> bool {
        self.advance(event).0.draws(self.advance(event).1, turn, action)
    }

    /// The same of a turn that has just asked for something.
    pub open spec fn draws(self, asked: ActionView, turn: TurnView, action: ActionView) -> bool {
        match asked {
            ActionView::DrawRoom { creator } => exists|room: FluxChatRoomView|
                room.drawn(creator) && #[trigger] self.goes_on(
                    EventView::RoomDrawn(room),
                    turn,
                    action,
                ),
            ActionView::DrawChatUser { matrix_user, is_anon, chat_id } => exists|
                member: FluxChatUserView,
            |
                member.drawn(matrix_user, is_anon, chat_id) && #[trigger] self.goes_on(
                    EventView::ChatUserDrawn(member),
                    turn,
                    action,
                ),
            _ => (turn, action) == (self, asked),
        }
    }

    /// Whether an event leaves this of a turn, and makes it ask for that.
    pub open spec fn goes_on(self, event: EventView, turn: TurnView, action: ActionView) -> bool {
        (turn, action) == self.advance(event)
    }
}

/// The options of a command that has none.
pub open spec fn no_options() -> ChatCommandOptions {
    ChatCommandOptions { anonymous: false, fuckanons: false, ticket: false }
}

/// Decides whether a message is taken up, and asks for the first thing to
/// find out about its sender.
///
/// `joined` says whether the bot is still in the room, `user_id` is the bot's
/// own identifier and `text` the message, where it is a text message. A message
/// is left alone in a room that the bot is not in, where the bot sent it, and
/// where it is not a text.
pub fn on_room_message(
    joined: bool,
    sender: &str,
    user_id: Option<&str>,
    text: Option<&str>,
) -> (r: Result<Option<(Turn, Action)>, Fault>)
    ensures
        r matches Err(fault) ==> fault@ == FaultView::NotLoggedIn,
        r is Err <==> joined && user_id is None,
        r matches Ok(Some(_)) <==> joined && user_id is Some && user_id->0@ != sender@
            && text is Some,
        r matches Ok(Some((turn, action))) ==> turn@ == TurnView::begin(sender@, text->0@)
            && action@ == ActionView::Find(
            statement(FIND_BOT_USER@, seq![ValueView::Text(sender@)]),
        ),
{
    if !joined {
        return Ok(None);
    }
    match (user_id, text) {
        (None, _) => Err(Fault::NotLoggedIn),
        (Some(own), Some(body)) if !same_text(sender, own) => {
            let turn = Turn {
                user: BotUser::initialize_user(sender.to_owned()),
                body: body.to_owned(),
                stage: Stage::Lookup,
            };
            Ok(Some((turn, Action::Find(BotUser::find_statement(sender)))))
        },
        _ => Ok(None),
    }
}

impl Turn {
    fn to(self, stage: Stage, action: Action) -> (r: (Turn, Action))
        ensures
            (r.0@, r.1@) == self@.to(stage@, action@),
    {
        (Turn { user: self.user, body: self.body, stage }, action)
    }

    fn finish(self) -> (r: (Turn, Action))
        ensures
            (r.0@, r.1@) == self@.finish(),
    {
        self.to(Stage::Over, Action::Finish)
    }

    fn abort(self, fault: Fault) -> (r: (Turn, Action))
        ensures
            (r.0@, r.1@) == self@.abort(fault@),
    {
        self.to(Stage::Over, Action::Abort(fault))
    }

    fn reply(self, reply: Reply, options: ChatCommandOptions) -> (r: (Turn, Action))
        ensures
            (r.0@, r.1@) == self@.reply(reply@, options),
    {
        self.to(Stage::Reply(options), Action::Reply(reply))
    }

    fn close(self, options: ChatCommandOptions) -> (r: (Turn, Action))
        ensures
            (r.0@, r.1@) == self@.close(options),
    {
        if options.has_options() {
            self.to(Stage::Closing, Action::Note(Note::GotOptions))
        } else {
            self.finish()
        }
    }

    /// Goes on once the sender is known. Who is in a chat speaks to its
    /// members; who is not speaks to the bot.
    pub fn dispatch(self) -> (r: (Turn, Action))
        ensures
            (r.0@, r.1@) == self@.dispatch(),
    {
        if !self.user.attached_to.as_str().is_empty() {
            let s: Statement = FluxChatRoom::load_statement(self.user.attached_to.as_str());
            return self.to(Stage::LoadRoom, Action::FetchRoom(s));
        }
        match Command::read(self.body.as_str()) {
            Command::Help => self.reply(Reply::Help, ChatCommandOptions::new()),
            Command::Chat => match self.body.args() {
                Some(args) => {
                    let command: ChatCommand = ChatCommand::parse(&args);
                    self.to(Stage::Arguments(command), Action::Note(Note::Arguments(args)))
                },
                None => self.reply(Reply::ChatUsage, ChatCommandOptions::new()),
            },
            Command::Sumyself => self.to(
                Stage::Used,
                Action::FetchUsed(Statement::select_sumyself()),
            ),
            Command::Other => self.finish(),
        }
    }

    /// Goes on once the words of a `!chat` command have been noted: an admin
    /// who asks for a chat gets one.
    pub fn chat(self, command: ChatCommand) -> (r: (Turn, Action))
        ensures
            (r.0@, r.1@) == self@.chat(command),
    {
        match command.create {
            Some(anonymous) if self.user.is_admin => {
                let creator: String = self.user.matrix_user.clone();
                self.to(
                    Stage::DrawRoom(Creation { anonymous, options: command.options }),
                    Action::DrawRoom { creator },
                )
            },
            _ => self.close(command.options),
        }
    }

    /// Goes on with a delivery that has asked for a step.
    pub fn relay(self, delivery: Delivery, step: DeliveryStep) -> (r: (Turn, Action))
        ensures
            (r.0@, r.1@) == self@.relay(delivery@, step@),
    {
        match step {
            DeliveryStep::Send { user_id, text } => self.to(
                Stage::Relay(delivery),
                Action::Deliver { user_id, text },
            ),
            DeliveryStep::Broken(fault) => self.abort(fault),
            DeliveryStep::Done(_) => self.finish(),
        }
    }

    /// Takes an event into account: the turn that is left, and what it asks
    /// for.
    pub fn advance(self, event: Event) -> (r: (Turn, Action))
        ensures
            (r.0@, r.1@) == self@.advance(event@),
    {
        let stage: Stage = self.stage;
        let mut turn = Turn { user: self.user, body: self.body, stage: Stage::Over };
        match (stage, event) {
            (Stage::Lookup, Event::Found(true)) => {
                let s: Statement = BotUser::load_statement(turn.user.matrix_user.as_str());
                turn.to(Stage::Load, Action::FetchBotUser(s))
            },
            (Stage::Lookup, Event::Found(false)) => {
                let s: Statement = turn.user.insert_statement();
                turn.to(Stage::Register, Action::Execute(s))
            },
            (Stage::Load, Event::BotUserRead(row)) => match BotUser::load_from_db(
                turn.user.matrix_user.clone(),
                row,
            ) {
                Ok(user) => {
                    turn.user = user;
                    turn.dispatch()
                },
                Err(e) => turn.abort(Fault::Database(e)),
            },
            (Stage::Register, Event::Executed(outcome)) => match outcome {
                Ok(_) => turn.dispatch(),
                Err(e) => turn.abort(Fault::Database(e)),
            },
            (Stage::LoadRoom, Event::RoomRead(row)) => match FluxChatRoom::load_from_db(
                turn.user.attached_to.clone(),
                row,
            ) {
                Ok(room) => {
                    let s: Statement = FluxChatUser::load_statement(
                        turn.user.matrix_user.as_str(),
                        turn.user.as_anon,
                    );
                    turn.to(Stage::LoadChatUser(room), Action::FetchChatUser(s))
                },
                Err(e) => turn.abort(Fault::Database(e)),
            },
            (Stage::LoadChatUser(room), Event::ChatUserRead(row)) => {
                match FluxChatUser::load_from_db(turn.user.matrix_user.clone(), row) {
                    Ok(_) => {
                        let s: Statement = room.recipients_statement();
                        turn.to(Stage::Recipients(room), Action::FetchRecipients(s))
                    },
                    Err(e) => turn.abort(Fault::Database(e)),
                }
            },
            (Stage::Recipients(room), Event::RecipientsRead(rows)) => match room.send_message(
                turn.body.as_str(),
                rows,
            ) {
                Ok(mut delivery) => {
                    let step: DeliveryStep = delivery.step();
                    turn.relay(delivery, step)
                },
                Err(e) => turn.abort(Fault::Database(e)),
            },
            (Stage::Relay(mut delivery), Event::Sent(true)) => {
                let step: DeliveryStep = delivery.step();
                turn.relay(delivery, step)
            },
            (Stage::Relay(_), Event::Sent(false)) => turn.abort(Fault::Unsent),
            (Stage::Arguments(command), Event::Noted) => turn.chat(command),
            (Stage::DrawRoom(creation), Event::RoomDrawn(room)) => {
                let s: Statement = room.insert_statement();
                turn.to(Stage::InsertRoom(creation, room), Action::Execute(s))
            },
            (Stage::InsertRoom(creation, room), Event::Executed(outcome)) => match outcome {
                Ok(_) => {
                    let action = Action::DrawChatUser {
                        matrix_user: turn.user.matrix_user.clone(),
                        is_anon: creation.anonymous,
                        chat_id: room.id.clone(),
                    };
                    turn.to(Stage::DrawChatUser(creation, room), action)
                },
                Err(e) => turn.abort(Fault::Database(e)),
            },
            (Stage::DrawChatUser(creation, room), Event::ChatUserDrawn(member)) => {
                let s: Statement = member.push_statement();
                turn.to(Stage::InsertChatUser(creation, room, member), Action::Execute(s))
            },
            (Stage::InsertChatUser(creation, room, member), Event::Executed(outcome)) => {
                match member.push_to_db(outcome) {
                    Ok(member) => {
                        turn.user.as_anon = creation.anonymous;
                        turn.user.attached_to = room.id.clone();
                        let s: Statement = turn.user.push_statement();
                        turn.to(Stage::Attach(creation, room, member), Action::Execute(s))
                    },
                    Err(e) => turn.to(Stage::Over, Action::Fail(e)),
                }
            },
            (Stage::Attach(creation, room, member), Event::Executed(outcome)) => {
                match turn.user.push_to_db(outcome) {
                    Ok(_) => turn.reply(
                        Reply::ChatCreated { id: room.id, display_name: member.display_name },
                        creation.options,
                    ),
                    Err(e) => turn.abort(Fault::Database(e)),
                }
            },
            (Stage::Used, Event::UsedRead(used)) => match used {
                Ok(true) => turn.finish(),
                Ok(false) => turn.to(Stage::UseUp, Action::Execute(Statement::update_sumyself())),
                Err(e) => turn.abort(Fault::Database(e)),
            },
            (Stage::UseUp, Event::Executed(outcome)) => match outcome {
                Ok(_) => {
                    turn.user.is_admin = true;
                    let s: Statement = turn.user.push_statement();
                    turn.to(Stage::Promote, Action::Execute(s))
                },
                Err(e) => turn.abort(Fault::Database(e)),
            },
            (Stage::Promote, Event::Executed(outcome)) => match turn.user.push_to_db(outcome) {
                Ok(_) => turn.reply(Reply::Sumyself, ChatCommandOptions::new()),
                Err(e) => turn.abort(Fault::Database(e)),
            },
            (Stage::Reply(options), Event::Sent(true)) => turn.close(options),
            (Stage::Reply(_), Event::Sent(false)) => turn.abort(Fault::Unsent),
            (Stage::Closing, Event::Noted) => turn.finish(),
            _ => turn.abort(Fault::OutOfTurn),
        }
    }

    /// Takes an event into account, and draws a chat or a member where the
    /// turn asks for one: the turn that is left, and what it asks for. That is
    /// never something to draw.
    pub fn step(self, event: Event) -> (r: (Turn, Action))
        ensures
            self@.steps_to(event@, r.0@, r.1@),
            !(r.1@ is DrawRoom),
            !(r.1@ is DrawChatUser),
    {
        let (turn, action) = self.advance(event);
        turn.draw(action)
    }

    /// Draws a chat or a member where the turn has just asked for one: the
    /// turn that is left, and what it asks for.
    fn draw(self, asked: Action) -> (r: (Turn, Action))
        ensures
            self@.draws(asked@, r.0@, r.1@),
    {
        match asked {
            Action::DrawRoom { creator } => {
                let room: FluxChatRoom = FluxChatRoom::admin_new(creator.as_str());
                let ghost (turn, event) = (self@, EventView::RoomDrawn(room@));
                let r: (Turn, Action) = self.advance(Event::RoomDrawn(room));
                assert(turn.goes_on(event, r.0@, r.1@));
                r
            },
            Action::DrawChatUser { matrix_user, is_anon, chat_id } => {
                let member: FluxChatUser = FluxChatUser::initialize_user(
                    matrix_user.as_str(),
                    is_anon,
                    chat_id.as_str(),
                );
                let ghost (turn, event) = (self@, EventView::ChatUserDrawn(member@));
                let r: (Turn, Action) = self.advance(Event::ChatUserDrawn(member));
                assert(turn.goes_on(event, r.0@, r.1@));
                r
            },
            action => (self, action),
        }
    }
}

} // verus!
