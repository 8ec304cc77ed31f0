//! Chats, and the delivery of a message to the members of one.

use crate::clock::{current_date, is_date};
use crate::database::{statement, DbError, Statement, StatementView, Value, ValueView};
use crate::random::{capitals, random_letters};
use ruma::OwnedUserId;
use vstd::prelude::*;

verus! {

pub const INSERT_FLUX_CHAT_ROOM: &'static str =
    "INSERT INTO flux_chat_rooms (id, creation_date, creator, is_closed) VALUES (?1, ?2, ?3, ?4)";

pub const SELECT_FLUX_CHAT_ROOM: &'static str = "SELECT * FROM flux_chat_rooms WHERE id=?1";

pub const UPDATE_FLUX_CHAT_ROOM: &'static str =
    "UPDATE flux_chat_rooms
            SET is_closed=?2
            WHERE id=?1";

pub const SELECT_RECIPIENTS: &'static str =
    "SELECT * FROM bot_users 
        INNER JOIN flux_chat_users 
        ON bot_users.matrix_user=flux_chat_users.matrix_user 
        AND flux_chat_users.is_anon=bot_users.as_anon 
        AND bot_users.attached_to=flux_chat_users.chat_id 
        WHERE chat_id=?1";

/// What a delivery that has come to its end reports.
pub const DELIVERED: &'static str = "fine";

/// The number of letters on either side of the dash in the identifier of a chat.
pub const HALF_ID_LETTERS: usize = 4;

/// A chat.
#[derive(Debug, PartialEq, Eq)]
pub struct FluxChatRoom {
    pub id: String,
    pub creation_date: String,
    pub creator: String,
    pub is_closed: bool,
}

/// What a [`FluxChatRoom`] holds.
pub struct FluxChatRoomView {
    pub id: Seq<char>,
    pub creation_date: Seq<char>,
    pub creator: Seq<char>,
    pub is_closed: bool,
}

/// The columns of a row of `flux_chat_rooms` that follow the first.
#[derive(Debug, PartialEq, Eq)]
pub struct FluxChatRoomRow {
    pub creation_date: String,
    pub creator: String,
    pub is_closed: bool,
}

/// What a [`FluxChatRoomRow`] holds.
pub struct FluxChatRoomRowView {
    pub creation_date: Seq<char>,
    pub creator: Seq<char>,
    pub is_closed: bool,
}

impl View for FluxChatRoom {
    type V = FluxChatRoomView;

    open spec fn view(&self) -> FluxChatRoomView {
        FluxChatRoomView {
            id: self.id@,
            creation_date: self.creation_date@,
            creator: self.creator@,
            is_closed: self.is_closed,
        }
    }
}

impl View for FluxChatRoomRow {
    type V = FluxChatRoomRowView;

    open spec fn view(&self) -> FluxChatRoomRowView {
        FluxChatRoomRowView {
            creation_date: self.creation_date@,
            creator: self.creator@,
            is_closed: self.is_closed,
        }
    }
}

impl Clone for FluxChatRoom {
    fn clone(&self) -> (copy: Self)
        ensures
            copy@ == self@,
    {
        FluxChatRoom {
            id: self.id.clone(),
            creation_date: self.creation_date.clone(),
            creator: self.creator.clone(),
            is_closed: self.is_closed,
        }
    }
}

impl FluxChatRoomRowView {
    /// The columns as the parameters of a statement.
    pub open spec fn values(self) -> Seq<ValueView> {
        seq![
            ValueView::Text(self.creation_date),
            ValueView::Text(self.creator),
            ValueView::Flag(self.is_closed),
        ]
    }
}

/// Whether a text is the identifier of a new chat: four letters, a dash and
/// four letters.
pub open spec fn is_room_id(id: Seq<char>) -> bool {
    &&& id.len() == HALF_ID_LETTERS + 1 + HALF_ID_LETTERS
    &&& capitals(id.take(HALF_ID_LETTERS as int))
    &&& id[HALF_ID_LETTERS as int] == '-'
    &&& capitals(id.skip(HALF_ID_LETTERS + 1))
}

impl FluxChatRoomView {
    /// A new chat, open, under the identifier that two halves make.
    pub open spec fn opened(
        head: Seq<char>,
        tail: Seq<char>,
        date: Seq<char>,
        creator: Seq<char>,
    ) -> FluxChatRoomView {
        FluxChatRoomView {
            id: head.push('-') + tail,
            creation_date: date,
            creator,
            is_closed: false,
        }
    }

    /// Whether this can be a new chat of the creator: open, with the
    /// identifier of one and a date.
    pub open spec fn drawn(self, creator: Seq<char>) -> bool {
        &&& is_room_id(self.id)
        &&& is_date(self.creation_date)
        &&& self.creator == creator
        &&& !self.is_closed
    }

    /// The chat of an identifier and the columns that are stored with it.
    pub open spec fn stored(id: Seq<char>, row: FluxChatRoomRowView) -> FluxChatRoomView {
        FluxChatRoomView {
            id,
            creation_date: row.creation_date,
            creator: row.creator,
            is_closed: row.is_closed,
        }
    }

    /// The columns that are stored with the chat's identifier.
    pub open spec fn row(self) -> FluxChatRoomRowView {
        FluxChatRoomRowView {
            creation_date: self.creation_date,
            creator: self.creator,
            is_closed: self.is_closed,
        }
    }

    /// The statement that stores the chat for the first time.
    pub open spec fn insert(self) -> StatementView {
        statement(INSERT_FLUX_CHAT_ROOM@, seq![ValueView::Text(self.id)] + self.row().values())
    }

    /// The statement that stores whether the chat is closed.
    pub open spec fn update(self) -> StatementView {
        statement(
            UPDATE_FLUX_CHAT_ROOM@,
            seq![ValueView::Text(self.id), ValueView::Flag(self.is_closed)],
        )
    }

    /// The statement that finds the members who are in the chat at present.
    pub open spec fn recipients(self) -> StatementView {
        statement(SELECT_RECIPIENTS@, seq![ValueView::Text(self.id)])
    }
}

impl FluxChatRoom {
    /// A new chat, open, under the identifier that two halves make.
    pub fn opened(head: String, tail: &str, date: String, creator: &str) -> (room: FluxChatRoom)
        ensures
            room@ == FluxChatRoomView::opened(head@, tail@, date@, creator@),
    {
        let mut id: String = head;
        id.push('-');
        id.append(tail);
        FluxChatRoom { id, creation_date: date, creator: creator.to_owned(), is_closed: false }
    }

    /// Initializes a FluxChatRoom struct: a new chat of the creator, open,
    /// with a random identifier, created now.
    ///
    /// The chat is stored by [`FluxChatRoom::insert_statement`].
    pub fn admin_new(creator: &str) -> (room: FluxChatRoom)
        ensures
            room@.drawn(creator@),
    {
        let head: String = random_letters(HALF_ID_LETTERS);
        let tail: String = random_letters(HALF_ID_LETTERS);
        let date: String = current_date();
        proof {
            let id = head@.push('-') + tail@;
            assert(id.take(HALF_ID_LETTERS as int) =~= head@);
            assert(id.skip(HALF_ID_LETTERS + 1) =~= tail@);
        }
        FluxChatRoom::opened(head, tail.as_str(), date, creator)
    }

    /// The statement that stores a new chat.
    pub fn insert_statement(&self) -> (s: Statement)
        ensures
            s@ == self@.insert(),
    {
        let s = Statement {
            sql: INSERT_FLUX_CHAT_ROOM,
            params: vec![
                Value::Text(self.id.clone()),
                Value::Text(self.creation_date.clone()),
                Value::Text(self.creator.clone()),
                Value::Flag(self.is_closed),
            ],
        };
        assert(s@.params =~= self@.insert().params);
        s
    }

    /// The statement whose answer [`FluxChatRoom::load_from_db`] takes.
    pub fn load_statement(chat_id: &str) -> (s: Statement)
        ensures
            s@ == statement(SELECT_FLUX_CHAT_ROOM@, seq![ValueView::Text(chat_id@)]),
    {
        Statement::with_text(SELECT_FLUX_CHAT_ROOM, chat_id)
    }

    /// Retrieves a chat already in the database
    ///
    /// `row` is what the database answered to [`FluxChatRoom::load_statement`].
    pub fn load_from_db(chat_id: String, row: Result<FluxChatRoomRow, DbError>) -> (r: Result<
        FluxChatRoom,
        DbError,
    >)
        ensures
            match row {
                Ok(columns) => r is Ok && r->Ok_0@ == FluxChatRoomView::stored(chat_id@, columns@),
                Err(e) => r == Err::<FluxChatRoom, DbError>(e),
            },
    {
        match row {
            Ok(columns) => Ok(
                FluxChatRoom {
                    id: chat_id,
                    creation_date: columns.creation_date,
                    creator: columns.creator,
                    is_closed: columns.is_closed,
                },
            ),
            Err(e) => Err(e),
        }
    }

    /// The statement whose outcome [`FluxChatRoom::push_to_db`] takes.
    pub fn push_statement(&self) -> (s: Statement)
        ensures
            s@ == self@.update(),
    {
        let s = Statement {
            sql: UPDATE_FLUX_CHAT_ROOM,
            params: vec![Value::Text(self.id.clone()), Value::Flag(self.is_closed)],
        };
        assert(s@.params =~= self@.update().params);
        s
    }

    /// Updates the database with new FluxChatRoom values
    ///
    /// Please, take note that any value that is
    /// not is_closed shouldn't be changed since Chat creation so those values won't be pushed.
    ///
    /// `outcome` is what became of [`FluxChatRoom::push_statement`]. Returns
    /// the inserted struct on success
    pub fn push_to_db(&self, outcome: Result<(), DbError>) -> (r: Result<FluxChatRoom, DbError>)
        ensures
            match outcome {
                Ok(_) => r is Ok && r->Ok_0@ == self@,
                Err(e) => r == Err::<FluxChatRoom, DbError>(e),
            },
    {
        match outcome {
            Ok(_) => Ok(self.clone()),
            Err(e) => Err(e),
        }
    }

    /// The statement whose answer [`FluxChatRoom::send_message`] takes.
    pub fn recipients_statement(&self) -> (s: Statement)
        ensures
            s@ == self@.recipients(),
    {
        Statement::with_text(SELECT_RECIPIENTS, self.id.as_str())
    }

    /// Send a message in the chat
    ///
    /// `rows` is what the database answered to
    /// [`FluxChatRoom::recipients_statement`]: the first column of every row.
    pub fn send_message(
        &self,
        message: &str,
        rows: Result<Vec<Result<String, DbError>>, DbError>,
    ) -> (r: Result<Delivery, DbError>)
        ensures
            match rows {
                Ok(recipients) => r is Ok && r->Ok_0@ == (DeliveryView {
                    message: message@,
                    recipients: rows_view(recipients@),
                    next: 0,
                }),
                Err(e) => r == Err::<Delivery, DbError>(e),
            },
    {
        match rows {
            Ok(recipients) => Ok(Delivery { message: message.to_owned(), recipients, next: 0 }),
            Err(e) => Err(e),
        }
    }
}

/// Whether `ruma` takes a text for the identifier of a Matrix user.
pub uninterp spec fn is_user_id(id: Seq<char>) -> bool;

/// `str::parse` of std to an `OwnedUserId` of `ruma`, which is that type's
/// `FromStr`: the identifier where the text is one, and then with the very
/// characters of the text. Which texts are identifiers has a name here; how
/// `ruma` decides it is left unsaid.
#[verifier::external_body]
fn parse_user_id(id: &str) -> (user: Option<String>)
    ensures
        user is Some <==> is_user_id(id@),
        user matches Some(u) ==> u@ == id@,
{
    id.parse::<OwnedUserId>().ok().map(|user| user.to_string())
}

/// What went wrong where nothing can be done about it.
#[derive(Debug, PartialEq, Eq)]
pub enum Fault {
    /// The database failed.
    Database(DbError),
    /// A recipient's identifier is none of a Matrix user.
    UserId(String),
    /// A message could not be sent.
    Unsent,
    /// The bot does not know its own identifier.
    NotLoggedIn,
    /// An answer came to a question that had not been asked.
    OutOfTurn,
}

/// What a [`Fault`] holds.
pub enum FaultView {
    Database(Seq<char>),
    UserId(Seq<char>),
    Unsent,
    NotLoggedIn,
    OutOfTurn,
}

impl View for Fault {
    type V = FaultView;

    open spec fn view(&self) -> FaultView {
        match self {
            Fault::Database(e) => FaultView::Database(e.message@),
            Fault::UserId(id) => FaultView::UserId(id@),
            Fault::Unsent => FaultView::Unsent,
            Fault::NotLoggedIn => FaultView::NotLoggedIn,
            Fault::OutOfTurn => FaultView::OutOfTurn,
        }
    }
}

/// A message on its way to the members of a chat.
#[derive(Debug, PartialEq, Eq)]
pub struct Delivery {
    pub message: String,
    /// Who gets the message, or the error of a row that could not be read.
    pub recipients: Vec<Result<String, DbError>>,
    /// The index of the next recipient.
    pub next: usize,
}

/// What a [`Delivery`] holds.
pub struct DeliveryView {
    pub message: Seq<char>,
    pub recipients: Seq<Result<Seq<char>, Seq<char>>>,
    pub next: nat,
}

/// A row of recipients, or the message of its error.
pub open spec fn row_view(row: Result<String, DbError>) -> Result<Seq<char>, Seq<char>> {
    match row {
        Ok(id) => Ok(id@),
        Err(e) => Err(e.message@),
    }
}

/// The rows of recipients.
pub open spec fn rows_view(rows: Seq<Result<String, DbError>>) -> Seq<
    Result<Seq<char>, Seq<char>>,
> {
    rows.map_values(|row: Result<String, DbError>| row_view(row))
}

impl View for Delivery {
    type V = DeliveryView;

    open spec fn view(&self) -> DeliveryView {
        DeliveryView {
            message: self.message@,
            recipients: rows_view(self.recipients@),
            next: self.next as nat,
        }
    }
}

/// What a delivery asks for next.
#[derive(Debug, PartialEq, Eq)]
pub enum DeliveryStep {
    /// Send the text to the user's direct room.
    Send { user_id: String, text: String },
    /// The delivery cannot go on.
    Broken(Fault),
    /// Everyone has got the message.
    Done(&'static str),
}

/// What a [`DeliveryStep`] holds.
pub enum DeliveryStepView {
    Send { user_id: Seq<char>, text: Seq<char> },
    Broken(FaultView),
    Done(Seq<char>),
}

impl View for DeliveryStep {
    type V = DeliveryStepView;

    open spec fn view(&self) -> DeliveryStepView {
        match self {
            DeliveryStep::Send { user_id, text } => DeliveryStepView::Send {
                user_id: user_id@,
                text: text@,
            },
            DeliveryStep::Broken(fault) => DeliveryStepView::Broken(fault@),
            DeliveryStep::Done(report) => DeliveryStepView::Done(report@),
        }
    }
}

impl DeliveryView {
    /// What the delivery asks for next, where `user_id` is what the next
    /// recipient's identifier was parsed to.
    pub open spec fn step_given(self, user_id: Option<Seq<char>>) -> DeliveryStepView {
        if self.next >= self.recipients.len() {
            DeliveryStepView::Done(DELIVERED@)
        } else {
            match (self.recipients[self.next as int], user_id) {
                (Err(e), _) => DeliveryStepView::Broken(FaultView::Database(e)),
                (Ok(_), Some(user_id)) => DeliveryStepView::Send { user_id, text: self.message },
                (Ok(id), None) => DeliveryStepView::Broken(FaultView::UserId(id)),
            }
        }
    }

    /// What the next recipient's identifier is parsed to.
    pub open spec fn next_user_id(self) -> Option<Seq<char>> {
        if self.next < self.recipients.len() {
            match self.recipients[self.next as int] {
                Ok(id) => if is_user_id(id) {
                    Some(id)
                } else {
                    None
                },
                Err(_) => None,
            }
        } else {
            None
        }
    }

    /// What the delivery asks for next.
    pub open spec fn step(self) -> DeliveryStepView {
        self.step_given(self.next_user_id())
    }

    /// The delivery once a step has been asked for.
    pub open spec fn after(self, step: DeliveryStepView) -> DeliveryView {
        if step is Send {
            DeliveryView { next: self.next + 1, ..self }
        } else {
            self
        }
    }
}

impl Delivery {
    /// Asks for the next step, where `user_id` is what the next recipient's
    /// identifier was parsed to.
    pub fn step_given(&mut self, user_id: Option<String>) -> (step: DeliveryStep)
        ensures
            step@ == old(self)@.step_given(
                match user_id {
                    Some(u) => Some(u@),
                    None => None,
                },
            ),
            final(self)@ == old(self)@.after(step@),
    {
        if self.next >= self.recipients.len() {
            return DeliveryStep::Done(DELIVERED);
        }
        let ghost before = self@;
        assert(before.recipients[before.next as int] == row_view(
            self.recipients@[self.next as int],
        ));
        match &self.recipients[self.next] {
            Ok(id) => match user_id {
                Some(user_id) => {
                    self.next = self.next + 1;
                    DeliveryStep::Send { user_id, text: self.message.clone() }
                },
                None => DeliveryStep::Broken(Fault::UserId(id.clone())),
            },
            Err(e) => DeliveryStep::Broken(
                Fault::Database(DbError { message: e.message.clone() }),
            ),
        }
    }

    /// Asks for the next step: a message to the next recipient, until all
    /// have got it, a row cannot be read or an identifier is none.
    pub fn step(&mut self) -> (step: DeliveryStep)
        ensures
            step@ == old(self)@.step(),
            final(self)@ == old(self)@.after(step@),
    {
        let mut user_id: Option<String> = None;
        if self.next < self.recipients.len() {
            assert(self@.recipients[self.next as int] == row_view(
                self.recipients@[self.next as int],
            ));
            match &self.recipients[self.next] {
                Ok(id) => {
                    user_id = parse_user_id(id.as_str());
                },
                Err(_) => {},
            }
        }
        self.step_given(user_id)
    }
}

/// A chat is read back as stored: whatever row holds the values that the
/// insertion hands over is loaded as that very chat.
pub proof fn law_room_reads_back(room: FluxChatRoomView, row: FluxChatRoomRowView)
    requires
        room.insert().params.drop_first() == row.values(),
    ensures
        FluxChatRoomView::stored(room.id, row) == room,
{
    assert(room.insert().params.drop_first() =~= room.row().values());
    let stored = room.row().values();
    let read = row.values();
    assert(stored[0] == read[0] && stored[1] == read[1] && stored[2] == read[2]);
}

/// An update of a chat speaks of its identifier and of whether it is closed:
/// chats that differ in nothing else have different updates, and chats that
/// agree in both have the same.
pub proof fn law_update_carries_is_closed_alone(a: FluxChatRoomView, b: FluxChatRoomView)
    ensures
        a.update() == b.update() <==> a.id == b.id && a.is_closed == b.is_closed,
{
    if a.update() == b.update() {
        let p = a.update().params;
        let q = b.update().params;
        assert(p[0] == q[0] && p[1] == q[1]);
    }
}

/// The identifier of a new chat has nine characters: a dash in the middle, and
/// capitals on both sides of it. Every such text is one.
pub proof fn law_room_ids_are_letters_and_a_dash(id: Seq<char>)
    ensures
        is_room_id(id) <==> id.len() == 9 && id[4] == '-' && forall|i: int|
            0 <= i < 9 && i != 4 ==> 'A' <= #[trigger] id[i] <= 'Z',
{
    if is_room_id(id) {
        let head = id.take(4);
        let tail = id.skip(5);
        assert forall|i: int| 0 <= i < 9 && i != 4 implies 'A' <= #[trigger] id[i] <= 'Z' by {
            if i < 4 {
                assert(id[i] == head[i]);
            } else {
                assert(id[i] == tail[i - 5]);
            }
        }
    }
    if id.len() == 9 && id[4] == '-' && forall|i: int|
        0 <= i < 9 && i != 4 ==> 'A' <= #[trigger] id[i] <= 'Z' {
        let head = id.take(4);
        let tail = id.skip(5);
        assert forall|i: int| 0 <= i < head.len() implies 'A' <= #[trigger] head[i] <= 'Z' by {
            assert(head[i] == id[i]);
        }
        assert forall|i: int| 0 <= i < tail.len() implies 'A' <= #[trigger] tail[i] <= 'Z' by {
            assert(tail[i] == id[i + 5]);
        }
    }
}

/// A new chat is open, is its creator's, and has an identifier and a date;
/// nothing else is asked of it.
pub proof fn law_new_chats_are_open(room: FluxChatRoomView, creator: Seq<char>)
    ensures
        room.drawn(creator) <==> !room.is_closed && room.creator == creator && is_room_id(room.id)
            && is_date(room.creation_date),
{
}

/// The identifier of a chat is its two halves with a dash between them.
pub proof fn law_a_chat_of_two_halves(
    head: Seq<char>,
    tail: Seq<char>,
    date: Seq<char>,
    creator: Seq<char>,
)
    ensures
        ({
            let room = FluxChatRoomView::opened(head, tail, date, creator);
            &&& room.id == head + seq!['-'] + tail
            &&& room.creation_date == date
            &&& room.creator == creator
            &&& !room.is_closed
        }),
{
    assert(head.push('-') + tail =~= head + seq!['-'] + tail);
}

/// The insertion of a chat hands over all four columns, in the order in which
/// it names them.
pub proof fn law_chat_insertion_hands_over_all_columns(room: FluxChatRoomView)
    ensures
        room.insert().sql == INSERT_FLUX_CHAT_ROOM@,
        room.insert().params == seq![
            ValueView::Text(room.id),
            ValueView::Text(room.creation_date),
            ValueView::Text(room.creator),
            ValueView::Flag(room.is_closed),
        ],
{
    assert(room.insert().params =~= seq![
        ValueView::Text(room.id),
        ValueView::Text(room.creation_date),
        ValueView::Text(room.creator),
        ValueView::Flag(room.is_closed),
    ]);
}

/// The update of a chat hands over its identifier and whether it is closed, and
/// its recipients are asked for by its identifier.
pub proof fn law_chats_are_found_by_identifier(room: FluxChatRoomView)
    ensures
        room.update().sql == UPDATE_FLUX_CHAT_ROOM@,
        room.update().params == seq![ValueView::Text(room.id), ValueView::Flag(room.is_closed)],
        room.recipients().sql == SELECT_RECIPIENTS@,
        room.recipients().params == seq![ValueView::Text(room.id)],
{
}

/// What is read of a chat is the identifier that it was read by and the columns
/// of the row, each as it is.
pub proof fn law_a_chat_is_read_as_it_is(id: Seq<char>, row: FluxChatRoomRowView)
    ensures
        ({
            let room = FluxChatRoomView::stored(id, row);
            &&& room.id == id
            &&& room.creation_date == row.creation_date
            &&& room.creator == row.creator
            &&& room.is_closed == row.is_closed
        }),
{
}

/// A delivery goes on with the next recipient, whoever that is and whatever the
/// message: the message is sent as it is to the identifier as it was read, and
/// the recipient behind is next.
pub proof fn law_a_delivery_goes_on(delivery: DeliveryView, id: Seq<char>)
    requires
        delivery.next < delivery.recipients.len(),
        delivery.recipients[delivery.next as int] == Ok::<Seq<char>, Seq<char>>(id),
        is_user_id(id),
    ensures
        delivery.step() == (DeliveryStepView::Send { user_id: id, text: delivery.message }),
        delivery.after(delivery.step()).next == delivery.next + 1,
        delivery.after(delivery.step()).recipients == delivery.recipients,
        delivery.after(delivery.step()).message == delivery.message,
{
}

/// A delivery ends where a row cannot be read or names no user, with the error
/// or the text, and where nobody is left; and then it stays as it is.
pub proof fn law_a_delivery_ends(delivery: DeliveryView)
    requires
        delivery.next < delivery.recipients.len() ==> !(delivery.recipients[delivery.next as int]
            matches Ok(id) && is_user_id(id)),
    ensures
        delivery.next >= delivery.recipients.len() ==> delivery.step() == DeliveryStepView::Done(
            "fine"@,
        ),
        delivery.next < delivery.recipients.len() ==> match delivery.recipients[delivery.next as int] {
            Ok(id) => delivery.step() == DeliveryStepView::Broken(FaultView::UserId(id)),
            Err(e) => delivery.step() == DeliveryStepView::Broken(FaultView::Database(e)),
        },
        delivery.after(delivery.step()) == delivery,
{
}

/// A delivery goes by what the next recipient's identifier was parsed to: the
/// message goes there, and where it was parsed to nothing, or the row could not
/// be read, or nobody is left, the delivery ends.
pub proof fn law_a_delivery_goes_by_what_was_parsed(
    delivery: DeliveryView,
    user_id: Option<Seq<char>>,
)
    ensures
        delivery.next >= delivery.recipients.len() ==> delivery.step_given(user_id)
            == DeliveryStepView::Done("fine"@),
        delivery.next < delivery.recipients.len() ==> match (
            delivery.recipients[delivery.next as int],
            user_id,
        ) {
            (Ok(_), Some(parsed)) => delivery.step_given(user_id) == (DeliveryStepView::Send {
                user_id: parsed,
                text: delivery.message,
            }),
            (Ok(id), None) => delivery.step_given(user_id) == DeliveryStepView::Broken(
                FaultView::UserId(id),
            ),
            (Err(e), _) => delivery.step_given(user_id) == DeliveryStepView::Broken(
                FaultView::Database(e),
            ),
        },
{
}

/// What was asked for decides how a delivery is left: one recipient further
/// where a message was to be sent, as it was where it ended.
pub proof fn law_only_messages_move_a_delivery(delivery: DeliveryView, step: DeliveryStepView)
    ensures
        delivery.after(step).message == delivery.message,
        delivery.after(step).recipients == delivery.recipients,
        delivery.after(step).next == delivery.next + (if step is Send {
            1int
        } else {
            0
        }),
{
}

/// Chats, their rows and deliveries show all that they hold.
pub proof fn law_chats_show_all_they_hold(
    room: FluxChatRoom,
    row: FluxChatRoomRow,
    delivery: Delivery,
    i: int,
)
    ensures
        room@.id == room.id@,
        room@.creation_date == room.creation_date@,
        room@.creator == room.creator@,
        room@.is_closed == room.is_closed,
        row@.creation_date == row.creation_date@,
        row@.creator == row.creator@,
        row@.is_closed == row.is_closed,
        delivery@.message == delivery.message@,
        delivery@.next == delivery.next,
        delivery@.recipients == rows_view(delivery.recipients@),
        rows_view(delivery.recipients@).len() == delivery.recipients@.len(),
        0 <= i < delivery.recipients@.len() ==> match delivery.recipients@[i] {
            Ok(id) => rows_view(delivery.recipients@)[i] == Ok::<Seq<char>, Seq<char>>(id@),
            Err(e) => rows_view(delivery.recipients@)[i] == Err::<Seq<char>, Seq<char>>(
                e.message@,
            ),
        },
{
}

/// Faults and steps of a delivery show all that they hold.
pub proof fn law_faults_show_all_they_hold(fault: Fault, step: DeliveryStep)
    ensures
        match fault {
            Fault::Database(e) => fault@ == FaultView::Database(e.message@),
            Fault::UserId(id) => fault@ == FaultView::UserId(id@),
            Fault::Unsent => fault@ is Unsent,
            Fault::NotLoggedIn => fault@ is NotLoggedIn,
            Fault::OutOfTurn => fault@ is OutOfTurn,
        },
        match step {
            DeliveryStep::Send { user_id, text } => step@ == (DeliveryStepView::Send {
                user_id: user_id@,
                text: text@,
            }),
            DeliveryStep::Broken(broken) => step@ == DeliveryStepView::Broken(broken@),
            DeliveryStep::Done(report) => step@ == DeliveryStepView::Done(report@),
        },
{
}

/// Chats are found, closed and read by their identifiers. Recipients are all
/// who are in the chat as the member that they are stored as, whoever they are
/// otherwise.
pub proof fn law_chat_statements()
    ensures
        INSERT_FLUX_CHAT_ROOM@
            == "INSERT INTO flux_chat_rooms (id, creation_date, creator, is_closed) VALUES (?1, ?2, ?3, ?4)"@,
        SELECT_FLUX_CHAT_ROOM@ == "SELECT * FROM flux_chat_rooms WHERE id=?1"@,
        UPDATE_FLUX_CHAT_ROOM@
            == "UPDATE flux_chat_rooms
            SET is_closed=?2
            WHERE id=?1"@,
        SELECT_RECIPIENTS@
            == "SELECT * FROM bot_users 
        INNER JOIN flux_chat_users 
        ON bot_users.matrix_user=flux_chat_users.matrix_user 
        AND flux_chat_users.is_anon=bot_users.as_anon 
        AND bot_users.attached_to=flux_chat_users.chat_id 
        WHERE chat_id=?1"@,
{
}

} // verus!
