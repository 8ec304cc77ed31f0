//! The people that the bot knows, and the members of its chats.

use crate::database::{statement, DbError, Statement, StatementView, Value, ValueView};
use crate::random::{capitals, random_letters};
use vstd::prelude::*;

verus! {

pub const FIND_BOT_USER: &'static str = "SELECT matrix_user FROM bot_users WHERE matrix_user=?1";

pub const SELECT_BOT_USER: &'static str = "SELECT * FROM bot_users WHERE matrix_user=?1";

pub const INSERT_BOT_USER: &'static str =
    "INSERT INTO bot_users (matrix_user, ticket_room, attached_to, as_anon, is_admin, is_banned) VALUES (?1, ?2, ?3, ?4, ?5, ?6)";

pub const UPDATE_BOT_USER: &'static str =
    "UPDATE bot_users
            SET ticket_room=?1, attached_to=?2, as_anon=?3, is_admin=?4, is_banned=?5
            WHERE matrix_user=?6";

pub const INSERT_FLUX_CHAT_USER: &'static str =
    "INSERT INTO flux_chat_users (matrix_user, display_name, is_anon, chat_id) VALUES (?1, ?2, ?3, ?4)";

pub const SELECT_FLUX_CHAT_USER: &'static str =
    "SELECT * FROM flux_chat_users WHERE matrix_user=?1 AND is_anon=?2";

/// The number of letters in the name of an anonymous member.
pub const ALIAS_LETTERS: usize = 6;

/// Someone who has written to the bot.
#[derive(Debug, PartialEq, Eq)]
pub struct BotUser {
    pub matrix_user: String,
    pub ticket_room: String,
    /// The chat that the user is in, empty where there is none.
    pub attached_to: String,
    pub as_anon: bool,
    pub is_admin: bool,
    pub is_banned: bool,
}

/// What a [`BotUser`] holds.
pub struct BotUserView {
    pub matrix_user: Seq<char>,
    pub ticket_room: Seq<char>,
    pub attached_to: Seq<char>,
    pub as_anon: bool,
    pub is_admin: bool,
    pub is_banned: bool,
}

/// The columns of a row of `bot_users` that follow the first.
#[derive(Debug, PartialEq, Eq)]
pub struct BotUserRow {
    pub ticket_room: String,
    pub attached_to: String,
    pub as_anon: bool,
    pub is_admin: bool,
    pub is_banned: bool,
}

/// What a [`BotUserRow`] holds.
pub struct BotUserRowView {
    pub ticket_room: Seq<char>,
    pub attached_to: Seq<char>,
    pub as_anon: bool,
    pub is_admin: bool,
    pub is_banned: bool,
}

impl View for BotUser {
    type V = BotUserView;

    open spec fn view(&self) -> BotUserView {
        BotUserView {
            matrix_user: self.matrix_user@,
            ticket_room: self.ticket_room@,
            attached_to: self.attached_to@,
            as_anon: self.as_anon,
            is_admin: self.is_admin,
            is_banned: self.is_banned,
        }
    }
}

impl View for BotUserRow {
    type V = BotUserRowView;

    open spec fn view(&self) -> BotUserRowView {
        BotUserRowView {
            ticket_room: self.ticket_room@,
            attached_to: self.attached_to@,
            as_anon: self.as_anon,
            is_admin: self.is_admin,
            is_banned: self.is_banned,
        }
    }
}

impl Clone for BotUser {
    fn clone(&self) -> (copy: Self)
        ensures
            copy@ == self@,
    {
        BotUser {
            matrix_user: self.matrix_user.clone(),
            ticket_room: self.ticket_room.clone(),
            attached_to: self.attached_to.clone(),
            as_anon: self.as_anon,
            is_admin: self.is_admin,
            is_banned: self.is_banned,
        }
    }
}

impl BotUserRowView {
    /// The columns as the parameters of a statement.
    pub open spec fn values(self) -> Seq<ValueView> {
        seq![
            ValueView::Text(self.ticket_room),
            ValueView::Text(self.attached_to),
            ValueView::Flag(self.as_anon),
            ValueView::Flag(self.is_admin),
            ValueView::Flag(self.is_banned),
        ]
    }
}

impl BotUserView {
    /// A user of whom nothing but the identifier is known.
    pub open spec fn fresh(matrix_user: Seq<char>) -> BotUserView {
        BotUserView {
            matrix_user,
            ticket_room: Seq::empty(),
            attached_to: Seq::empty(),
            as_anon: false,
            is_admin: false,
            is_banned: false,
        }
    }

    /// The user of an identifier and the columns that are stored with it.
    pub open spec fn stored(matrix_user: Seq<char>, row: BotUserRowView) -> BotUserView {
        BotUserView {
            matrix_user,
            ticket_room: row.ticket_room,
            attached_to: row.attached_to,
            as_anon: row.as_anon,
            is_admin: row.is_admin,
            is_banned: row.is_banned,
        }
    }

    /// The columns that are stored with the user's identifier.
    pub open spec fn row(self) -> BotUserRowView {
        BotUserRowView {
            ticket_room: self.ticket_room,
            attached_to: self.attached_to,
            as_anon: self.as_anon,
            is_admin: self.is_admin,
            is_banned: self.is_banned,
        }
    }

    /// The statement that stores the user for the first time.
    pub open spec fn insert(self) -> StatementView {
        statement(INSERT_BOT_USER@, seq![ValueView::Text(self.matrix_user)] + self.row().values())
    }

    /// The statement that stores the user's present columns. The identifier
    /// is what the row is found by; no column of that name is set.
    pub open spec fn update(self) -> StatementView {
        statement(UPDATE_BOT_USER@, self.row().values().push(ValueView::Text(self.matrix_user)))
    }
}

impl BotUser {
    /// Initialize an user struct with default data and the User ID
    pub fn initialize_user(matrix_user: String) -> (user: BotUser)
        ensures
            user@ == BotUserView::fresh(matrix_user@),
    {
        BotUser {
            matrix_user,
            ticket_room: String::new(),
            attached_to: String::new(),
            as_anon: false,
            is_admin: false,
            is_banned: false,
        }
    }

    /// The statement that finds out whether a user is in the database.
    pub fn find_statement(matrix_user: &str) -> (s: Statement)
        ensures
            s@ == statement(FIND_BOT_USER@, seq![ValueView::Text(matrix_user@)]),
    {
        Statement::with_text(FIND_BOT_USER, matrix_user)
    }

    /// The statement whose answer [`BotUser::load_from_db`] takes.
    pub fn load_statement(matrix_user: &str) -> (s: Statement)
        ensures
            s@ == statement(SELECT_BOT_USER@, seq![ValueView::Text(matrix_user@)]),
    {
        Statement::with_text(SELECT_BOT_USER, matrix_user)
    }

    /// Retrieve the user's struct for an user already in database
    ///
    /// `row` is what the database answered to [`BotUser::load_statement`].
    pub fn load_from_db(matrix_user: String, row: Result<BotUserRow, DbError>) -> (r: Result<
        BotUser,
        DbError,
    >)
        ensures
            match row {
                Ok(columns) => r is Ok && r->Ok_0@ == BotUserView::stored(matrix_user@, columns@),
                Err(e) => r == Err::<BotUser, DbError>(e),
            },
    {
        match row {
            Ok(columns) => Ok(
                BotUser {
                    matrix_user,
                    ticket_room: columns.ticket_room,
                    attached_to: columns.attached_to,
                    as_anon: columns.as_anon,
                    is_admin: columns.is_admin,
                    is_banned: columns.is_banned,
                },
            ),
            Err(e) => Err(e),
        }
    }

    /// The statement that stores a new user.
    pub fn insert_statement(&self) -> (s: Statement)
        ensures
            s@ == self@.insert(),
    {
        let s = Statement {
            sql: INSERT_BOT_USER,
            params: vec![
                Value::Text(self.matrix_user.clone()),
                Value::Text(self.ticket_room.clone()),
                Value::Text(self.attached_to.clone()),
                Value::Flag(self.as_anon),
                Value::Flag(self.is_admin),
                Value::Flag(self.is_banned),
            ],
        };
        assert(s@.params =~= self@.insert().params);
        s
    }

    /// The statement whose outcome [`BotUser::push_to_db`] takes.
    pub fn push_statement(&self) -> (s: Statement)
        ensures
            s@ == self@.update(),
    {
        let s = Statement {
            sql: UPDATE_BOT_USER,
            params: vec![
                Value::Text(self.ticket_room.clone()),
                Value::Text(self.attached_to.clone()),
                Value::Flag(self.as_anon),
                Value::Flag(self.is_admin),
                Value::Flag(self.is_banned),
                Value::Text(self.matrix_user.clone()),
            ],
        };
        assert(s@.params =~= self@.update().params);
        s
    }

    /// Updates the database with new bot User values
    ///
    /// Please, take note that matrix_user should
    /// never change, therefore it won't be pushed to the database.
    ///
    /// `outcome` is what became of [`BotUser::push_statement`]. Returns the
    /// passed struct on success
    pub fn push_to_db(&self, outcome: Result<(), DbError>) -> (r: Result<BotUser, DbError>)
        ensures
            match outcome {
                Ok(_) => r is Ok && r->Ok_0@ == self@,
                Err(e) => r == Err::<BotUser, DbError>(e),
            },
    {
        match outcome {
            Ok(_) => Ok(self.clone()),
            Err(e) => Err(e),
        }
    }
}

/// A member of a chat, under the name that the chat knows.
#[derive(Debug, PartialEq, Eq)]
pub struct FluxChatUser {
    pub matrix_user: String,
    pub display_name: String,
    pub is_anon: bool,
    pub chat_id: String,
}

/// What a [`FluxChatUser`] holds.
pub struct FluxChatUserView {
    pub matrix_user: Seq<char>,
    pub display_name: Seq<char>,
    pub is_anon: bool,
    pub chat_id: Seq<char>,
}

/// The columns of a row of `flux_chat_users` that follow the first.
#[derive(Debug, PartialEq, Eq)]
pub struct FluxChatUserRow {
    pub display_name: String,
    pub is_anon: bool,
    pub chat_id: String,
}

/// What a [`FluxChatUserRow`] holds.
pub struct FluxChatUserRowView {
    pub display_name: Seq<char>,
    pub is_anon: bool,
    pub chat_id: Seq<char>,
}

impl View for FluxChatUser {
    type V = FluxChatUserView;

    open spec fn view(&self) -> FluxChatUserView {
        FluxChatUserView {
            matrix_user: self.matrix_user@,
            display_name: self.display_name@,
            is_anon: self.is_anon,
            chat_id: self.chat_id@,
        }
    }
}

impl View for FluxChatUserRow {
    type V = FluxChatUserRowView;

    open spec fn view(&self) -> FluxChatUserRowView {
        FluxChatUserRowView {
            display_name: self.display_name@,
            is_anon: self.is_anon,
            chat_id: self.chat_id@,
        }
    }
}

impl Clone for FluxChatUser {
    fn clone(&self) -> (copy: Self)
        ensures
            copy@ == self@,
    {
        FluxChatUser {
            matrix_user: self.matrix_user.clone(),
            display_name: self.display_name.clone(),
            is_anon: self.is_anon,
            chat_id: self.chat_id.clone(),
        }
    }
}

impl FluxChatUserRowView {
    /// The columns as the parameters of a statement.
    pub open spec fn values(self) -> Seq<ValueView> {
        seq![
            ValueView::Text(self.display_name),
            ValueView::Flag(self.is_anon),
            ValueView::Text(self.chat_id),
        ]
    }
}

impl FluxChatUserView {
    /// A new member of a chat: under the alias, and anonymous, where there is
    /// one, else under the own identifier.
    pub open spec fn member(
        matrix_user: Seq<char>,
        alias: Option<Seq<char>>,
        chat_id: Seq<char>,
    ) -> FluxChatUserView {
        FluxChatUserView {
            matrix_user,
            display_name: match alias {
                Some(name) => name,
                None => matrix_user,
            },
            is_anon: alias is Some,
            chat_id,
        }
    }

    /// Whether this can be a new member of a chat: under an alias of letters
    /// where it is anonymous, else under the own identifier.
    pub open spec fn drawn(self, matrix_user: Seq<char>, is_anon: bool, chat_id: Seq<char>) -> bool {
        &&& self.matrix_user == matrix_user
        &&& self.is_anon == is_anon
        &&& self.chat_id == chat_id
        &&& is_anon ==> self.display_name.len() == ALIAS_LETTERS && capitals(self.display_name)
        &&& !is_anon ==> self.display_name == matrix_user
    }

    /// The member of an identifier and the columns that are stored with it.
    pub open spec fn stored(matrix_user: Seq<char>, row: FluxChatUserRowView) -> FluxChatUserView {
        FluxChatUserView {
            matrix_user,
            display_name: row.display_name,
            is_anon: row.is_anon,
            chat_id: row.chat_id,
        }
    }

    /// The columns that are stored with the member's identifier.
    pub open spec fn row(self) -> FluxChatUserRowView {
        FluxChatUserRowView {
            display_name: self.display_name,
            is_anon: self.is_anon,
            chat_id: self.chat_id,
        }
    }

    /// The statement that stores the member.
    pub open spec fn insert(self) -> StatementView {
        statement(
            INSERT_FLUX_CHAT_USER@,
            seq![ValueView::Text(self.matrix_user)] + self.row().values(),
        )
    }
}

impl FluxChatUser {
    /// A new member of a chat: under the alias, and anonymous, where there is
    /// one, else under the own identifier.
    pub fn member(matrix_user: &str, alias: Option<String>, chat_id: &str) -> (user: FluxChatUser)
        ensures
            user@ == FluxChatUserView::member(
                matrix_user@,
                match alias {
                    Some(name) => Some(name@),
                    None => None,
                },
                chat_id@,
            ),
    {
        match alias {
            Some(name) => FluxChatUser {
                matrix_user: matrix_user.to_owned(),
                display_name: name,
                is_anon: true,
                chat_id: chat_id.to_owned(),
            },
            None => FluxChatUser {
                matrix_user: matrix_user.to_owned(),
                display_name: matrix_user.to_owned(),
                is_anon: false,
                chat_id: chat_id.to_owned(),
            },
        }
    }

    /// A new member of a chat. Who is anonymous gets an alias of six random
    /// letters, who is not goes by the own identifier.
    ///
    /// The member is stored by [`FluxChatUser::push_statement`].
    pub fn initialize_user(matrix_user: &str, is_anon: bool, chat_id: &str) -> (user: FluxChatUser)
        ensures
            user@.drawn(matrix_user@, is_anon, chat_id@),
    {
        if is_anon {
            FluxChatUser::member(matrix_user, Some(random_letters(ALIAS_LETTERS)), chat_id)
        } else {
            FluxChatUser::member(matrix_user, None, chat_id)
        }
    }

    /// The statement whose outcome [`FluxChatUser::push_to_db`] takes.
    pub fn push_statement(&self) -> (s: Statement)
        ensures
            s@ == self@.insert(),
    {
        let s = Statement {
            sql: INSERT_FLUX_CHAT_USER,
            params: vec![
                Value::Text(self.matrix_user.clone()),
                Value::Text(self.display_name.clone()),
                Value::Flag(self.is_anon),
                Value::Text(self.chat_id.clone()),
            ],
        };
        assert(s@.params =~= self@.insert().params);
        s
    }

    /// Pushes a FluxChatUser to database, please remember that FluxChatUsers should NOT BE updated,
    /// this funcion purpose is to make the initial push only!
    ///
    /// `outcome` is what became of [`FluxChatUser::push_statement`].
    pub fn push_to_db(&self, outcome: Result<(), DbError>) -> (r: Result<FluxChatUser, DbError>)
        ensures
            match outcome {
                Ok(_) => r is Ok && r->Ok_0@ == self@,
                Err(e) => r == Err::<FluxChatUser, DbError>(e),
            },
    {
        match outcome {
            Ok(_) => Ok(self.clone()),
            Err(e) => Err(e),
        }
    }

    /// The statement whose answer [`FluxChatUser::load_from_db`] takes.
    pub fn load_statement(matrix_user: &str, as_anon: bool) -> (s: Statement)
        ensures
            s@ == statement(
                SELECT_FLUX_CHAT_USER@,
                seq![ValueView::Text(matrix_user@), ValueView::Flag(as_anon)],
            ),
    {
        let s = Statement {
            sql: SELECT_FLUX_CHAT_USER,
            params: vec![Value::Text(matrix_user.to_owned()), Value::Flag(as_anon)],
        };
        assert(s@.params =~= seq![ValueView::Text(matrix_user@), ValueView::Flag(as_anon)]);
        s
    }

    /// Loads an user from the database, it does a cross search with matrix_user and as_anon values
    /// taken from a BotUser struct
    ///
    /// `row` is what the database answered to [`FluxChatUser::load_statement`].
    pub fn load_from_db(matrix_user: String, row: Result<FluxChatUserRow, DbError>) -> (r: Result<
        FluxChatUser,
        DbError,
    >)
        ensures
            match row {
                Ok(columns) => r is Ok && r->Ok_0@ == FluxChatUserView::stored(
                    matrix_user@,
                    columns@,
                ),
                Err(e) => r == Err::<FluxChatUser, DbError>(e),
            },
    {
        match row {
            Ok(columns) => Ok(
                FluxChatUser {
                    matrix_user,
                    display_name: columns.display_name,
                    is_anon: columns.is_anon,
                    chat_id: columns.chat_id,
                },
            ),
            Err(e) => Err(e),
        }
    }
}

/// A user is read back as stored: whatever row holds the values that the
/// insertion or the update hands over, in the order of the columns, is loaded
/// as that very user.
pub proof fn law_bot_user_reads_back(user: BotUserView, row: BotUserRowView)
    requires
        user.insert().params.drop_first() == row.values() || user.update().params.drop_last()
            == row.values(),
    ensures
        BotUserView::stored(user.matrix_user, row) == user,
{
    assert(user.insert().params.drop_first() =~= user.row().values());
    assert(user.update().params.drop_last() =~= user.row().values());
    let stored = user.row().values();
    let read = row.values();
    assert(stored[0] == read[0] && stored[1] == read[1] && stored[2] == read[2] && stored[3]
        == read[3] && stored[4] == read[4]);
}

/// The identifier never changes: whatever columns a user comes to have, the
/// update finds the row by the same identifier, its last parameter.
pub proof fn law_update_keeps_the_identifier(user: BotUserView, row: BotUserRowView)
    ensures
        BotUserView::stored(user.matrix_user, row).update().params.last()
            == user.update().params.last(),
        user.update().params.last() == ValueView::Text(user.matrix_user),
{
}

/// A member of a chat is read back as stored: whatever row holds the values
/// that the insertion hands over is loaded as that very member.
pub proof fn law_chat_user_reads_back(user: FluxChatUserView, row: FluxChatUserRowView)
    requires
        user.insert().params.drop_first() == row.values(),
    ensures
        FluxChatUserView::stored(user.matrix_user, row) == user,
{
    assert(user.insert().params.drop_first() =~= user.row().values());
    let stored = user.row().values();
    let read = row.values();
    assert(stored[0] == read[0] && stored[1] == read[1] && stored[2] == read[2]);
}

/// A user of whom nothing is known has an identifier and nothing else: no
/// ticket room, no chat, no alias, no rights and no ban.
pub proof fn law_a_new_user_has_an_identifier_alone(matrix_user: Seq<char>)
    ensures
        ({
            let user = BotUserView::fresh(matrix_user);
            &&& user.matrix_user == matrix_user
            &&& user.ticket_room.len() == 0
            &&& user.attached_to.len() == 0
            &&& !user.as_anon && !user.is_admin && !user.is_banned
        }),
{
}

/// What is read of a user is the identifier that it was read by and the
/// columns of the row, each as it is.
pub proof fn law_a_row_is_read_as_it_is(matrix_user: Seq<char>, row: BotUserRowView)
    ensures
        ({
            let user = BotUserView::stored(matrix_user, row);
            &&& user.matrix_user == matrix_user
            &&& user.ticket_room == row.ticket_room
            &&& user.attached_to == row.attached_to
            &&& user.as_anon == row.as_anon
            &&& user.is_admin == row.is_admin
            &&& user.is_banned == row.is_banned
        }),
{
}

/// The insertion of a user hands over the identifier and then the columns, in
/// the order in which it names them.
pub proof fn law_insertion_hands_over_all_columns(user: BotUserView)
    ensures
        user.insert().sql == INSERT_BOT_USER@,
        user.insert().params == seq![
            ValueView::Text(user.matrix_user),
            ValueView::Text(user.ticket_room),
            ValueView::Text(user.attached_to),
            ValueView::Flag(user.as_anon),
            ValueView::Flag(user.is_admin),
            ValueView::Flag(user.is_banned),
        ],
{
    assert(user.insert().params =~= seq![
        ValueView::Text(user.matrix_user),
        ValueView::Text(user.ticket_room),
        ValueView::Text(user.attached_to),
        ValueView::Flag(user.as_anon),
        ValueView::Flag(user.is_admin),
        ValueView::Flag(user.is_banned),
    ]);
}

/// The update of a user hands over the columns, in the order in which it names
/// them, and then the identifier.
pub proof fn law_update_hands_over_all_columns(user: BotUserView)
    ensures
        user.update().sql == UPDATE_BOT_USER@,
        user.update().params == seq![
            ValueView::Text(user.ticket_room),
            ValueView::Text(user.attached_to),
            ValueView::Flag(user.as_anon),
            ValueView::Flag(user.is_admin),
            ValueView::Flag(user.is_banned),
            ValueView::Text(user.matrix_user),
        ],
{
    assert(user.update().params =~= seq![
        ValueView::Text(user.ticket_room),
        ValueView::Text(user.attached_to),
        ValueView::Flag(user.as_anon),
        ValueView::Flag(user.is_admin),
        ValueView::Flag(user.is_banned),
        ValueView::Text(user.matrix_user),
    ]);
}

/// The insertion of a member hands over all four columns, in the order in
/// which it names them.
pub proof fn law_membership_hands_over_all_columns(user: FluxChatUserView)
    ensures
        user.insert().sql == INSERT_FLUX_CHAT_USER@,
        user.insert().params == seq![
            ValueView::Text(user.matrix_user),
            ValueView::Text(user.display_name),
            ValueView::Flag(user.is_anon),
            ValueView::Text(user.chat_id),
        ],
{
    assert(user.insert().params =~= seq![
        ValueView::Text(user.matrix_user),
        ValueView::Text(user.display_name),
        ValueView::Flag(user.is_anon),
        ValueView::Text(user.chat_id),
    ]);
}

/// What is read of a member is the identifier that it was read by and the
/// columns of the row, each as it is.
pub proof fn law_a_membership_is_read_as_it_is(matrix_user: Seq<char>, row: FluxChatUserRowView)
    ensures
        ({
            let user = FluxChatUserView::stored(matrix_user, row);
            &&& user.matrix_user == matrix_user
            &&& user.display_name == row.display_name
            &&& user.is_anon == row.is_anon
            &&& user.chat_id == row.chat_id
        }),
{
}

/// Who is anonymous in a chat goes by six capitals, whichever they are, and
/// who is not goes by the own identifier. Nothing else is left open of a new
/// member.
pub proof fn law_new_members_go_by_alias_or_identifier(
    member: FluxChatUserView,
    matrix_user: Seq<char>,
    is_anon: bool,
    chat_id: Seq<char>,
)
    ensures
        member.drawn(matrix_user, is_anon, chat_id) <==> {
            &&& member.matrix_user == matrix_user
            &&& member.is_anon == is_anon
            &&& member.chat_id == chat_id
            &&& if is_anon {
                member.display_name.len() == 6 && forall|i: int|
                    0 <= i < 6 ==> 'A' <= #[trigger] member.display_name[i] <= 'Z'
            } else {
                member.display_name == matrix_user
            }
        },
{
}

/// An alias is what a member goes by, and makes it anonymous; without one it
/// goes by the own identifier, and is not.
pub proof fn law_an_alias_hides_the_identifier(
    matrix_user: Seq<char>,
    alias: Seq<char>,
    chat_id: Seq<char>,
)
    ensures
        FluxChatUserView::member(matrix_user, Some(alias), chat_id) == (FluxChatUserView {
            matrix_user,
            display_name: alias,
            is_anon: true,
            chat_id,
        }),
        FluxChatUserView::member(matrix_user, None, chat_id) == (FluxChatUserView {
            matrix_user,
            display_name: matrix_user,
            is_anon: false,
            chat_id,
        }),
{
}

/// Users, members and their rows show all that they hold.
pub proof fn law_users_show_all_they_hold(
    user: BotUser,
    row: BotUserRow,
    member: FluxChatUser,
    place: FluxChatUserRow,
)
    ensures
        user@.matrix_user == user.matrix_user@,
        user@.ticket_room == user.ticket_room@,
        user@.attached_to == user.attached_to@,
        user@.as_anon == user.as_anon,
        user@.is_admin == user.is_admin,
        user@.is_banned == user.is_banned,
        row@.ticket_room == row.ticket_room@,
        row@.attached_to == row.attached_to@,
        row@.as_anon == row.as_anon,
        row@.is_admin == row.is_admin,
        row@.is_banned == row.is_banned,
        member@.matrix_user == member.matrix_user@,
        member@.display_name == member.display_name@,
        member@.is_anon == member.is_anon,
        member@.chat_id == member.chat_id@,
        place@.display_name == place.display_name@,
        place@.is_anon == place.is_anon,
        place@.chat_id == place.chat_id@,
{
}

/// Users are found, read and stored by their identifiers, members by theirs and
/// by whether they are anonymous; no other column decides.
pub proof fn law_user_statements()
    ensures
        FIND_BOT_USER@ == "SELECT matrix_user FROM bot_users WHERE matrix_user=?1"@,
        SELECT_BOT_USER@ == "SELECT * FROM bot_users WHERE matrix_user=?1"@,
        INSERT_BOT_USER@
            == "INSERT INTO bot_users (matrix_user, ticket_room, attached_to, as_anon, is_admin, is_banned) VALUES (?1, ?2, ?3, ?4, ?5, ?6)"@,
        UPDATE_BOT_USER@
            == "UPDATE bot_users
            SET ticket_room=?1, attached_to=?2, as_anon=?3, is_admin=?4, is_banned=?5
            WHERE matrix_user=?6"@,
        INSERT_FLUX_CHAT_USER@
            == "INSERT INTO flux_chat_users (matrix_user, display_name, is_anon, chat_id) VALUES (?1, ?2, ?3, ?4)"@,
        SELECT_FLUX_CHAT_USER@
            == "SELECT * FROM flux_chat_users WHERE matrix_user=?1 AND is_anon=?2"@,
{
}

} // verus!
