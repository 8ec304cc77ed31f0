//! What the statements do to the tables of the database, and what it answers.

use crate::database::{statement, StatementView, UPDATE_SUMYSELF};
use crate::rooms::{FluxChatRoomView, INSERT_FLUX_CHAT_ROOM, UPDATE_FLUX_CHAT_ROOM};
use crate::users::{
    BotUserView, FluxChatUserView, INSERT_BOT_USER, INSERT_FLUX_CHAT_USER, UPDATE_BOT_USER,
};
use vstd::prelude::*;

verus! {

/// The rows of the database, each table in the order of its rows.
#[verifier::ext_equal]
pub struct Tables {
    pub bot_users: Seq<BotUserView>,
    pub flux_chat_rooms: Seq<FluxChatRoomView>,
    pub flux_chat_users: Seq<FluxChatUserView>,
    /// What the one row of `sumyself` holds.
    pub used: bool,
}

/// The text that is a statement's parameter of an index, counted from zero.
pub open spec fn text(s: StatementView, i: int) -> Seq<char> {
    s.params[i]->Text_0
}

/// The flag that is a statement's parameter of an index, counted from zero.
pub open spec fn flag(s: StatementView, i: int) -> bool {
    s.params[i]->Flag_0
}

/// The first of the rows that fit.
pub open spec fn first<A>(rows: Seq<A>, fits: spec_fn(A) -> bool) -> Option<A>
    decreases rows.len(),
{
    if rows.len() == 0 {
        None
    } else if first(rows.drop_last(), fits) is Some {
        first(rows.drop_last(), fits)
    } else if fits(rows.last()) {
        Some(rows.last())
    } else {
        None
    }
}

impl Tables {
    /// The tables after a statement that changes rows has been run: an
    /// `INSERT` puts its row behind the others, and an `UPDATE` sets its
    /// columns in the rows that it finds.
    pub open spec fn run(self, s: StatementView) -> Tables {
        if s.sql == INSERT_BOT_USER@ {
            Tables {
                bot_users: self.bot_users.push(
                    BotUserView {
                        matrix_user: text(s, 0),
                        ticket_room: text(s, 1),
                        attached_to: text(s, 2),
                        as_anon: flag(s, 3),
                        is_admin: flag(s, 4),
                        is_banned: flag(s, 5),
                    },
                ),
                ..self
            }
        } else if s.sql == UPDATE_BOT_USER@ {
            Tables {
                bot_users: self.bot_users.map_values(
                    |row: BotUserView|
                        if row.matrix_user == text(s, 5) {
                            BotUserView {
                                matrix_user: row.matrix_user,
                                ticket_room: text(s, 0),
                                attached_to: text(s, 1),
                                as_anon: flag(s, 2),
                                is_admin: flag(s, 3),
                                is_banned: flag(s, 4),
                            }
                        } else {
                            row
                        },
                ),
                ..self
            }
        } else if s.sql == INSERT_FLUX_CHAT_ROOM@ {
            Tables {
                flux_chat_rooms: self.flux_chat_rooms.push(
                    FluxChatRoomView {
                        id: text(s, 0),
                        creation_date: text(s, 1),
                        creator: text(s, 2),
                        is_closed: flag(s, 3),
                    },
                ),
                ..self
            }
        } else if s.sql == UPDATE_FLUX_CHAT_ROOM@ {
            Tables {
                flux_chat_rooms: self.flux_chat_rooms.map_values(
                    |row: FluxChatRoomView|
                        if row.id == text(s, 0) {
                            FluxChatRoomView { is_closed: flag(s, 1), ..row }
                        } else {
                            row
                        },
                ),
                ..self
            }
        } else if s.sql == INSERT_FLUX_CHAT_USER@ {
            Tables {
                flux_chat_users: self.flux_chat_users.push(
                    FluxChatUserView {
                        matrix_user: text(s, 0),
                        display_name: text(s, 1),
                        is_anon: flag(s, 2),
                        chat_id: text(s, 3),
                    },
                ),
                ..self
            }
        } else if s.sql == UPDATE_SUMYSELF@ {
            Tables { used: true, ..self }
        } else {
            self
        }
    }

    /// The row of a user.
    pub open spec fn bot_user(self, matrix_user: Seq<char>) -> Option<BotUserView> {
        first(self.bot_users, |row: BotUserView| row.matrix_user == matrix_user)
    }

    /// The row of a chat.
    pub open spec fn flux_chat_room(self, id: Seq<char>) -> Option<FluxChatRoomView> {
        first(self.flux_chat_rooms, |row: FluxChatRoomView| row.id == id)
    }

    /// The row of a user as a member of a chat, anonymous or not.
    pub open spec fn flux_chat_user(self, matrix_user: Seq<char>, is_anon: bool) -> Option<
        FluxChatUserView,
    > {
        first(
            self.flux_chat_users,
            |row: FluxChatUserView| row.matrix_user == matrix_user && row.is_anon == is_anon,
        )
    }

    /// The tables with the columns of a user stored.
    pub open spec fn with_columns(self, user: BotUserView) -> Tables {
        Tables {
            bot_users: self.bot_users.map_values(
                |row: BotUserView| if row.matrix_user == user.matrix_user { user } else { row },
            ),
            ..self
        }
    }
}

/// A row is found where one fits, and it fits.
proof fn lemma_first<A>(rows: Seq<A>, fits: spec_fn(A) -> bool)
    ensures
        match first(rows, fits) {
            Some(row) => fits(row) && rows.contains(row),
            None => forall|i: int| 0 <= i < rows.len() ==> !fits(#[trigger] rows[i]),
        },
    decreases rows.len(),
{
    if rows.len() > 0 {
        lemma_first(rows.drop_last(), fits);
        let earlier = first(rows.drop_last(), fits);
        if earlier is Some {
            let i = choose|i: int|
                0 <= i < rows.drop_last().len() && rows.drop_last()[i] == earlier->0;
            assert(rows[i] == earlier->0);
        } else if fits(rows.last()) {
            assert(rows[rows.len() - 1] == rows.last());
        } else {
            assert forall|i: int| 0 <= i < rows.len() implies !fits(#[trigger] rows[i]) by {
                if i < rows.len() - 1 {
                    assert(rows.drop_last()[i] == rows[i]);
                }
            }
        }
    }
}

/// The row that is found of a user is one of the table, and that user's; and
/// where none is found there is none.
pub proof fn law_users_are_found_by_identifier(tables: Tables, matrix_user: Seq<char>)
    ensures
        match tables.bot_user(matrix_user) {
            Some(row) => row.matrix_user == matrix_user && tables.bot_users.contains(row),
            None => forall|i: int|
                0 <= i < tables.bot_users.len() ==> (#[trigger] tables.bot_users[i]).matrix_user
                    != matrix_user,
        },
{
    lemma_first(tables.bot_users, |row: BotUserView| row.matrix_user == matrix_user);
}

/// The statements that change rows differ in their texts.
pub proof fn lemma_texts_differ()
    ensures
        INSERT_BOT_USER@ != UPDATE_BOT_USER@,
        INSERT_BOT_USER@ != INSERT_FLUX_CHAT_ROOM@,
        INSERT_BOT_USER@ != UPDATE_FLUX_CHAT_ROOM@,
        INSERT_BOT_USER@ != INSERT_FLUX_CHAT_USER@,
        INSERT_BOT_USER@ != UPDATE_SUMYSELF@,
        UPDATE_BOT_USER@ != INSERT_FLUX_CHAT_ROOM@,
        UPDATE_BOT_USER@ != UPDATE_FLUX_CHAT_ROOM@,
        UPDATE_BOT_USER@ != INSERT_FLUX_CHAT_USER@,
        UPDATE_BOT_USER@ != UPDATE_SUMYSELF@,
        INSERT_FLUX_CHAT_ROOM@ != UPDATE_FLUX_CHAT_ROOM@,
        INSERT_FLUX_CHAT_ROOM@ != INSERT_FLUX_CHAT_USER@,
        INSERT_FLUX_CHAT_ROOM@ != UPDATE_SUMYSELF@,
        UPDATE_FLUX_CHAT_ROOM@ != INSERT_FLUX_CHAT_USER@,
        UPDATE_FLUX_CHAT_ROOM@ != UPDATE_SUMYSELF@,
        INSERT_FLUX_CHAT_USER@ != UPDATE_SUMYSELF@,
{
    reveal_strlit(
        "INSERT INTO bot_users (matrix_user, ticket_room, attached_to, as_anon, is_admin, is_banned) VALUES (?1, ?2, ?3, ?4, ?5, ?6)",
    );
    reveal_strlit(
        "UPDATE bot_users
            SET ticket_room=?1, attached_to=?2, as_anon=?3, is_admin=?4, is_banned=?5
            WHERE matrix_user=?6",
    );
    reveal_strlit(
        "INSERT INTO flux_chat_users (matrix_user, display_name, is_anon, chat_id) VALUES (?1, ?2, ?3, ?4)",
    );
    reveal_strlit(
        "INSERT INTO flux_chat_rooms (id, creation_date, creator, is_closed) VALUES (?1, ?2, ?3, ?4)",
    );
    reveal_strlit(
        "UPDATE flux_chat_rooms
            SET is_closed=?2
            WHERE id=?1",
    );
    reveal_strlit("UPDATE sumyself SET used=1 WHERE used=0");
    assert(INSERT_BOT_USER@[0] == 'I' && INSERT_BOT_USER@[12] == 'b');
    assert(INSERT_FLUX_CHAT_USER@[0] == 'I' && INSERT_FLUX_CHAT_USER@[12] == 'f');
    assert(INSERT_FLUX_CHAT_ROOM@[0] == 'I' && INSERT_FLUX_CHAT_ROOM@[12] == 'f');
    assert(INSERT_FLUX_CHAT_USER@[22] == 'u');
    assert(INSERT_FLUX_CHAT_ROOM@[22] == 'r');
    assert(UPDATE_BOT_USER@[0] == 'U' && UPDATE_BOT_USER@[7] == 'b');
    assert(UPDATE_FLUX_CHAT_ROOM@[0] == 'U' && UPDATE_FLUX_CHAT_ROOM@[7] == 'f');
    assert(UPDATE_SUMYSELF@[0] == 'U' && UPDATE_SUMYSELF@[7] == 's');
}

/// The statement that stores a new user puts the user's row behind the others
/// and does nothing else.
pub proof fn law_new_users_get_a_row(tables: Tables, user: BotUserView)
    ensures
        tables.run(user.insert()) == (Tables { bot_users: tables.bot_users.push(user), ..tables }),
{
    lemma_texts_differ();
    let params = user.insert().params;
    assert(params.len() == 6);
}

/// The statement that stores a user's columns sets all of them, in the rows of
/// that user and in no other.
pub proof fn law_updates_set_all_columns(tables: Tables, user: BotUserView)
    ensures
        tables.run(user.update()) == tables.with_columns(user),
{
    lemma_texts_differ();
    let params = user.update().params;
    assert(params.len() == 6);
    assert(tables.run(user.update()).bot_users =~= tables.with_columns(user).bot_users);
}

/// The statement that stores a chat puts its row behind the others and does
/// nothing else.
pub proof fn law_new_chats_get_a_row(tables: Tables, room: FluxChatRoomView)
    ensures
        tables.run(room.insert()) == (Tables {
            flux_chat_rooms: tables.flux_chat_rooms.push(room),
            ..tables
        }),
{
    lemma_texts_differ();
    let params = room.insert().params;
    assert(params.len() == 4);
}

/// The statement that stores a member of a chat puts the row behind the others
/// and does nothing else.
pub proof fn law_new_members_get_a_row(tables: Tables, member: FluxChatUserView)
    ensures
        tables.run(member.insert()) == (Tables {
            flux_chat_users: tables.flux_chat_users.push(member),
            ..tables
        }),
{
    lemma_texts_differ();
    let params = member.insert().params;
    assert(params.len() == 4);
}

/// The statement that stores whether a chat is closed stores that alone: the
/// rows with that identifier get the flag and keep their other columns, and all
/// other rows and tables stay as they were.
pub proof fn law_closing_stores_the_flag_alone(tables: Tables, room: FluxChatRoomView)
    ensures
        ({
            let rows = tables.flux_chat_rooms;
            let left = tables.run(room.update());
            &&& left == (Tables { flux_chat_rooms: left.flux_chat_rooms, ..tables })
            &&& left.flux_chat_rooms.len() == rows.len()
            &&& forall|i: int|
                0 <= i < rows.len() ==> #[trigger] left.flux_chat_rooms[i] == (if rows[i].id
                    == room.id {
                    FluxChatRoomView { is_closed: room.is_closed, ..rows[i] }
                } else {
                    rows[i]
                })
        }),
{
    lemma_texts_differ();
    let params = room.update().params;
    assert(params.len() == 2);
}

/// Whether a chat is closed is read afterwards as it was stored, and its other
/// columns as before; and what is read under another identifier is as before.
pub proof fn law_closing_is_read_back(tables: Tables, room: FluxChatRoomView, id: Seq<char>)
    ensures
        tables.run(room.update()).flux_chat_room(id) == match tables.flux_chat_room(id) {
            Some(row) if id == room.id => Some(
                FluxChatRoomView { is_closed: room.is_closed, ..row },
            ),
            row => row,
        },
    decreases tables.flux_chat_rooms.len(),
{
    let rows = tables.flux_chat_rooms;
    law_closing_stores_the_flag_alone(tables, room);
    if rows.len() > 0 {
        let earlier = Tables { flux_chat_rooms: rows.drop_last(), ..tables };
        law_closing_is_read_back(earlier, room, id);
        law_closing_stores_the_flag_alone(earlier, room);
        assert(tables.run(room.update()).flux_chat_rooms.drop_last() =~= earlier.run(
            room.update(),
        ).flux_chat_rooms);
        lemma_first(rows.drop_last(), |row: FluxChatRoomView| row.id == id);
    }
}

/// The update that uses up the right to become the owner does that alone.
pub proof fn law_right_is_used_up(tables: Tables)
    ensures
        tables.run(statement(UPDATE_SUMYSELF@, Seq::empty())) == (Tables { used: true, ..tables }),
{
    lemma_texts_differ();
}

/// Of two updates of one user the last wins, as if the first had never been;
/// and so an update that is repeated changes nothing.
pub proof fn law_the_last_update_wins(tables: Tables, earlier: BotUserView, later: BotUserView)
    requires
        earlier.matrix_user == later.matrix_user,
    ensures
        tables.run(earlier.update()).run(later.update()) == tables.run(later.update()),
{
    law_updates_set_all_columns(tables, earlier);
    law_updates_set_all_columns(tables.with_columns(earlier), later);
    law_updates_set_all_columns(tables, later);
    assert(tables.with_columns(earlier).with_columns(later).bot_users =~= tables.with_columns(
        later,
    ).bot_users);
}

/// What is stored of a user is what is read of that user afterwards, where
/// there is a row of that user; and what is read of another is as before.
pub proof fn law_updates_are_read_back(tables: Tables, user: BotUserView, other: Seq<char>)
    ensures
        tables.run(user.update()).bot_user(user.matrix_user) == (if tables.bot_user(
            user.matrix_user,
        ) is Some {
            Some(user)
        } else {
            None
        }),
        other != user.matrix_user ==> tables.run(user.update()).bot_user(other) == tables.bot_user(
            other,
        ),
{
    law_updates_set_all_columns(tables, user);
    lemma_bot_user_after_update(tables, user, user.matrix_user);
    lemma_bot_user_after_update(tables, user, other);
}

proof fn lemma_bot_user_after_update(tables: Tables, user: BotUserView, id: Seq<char>)
    ensures
        tables.with_columns(user).bot_user(id) == (if id == user.matrix_user && tables.bot_user(
            id,
        ) is Some {
            Some(user)
        } else {
            tables.bot_user(id)
        }),
    decreases tables.bot_users.len(),
{
    let rows = tables.bot_users;
    if rows.len() > 0 {
        let earlier = Tables { bot_users: rows.drop_last(), ..tables };
        lemma_bot_user_after_update(earlier, user, id);
        assert(tables.with_columns(user).bot_users.drop_last() =~= earlier.with_columns(
            user,
        ).bot_users);
    }
}

/// What is stored of a new user is what is read of that user afterwards; and
/// what is read of another is as before.
pub proof fn law_new_users_are_read_back(tables: Tables, user: BotUserView, other: Seq<char>)
    requires
        tables.bot_user(user.matrix_user) is None,
    ensures
        tables.run(user.insert()).bot_user(user.matrix_user) == Some(user),
        other != user.matrix_user ==> tables.run(user.insert()).bot_user(other) == tables.bot_user(
            other,
        ),
{
    law_new_users_get_a_row(tables, user);
    assert(tables.bot_users.push(user).drop_last() =~= tables.bot_users);
}

/// A new member of a chat is what is read afterwards of that user under that
/// anonymity, where nothing was before; and what is read of another user, or
/// under the other anonymity, is as before.
pub proof fn law_new_members_are_read_back(
    tables: Tables,
    member: FluxChatUserView,
    matrix_user: Seq<char>,
    is_anon: bool,
)
    requires
        tables.flux_chat_user(member.matrix_user, member.is_anon) is None,
    ensures
        tables.run(member.insert()).flux_chat_user(member.matrix_user, member.is_anon) == Some(
            member,
        ),
        tables.run(member.insert()).flux_chat_user(member.matrix_user, !member.is_anon)
            == tables.flux_chat_user(member.matrix_user, !member.is_anon),
        matrix_user != member.matrix_user ==> tables.run(member.insert()).flux_chat_user(
            matrix_user,
            is_anon,
        ) == tables.flux_chat_user(matrix_user, is_anon),
{
    law_new_members_get_a_row(tables, member);
    assert(tables.flux_chat_users.push(member).drop_last() =~= tables.flux_chat_users);
}

/// A new chat is what is read afterwards under its identifier, where nothing
/// was before; and what is read under another is as before.
pub proof fn law_new_chats_are_read_back(tables: Tables, room: FluxChatRoomView, other: Seq<char>)
    requires
        tables.flux_chat_room(room.id) is None,
    ensures
        tables.run(room.insert()).flux_chat_room(room.id) == Some(room),
        other != room.id ==> tables.run(room.insert()).flux_chat_room(other)
            == tables.flux_chat_room(other),
{
    law_new_chats_get_a_row(tables, room);
    assert(tables.flux_chat_rooms.push(room).drop_last() =~= tables.flux_chat_rooms);
}

} // verus!
