//! The statements that the bot asks its database to run.
//!
//! A statement is text and parameters; whoever holds the connection runs it
//! and hands back plain values, or a [`DbError`].

use vstd::prelude::*;

verus! {

/// Where the database file lies.
pub const DATABASE_PATH: &'static str = "./db1.db";

/// Said where the database could be opened.
pub const DATABASE_FOUND: &'static str = "Database found! Loading...";

/// Said where there was no database to open.
pub const DATABASE_MISSING: &'static str = "Database not found! Generating a new one :3";

pub const CREATE_BOT_USERS: &'static str =
    "CREATE TABLE bot_users (
                    matrix_user TEXT NOT NULL,
                    ticket_room TEXT,
                    attached_to TEXT,
                    as_anon INTEGER,
                    is_admin INTEGER,
                    is_banned INTEGER
                )";

pub const CREATE_FLUX_CHAT_ROOMS: &'static str =
    "CREATE TABLE flux_chat_rooms (
                    id TEXT NOT NULL,
                    creation_date TEXT NOT NULL,
                    creator TEXT NOT NULL,
                    is_closed INTEGER
                )";

pub const CREATE_FLUX_CHAT_USERS: &'static str =
    "CREATE TABLE flux_chat_users (
                    matrix_user TEXT NOT NULL,
                    display_name TEXT NOT NULL,
                    is_anon INTEGER,
                    chat_id TEXT NOT NULL
                )";

pub const CREATE_SUMYSELF: &'static str =
    "CREATE TABLE sumyself (
                    used INTEGER
                )";

pub const INSERT_SUMYSELF: &'static str = "INSERT INTO sumyself (used) VALUES (0)";

pub const SELECT_SUMYSELF: &'static str = "SELECT used FROM sumyself";

pub const UPDATE_SUMYSELF: &'static str = "UPDATE sumyself SET used=1 WHERE used=0";

/// A parameter of a statement.
#[derive(Debug, PartialEq, Eq)]
pub enum Value {
    Text(String),
    Flag(bool),
}

/// What a [`Value`] holds.
pub enum ValueView {
    Text(Seq<char>),
    Flag(bool),
}

impl View for Value {
    type V = ValueView;

    open spec fn view(&self) -> ValueView {
        match self {
            Value::Text(s) => ValueView::Text(s@),
            Value::Flag(b) => ValueView::Flag(*b),
        }
    }
}

/// A statement: its text, and its parameters `?1`, `?2` and so on.
#[derive(Debug, PartialEq, Eq)]
pub struct Statement {
    pub sql: &'static str,
    pub params: Vec<Value>,
}

/// What a [`Statement`] holds.
pub struct StatementView {
    pub sql: Seq<char>,
    pub params: Seq<ValueView>,
}

impl View for Statement {
    type V = StatementView;

    open spec fn view(&self) -> StatementView {
        StatementView { sql: self.sql@, params: self.params@.map_values(|v: Value| v@) }
    }
}

/// The statement of a text and the values that are its parameters.
pub open spec fn statement(sql: Seq<char>, params: Seq<ValueView>) -> StatementView {
    StatementView { sql, params }
}

impl Statement {
    /// A statement without parameters.
    pub fn plain(sql: &'static str) -> (s: Statement)
        ensures
            s@ == statement(sql@, Seq::empty()),
    {
        let s = Statement { sql, params: Vec::new() };
        assert(s@.params =~= Seq::<ValueView>::empty());
        s
    }

    /// A statement with one text parameter.
    pub fn with_text(sql: &'static str, text: &str) -> (s: Statement)
        ensures
            s@ == statement(sql@, seq![ValueView::Text(text@)]),
    {
        let s = Statement { sql, params: vec![Value::Text(text.to_owned())] };
        assert(s@.params =~= seq![ValueView::Text(text@)]);
        s
    }

    /// Asks whether the right to become the owner has been used up.
    pub fn select_sumyself() -> (s: Statement)
        ensures
            s@ == statement(SELECT_SUMYSELF@, Seq::empty()),
    {
        Statement::plain(SELECT_SUMYSELF)
    }

    /// Uses up the right to become the owner.
    pub fn update_sumyself() -> (s: Statement)
        ensures
            s@ == statement(UPDATE_SUMYSELF@, Seq::empty()),
    {
        Statement::plain(UPDATE_SUMYSELF)
    }
}

/// The database refused a statement, or answered it with something else than
/// what was asked for.
#[derive(Debug, PartialEq, Eq)]
pub struct DbError {
    pub message: String,
}

/// What is left to do once the attempt to open the database has ended.
#[derive(Debug, PartialEq, Eq)]
pub struct Setup {
    /// What to tell the operator.
    pub notice: &'static str,
    /// What to run on the connection, in this order.
    pub statements: Vec<Statement>,
}

/// The statements that make an empty file the bot's database, in order: its
/// four tables, then the one row which says that nobody owns the bot yet.
pub open spec fn schema() -> Seq<StatementView> {
    seq![
        statement(CREATE_BOT_USERS@, Seq::empty()),
        statement(CREATE_FLUX_CHAT_ROOMS@, Seq::empty()),
        statement(CREATE_FLUX_CHAT_USERS@, Seq::empty()),
        statement(CREATE_SUMYSELF@, Seq::empty()),
        statement(INSERT_SUMYSELF@, Seq::empty()),
    ]
}

/// Connects to a pre-existing database or generates a new working one.
///
/// `opened` says whether an existing database could be opened. Where it could,
/// nothing is run on it; where it could not, a new one is opened and the
/// schema is run on that.
pub fn initialize_db(opened: bool) -> (setup: Setup)
    ensures
        opened ==> setup.notice@ == DATABASE_FOUND@ && setup.statements@.len() == 0,
        !opened ==> setup.notice@ == DATABASE_MISSING@ && setup.statements@.map_values(
            |s: Statement| s@,
        ) == schema(),
{
    if opened {
        Setup { notice: DATABASE_FOUND, statements: Vec::new() }
    } else {
        let statements: Vec<Statement> = vec![
            Statement::plain(CREATE_BOT_USERS),
            Statement::plain(CREATE_FLUX_CHAT_ROOMS),
            Statement::plain(CREATE_FLUX_CHAT_USERS),
            Statement::plain(CREATE_SUMYSELF),
            Statement::plain(INSERT_SUMYSELF),
        ];
        assert(statements@.map_values(|s: Statement| s@) =~= schema());
        Setup { notice: DATABASE_MISSING, statements }
    }
}

/// A statement is its text and its parameters, none of them changed.
pub proof fn law_a_statement_is_text_and_parameters(
    sql: Seq<char>,
    params: Seq<ValueView>,
    s: Statement,
    i: int,
)
    ensures
        statement(sql, params).sql == sql,
        statement(sql, params).params == params,
        s@.sql == s.sql@,
        s@.params.len() == s.params@.len(),
        0 <= i < s.params@.len() ==> s@.params[i] == s.params@[i]@,
{
}

/// A parameter is the text or the flag that it was made of.
pub proof fn law_a_parameter_is_what_it_was_made_of(value: Value)
    ensures
        value matches Value::Text(text) ==> value@ == ValueView::Text(text@),
        value matches Value::Flag(flag) ==> value@ == ValueView::Flag(flag),
{
}

/// A new database gets the four tables and the row which says that nobody owns
/// the bot yet, each by one statement without parameters, the row last.
pub proof fn law_schema_statements()
    ensures
        schema().len() == 5,
        schema()[0].sql == CREATE_BOT_USERS@,
        schema()[1].sql == CREATE_FLUX_CHAT_ROOMS@,
        schema()[2].sql == CREATE_FLUX_CHAT_USERS@,
        schema()[3].sql == CREATE_SUMYSELF@,
        schema()[4].sql == INSERT_SUMYSELF@,
        forall|i: int| 0 <= i < 5 ==> (#[trigger] schema()[i]).params.len() == 0,
{
}

/// The right to become the owner is read from the column `used`, and used up by
/// setting that column where it is not set.
pub proof fn law_sumyself_statements()
    ensures
        SELECT_SUMYSELF@ == "SELECT used FROM sumyself"@,
        UPDATE_SUMYSELF@ == "UPDATE sumyself SET used=1 WHERE used=0"@,
        INSERT_SUMYSELF@ == "INSERT INTO sumyself (used) VALUES (0)"@,
{
}

/// The tables have the columns that the bot stores, with no other constraint
/// than that some of them are never missing; and the file and what is said of
/// it are these.
pub proof fn law_texts_about_the_database()
    ensures
        DATABASE_PATH@ == "./db1.db"@,
        DATABASE_FOUND@ == "Database found! Loading..."@,
        DATABASE_MISSING@ == "Database not found! Generating a new one :3"@,
        CREATE_BOT_USERS@ == "CREATE TABLE bot_users (
                    matrix_user TEXT NOT NULL,
                    ticket_room TEXT,
                    attached_to TEXT,
                    as_anon INTEGER,
                    is_admin INTEGER,
                    is_banned INTEGER
                )"@,
        CREATE_FLUX_CHAT_ROOMS@ == "CREATE TABLE flux_chat_rooms (
                    id TEXT NOT NULL,
                    creation_date TEXT NOT NULL,
                    creator TEXT NOT NULL,
                    is_closed INTEGER
                )"@,
        CREATE_FLUX_CHAT_USERS@ == "CREATE TABLE flux_chat_users (
                    matrix_user TEXT NOT NULL,
                    display_name TEXT NOT NULL,
                    is_anon INTEGER,
                    chat_id TEXT NOT NULL
                )"@,
        CREATE_SUMYSELF@ == "CREATE TABLE sumyself (
                    used INTEGER
                )"@,
{
}

} // verus!
