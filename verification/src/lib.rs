//! The decisions of Flux Chat, a Matrix bot that relays the messages of a chat
//! between the direct rooms of its members.
//!
//! Nothing here opens a database, a socket or a file. A function that the
//! outside world has to answer hands out a description of the work (a
//! statement to run, a message to send) and takes the answer back as a value.

pub mod clock;
pub mod courses;
pub mod database;
pub mod html;
pub mod invite;
pub mod laws;
pub mod options;
pub mod random;
pub mod rooms;
pub mod tables;
pub mod text;
pub mod turn;
pub mod upkeep;
pub mod users;
