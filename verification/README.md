# Flux Chat

A Matrix bot that relays the messages of a chat between the direct rooms of its
members. `src/` holds what the bot decides, verified with Verus; `app/` holds
the bot itself: the connection to the homeserver, the SQLite database and the
loop that performs what the library asks for.

| module     | what it is about                                                  |
|------------|-------------------------------------------------------------------|
| `turn`     | one message and what the bot does about it, event by event        |
| `laws`     | what holds of every turn, whatever the outside world answers      |
| `tables`   | what the statements do to the tables, and what is read of them    |
| `upkeep`   | what a turn, and many, do to the tables                           |
| `users`    | the people that the bot knows, and the members of its chats       |
| `rooms`    | chats, and the delivery of a message to the members of one        |
| `options`  | the `!chat` command                                               |
| `invite`   | invitations, and how long the bot keeps trying to follow one      |
| `database` | statements, their parameters, and the schema                      |
| `html`     | messages that are sent as HTML                                    |
| `text`     | prefixes, white space and words                                   |
| `random`   | random letters                                                    |
| `clock`    | dates as texts                                                    |

The bot reads the texts of its replies from the directory `locales`, under the
keys that `Reply::key` returns. It is started with the address of a homeserver,
a user name and a password. The first `!sumyself` from someone
who is in no chat makes the sender its owner.
