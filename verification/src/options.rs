//! The `!chat` command: its options, and what it asks for.

use crate::text::{same_text, starts_with, texts};
use vstd::prelude::*;

verus! {

/// The options of the `!chat` command.
#[derive(Debug, Clone, Copy, PartialEq, Eq, Structural)]
pub struct ChatCommandOptions {
    pub anonymous: bool,
    pub fuckanons: bool,
    pub ticket: bool,
}

/// Whether one of two spellings is among the words.
pub open spec fn mentions(args: Seq<Seq<char>>, short: Seq<char>, long: Seq<char>) -> bool {
    args.contains(short) || args.contains(long)
}

impl ChatCommandOptions {
    /// The options that are among the words.
    pub open spec fn among(args: Seq<Seq<char>>) -> ChatCommandOptions {
        ChatCommandOptions {
            anonymous: mentions(args, "-A"@, "--anonymous"@),
            fuckanons: mentions(args, "-F"@, "--fuckanons"@),
            ticket: mentions(args, "-T"@, "--ticket"@),
        }
    }

    /// No option.
    pub fn new() -> (options: ChatCommandOptions)
        ensures
            options == (ChatCommandOptions { anonymous: false, fuckanons: false, ticket: false }),
    {
        ChatCommandOptions { anonymous: false, fuckanons: false, ticket: false }
    }

    /// Whether there is any option.
    pub fn has_options(&self) -> (b: bool)
        ensures
            b == (self.anonymous || self.fuckanons || self.ticket),
    {
        self.anonymous || self.fuckanons || self.ticket
    }

    /// Takes a word into account. Only words that begin with a dash are
    /// options, and of those only the ones that are known.
    pub fn note(&mut self, arg: &str)
        ensures
            final(self).anonymous == (old(self).anonymous || arg@ == "-A"@ || arg@
                == "--anonymous"@),
            final(self).fuckanons == (old(self).fuckanons || arg@ == "-F"@ || arg@
                == "--fuckanons"@),
            final(self).ticket == (old(self).ticket || arg@ == "-T"@ || arg@ == "--ticket"@),
    {
        proof {
            lemma_options_begin_with_a_dash();
            lemma_options_differ();
        }
        if starts_with(arg, "-") {
            if same_text(arg, "-A") || same_text(arg, "--anonymous") {
                self.anonymous = true;
            } else if same_text(arg, "-F") || same_text(arg, "--fuckanons") {
                self.fuckanons = true;
            } else if same_text(arg, "-T") || same_text(arg, "--ticket") {
                self.ticket = true;
            }
        }
    }
}

proof fn lemma_options_begin_with_a_dash()
    ensures
        "-"@.is_prefix_of("-A"@),
        "-"@.is_prefix_of("--anonymous"@),
        "-"@.is_prefix_of("-F"@),
        "-"@.is_prefix_of("--fuckanons"@),
        "-"@.is_prefix_of("-T"@),
        "-"@.is_prefix_of("--ticket"@),
{
    reveal_strlit("-");
    reveal_strlit("-A");
    reveal_strlit("--anonymous");
    reveal_strlit("-F");
    reveal_strlit("--fuckanons");
    reveal_strlit("-T");
    reveal_strlit("--ticket");
}

proof fn lemma_options_differ()
    ensures
        "-A"@ != "-F"@ && "-A"@ != "-T"@ && "-F"@ != "-T"@,
        "-A"@ != "--fuckanons"@ && "-A"@ != "--ticket"@,
        "-F"@ != "--anonymous"@ && "-F"@ != "--ticket"@,
        "-T"@ != "--anonymous"@ && "-T"@ != "--fuckanons"@,
        "--anonymous"@ != "--fuckanons"@ && "--anonymous"@ != "--ticket"@ && "--fuckanons"@
            != "--ticket"@,
{
    reveal_strlit("-A");
    reveal_strlit("--anonymous");
    reveal_strlit("-F");
    reveal_strlit("--fuckanons");
    reveal_strlit("-T");
    reveal_strlit("--ticket");
    assert("-A"@[1] == 'A' && "-F"@[1] == 'F' && "-T"@[1] == 'T');
    assert("--anonymous"@[2] == 'a' && "--fuckanons"@[2] == 'f' && "--ticket"@[2] == 't');
}

/// What a `!chat` command asks for.
#[derive(Debug, Clone, Copy, PartialEq, Eq, Structural)]
pub struct ChatCommand {
    /// All of its options.
    pub options: ChatCommandOptions,
    /// Whether a chat is to be created, and then whether its creator is to be
    /// anonymous in it.
    pub create: Option<bool>,
}

/// The index of the first word `create`, or the number of words where it is
/// not among them.
pub open spec fn first_create(args: Seq<Seq<char>>) -> int
    decreases args.len(),
{
    if args.len() == 0 {
        0
    } else {
        let n = args.len() - 1;
        let earlier = first_create(args.drop_last());
        if earlier < n || args.last() == "create"@ {
            earlier
        } else {
            n + 1
        }
    }
}

impl ChatCommand {
    /// What the words of a command ask for. Options count wherever they
    /// stand, but whether the creator of a chat is anonymous is settled by
    /// what stands before `create`.
    pub open spec fn of(args: Seq<Seq<char>>) -> ChatCommand {
        ChatCommand {
            options: ChatCommandOptions::among(args),
            create: if args.contains("create"@) {
                Some(ChatCommandOptions::among(args.take(first_create(args))).anonymous)
            } else {
                None
            },
        }
    }

    /// Reads the words of a command.
    pub fn parse(args: &Vec<String>) -> (command: ChatCommand)
        ensures
            command == ChatCommand::of(texts(args@)),
    {
        let mut options: ChatCommandOptions = ChatCommandOptions::new();
        let mut create: Option<bool> = None;
        let mut i: usize = 0;
        let ghost all = texts(args@);
        assert(options == ChatCommandOptions::among(all.take(0)));
        while i < args.len()
            invariant
                i <= args.len(),
                all == texts(args@),
                options == ChatCommandOptions::among(all.take(i as int)),
                create is Some <==> all.take(i as int).contains("create"@),
                create is Some ==> create == ChatCommand::of(all.take(i as int)).create,
                0 <= first_create(all.take(i as int)) <= i,
                create is None <==> first_create(all.take(i as int)) == i,
            decreases args.len() - i,
        {
            let ghost before = all.take(i as int);
            let ghost now = all.take(i + 1);
            proof {
                assert(now.drop_last() == before);
                assert(now.last() == args@[i as int]@);
                lemma_one_word_more(before, args@[i as int]@);
                assert(before.push(args@[i as int]@) == now);
            }
            options.note(args[i].as_str());
            if same_text(args[i].as_str(), "create") {
                proof {
                    reveal_strlit("create");
                    reveal_strlit("-A");
                    reveal_strlit("--anonymous");
                    assert("create"@[0] == 'c' && "-A"@[0] == '-' && "--anonymous"@[0] == '-');
                }
                if create.is_none() {
                    create = Some(options.anonymous);
                    assert(now.take(first_create(now)) == before);
                } else {
                    assert(now.take(first_create(now)) == before.take(first_create(before)));
                }
            } else {
                proof {
                    if create is Some {
                        assert(now.take(first_create(now)) == before.take(first_create(before)));
                    }
                }
            }
            i = i + 1;
        }
        assert(all.take(i as int) == all);
        ChatCommand { options, create }
    }
}

/// A word at the end is among the words, besides those that were.
proof fn lemma_one_word_more(words: Seq<Seq<char>>, word: Seq<char>)
    ensures
        forall|w: Seq<char>| #[trigger]
            words.push(word).contains(w) <==> words.contains(w) || w == word,
{
    assert forall|w: Seq<char>| #[trigger] words.push(word).contains(w) implies words.contains(w)
        || w == word by {
        let k = choose|k: int| 0 <= k < words.push(word).len() && words.push(word)[k] == w;
        if k < words.len() {
            assert(words[k] == w);
        }
    }
    assert forall|w: Seq<char>| words.contains(w) || w == word implies #[trigger] words.push(
        word,
    ).contains(w) by {
        if w == word {
            assert(words.push(word)[words.len() as int] == w);
        } else {
            let k = choose|k: int| 0 <= k < words.len() && words[k] == w;
            assert(words.push(word)[k] == w);
        }
    }
}

/// The first `create` is one, and none stands before it.
pub proof fn law_first_create_is_the_first(args: Seq<Seq<char>>)
    ensures
        0 <= first_create(args) <= args.len(),
        first_create(args) < args.len() ==> args[first_create(args)] == "create"@,
        forall|i: int| 0 <= i < first_create(args) ==> #[trigger] args[i] != "create"@,
    decreases args.len(),
{
    if args.len() > 0 {
        let before = args.drop_last();
        law_first_create_is_the_first(before);
        assert forall|i: int| 0 <= i < first_create(args) implies #[trigger] args[i]
            != "create"@ by {
            if i < before.len() {
                assert(before[i] == args[i]);
            }
        }
    }
}

/// What follows `create` changes neither that a chat is asked for nor whether
/// its creator is anonymous.
pub proof fn law_create_is_settled_at_once(args: Seq<Seq<char>>, more: Seq<Seq<char>>)
    requires
        args.contains("create"@),
    ensures
        ChatCommand::of(args + more).create == ChatCommand::of(args).create,
    decreases more.len(),
{
    if more.len() == 0 {
        assert(args + more =~= args);
    } else {
        let fewer = more.drop_last();
        law_create_is_settled_at_once(args, fewer);
        let all = args + more;
        let before = args + fewer;
        assert(all.drop_last() =~= before);
        let k = choose|k: int| 0 <= k < args.len() && args[k] == "create"@;
        assert(before[k] == "create"@ && all[k] == "create"@);
        law_first_create_is_the_first(before);
        assert(first_create(before) < before.len()) by {
            if first_create(before) == before.len() {
                assert(before[k] != "create"@);
            }
        }
        assert(first_create(all) == first_create(before));
        assert(all.take(first_create(all)) =~= before.take(first_create(before)));
    }
}

/// Each option is there where one of its two spellings is among the words, and
/// only there.
pub proof fn law_options_are_spelled_out(args: Seq<Seq<char>>)
    ensures
        ({
            let options = ChatCommandOptions::among(args);
            &&& options.anonymous <==> exists|i: int|
                0 <= i < args.len() && (#[trigger] args[i] == "-A"@ || args[i] == "--anonymous"@)
            &&& options.fuckanons <==> exists|i: int|
                0 <= i < args.len() && (#[trigger] args[i] == "-F"@ || args[i] == "--fuckanons"@)
            &&& options.ticket <==> exists|i: int|
                0 <= i < args.len() && (#[trigger] args[i] == "-T"@ || args[i] == "--ticket"@)
        }),
{
    let options = ChatCommandOptions::among(args);
    if options.anonymous {
        let word = if args.contains("-A"@) {
            "-A"@
        } else {
            "--anonymous"@
        };
        let i = choose|i: int| 0 <= i < args.len() && args[i] == word;
        assert(args[i] == "-A"@ || args[i] == "--anonymous"@);
    }
    if options.fuckanons {
        let word = if args.contains("-F"@) {
            "-F"@
        } else {
            "--fuckanons"@
        };
        let i = choose|i: int| 0 <= i < args.len() && args[i] == word;
        assert(args[i] == "-F"@ || args[i] == "--fuckanons"@);
    }
    if options.ticket {
        let word = if args.contains("-T"@) {
            "-T"@
        } else {
            "--ticket"@
        };
        let i = choose|i: int| 0 <= i < args.len() && args[i] == word;
        assert(args[i] == "-T"@ || args[i] == "--ticket"@);
    }
}

/// A chat is asked for where `create` is among the words. Its creator is
/// anonymous where `-A` or `--anonymous` stands before the first `create`, and
/// no other word has any influence on that. The options of the command are
/// those among all of its words.
pub proof fn law_what_a_command_asks_for(args: Seq<Seq<char>>, k: int)
    ensures
        (forall|i: int| 0 <= i < args.len() ==> #[trigger] args[i] != "create"@) ==> ChatCommand::of(
            args,
        ).create is None,
        0 <= k < args.len() && args[k] == "create"@ && (forall|i: int|
            0 <= i < k ==> #[trigger] args[i] != "create"@) ==> ChatCommand::of(args).create
            == Some(
            exists|i: int|
                0 <= i < k && (#[trigger] args[i] == "-A"@ || args[i] == "--anonymous"@),
        ),
        ChatCommand::of(args).options == ChatCommandOptions::among(args),
{
    let command = ChatCommand::of(args);
    law_first_create_is_the_first(args);
    if 0 <= k < args.len() && args[k] == "create"@ && (forall|i: int|
        0 <= i < k ==> #[trigger] args[i] != "create"@) {
        assert(first_create(args) == k) by {
            if first_create(args) < k {
                assert(args[first_create(args)] != "create"@);
            }
        }
        let before = args.take(k);
        law_options_are_spelled_out(before);
        assert(args.contains("create"@));
        let anonymous = exists|i: int|
            0 <= i < k && (#[trigger] args[i] == "-A"@ || args[i] == "--anonymous"@);
        if ChatCommandOptions::among(before).anonymous {
            let i = choose|i: int|
                0 <= i < before.len() && (#[trigger] before[i] == "-A"@ || before[i]
                    == "--anonymous"@);
            assert(args[i] == before[i]);
        }
        if anonymous {
            let i = choose|i: int|
                0 <= i < k && (#[trigger] args[i] == "-A"@ || args[i] == "--anonymous"@);
            assert(before[i] == args[i]);
        }
    }
}

/// A word that is neither `create` nor `-A` nor `--anonymous` can be left out,
/// wherever it stands: whether a chat is asked for, and whether its creator is
/// anonymous, is as before.
pub proof fn law_other_words_do_not_matter(
    a: Seq<Seq<char>>,
    word: Seq<char>,
    b: Seq<Seq<char>>,
)
    requires
        word != "create"@,
        word != "-A"@,
        word != "--anonymous"@,
    ensures
        ChatCommand::of(a.push(word) + b).create == ChatCommand::of(a + b).create,
{
    let long = a.push(word) + b;
    let short = a + b;
    let n = a.len() as int;
    law_first_create_is_the_first(short);
    let k = first_create(short);
    if k < short.len() {
        let m = if k < n {
            k
        } else {
            k + 1
        };
        assert(long[m] == short[k]);
        assert forall|i: int| 0 <= i < m implies #[trigger] long[i] != "create"@ by {
            if i < n {
                assert(long[i] == short[i]);
            } else if i > n {
                assert(long[i] == short[i - 1]);
            }
        }
        law_what_a_command_asks_for(short, k);
        law_what_a_command_asks_for(long, m);
        if exists|i: int|
            0 <= i < k && (#[trigger] short[i] == "-A"@ || short[i] == "--anonymous"@) {
            let i = choose|i: int|
                0 <= i < k && (#[trigger] short[i] == "-A"@ || short[i] == "--anonymous"@);
            let j = if i < n {
                i
            } else {
                i + 1
            };
            assert(long[j] == short[i]);
        }
        if exists|i: int|
            0 <= i < m && (#[trigger] long[i] == "-A"@ || long[i] == "--anonymous"@) {
            let i = choose|i: int|
                0 <= i < m && (#[trigger] long[i] == "-A"@ || long[i] == "--anonymous"@);
            let j = if i < n {
                i
            } else {
                i - 1
            };
            assert(short[j] == long[i]);
        }
    } else {
        assert forall|i: int| 0 <= i < long.len() implies #[trigger] long[i] != "create"@ by {
            if i < n {
                assert(long[i] == short[i]);
            } else if i > n {
                assert(long[i] == short[i - 1]);
            }
        }
        law_what_a_command_asks_for(short, k);
        law_what_a_command_asks_for(long, k);
    }
}

} // verus!
