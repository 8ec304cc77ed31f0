use fluxchat::options::{ChatCommand, ChatCommandOptions};

fn parse(args: &[&str]) -> ChatCommand {
    ChatCommand::parse(&args.iter().map(|s| s.to_string()).collect())
}

#[test]
fn no_option_at_first() {
    let options = ChatCommandOptions::new();
    assert!(!options.anonymous && !options.fuckanons && !options.ticket);
    assert!(!options.has_options());
}

#[test]
fn each_option_counts() {
    for (short, long, index) in
        [("-A", "--anonymous", 0), ("-F", "--fuckanons", 1), ("-T", "--ticket", 2)]
    {
        for spelling in [short, long] {
            let mut options = ChatCommandOptions::new();
            options.note(spelling);
            let set = [options.anonymous, options.fuckanons, options.ticket];
            assert_eq!(set.iter().position(|b| *b), Some(index));
            assert_eq!(set.iter().filter(|b| **b).count(), 1);
            assert!(options.has_options());
        }
    }
}

#[test]
fn unknown_words_are_no_options() {
    let mut options = ChatCommandOptions::new();
    for word in ["-a", "A", "anonymous", "--Anonymous", "-", "--", "-AF", "create", "-X", ""] {
        options.note(word);
    }
    assert!(!options.has_options());
}

#[test]
fn create_takes_the_options_before_it() {
    assert_eq!(parse(&["!chat", "create"]).create, Some(false));
    assert_eq!(parse(&["!chat", "-A", "create"]).create, Some(true));
    assert_eq!(parse(&["!chat", "--anonymous", "create"]).create, Some(true));
    assert_eq!(parse(&["!chat", "create", "-A"]).create, Some(false));
    assert!(parse(&["!chat", "create", "-A"]).options.anonymous);
}

#[test]
fn the_first_create_settles_it() {
    assert_eq!(parse(&["!chat", "create", "-A", "create"]).create, Some(false));
    assert_eq!(parse(&["!chat", "-A", "create", "create", "-T"]).create, Some(true));
    assert_eq!(parse(&["create"]).create, Some(false));
}

#[test]
fn without_create_nothing_is_created() {
    for word in ["attach", "delete", "close", "Create", "creates", "-create"] {
        assert_eq!(parse(&["!chat", word]).create, None);
    }
    assert_eq!(parse(&[]).create, None);
    let command = parse(&["!chat", "-F", "-T"]);
    assert_eq!(command.create, None);
    assert!(command.options.fuckanons && command.options.ticket && !command.options.anonymous);
}
