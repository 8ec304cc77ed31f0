use fluxchat::invite::{on_stripped_state_member, JoinAttempts};

#[test]
fn only_the_own_invite_is_followed() {
    assert!(on_stripped_state_member("@bot:b.c", "@bot:b.c").is_some());
    assert!(on_stripped_state_member("@other:b.c", "@bot:b.c").is_none());
    assert!(on_stripped_state_member("", "@bot:b.c").is_none());
}

#[test]
fn joining_is_given_up_after_eleven_failures() {
    let mut waits = Vec::new();
    let mut attempts = on_stripped_state_member("@bot:b.c", "@bot:b.c");
    while let Some(attempt) = attempts {
        let retry = attempt.failed();
        waits.push(retry.wait);
        attempts = retry.next;
    }
    assert_eq!(waits, [2, 4, 8, 16, 32, 64, 128, 256, 512, 1024, 2048]);
    assert_eq!(waits.iter().sum::<u64>(), 4094);
}

#[test]
fn delays_double() {
    let first = JoinAttempts::new().failed();
    let second = first.next.unwrap().failed();
    assert_eq!(first.wait, 2);
    assert_eq!(second.wait, 2 * first.wait);
    assert!(second.next.is_some());
}
