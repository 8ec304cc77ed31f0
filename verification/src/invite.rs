//! Invitations: whether one is for the bot, and how long it keeps trying to
//! follow it.

use crate::text::same_text;
use vstd::prelude::*;

verus! {

/// How long the bot waits after its first failure to join, in seconds.
pub const FIRST_DELAY: u64 = 2;

/// The longest that it would wait, in seconds.
pub const LONGEST_DELAY: u64 = 3600;

/// The attempts to join a room.
#[derive(Debug, PartialEq, Eq)]
pub struct JoinAttempts {
    delay: u64,
}

/// What to do after a failure to join.
#[derive(Debug, PartialEq, Eq)]
pub struct Retry {
    /// How long to wait first, in seconds.
    pub wait: u64,
    /// The attempts that follow, `None` where the bot gives up.
    pub next: Option<JoinAttempts>,
}

/// How long is waited after each failure in turn, from a delay on, where no
/// attempt succeeds: each time twice as long as before, and no more once that
/// would be longer than the longest delay.
pub open spec fn waits(delay: nat) -> Seq<nat>
    decreases LONGEST_DELAY - delay,
{
    if delay == 0 || 2 * delay > LONGEST_DELAY {
        seq![delay]
    } else {
        seq![delay] + waits(2 * delay)
    }
}

impl JoinAttempts {
    #[verifier::type_invariant]
    spec fn wf(self) -> bool {
        1 <= self.delay <= LONGEST_DELAY
    }

    /// How long will be waited after the next failure.
    pub closed spec fn delay(self) -> nat {
        self.delay as nat
    }

    /// The first attempt.
    pub fn new() -> (attempts: JoinAttempts)
        ensures
            attempts.delay() == FIRST_DELAY,
    {
        JoinAttempts { delay: FIRST_DELAY }
    }

    /// The attempt has failed: wait, then try again or give up.
    pub fn failed(self) -> (retry: Retry)
        ensures
            retry.wait == self.delay(),
            retry.next is None <==> 2 * self.delay() > LONGEST_DELAY,
            retry.next matches Some(next) ==> next.delay() == 2 * self.delay(),
            waits(self.delay()) == match retry.next {
                Some(next) => seq![retry.wait as nat] + waits(next.delay()),
                None => seq![retry.wait as nat],
            },
    {
        proof {
            use_type_invariant(&self);
        }
        let wait: u64 = self.delay;
        let doubled: u64 = wait * 2;
        if doubled > LONGEST_DELAY {
            Retry { wait, next: None }
        } else {
            Retry { wait, next: Some(JoinAttempts { delay: doubled }) }
        }
    }
}

/// Decides on a stripped room member event: whoever it is about is invited.
/// The bot sets out to join where that is itself, and leaves it alone where
/// the invite is for someone else.
pub fn on_stripped_state_member(state_key: &str, user_id: &str) -> (r: Option<JoinAttempts>)
    ensures
        r is Some <==> state_key@ == user_id@,
        r matches Some(attempts) ==> attempts.delay() == FIRST_DELAY,
{
    if same_text(state_key, user_id) {
        Some(JoinAttempts::new())
    } else {
        None
    }
}

/// The sum of some delays.
pub open spec fn total(delays: Seq<nat>) -> nat
    decreases delays.len(),
{
    if delays.len() == 0 {
        0
    } else {
        total(delays.drop_last()) + delays.last()
    }
}

/// A room that cannot be joined is tried eleven times, after delays from two
/// seconds to 2048, each twice the one before, and given up after 4094
/// seconds of waiting in all.
pub proof fn law_join_schedule()
    ensures
        waits(FIRST_DELAY as nat) == seq![
            2nat, 4, 8, 16, 32, 64, 128, 256, 512, 1024, 2048,
        ],
        total(waits(FIRST_DELAY as nat)) == 4094,
{
    reveal_with_fuel(waits, 11);
    let all = seq![2nat, 4, 8, 16, 32, 64, 128, 256, 512, 1024, 2048];
    assert(waits(FIRST_DELAY as nat) =~= all);
    reveal_with_fuel(total, 12);
    assert(total(all) == 4094);
}

/// Every delay is at least as long as the first and none is longer than the
/// longest, whatever the first is, and each is twice the one before.
pub proof fn law_delays_double(delay: nat)
    requires
        1 <= delay <= LONGEST_DELAY,
    ensures
        waits(delay).len() > 0,
        waits(delay)[0] == delay,
        forall|i: int| 0 <= i < waits(delay).len() ==> delay <= #[trigger] waits(delay)[i]
            <= LONGEST_DELAY,
        forall|i: int| 0 < i < waits(delay).len() ==> #[trigger] waits(delay)[i] == 2 * waits(
            delay,
        )[i - 1],
        2 * waits(delay).last() > LONGEST_DELAY,
    decreases LONGEST_DELAY - delay,
{
    if 2 * delay <= LONGEST_DELAY {
        law_delays_double(2 * delay);
        let rest = waits(2 * delay);
        assert forall|i: int| 0 <= i < waits(delay).len() implies delay <= #[trigger] waits(
            delay,
        )[i] <= LONGEST_DELAY by {
            if i > 0 {
                assert(waits(delay)[i] == rest[i - 1]);
            }
        }
        assert forall|i: int| 0 < i < waits(delay).len() implies #[trigger] waits(delay)[i] == 2
            * waits(delay)[i - 1] by {
            assert(waits(delay)[i] == rest[i - 1]);
            if i > 1 {
                assert(waits(delay)[i - 1] == rest[i - 2]);
            }
        }
        assert(waits(delay).last() == rest.last());
    }
}

/// The bot waits two seconds first, and gives up where it would have to wait for
/// more than an hour.
pub proof fn law_delays_are_bounded()
    ensures
        FIRST_DELAY == 2,
        LONGEST_DELAY == 60 * 60,
{
}

} // verus!
