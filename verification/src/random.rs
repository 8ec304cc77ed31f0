//! Random letters, of which room identifiers and aliases are made.

use rand::Rng;
use vstd::prelude::*;

verus! {

/// `gen_range` of `rand`, on the generator that `thread_rng` returns: some
/// byte from `low` to `high`, both included. Which one is left to chance, and
/// so left unsaid. (`gen_range` panics on an empty range; `thread_rng` does
/// where the system has no randomness to seed it with.)
#[verifier::external_body]
fn random_byte(low: u8, high: u8) -> (b: u8)
    requires
        low <= high,
    ensures
        low <= b <= high,
{
    rand::thread_rng().gen_range(low..=high)
}

/// Whether a text consists of the letters from `A` to `Z` alone.
pub open spec fn capitals(s: Seq<char>) -> bool {
    forall|i: int| 0 <= i < s.len() ==> 'A' <= #[trigger] s[i] <= 'Z'
}

/// The text whose characters have the codes that were drawn.
pub fn letters(drawn: &Vec<u8>) -> (s: String)
    ensures
        s@ == drawn@.map_values(|b: u8| b as char),
{
    let mut s: String = String::new();
    let mut i: usize = 0;
    while i < drawn.len()
        invariant
            i <= drawn.len(),
            s@ == drawn@.take(i as int).map_values(|b: u8| b as char),
        decreases drawn.len() - i,
    {
        s.push(drawn[i] as char);
        i = i + 1;
        assert(s@ =~= drawn@.take(i as int).map_values(|b: u8| b as char));
    }
    assert(drawn@.take(i as int) =~= drawn@);
    s
}

/// Draws a text of `n` letters.
pub fn random_letters(n: usize) -> (s: String)
    ensures
        s@.len() == n,
        capitals(s@),
{
    let mut drawn: Vec<u8> = Vec::new();
    let mut i: usize = 0;
    while i < n
        invariant
            i <= n,
            drawn@.len() == i,
            forall|j: int| 0 <= j < i ==> 65 <= #[trigger] drawn@[j] <= 90,
        decreases n - i,
    {
        drawn.push(random_byte(65, 90));
        i = i + 1;
    }
    letters(&drawn)
}

/// Capitals are the characters with the codes from 65 to 90, and nothing else.
pub proof fn law_capitals_by_code(s: Seq<char>)
    ensures
        capitals(s) <==> forall|i: int| 0 <= i < s.len() ==> 65 <= #[trigger] s[i] as int <= 90,
{
    if forall|i: int| 0 <= i < s.len() ==> 65 <= #[trigger] s[i] as int <= 90 {
        assert forall|i: int| 0 <= i < s.len() implies 'A' <= #[trigger] s[i] <= 'Z' by {
            assert(65 <= s[i] as int <= 90);
        }
    }
}

} // verus!
