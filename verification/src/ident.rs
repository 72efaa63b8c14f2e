//! Public handles of pastes: short random alphanumeric strings.

use rand::distributions::Alphanumeric;
use rand::rngs::ThreadRng;
use rand::Rng;
use vstd::prelude::*;

verus! {

/// The number of characters in a handle.
pub const HASH_LEN: usize = 7;

/// An ASCII digit or an ASCII letter of either case.
pub open spec fn is_alphanumeric(c: char) -> bool {
    let n = c as int;
    (48 <= n && n <= 57) || (65 <= n && n <= 90) || (97 <= n && n <= 122)
}

/// A well-formed handle: seven characters, each alphanumeric.
pub open spec fn is_hash(s: Seq<char>) -> bool {
    s.len() == HASH_LEN && forall|i: int| 0 <= i < s.len() ==> is_alphanumeric(#[trigger] s[i])
}

/// `rand::rngs::ThreadRng`, carried from its maker to the draws; nothing of
/// its state is seen.
#[verifier::external_type_specification]
#[verifier::external_body]
pub struct ExThreadRng(ThreadRng);

/// `String::push`: the character is appended, the rest stays.
pub assume_specification[ String::push ](s: &mut String, c: char)
    ensures
        final(s)@ == old(s)@.push(c),
;

/// `rand::thread_rng`: the calling thread's generator. Nothing is claimed of it.
#[verifier::external_body]
fn thread_generator() -> ThreadRng {
    rand::thread_rng()
}

/// `Rng::sample` with `rand::distributions::Alphanumeric` as the
/// distribution: one byte out of `A-Z`, `a-z`, `0-9`. Which one is left open.
#[verifier::external_body]
fn sample_alphanumeric(rng: &mut ThreadRng) -> (b: u8)
    ensures
        is_alphanumeric(b as char),
{
    rng.sample(Alphanumeric)
}

/// A new handle. It is drawn at random and not held against the handles
/// already in use: two pastes may get the same one.
pub fn generate_hash() -> (hash: String)
    ensures
        is_hash(hash@),
{
    let mut rng = thread_generator();
    let mut hash = String::new();
    let mut i: usize = 0;
    while i < HASH_LEN
        invariant
            i <= HASH_LEN,
            hash@.len() == i,
            forall|k: int| 0 <= k < hash@.len() ==> is_alphanumeric(#[trigger] hash@[k]),
        decreases HASH_LEN - i,
    {
        let b = sample_alphanumeric(&mut rng);
        hash.push(b as char);
        i += 1;
    }
    hash
}

} // verus!
