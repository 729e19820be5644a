//! Passwords: ten characters sampled from a pool of candidates.
//!
//! Every position is filled from an index drawn between 0 and `MAX_INDEX`
//! inclusive, whatever the length of the pool. A pool of more than
//! `MAX_INDEX` characters therefore always gives a password, and only its
//! first `MAX_INDEX + 1` characters can occur in one. On a shorter pool a
//! drawn index may lie past the end; generation then reports
//! `CredentialError::PoolTooSmall` and gives no password.

use crate::random::draw_inclusive;
use crate::text::string_from_chars;
use vstd::prelude::*;

verus! {

/// The number of characters in a password.
pub const PASSWORD_LEN: usize = 10;

/// The highest index that is ever drawn. It equals `PASSWORD_LEN`, so eleven
/// indices are possible.
pub const MAX_INDEX: usize = 10;

/// Why no credential was produced.
#[derive(Clone, Copy, Debug, PartialEq, Eq, Structural)]
pub enum CredentialError {
    /// A drawn index lies past the end of the pool.
    PoolTooSmall,
}

/// Whether every index in `draws` lies inside a pool of `pool_len` entries.
pub open spec fn draws_fit(pool_len: nat, draws: Seq<usize>) -> bool {
    forall|i: int| 0 <= i < draws.len() ==> (#[trigger] draws[i]) < pool_len
}

/// Whether `draws` is what the sampler can draw for one password:
/// `PASSWORD_LEN` indices, none above `MAX_INDEX`.
pub open spec fn are_password_draws(draws: Seq<usize>) -> bool {
    &&& draws.len() == PASSWORD_LEN
    &&& forall|i: int| 0 <= i < draws.len() ==> (#[trigger] draws[i]) <= MAX_INDEX
}

/// The pool entries that `draws` select, in the order drawn. Meaningful where
/// `draws_fit(pool.len(), draws)`.
pub open spec fn selection_of(pool: Seq<char>, draws: Seq<usize>) -> Seq<char> {
    Seq::new(draws.len(), |i: int| pool[draws[i] as int])
}

/// Whether `c` stands in `pool` at an index that can be drawn.
pub open spec fn is_early_entry(pool: Seq<char>, c: char) -> bool {
    exists|j: int| 0 <= j <= MAX_INDEX && j < pool.len() && #[trigger] pool[j] == c
}

/// Whether `password` can come out of sampling from `pool`: some draws that
/// the sampler can make, all inside the pool, select exactly it.
pub open spec fn is_sampled_from(password: Seq<char>, pool: Seq<char>) -> bool {
    exists|draws: Seq<usize>|
        {
            &&& are_password_draws(draws)
            &&& draws_fit(pool.len(), draws)
            &&& password == #[trigger] selection_of(pool, draws)
        }
}

/// Selects from `characters` the entry at each drawn index, in order.
///
/// Succeeds exactly when every index lies inside the pool, and the result is
/// then fixed by the two arguments. Otherwise the pool is too small for the
/// draws.
pub fn password_from_draws(characters: &Vec<char>, draws: &Vec<usize>) -> (result: Result<
    String,
    CredentialError,
>)
    ensures
        result is Ok <==> draws_fit(characters@.len(), draws@),
        result is Ok ==> result->Ok_0@ == selection_of(characters@, draws@),
        result is Err ==> result->Err_0 == CredentialError::PoolTooSmall,
{
    let mut picked: Vec<char> = Vec::new();
    let mut i: usize = 0;
    while i < draws.len()
        invariant
            i <= draws.len(),
            draws_fit(characters@.len(), draws@.take(i as int)),
            picked@ == selection_of(characters@, draws@.take(i as int)),
        decreases draws.len() - i,
    {
        let index: usize = draws[i];
        if index >= characters.len() {
            return Err(CredentialError::PoolTooSmall);
        }
        picked.push(characters[index]);
        i += 1;
        assert(picked@ =~= selection_of(characters@, draws@.take(i as int)));
    }
    assert(draws@.take(draws.len() as int) =~= draws@);
    Ok(string_from_chars(&picked))
}

/// Generates a password: draws `PASSWORD_LEN` indices, each from 0 to
/// `MAX_INDEX` inclusive, and returns the pool entries at those indices in
/// the order drawn.
///
/// A pool of more than `MAX_INDEX` characters always gives a password. A
/// shorter pool gives one only if every drawn index happens to lie inside
/// it. Whatever is drawn, a password has `PASSWORD_LEN` characters and each
/// of them is an entry of the pool at an index of at most `MAX_INDEX`.
pub fn create_wg_password(characters: Vec<char>) -> (result: Result<String, CredentialError>)
    ensures
        characters@.len() > MAX_INDEX ==> result is Ok,
        result is Ok ==> {
            &&& is_sampled_from(result->Ok_0@, characters@)
            &&& result->Ok_0@.len() == PASSWORD_LEN
            &&& forall|i: int|
                0 <= i < result->Ok_0@.len() ==> {
                    &&& characters@.contains(#[trigger] result->Ok_0@[i])
                    &&& is_early_entry(characters@, result->Ok_0@[i])
                }
        },
        result is Err ==> {
            &&& result->Err_0 == CredentialError::PoolTooSmall
            &&& characters@.len() <= MAX_INDEX
        },
{
    let mut draws: Vec<usize> = Vec::new();
    let mut i: usize = 0;
    while i < PASSWORD_LEN
        invariant
            i <= PASSWORD_LEN,
            draws@.len() == i,
            forall|k: int| 0 <= k < draws@.len() ==> (#[trigger] draws@[k]) <= MAX_INDEX,
        decreases PASSWORD_LEN - i,
    {
        let index: usize = draw_inclusive(0, MAX_INDEX);
        draws.push(index);
        i += 1;
    }
    let result = password_from_draws(&characters, &draws);
    proof {
        if result is Ok {
            lemma_sampled_password(result->Ok_0@, characters@);
        }
    }
    result
}

/// A password sampled from a pool has `PASSWORD_LEN` characters, and each of
/// them is an entry of the pool, found among its first `MAX_INDEX + 1`.
pub proof fn lemma_sampled_password(password: Seq<char>, pool: Seq<char>)
    requires
        is_sampled_from(password, pool),
    ensures
        password.len() == PASSWORD_LEN,
        forall|i: int| 0 <= i < password.len() ==> pool.contains(#[trigger] password[i]),
        forall|i: int| 0 <= i < password.len() ==> is_early_entry(pool, #[trigger] password[i]),
{
    let draws = choose|draws: Seq<usize>|
        {
            &&& are_password_draws(draws)
            &&& draws_fit(pool.len(), draws)
            &&& password == #[trigger] selection_of(pool, draws)
        };
    assert forall|i: int| 0 <= i < password.len() implies pool.contains(#[trigger] password[i])
        && is_early_entry(pool, password[i]) by {
        let j = draws[i] as int;
        assert(0 <= j <= MAX_INDEX && j < pool.len() && pool[j] == password[i]);
    }
}

/// Draws within a pool of more than `MAX_INDEX` entries always fit it.
pub proof fn lemma_large_pool_fits(pool_len: nat, draws: Seq<usize>)
    requires
        are_password_draws(draws),
        pool_len > MAX_INDEX,
    ensures
        draws_fit(pool_len, draws),
{
}

/// The outcome is fixed by the pool and by the indices drawn: draws that
/// agree position for position fit the same pools and select the same
/// characters from them.
pub proof fn lemma_selection_deterministic(pool: Seq<char>, first: Seq<usize>, second: Seq<usize>)
    requires
        first.len() == second.len(),
        forall|i: int| 0 <= i < first.len() ==> first[i] == second[i],
    ensures
        draws_fit(pool.len(), first) == draws_fit(pool.len(), second),
        selection_of(pool, first) == selection_of(pool, second),
{
    assert(first =~= second);
}

} // verus!
