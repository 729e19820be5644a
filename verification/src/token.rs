//! Tokens: ten uppercase ASCII letters, each drawn independently.

use crate::random::draw_inclusive;
use crate::text::string_from_chars;
use vstd::prelude::*;

verus! {

/// The number of letters in a token.
pub const TOKEN_LEN: usize = 10;

/// The code point of `A`, the lowest a token letter can have.
pub const FIRST_LETTER: u8 = 65;

/// The code point of `Z`, the highest a token letter can have.
pub const LAST_LETTER: u8 = 90;

/// Whether `code` is the code point of an uppercase ASCII letter.
pub open spec fn is_letter_code(code: u8) -> bool {
    FIRST_LETTER <= code <= LAST_LETTER
}

/// Whether `c` is one of the letters `A` to `Z`.
pub open spec fn is_upper_letter(c: char) -> bool {
    'A' as u32 <= c as u32 <= 'Z' as u32
}

/// Whether `s` is a well-formed token: `TOKEN_LEN` uppercase ASCII letters.
pub open spec fn is_token(s: Seq<char>) -> bool {
    &&& s.len() == TOKEN_LEN
    &&& forall|i: int| 0 <= i < s.len() ==> is_upper_letter(#[trigger] s[i])
}

/// The characters that the code points `codes` stand for, one for one.
pub open spec fn letters_of(codes: Seq<u8>) -> Seq<char> {
    Seq::new(codes.len(), |i: int| codes[i] as char)
}

/// Whether `codes` is what a token is made from: `TOKEN_LEN` code points of
/// uppercase ASCII letters.
pub open spec fn are_token_codes(codes: Seq<u8>) -> bool {
    &&& codes.len() == TOKEN_LEN
    &&& forall|i: int| 0 <= i < codes.len() ==> is_letter_code(#[trigger] codes[i])
}

/// Turns drawn code points into the string of their characters. The result
/// depends on `codes` alone, and is a token whenever `codes` holds
/// `TOKEN_LEN` code points of uppercase letters.
pub fn token_from_codes(codes: &Vec<u8>) -> (token: String)
    ensures
        token@ == letters_of(codes@),
        are_token_codes(codes@) ==> is_token(token@),
{
    let mut letters: Vec<char> = Vec::new();
    let mut i: usize = 0;
    while i < codes.len()
        invariant
            i <= codes.len(),
            letters@ == letters_of(codes@.take(i as int)),
        decreases codes.len() - i,
    {
        letters.push(codes[i] as char);
        i += 1;
        assert(letters@ =~= letters_of(codes@.take(i as int)));
    }
    assert(codes@.take(codes.len() as int) =~= codes@);
    proof {
        lemma_token_codes_give_token(codes@);
    }
    string_from_chars(&letters)
}

/// Generates a token: draws `TOKEN_LEN` code points, each from `FIRST_LETTER`
/// to `LAST_LETTER` inclusive, and returns their letters in the order drawn.
/// Whatever is drawn, the result is a well-formed token.
pub fn create_token() -> (token: String)
    ensures
        is_token(token@),
{
    let mut codes: Vec<u8> = Vec::new();
    let mut i: usize = 0;
    while i < TOKEN_LEN
        invariant
            i <= TOKEN_LEN,
            codes@.len() == i,
            forall|k: int| 0 <= k < codes@.len() ==> is_letter_code(#[trigger] codes@[k]),
        decreases TOKEN_LEN - i,
    {
        let draw: usize = draw_inclusive(FIRST_LETTER as usize, LAST_LETTER as usize);
        codes.push(draw as u8);
        i += 1;
    }
    token_from_codes(&codes)
}

/// Code points of uppercase letters stand for uppercase letters, so
/// `TOKEN_LEN` of them give a token.
pub proof fn lemma_token_codes_give_token(codes: Seq<u8>)
    ensures
        letters_of(codes).len() == codes.len(),
        are_token_codes(codes) ==> is_token(letters_of(codes)),
{
    assert forall|i: int| 0 <= i < codes.len() && is_letter_code(codes[i]) implies is_upper_letter(
        #[trigger] letters_of(codes)[i],
    ) by {
        lemma_letter_code_is_letter(codes[i]);
    }
}

/// The character of a code point has that code point, so a letter's code
/// point gives a letter.
pub proof fn lemma_letter_code_is_letter(code: u8)
    ensures
        (code as char) as u32 == code,
        is_letter_code(code) ==> is_upper_letter(code as char),
{
}

/// A token is fixed by the code points drawn: draws that agree position for
/// position give the same letters.
pub proof fn lemma_token_deterministic(first: Seq<u8>, second: Seq<u8>)
    requires
        first.len() == second.len(),
        forall|i: int| 0 <= i < first.len() ==> first[i] == second[i],
    ensures
        letters_of(first) == letters_of(second),
{
    assert(first =~= second);
}

} // verus!
