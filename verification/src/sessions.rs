//! Session tokens: 64 characters drawn at random from the letters and
//! digits of ASCII.

use vstd::prelude::*;

use crate::random::{new_rng, rng_below};

verus! {

/// Length in characters of a session token.
pub const TOKEN_LEN: usize = 64;

/// The characters a session token is made of.
pub const TOKEN_CHARSET: [char; 62] = [
    'A', 'B', 'C', 'D', 'E', 'F', 'G', 'H', 'I', 'J', 'K', 'L', 'M', 'N', 'O', 'P', 'Q', 'R',
    'S', 'T', 'U', 'V', 'W', 'X', 'Y', 'Z', 'a', 'b', 'c', 'd', 'e', 'f', 'g', 'h', 'i', 'j',
    'k', 'l', 'm', 'n', 'o', 'p', 'q', 'r', 's', 't', 'u', 'v', 'w', 'x', 'y', 'z', '0', '1',
    '2', '3', '4', '5', '6', '7', '8', '9',
];

/// Whether a text has the shape of a session token.
pub open spec fn is_token(token: Seq<char>) -> bool {
    &&& token.len() == TOKEN_LEN
    &&& forall|i: int| 0 <= i < token.len() ==> TOKEN_CHARSET@.contains(#[trigger] token[i])
}

/// `FromIterator<char>` for `String`, fed the characters of a vector in
/// order. Claimed: the string holds exactly those characters.
#[verifier::external_body]
fn string_from_chars(chars: &Vec<char>) -> (s: String)
    ensures
        s@ == chars@,
{
    chars.iter().collect()
}

/// Whether the draws are the ones a token is built from: one index into
/// the charset per character.
pub open spec fn valid_token_draws(draws: Seq<usize>) -> bool {
    &&& draws.len() == TOKEN_LEN
    &&& forall|i: int| 0 <= i < draws.len() ==> #[trigger] draws[i] < TOKEN_CHARSET@.len()
}

/// The token that the draws spell: character `i` is the charset entry at
/// `draws[i]`.
pub open spec fn token_of_draws(draws: Seq<usize>) -> Seq<char> {
    draws.map_values(|d: usize| TOKEN_CHARSET@[d as int])
}

/// The token spelled by the given draws.
pub fn token_from_draws(draws: &Vec<usize>) -> (token: String)
    requires
        valid_token_draws(draws@),
    ensures
        token@ == token_of_draws(draws@),
        is_token(token@),
        token@.len() == draws@.len(),
        forall|i: int| 0 <= i < draws@.len() ==> #[trigger] token@[i] == TOKEN_CHARSET@[draws@[i] as int],
{
    let mut chars: Vec<char> = Vec::new();
    let mut i: usize = 0;
    while i < draws.len()
        invariant
            i <= draws@.len(),
            valid_token_draws(draws@),
            chars@ == token_of_draws(draws@).take(i as int),
        decreases draws@.len() - i,
    {
        let c = TOKEN_CHARSET[draws[i]];
        chars.push(c);
        i = i + 1;
        assert(chars@ =~= token_of_draws(draws@).take(i as int));
    }
    assert(token_of_draws(draws@).take(i as int) =~= token_of_draws(draws@));
    assert forall|k: int| 0 <= k < chars@.len() implies TOKEN_CHARSET@.contains(#[trigger] chars@[k]) by {
        assert(chars@[k] == TOKEN_CHARSET@[draws@[k] as int]);
    }
    string_from_chars(&chars)
}

/// A fresh random session token: the token spelled by 64 random draws.
pub fn generate_token() -> (token: String)
    ensures
        exists|draws: Seq<usize>| valid_token_draws(draws) && token@ == #[trigger] token_of_draws(draws),
        is_token(token@),
{
    let mut rng = new_rng();
    let mut draws: Vec<usize> = Vec::new();
    let mut i: usize = 0;
    while i < TOKEN_LEN
        invariant
            i <= TOKEN_LEN,
            draws@.len() == i,
            forall|k: int| 0 <= k < i ==> #[trigger] draws@[k] < TOKEN_CHARSET@.len(),
        decreases TOKEN_LEN - i,
    {
        draws.push(rng_below(&mut rng, TOKEN_CHARSET.len()));
        i = i + 1;
    }
    token_from_draws(&draws)
}

} // verus!
