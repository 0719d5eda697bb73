//! Random tokens: the short token a reset gives to a voter, and the session
//! token a login gives to an admin.

use rand::distr::Alphanumeric;
use rand::rngs::ThreadRng;
use rand::Rng;
use vstd::prelude::*;

verus! {

/// `rand::rngs::ThreadRng`, the handle to a thread's random generator.
#[verifier::external_type_specification]
#[verifier::external_body]
pub struct ExThreadRng(ThreadRng);

/// `rand::rng`: a handle to the thread's generator.
#[verifier::external_body]
pub(crate) fn thread_generator() -> ThreadRng {
    rand::rng()
}

/// `Rng::random_range` on `low..high`: some value of that range. The range
/// must not be empty, or the call panics.
#[verifier::external_body]
pub(crate) fn random_in_range(generator: &mut ThreadRng, low: u32, high: u32) -> (value: u32)
    requires
        low < high,
    ensures
        low <= value < high,
{
    generator.random_range(low..high)
}

/// `Rng::sample` with `Alphanumeric`: the code of some ASCII letter or digit.
#[verifier::external_body]
pub(crate) fn random_alphanumeric(generator: &mut ThreadRng) -> (code: u8)
    ensures
        is_alphanumeric(code as char),
{
    generator.sample(Alphanumeric)
}

/// `String::push`: `letter` is appended to `text`.
#[verifier::external_body]
pub(crate) fn push_char(text: &mut String, letter: char)
    ensures
        final(text)@ == old(text)@.push(letter),
{
    text.push(letter);
}

/// Number of letters in a voter token.
pub const VOTER_TOKEN_LENGTH: usize = 6;

/// Number of characters in an admin session token.
pub const SESSION_TOKEN_LENGTH: usize = 50;

/// Whether `c` is one of `A` to `Z` or `a` to `z`.
pub open spec fn is_letter(c: char) -> bool {
    ('A' <= c && c <= 'Z') || ('a' <= c && c <= 'z')
}

/// Whether `c` is an ASCII letter or digit.
pub open spec fn is_alphanumeric(c: char) -> bool {
    is_letter(c) || ('0' <= c && c <= '9')
}

/// The letter that a drawn number stands for: 65 to 90 are `A` to `Z`, 91 to
/// 116 are `a` to `z`, and any other number is `A`.
pub open spec fn letter_of(drawn: u32) -> char {
    if 65 <= drawn <= 90 {
        drawn as char
    } else if 91 <= drawn <= 116 {
        (drawn + 6) as char
    } else {
        'A'
    }
}

/// Turns a drawn number into its letter.
pub fn token_letter(drawn: u32) -> (letter: char)
    ensures
        letter == letter_of(drawn),
        is_letter(letter),
{
    if 65 <= drawn && drawn <= 90 {
        (drawn as u8) as char
    } else if 91 <= drawn && drawn <= 116 {
        ((drawn + 6) as u8) as char
    } else {
        'A'
    }
}

/// A fresh voter token: six letters, each drawn at random.
pub fn generate_token() -> (token: String)
    ensures
        token@.len() == VOTER_TOKEN_LENGTH,
        forall|i: int| 0 <= i < token@.len() ==> is_letter(#[trigger] token@[i]),
{
    let mut token = String::new();
    let mut generator = thread_generator();
    let mut i: usize = 0;
    while i < VOTER_TOKEN_LENGTH
        invariant
            i <= VOTER_TOKEN_LENGTH,
            token@.len() == i,
            forall|j: int| 0 <= j < token@.len() ==> is_letter(#[trigger] token@[j]),
        decreases VOTER_TOKEN_LENGTH - i,
    {
        let drawn = random_in_range(&mut generator, 65, 65 + 52);
        push_char(&mut token, token_letter(drawn));
        i = i + 1;
    }
    token
}

/// A fresh admin session token: fifty ASCII letters and digits, each drawn at
/// random.
pub fn generate_session_token() -> (token: String)
    ensures
        token@.len() == SESSION_TOKEN_LENGTH,
        forall|i: int| 0 <= i < token@.len() ==> is_alphanumeric(#[trigger] token@[i]),
{
    let mut token = String::new();
    let mut generator = thread_generator();
    let mut i: usize = 0;
    while i < SESSION_TOKEN_LENGTH
        invariant
            i <= SESSION_TOKEN_LENGTH,
            token@.len() == i,
            forall|j: int| 0 <= j < token@.len() ==> is_alphanumeric(#[trigger] token@[j]),
        decreases SESSION_TOKEN_LENGTH - i,
    {
        let code = random_alphanumeric(&mut generator);
        push_char(&mut token, code as char);
        i = i + 1;
    }
    token
}

} // verus!
