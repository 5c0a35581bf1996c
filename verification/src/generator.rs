//! Fresh random strings over the key alphabet: guards for new records and
//! one-time verification codes.

use vstd::prelude::*;
use crate::codec::alphabet_char_exec;
use crate::codec::char_value;
use crate::codec::chars_to_string;
use crate::codec::lemma_char_value_alphabet;
use crate::codec::valid_key;

verus! {

/// Relies on rand's `random`: a value drawn from the thread-local
/// generator.  Nothing is promised of it.
#[verifier::external_body]
fn random_u64() -> u64 {
    rand::random()
}

/// A freshly drawn string of `len` characters, each from the key alphabet.
pub fn generate_random_string(len: usize) -> (r: String)
    ensures
        r@.len() == len,
        valid_key(r@),
{
    let mut drawn: Vec<char> = Vec::new();
    let mut i: usize = 0;
    while i < len
        invariant
            i <= len,
            drawn@.len() == i,
            forall|j: int| 0 <= j < i ==> char_value(drawn@[j]) >= 0,
        decreases len - i,
    {
        let x = random_u64() % 62;
        let c = alphabet_char_exec(x);
        proof {
            lemma_char_value_alphabet(x as int);
        }
        drawn.push(c);
        i = i + 1;
    }
    chars_to_string(&drawn)
}

} // verus!
