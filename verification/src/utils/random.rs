//! Chance.

use rand::distr::{Alphanumeric, SampleString};
use rand::rngs::ThreadRng;
use vstd::prelude::*;

verus! {

#[verifier::external_type_specification]
#[verifier::external_body]
pub struct ExThreadRng(ThreadRng);

/// Whether a character is an ASCII letter or digit.
pub open spec fn is_letter_or_digit(c: char) -> bool {
    ('0' as int <= c as int <= '9' as int) || ('A' as int <= c as int <= 'Z' as int) || ('a' as int
        <= c as int <= 'z' as int)
}

/// Whether a text is made of `len` ASCII letters and digits.
pub open spec fn is_random_text(text: Seq<char>, len: usize) -> bool {
    &&& text.len() == len
    &&& forall|i: int| 0 <= i < text.len() ==> is_letter_or_digit(#[trigger] text[i])
}

/// `rand::rng`: a handle to the random number generator of the thread.
#[verifier::external_body]
fn thread_rng() -> ThreadRng {
    rand::rng()
}

/// `Alphanumeric.sample_string`: a text of `len` characters, each drawn
/// from the ASCII letters and digits. Which ones is left to chance: two
/// calls need not agree.
#[verifier::external_body]
fn sample_text(rng: &mut ThreadRng, len: usize) -> (text: String)
    ensures
        is_random_text(text@, len),
{
    Alphanumeric.sample_string(rng, len)
}

/// A text of `len` ASCII letters and digits, drawn at random.
pub fn random_text(len: usize) -> (text: String)
    ensures
        is_random_text(text@, len),
{
    let mut rng = thread_rng();
    sample_text(&mut rng, len)
}

} // verus!
