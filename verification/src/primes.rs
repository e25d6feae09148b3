//! The per-entry business computation: classifying the primality of the
//! number carried by a stream entry.

use vstd::prelude::*;

use crate::ids::{all_digits, dec_rep, lemma_dec_rep_digits};

verus! {

/// The verdict of the primality test on a decimal digit string.
pub uninterp spec fn prime_verdict(s: Seq<char>) -> bool;

/// Relies on is_prime::is_prime, a deterministic Miller-Rabin test over
/// a decimal string: the verdict is a function of the digit string
/// alone. The call parses the string as an unsigned big integer and
/// panics on anything else, so a nonempty digit run is required.
#[verifier::external_body]
fn is_prime_digits(s: &str) -> (r: bool)
    requires
        s@.len() > 0,
        all_digits(s@),
    ensures
        r == prime_verdict(s@),
{
    is_prime::is_prime(s)
}

/// Whether the decimal representation of `n` names a prime number, as
/// judged by the primality test.
pub fn classify(n: u64) -> (r: bool)
    ensures
        r == prime_verdict(dec_rep(n as nat)),
{
    let s = crate::ids::u64_to_dec(n);
    proof {
        lemma_dec_rep_digits(n as nat);
    }
    is_prime_digits(s.as_str())
}

/// The report line for one entry's number: the number in decimal,
/// followed by the verdict of the primality test on it.
pub fn judgement_message(n: u64) -> (r: String)
    ensures
        r@ == dec_rep(n as nat) + (if prime_verdict(dec_rep(n as nat)) {
            " is a prime number"@
        } else {
            " is a not prime number"@
        }),
{
    let s = crate::ids::u64_to_dec(n);
    if classify(n) {
        s.concat(" is a prime number")
    } else {
        s.concat(" is a not prime number")
    }
}

} // verus!
