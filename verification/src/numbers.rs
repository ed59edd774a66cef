//! Small integer helpers: parity and guess comparison.

use vstd::prelude::*;

verus! {

/// Whether `n` is even.
pub fn is_even(n: i32) -> (r: bool)
    ensures
        r <==> n as int % 2 == 0,
{
    n % 2 == 0
}

/// Compares a guess against a secret number: `0` when they are equal,
/// `1` when the guess is too high, `-1` when it is too low.
pub fn check_guess(guess: i32, secret: i32) -> (r: i32)
    ensures
        guess == secret ==> r == 0,
        guess > secret ==> r == 1,
        guess < secret ==> r == -1,
{
    if guess == secret {
        0
    } else if guess > secret {
        1
    } else {
        -1
    }
}

} // verus!
