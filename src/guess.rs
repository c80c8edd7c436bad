//! The rule of a number-guessing game: how a guess compares to the secret.

use vstd::prelude::*;

verus! {

/// The smallest secret the game draws.
pub const SECRET_MIN: u32 = 1;

/// One past the largest secret the game draws.
pub const SECRET_END: u32 = 101;

#[derive(Debug, Clone, Copy, PartialEq, Eq, Structural)]
pub enum Verdict {
    TooSmall,
    TooLarge,
    Correct,
}

/// How `guess` compares to `secret`.
pub fn judge_guess(guess: u32, secret: u32) -> (r: Verdict)
    ensures
        r == if guess < secret {
            Verdict::TooSmall
        } else if guess > secret {
            Verdict::TooLarge
        } else {
            Verdict::Correct
        },
{
    if guess < secret {
        Verdict::TooSmall
    } else if guess > secret {
        Verdict::TooLarge
    } else {
        Verdict::Correct
    }
}

impl Verdict {
    /// What the player is told.
    pub fn message(&self) -> (r: String)
        ensures
            r@ == match self {
                Verdict::TooSmall => "Too Small"@,
                Verdict::TooLarge => "Too Large"@,
                Verdict::Correct => "Correct! You Win!!!"@,
            },
    {
        match self {
            Verdict::TooSmall => "Too Small".to_owned(),
            Verdict::TooLarge => "Too Large".to_owned(),
            Verdict::Correct => "Correct! You Win!!!".to_owned(),
        }
    }
}

} // verus!
