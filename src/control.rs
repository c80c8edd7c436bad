//! Decisions behind two console questions: a person's gender and age.

use vstd::prelude::*;
use crate::text::{push_char, same_text};

verus! {

/// `s` with every line feed taken out.
pub open spec fn without_newlines(s: Seq<char>) -> Seq<char> {
    s.filter(|c: char| c != '\n')
}

/// Removes every line feed from `s`.
pub fn strip_newlines(s: &str) -> (r: String)
    ensures
        r@ == without_newlines(s@),
{
    let mut out = String::new();
    for c in it: s.chars()
        invariant
            it.seq() == s@,
            out@ == without_newlines(s@.subrange(0, it.index() as int)),
    {
        proof {
            let p = s@.subrange(0, it.index() as int);
            assert(s@.subrange(0, it.index() + 1).drop_last() =~= p);
            reveal(Seq::filter);
        }
        if c != '\n' {
            push_char(&mut out, c);
        }
    }
    assert(s@.subrange(0, s@.len() as int) =~= s@);
    out
}

/// The answer given to someone who states their gender.
pub open spec fn pregnancy_message(gender: Seq<char>) -> Seq<char> {
    if gender == "female"@ {
        "Hurray!!! You are a woman and you can get pregnant"@
    } else {
        "You are a man!"@
    }
}

/// Answers a gender typed on one line; the line feed is ignored.
pub fn can_get_pregnant_reply(answer: &str) -> (r: String)
    ensures
        r@ == pregnancy_message(without_newlines(answer@)),
{
    let gender = strip_newlines(answer);
    if same_text(gender.as_str(), "female") {
        "Hurray!!! You are a woman and you can get pregnant".to_owned()
    } else {
        "You are a man!".to_owned()
    }
}

/// The age from which one counts as an adult.
pub const ADULT: u8 = 18;

/// The answer given to someone of the given age.
pub open spec fn age_reply(age: u8) -> Seq<char> {
    if age >= ADULT {
        "Congratulations!! You are an adult. Do whatever you want."@
    } else {
        "Oops!!! You are still a baby."@
    }
}

/// Answers someone who has stated their age.
pub fn off_age_reply(age: u8) -> (r: String)
    ensures
        r@ == age_reply(age),
{
    if age >= ADULT {
        "Congratulations!! You are an adult. Do whatever you want.".to_owned()
    } else {
        "Oops!!! You are still a baby.".to_owned()
    }
}

} // verus!
