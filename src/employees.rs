//! Reading commands of the form "Add <name> to <department>".

use vstd::prelude::*;
use crate::text::same_text;

verus! {

/// The white-space separated words of a string, in order.
pub uninterp spec fn words_of(s: Seq<char>) -> Seq<Seq<char>>;

/// Relies on `str::split_whitespace`: the maximal runs of non-white-space
/// characters, in order; which they are depends on the characters alone.
#[verifier::external_body]
fn split_words(s: &str) -> (r: Vec<String>)
    ensures
        r@.len() == words_of(s@).len(),
        forall|i: int| 0 <= i < r@.len() ==> (#[trigger] r@[i])@ == words_of(s@)[i],
{
    s.split_whitespace().map(|w| w.to_owned()).collect()
}

/// The department and the employee that a command's words name: the fourth
/// word and the second, when there is a non-empty fourth word.
pub open spec fn assignment_of(words: Seq<Seq<char>>) -> Option<(Seq<char>, Seq<char>)> {
    if words.len() > 3 && words[3].len() > 0 {
        Some((words[3], words[1]))
    } else {
        None
    }
}

/// Picks department and employee out of the words of a command.
pub fn assignment_from_words(words: &Vec<String>) -> (r: Option<(String, String)>)
    ensures
        r is Some == assignment_of(words@.map_values(|w: String| w@)) is Some,
        r is Some ==> (r->Some_0.0@, r->Some_0.1@) == assignment_of(
            words@.map_values(|w: String| w@),
        )->Some_0,
{
    let ghost ws = words@.map_values(|w: String| w@);
    if words.len() > 3 && !words[3].as_str().is_empty() {
        assert(ws[3] == words@[3]@ && ws[1] == words@[1]@);
        Some((words[3].clone(), words[1].clone()))
    } else {
        assert(words.len() > 3 ==> ws[3] == words@[3]@);
        None
    }
}

/// Department and employee named by a command such as
/// "Add Sally to Engineering".
pub fn parse_assignment(line: &str) -> (r: Option<(String, String)>)
    ensures
        r is Some == assignment_of(words_of(line@)) is Some,
        r is Some ==> (r->Some_0.0@, r->Some_0.1@) == assignment_of(words_of(line@))->Some_0,
{
    let words = split_words(line);
    assert(words@.map_values(|w: String| w@) =~= words_of(line@));
    assignment_from_words(&words)
}

/// Whether a command ends the input.
pub fn is_exit(command: &str) -> (r: bool)
    ensures
        r == (command@ == "exit"@),
{
    same_text(command, "exit")
}

} // verus!
