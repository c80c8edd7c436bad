//! Keyword lookups: user ids by name, power states by keyword, and an
//! age check for adults.

use vstd::prelude::*;
use crate::text::same_text;

verus! {

/// What `str::to_lowercase` makes of a string.
pub uninterp spec fn lowercase_of(s: Seq<char>) -> Seq<char>;

/// What `str::trim` leaves of a string.
pub uninterp spec fn trimmed(s: Seq<char>) -> Seq<char>;

/// Relies on `str::to_lowercase`: the lower-case form depends on the
/// characters alone, and the empty string stays empty.
#[verifier::external_body]
fn lowercase(s: &str) -> (r: String)
    ensures
        r@ == lowercase_of(s@),
        s@.len() == 0 ==> r@.len() == 0,
{
    s.to_lowercase()
}

/// Relies on `str::trim`: leading and trailing white space removed, which
/// depends on the characters alone; the empty string stays empty.
#[verifier::external_body]
fn trim(s: &str) -> (r: &str)
    ensures
        r@ == trimmed(s@),
        s@.len() == 0 ==> r@.len() == 0,
{
    s.trim()
}

/// A number that is always there.
pub fn optional_number() -> (r: Option<i32>)
    ensures
        r == Some(18i32),
{
    Some(18)
}

/// The id of the user with the given lower-case name.
pub open spec fn user_id_of(name: Seq<char>) -> Option<i32> {
    if name == "sam"@ {
        Some(1)
    } else if name == "matt"@ {
        Some(6)
    } else if name == "katie"@ {
        Some(9)
    } else {
        None
    }
}

/// Looks up a user id by a name already in lower case.
pub fn user_id(name: &str) -> (r: Option<i32>)
    ensures
        r == user_id_of(name@),
{
    if same_text(name, "sam") {
        Some(1)
    } else if same_text(name, "matt") {
        Some(6)
    } else if same_text(name, "katie") {
        Some(9)
    } else {
        None
    }
}

/// Looks up a user id by name, ignoring case.
pub fn find_user(name: &str) -> (r: Option<i32>)
    ensures
        r == user_id_of(lowercase_of(name@)),
{
    let name = lowercase(name);
    user_id(name.as_str())
}

#[derive(Debug, Clone, Copy, PartialEq, Eq, Structural)]
pub enum PowerState {
    Off,
    Sleep,
    Reboot,
    Shutdown,
    Hibernate,
}

/// The power state a lower-case keyword names.
pub open spec fn power_state_of(word: Seq<char>) -> Option<PowerState> {
    if word == "off"@ {
        Some(PowerState::Off)
    } else if word == "sleep"@ {
        Some(PowerState::Sleep)
    } else if word == "reboot"@ {
        Some(PowerState::Reboot)
    } else if word == "shutdown"@ {
        Some(PowerState::Shutdown)
    } else if word == "hibernate"@ {
        Some(PowerState::Hibernate)
    } else {
        None
    }
}

/// The message announcing what a power state does.
pub open spec fn power_message(s: PowerState) -> Seq<char> {
    match s {
        PowerState::Off => "Turning Off"@,
        PowerState::Sleep => "Sleeping in..."@,
        PowerState::Reboot => "Rebooting in 60 seconds"@,
        PowerState::Shutdown => "Shutting down..."@,
        PowerState::Hibernate => "Hibernating..."@,
    }
}

impl PowerState {
    /// The state that an exact lower-case keyword names.
    pub fn from_keyword(word: &str) -> (r: Option<PowerState>)
        ensures
            r == power_state_of(word@),
    {
        if same_text(word, "off") {
            Some(PowerState::Off)
        } else if same_text(word, "sleep") {
            Some(PowerState::Sleep)
        } else if same_text(word, "reboot") {
            Some(PowerState::Reboot)
        } else if same_text(word, "shutdown") {
            Some(PowerState::Shutdown)
        } else if same_text(word, "hibernate") {
            Some(PowerState::Hibernate)
        } else {
            None
        }
    }

    /// The state a keyword names, ignoring surrounding white space and case.
    pub fn new(state: &str) -> (r: Option<PowerState>)
        ensures
            r == power_state_of(lowercase_of(trimmed(state@))),
    {
        let word = lowercase(trim(state));
        PowerState::from_keyword(word.as_str())
    }

    /// What is announced when this state is entered.
    pub fn message(&self) -> (r: String)
        ensures
            r@ == power_message(*self),
    {
        match self {
            PowerState::Off => "Turning Off".to_owned(),
            PowerState::Sleep => "Sleeping in...".to_owned(),
            PowerState::Reboot => "Rebooting in 60 seconds".to_owned(),
            PowerState::Shutdown => "Shutting down...".to_owned(),
            PowerState::Hibernate => "Hibernating...".to_owned(),
        }
    }
}

/// The youngest age that counts as adult.
pub const ADULT_AGE: i32 = 21;

#[derive(Debug)]
pub struct Adult {
    name: String,
    age: i32,
}

impl View for Adult {
    type V = (Seq<char>, i32);

    closed spec fn view(&self) -> (Seq<char>, i32) {
        (self.name@, self.age)
    }
}

impl Adult {
    /// An adult of the given name and age; an error message for anyone
    /// younger than `ADULT_AGE`.
    pub fn new(name: String, age: i32) -> (r: Result<Adult, String>)
        ensures
            age >= ADULT_AGE ==> r is Ok && r->Ok_0@ == (name@, age),
            age < ADULT_AGE ==> r is Err && r->Err_0@ == "User Not an Adult"@,
    {
        if age >= ADULT_AGE {
            Ok(Adult { name, age })
        } else {
            Err("User Not an Adult".to_owned())
        }
    }

}

} // verus!
