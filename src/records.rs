//! Plain records: bills, and a small table of users keyed by id.

use vstd::prelude::*;
use std::collections::HashMap;

verus! {

broadcast use vstd::std_specs::hash::group_hash_axioms;

pub struct Bill {
    name: String,
    amount: u32,
}

impl View for Bill {
    type V = (Seq<char>, u32);

    closed spec fn view(&self) -> (Seq<char>, u32) {
        (self.name@, self.amount)
    }
}

impl Bill {
    pub fn new(name: String, amount: u32) -> (r: Bill)
        ensures
            r@ == (name@, amount),
    {
        Bill { name, amount }
    }

    pub fn name(&self) -> (r: &str)
        ensures
            r@ == self@.0,
    {
        self.name.as_str()
    }

    pub fn amount(&self) -> (r: u32)
        ensures
            r == self@.1,
    {
        self.amount
    }
}

#[derive(Debug, Clone, Copy, PartialEq, Eq, Structural)]
pub enum Gender {
    Male,
    Female,
}

#[derive(Debug)]
pub struct User {
    full_name: String,
    age: u32,
    gender: Gender,
}

impl View for User {
    type V = (Seq<char>, u32, Gender);

    closed spec fn view(&self) -> (Seq<char>, u32, Gender) {
        (self.full_name@, self.age, self.gender)
    }
}

impl User {
    pub fn new(full_name: String, age: u32, gender: Gender) -> (r: User)
        ensures
            r@ == (full_name@, age, gender),
    {
        User { full_name, age, gender }
    }
}

/// A table holding one user under id 1.
pub fn database() -> (db: HashMap<u32, User>)
    ensures
        db@.dom() == set![1u32],
        db@[1u32]@ == ("Joshua Uzoagulu"@, 26u32, Gender::Male),
{
    let mut db: HashMap<u32, User> = HashMap::new();
    let user = User::new("Joshua Uzoagulu".to_owned(), 26, Gender::Male);
    db.insert(1, user);
    assert(db@.dom() =~= set![1u32]);
    db
}

} // verus!
