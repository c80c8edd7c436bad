//! String helpers: joining, comparing lengths, a fixed message and a
//! pig-latin rewrite of a word.

use vstd::prelude::*;
use vstd::string::{StringExecFns, StringSliceAdditionalSpecFns};
use vstd::utf8::encode_utf8_decode_utf8;

verus! {

/// Relies on `String::push`: appends one character at the end.
#[verifier::external_body]
pub(crate) fn push_char(s: &mut String, c: char)
    ensures
        final(s)@ == old(s)@.push(c),
{
    s.push(c);
}

/// Whether two strings hold the same characters.
pub fn same_text(a: &str, b: &str) -> (r: bool)
    ensures
        r == (a@ == b@),
{
    proof {
        encode_utf8_decode_utf8(a@);
        encode_utf8_decode_utf8(b@);
    }
    let x = a.as_bytes();
    let y = b.as_bytes();
    if x.len() != y.len() {
        return false;
    }
    let mut i: usize = 0;
    while i < x.len()
        invariant
            x@ == a.spec_bytes(),
            y@ == b.spec_bytes(),
            x@.len() == y@.len(),
            0 <= i <= x@.len(),
            x@.subrange(0, i as int) == y@.subrange(0, i as int),
        decreases x@.len() - i,
    {
        if x[i] != y[i] {
            assert(x@[i as int] != y@[i as int]);
            return false;
        }
        assert(x@.subrange(0, i + 1) =~= x@.subrange(0, i as int).push(x@[i as int]));
        assert(y@.subrange(0, i + 1) =~= y@.subrange(0, i as int).push(y@[i as int]));
        i += 1;
    }
    assert(x@ =~= x@.subrange(0, x@.len() as int));
    assert(y@ =~= y@.subrange(0, y@.len() as int));
    true
}

/// `first` immediately followed by `second`.
pub fn concat(first: &str, second: &str) -> (r: String)
    ensures
        r@ == first@ + second@,
{
    let mut s = first.to_owned();
    s.append(second);
    s
}

/// `a` immediately followed by `b`.
pub fn str_concat(a: &str, b: &str) -> (r: String)
    ensures
        r@ == a@ + b@,
{
    let mut s = a.to_owned();
    s.append(b);
    s
}

/// The string with more bytes in its UTF-8 encoding; `s2` on a tie.
pub fn longest_string<'a>(s1: &'a str, s2: &'a str) -> (r: &'a str)
    ensures
        r@ == if s1.len() > s2.len() {
            s1@
        } else {
            s2@
        },
{
    if s1.len() > s2.len() {
        return s1;
    }
    s2
}

/// The age that `match_this` describes.
pub const AGE: i32 = 80;

/// What is said of someone of the given age.
pub open spec fn age_message(age: int) -> Seq<char> {
    if age == 18 {
        "You are just coming of age"@
    } else if 1 <= age <= 17 {
        "You are a minor"@
    } else {
        "I really dont care"@
    }
}

/// The message for `AGE`.
pub fn match_this() -> (r: String)
    ensures
        r@ == age_message(AGE as int),
{
    if AGE == 18 {
        "You are just coming of age".to_owned()
    } else if 1 <= AGE && AGE <= 17 {
        "You are a minor".to_owned()
    } else {
        "I really dont care".to_owned()
    }
}

/// Whether the ASCII lower-case form of `c` is one of `a e i o u`.
pub open spec fn is_vowel(c: char) -> bool {
    c == 'a' || c == 'e' || c == 'i' || c == 'o' || c == 'u' || c == 'A' || c == 'E' || c == 'I'
        || c == 'O' || c == 'U'
}

/// The pig-latin form of a word: one that starts with a vowel gets `-hay`
/// appended; otherwise the first character moves to the end behind a `-`
/// and is followed by `ay`. The empty word stays empty.
pub open spec fn pig_latin(w: Seq<char>) -> Seq<char> {
    if w.len() == 0 {
        w
    } else if is_vowel(w[0]) {
        w + "-hay"@
    } else {
        w.drop_first() + seq!['-', w[0], 'a', 'y']
    }
}

fn vowel(c: char) -> (r: bool)
    ensures
        r == is_vowel(c),
{
    c == 'a' || c == 'e' || c == 'i' || c == 'o' || c == 'u' || c == 'A' || c == 'E' || c == 'I'
        || c == 'O' || c == 'U'
}

fn pig_latin_of(word: &str) -> (r: String)
    ensures
        r@ == pig_latin(word@),
{
    let mut rest = String::new();
    let mut first: Option<char> = None;
    for c in it: word.chars()
        invariant
            it.seq() == word@,
            it.index() == 0 ==> first.is_none() && rest@ == Seq::<char>::empty(),
            it.index() > 0 ==> first == Some(word@[0]) && rest@ == word@.subrange(1, it.index() as int),
    {
        if first.is_none() {
            first = Some(c);
        } else {
            push_char(&mut rest, c);
        }
    }
    match first {
        None => {
            assert(word@ =~= Seq::<char>::empty());
            rest
        },
        Some(c) => {
            assert(rest@ =~= word@.drop_first());
            if vowel(c) {
                let mut s = word.to_owned();
                s.append("-hay");
                s
            } else {
                push_char(&mut rest, '-');
                push_char(&mut rest, c);
                push_char(&mut rest, 'a');
                push_char(&mut rest, 'y');
                assert(rest@ =~= word@.drop_first() + seq!['-', c, 'a', 'y']);
                rest
            }
        },
    }
}

/// Rewrites the word in `str` to its pig-latin form in place.
pub fn transformer(str: &mut String)
    ensures
        final(str)@ == pig_latin(old(str)@),
{
    let r = pig_latin_of(str.as_str());
    *str = r;
}

/// The pig-latin form of `str`.
pub fn optimized_transformer(str: &str) -> (r: String)
    ensures
        r@ == pig_latin(str@),
{
    if str.is_empty() {
        return String::new();
    }
    pig_latin_of(str)
}

} // verus!
