//! Character-level helpers on strings.
//!
//! Every contract in this crate speaks of a string through its view, a
//! `Seq<char>`. The functions here give the few operations the resolution
//! rules need on that level: prefix tests and prefix removal.

use vstd::prelude::*;

verus! {

/// Collects the characters of `s` into a vector, in order.
pub fn chars_of(s: &str) -> (chars: Vec<char>)
    ensures
        chars@ == s@,
{
    let mut chars: Vec<char> = Vec::new();
    for c in it: s.chars()
        invariant
            chars@ == it.seq().take(it.index() as int),
            it.seq() == s@,
    {
        chars.push(c);
    }
    chars
}

/// `true` exactly when the characters of `head` open `text`.
pub fn chars_start_with(text: &Vec<char>, head: &Vec<char>) -> (b: bool)
    ensures
        b == head@.is_prefix_of(text@),
{
    if head.len() > text.len() {
        return false;
    }
    let mut i: usize = 0;
    while i < head.len()
        invariant
            i <= head.len() <= text.len(),
            forall|j: int| 0 <= j < i ==> text@[j] == head@[j],
        decreases head.len() - i,
    {
        if text[i] != head[i] {
            return false;
        }
        i += 1;
    }
    true
}

/// `true` exactly when `s` begins with `prefix`. Every string begins with the
/// empty prefix.
pub fn starts_with(s: &str, prefix: &str) -> (b: bool)
    ensures
        b == prefix@.is_prefix_of(s@),
{
    let text = chars_of(s);
    let head = chars_of(prefix);
    chars_start_with(&text, &head)
}

/// Removes `prefix` from the front of `s`, once. `None` when `s` does not
/// begin with `prefix`.
pub fn strip_prefix(s: &str, prefix: &str) -> (rest: Option<String>)
    ensures
        rest.deep_view() == (if prefix@.is_prefix_of(s@) {
            Some(s@.skip(prefix@.len() as int))
        } else {
            None
        }),
{
    let text = chars_of(s);
    let head = chars_of(prefix);
    if chars_start_with(&text, &head) {
        let tail = s.substring_char(head.len(), text.len());
        Some(tail.to_owned())
    } else {
        None
    }
}

} // verus!
