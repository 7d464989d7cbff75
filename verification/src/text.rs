//! Strings as sequences of letters: the tests the prefix lookup makes.

use vstd::prelude::*;
use vstd::std_specs::iter::IteratorSpec;

verus! {

/// `key` with every `'/'` left out.
pub open spec fn without_slashes(key: Seq<char>) -> Seq<char> {
    key.filter(|c: char| c != '/')
}

/// `key` without its slashes, between two slashes.
pub open spec fn wrapped(key: Seq<char>) -> Seq<char> {
    seq!['/'] + without_slashes(key) + seq!['/']
}

/// `part` stands in `text` at position `at`.
pub open spec fn occurs_at(text: Seq<char>, part: Seq<char>, at: int) -> bool {
    0 <= at && at + part.len() <= text.len() && text.subrange(at, at + part.len()) == part
}

/// `part` stands somewhere in `text`.
pub open spec fn occurs_in(text: Seq<char>, part: Seq<char>) -> bool {
    exists|at: int| occurs_at(text, part, at)
}

/// `url` names `key`: the wrapped key stands somewhere in it.
pub open spec fn names(url: Seq<char>, key: Seq<char>) -> bool {
    occurs_in(url, wrapped(key))
}

/// The letters of a string.
pub fn letters(s: &str) -> (out: Vec<char>)
    ensures
        out@ == s@,
{
    broadcast use vstd::string::group_string_axioms;

    let mut out: Vec<char> = Vec::new();
    let mut rest = s.chars();
    loop
        invariant
            out@ + rest.remaining() == s@,
            rest.obeys_prophetic_iter_laws(),
            rest.decrease() is Some,
        ensures
            out@ == s@,
        decreases rest.decrease()->0,
    {
        let ghost before = rest.remaining();
        match rest.next() {
            Some(c) => {
                out.push(c);
                assert(out@ + rest.remaining() =~= (out@.drop_last() + before));
            },
            None => {
                assert(out@ + rest.remaining() =~= out@);
                break ;
            },
        }
    }
    out
}

/// Leaves the slashes out of `key`.
pub fn strip_slashes(key: &Vec<char>) -> (out: Vec<char>)
    ensures
        out@ == without_slashes(key@),
{
    let mut out: Vec<char> = Vec::new();
    let mut i: usize = 0;
    proof {
        reveal_with_fuel(Seq::filter, 1);
        assert(key@.take(0) =~= Seq::<char>::empty());
    }
    while i < key.len()
        invariant
            i <= key.len(),
            out@ == without_slashes(key@.take(i as int)),
        decreases key.len() - i,
    {
        let c = key[i];
        proof {
            reveal_with_fuel(Seq::filter, 1);
            assert(key@.take(i + 1).drop_last() =~= key@.take(i as int));
        }
        if c != '/' {
            out.push(c);
        }
        i += 1;
    }
    assert(key@.take(i as int) =~= key@);
    out
}

/// Wraps `key` for the lookup: its letters but the slashes, between two
/// slashes.
pub fn wrap(key: &Vec<char>) -> (out: Vec<char>)
    ensures
        out@ == wrapped(key@),
{
    let mut out: Vec<char> = Vec::new();
    out.push('/');
    let mut inner = strip_slashes(key);
    out.append(&mut inner);
    out.push('/');
    assert(out@ =~= wrapped(key@));
    out
}

/// Whether `part` stands in `text` at position `at`.
pub fn stands_at(text: &Vec<char>, part: &Vec<char>, at: usize) -> (found: bool)
    requires
        at + part.len() <= text.len(),
    ensures
        found == occurs_at(text@, part@, at as int),
{
    let mut j: usize = 0;
    while j < part.len()
        invariant
            j <= part.len(),
            at + part.len() <= text.len(),
            forall|m: int| 0 <= m < j ==> text@[at + m] == part@[m],
        decreases part.len() - j,
    {
        if text[at + j] != part[j] {
            assert(text@.subrange(at as int, at + part.len())[j as int] != part@[j as int]);
            return false;
        }
        j += 1;
    }
    assert(text@.subrange(at as int, at + part.len()) =~= part@);
    true
}

/// Whether `part` stands somewhere in `text`.
pub fn contains(text: &Vec<char>, part: &Vec<char>) -> (found: bool)
    ensures
        found == occurs_in(text@, part@),
{
    if part.len() > text.len() {
        return false;
    }
    if part.len() == 0 {
        assert(text@.subrange(0, 0) =~= part@);
        assert(occurs_at(text@, part@, 0));
        return true;
    }
    let last: usize = text.len() - part.len();
    let mut at: usize = 0;
    while at <= last
        invariant
            last == text.len() - part.len(),
            part.len() > 0,
            at <= last + 1,
            forall|m: int| 0 <= m < at ==> !occurs_at(text@, part@, m),
        decreases last + 1 - at,
    {
        if stands_at(text, part, at) {
            return true;
        }
        at += 1;
    }
    false
}

/// Whether `url` names `key`.
pub fn url_names(url: &Vec<char>, key: &str) -> (found: bool)
    ensures
        found == names(url@, key@),
{
    let key_letters = letters(key);
    let part = wrap(&key_letters);
    contains(url, &part)
}

/// The first of `keys` that `url` names, by its position.
pub fn first_named(keys: &Vec<String>, url: &str) -> (found: Option<usize>)
    ensures
        match found {
            Some(i) => i < keys.len() && names(url@, keys[i as int]@) && forall|j: int|
                0 <= j < i ==> !names(url@, #[trigger] keys[j]@),
            None => forall|j: int| 0 <= j < keys.len() ==> !names(url@, #[trigger] keys[j]@),
        },
{
    let url_letters = letters(url);
    let mut i: usize = 0;
    while i < keys.len()
        invariant
            i <= keys.len(),
            url_letters@ == url@,
            forall|j: int| 0 <= j < i ==> !names(url@, #[trigger] keys[j]@),
        decreases keys.len() - i,
    {
        if url_names(&url_letters, keys[i].as_str()) {
            return Some(i);
        }
        i += 1;
    }
    None
}

} // verus!
