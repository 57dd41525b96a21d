//! Building strings one character at a time.

use vstd::prelude::*;

verus! {

/// Calls `String::push`.
///
/// Trusted: the string afterwards is the string before with `c` appended.
#[verifier::external_body]
pub(crate) fn push_char(s: &mut String, c: char)
    ensures
        final(s)@ == old(s)@.push(c),
{
    s.push(c);
}

/// What `str::trim` returns for a string of these characters: the string
/// without the whitespace at its two ends.
pub uninterp spec fn trimmed(s: Seq<char>) -> Seq<char>;

/// Calls `str::trim`.
///
/// Trusted: the result is the one that the name `trimmed` stands for.
#[verifier::external_body]
pub(crate) fn trim(s: &str) -> (r: &str)
    ensures
        r@ == trimmed(s@),
{
    s.trim()
}

/// `s` without the copies of `pattern` that it begins with.
pub open spec fn without_leading(s: Seq<char>, pattern: Seq<char>) -> Seq<char>
    decreases s.len(),
{
    if pattern.len() > 0 && pattern.is_prefix_of(s) {
        without_leading(s.skip(pattern.len() as int), pattern)
    } else {
        s
    }
}

/// Calls `str::trim_start_matches` with a string as the pattern.
///
/// Trusted: every copy of the pattern at the start is taken off, one after
/// another, until the rest does not begin with it.
#[verifier::external_body]
pub(crate) fn trim_start_matches<'a>(s: &'a str, pattern: &str) -> (r: &'a str)
    requires
        pattern@.len() > 0,
    ensures
        r@ == without_leading(s@, pattern@),
{
    s.trim_start_matches(pattern)
}

/// The string made of the characters of `chars`, in their order.
pub fn string_of(chars: &Vec<char>) -> (s: String)
    ensures
        s@ == chars@,
{
    let mut s = String::new();
    let mut i: usize = 0;
    while i < chars.len()
        invariant
            i <= chars.len(),
            s@ == chars@.take(i as int),
        decreases chars.len() - i,
    {
        push_char(&mut s, chars[i]);
        proof {
            assert(chars@.take(i + 1) =~= chars@.take(i as int).push(chars@[i as int]));
        }
        i = i + 1;
    }
    proof {
        assert(chars@.take(i as int) =~= chars@);
    }
    s
}

} // verus!
