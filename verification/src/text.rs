//! Comparing and scanning text.

use std::sync::Arc;
use vstd::prelude::*;

verus! {

/// `Arc::clone` on a shared string. Claimed of it: the clone holds the same
/// characters.
#[verifier::external_body]
pub(crate) fn share(s: &Arc<str>) -> (shared: Arc<str>)
    ensures
        (*shared)@ == (*s)@,
{
    s.clone()
}

/// `Arc::from` on a string. Claimed of it: it holds the characters of the string.
#[verifier::external_body]
pub(crate) fn into_shared(s: String) -> (shared: Arc<str>)
    ensures
        (*shared)@ == s@,
{
    Arc::from(s)
}

/// `==` on `str`. Claimed of it: two strings are equal if they hold the same
/// characters.
pub assume_specification[ <str as PartialEq>::eq ](s: &str, other: &str) -> (res: bool)
    ensures
        res == (s@ == other@),
;

/// The characters with the Unicode property White_Space.
pub open spec fn white_space(c: char) -> bool {
    ||| 0x09 <= c as int <= 0x0d
    ||| c == ' '
    ||| c as int == 0x85
    ||| c as int == 0xa0
    ||| c as int == 0x1680
    ||| 0x2000 <= c as int <= 0x200a
    ||| c as int == 0x2028
    ||| c as int == 0x2029
    ||| c as int == 0x202f
    ||| c as int == 0x205f
    ||| c as int == 0x3000
}

/// What is left of a text without the white space that it begins with.
pub open spec fn trimmed_start(s: Seq<char>) -> Seq<char>
    decreases s.len(),
{
    if s.len() > 0 && white_space(s[0]) {
        trimmed_start(s.drop_first())
    } else {
        s
    }
}

/// Whether a character is white space.
pub fn is_white_space(c: char) -> (yes: bool)
    ensures
        yes == white_space(c),
{
    let n: u32 = c as u32;
    (0x09 <= n && n <= 0x0d) || n == 0x20 || n == 0x85 || n == 0xa0 || n == 0x1680 || (0x2000 <= n
        && n <= 0x200a) || n == 0x2028 || n == 0x2029 || n == 0x202f || n == 0x205f || n == 0x3000
}

/// The first character of a text that is not white space, if there is one.
pub fn first_mark(s: &str) -> (mark: Option<char>)
    ensures
        mark == (if trimmed_start(s@).len() > 0 {
            Some(trimmed_start(s@)[0])
        } else {
            None
        }),
{
    assert(s@.skip(0) =~= s@);
    for c in it: s.chars()
        invariant
            it.seq() == s@,
            trimmed_start(s@) == trimmed_start(s@.skip(it.index() as int)),
    {
        assert(s@.skip(it.index() as int)[0] == c);
        if !is_white_space(c) {
            return Some(c);
        }
        assert(s@.skip(it.index() as int).drop_first() =~= s@.skip(it.index() as int + 1));
    }
    assert(s@.skip(s@.len() as int) =~= Seq::empty());
    None
}

} // verus!
