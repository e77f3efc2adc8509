//! String helpers: character-level length, and conversions between strings
//! and character vectors that the path operations work on.

use vstd::prelude::*;
use vstd::string::*;

verus! {

/// Relies on `String::push`: appends the given character to the end of the
/// string.
pub assume_specification[ String::push ](s: &mut String, c: char)
    ensures
        final(s)@ == old(s)@.push(c),
;

/// Length in characters rather than bytes, i.e. a human understandable value.
pub trait StringSizeExt {
    /// The sequence of characters the value holds.
    spec fn chars_view(&self) -> Seq<char>;

    /// Returns the length in characters rather than bytes. More costly to
    /// compute than the byte length.
    fn size(&self) -> (r: usize)
        ensures
            r == self.chars_view().len(),
    ;
}

impl StringSizeExt for str {
    open spec fn chars_view(&self) -> Seq<char> {
        self@
    }

    fn size(&self) -> (r: usize) {
        self.unicode_len()
    }
}

impl StringSizeExt for String {
    open spec fn chars_view(&self) -> Seq<char> {
        self@
    }

    fn size(&self) -> (r: usize) {
        self.as_str().unicode_len()
    }
}

/// The characters of an optional string, when present.
pub open spec fn opt_chars(s: Option<&str>) -> Option<Seq<char>> {
    match s {
        Some(x) => Some(x@),
        None => None,
    }
}

/// The characters of the string, as a vector.
pub fn str_to_chars(s: &str) -> (v: Vec<char>)
    ensures
        v@ == s@,
{
    let n = s.unicode_len();
    let mut v: Vec<char> = Vec::new();
    let mut i: usize = 0;
    while i < n
        invariant
            n == s@.len(),
            i <= n,
            v@ == s@.take(i as int),
        decreases n - i,
    {
        v.push(s.get_char(i));
        i = i + 1;
        proof {
            assert(v@ =~= s@.take(i as int));
        }
    }
    proof {
        assert(v@ =~= s@);
    }
    v
}

/// A string holding exactly the given characters.
pub fn chars_to_string(v: &Vec<char>) -> (s: String)
    ensures
        s@ == v@,
{
    let mut s = String::new();
    let mut i: usize = 0;
    while i < v.len()
        invariant
            i <= v@.len(),
            s@ == v@.take(i as int),
        decreases v@.len() - i,
    {
        s.push(v[i]);
        i = i + 1;
        proof {
            assert(s@ =~= v@.take(i as int));
        }
    }
    proof {
        assert(s@ =~= v@);
    }
    s
}

} // verus!
