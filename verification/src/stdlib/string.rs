//! String helpers.
use vstd::prelude::*;
use vstd::string::*;
use crate::text::{char_is_whitespace, chars_of, is_whitespace, push_char};

verus! {

/// The upper-case form of a text, by the Unicode mapping.
pub uninterp spec fn uppercase_of(s: Seq<char>) -> Seq<char>;

/// The lower-case form of a text, by the Unicode mapping.
pub uninterp spec fn lowercase_of(s: Seq<char>) -> Seq<char>;

/// Calls `str::to_uppercase`; the result depends on the text alone.
#[verifier::external_body]
fn str_to_uppercase(s: &str) -> (r: String)
    ensures
        r@ == uppercase_of(s@),
{
    s.to_uppercase()
}

/// Calls `str::to_lowercase`; the result depends on the text alone.
#[verifier::external_body]
fn str_to_lowercase(s: &str) -> (r: String)
    ensures
        r@ == lowercase_of(s@),
{
    s.to_lowercase()
}

/// Converts a string to upper case.
pub fn to_uppercase(s: &str) -> (r: String)
    ensures
        r@ == uppercase_of(s@),
{
    str_to_uppercase(s)
}

/// Converts a string to lower case.
pub fn to_lowercase(s: &str) -> (r: String)
    ensures
        r@ == lowercase_of(s@),
{
    str_to_lowercase(s)
}

/// The length of a string in bytes of its UTF-8 encoding.
pub fn length(s: &str) -> (r: usize)
    ensures
        r == s.spec_bytes().len() as usize,
{
    s.len()
}

/// Whether `sub` occurs in `s` at position `i`.
pub open spec fn occurs_at(s: Seq<char>, sub: Seq<char>, i: int) -> bool {
    0 <= i && i + sub.len() <= s.len() && s.subrange(i, i + sub.len()) == sub
}

/// Whether `sub` occurs somewhere in `s`.
pub open spec fn occurs_in(s: Seq<char>, sub: Seq<char>) -> bool {
    exists|i: int| occurs_at(s, sub, i)
}

/// Whether a string contains a substring.
pub fn contains(s: &str, substring: &str) -> (r: bool)
    ensures
        r == occurs_in(s@, substring@),
{
    let text = chars_of(s);
    let wanted = chars_of(substring);
    if wanted.len() > text.len() {
        assert(forall|i: int| !occurs_at(s@, substring@, i));
        return false;
    }
    let last = text.len() - wanted.len();
    let mut i: usize = 0;
    while i <= last
        invariant
            text@ == s@,
            wanted@ == substring@,
            wanted.len() <= text.len(),
            last == text.len() - wanted.len(),
            0 <= i <= last + 1,
            forall|j: int| 0 <= j < i ==> !occurs_at(s@, substring@, j),
        decreases last + 1 - i,
    {
        let mut k: usize = 0;
        while k < wanted.len() && text[i + k] == wanted[k]
            invariant
                text@ == s@,
                wanted@ == substring@,
                i + wanted.len() <= text.len(),
                0 <= k <= wanted.len(),
                forall|m: int| 0 <= m < k ==> text@[i + m] == wanted@[m],
            decreases wanted.len() - k,
        {
            k += 1;
        }
        if k == wanted.len() {
            assert(s@.subrange(i as int, i + substring@.len()) =~= substring@);
            assert(occurs_at(s@, substring@, i as int));
            return true;
        }
        assert(!occurs_at(s@, substring@, i as int)) by {
            if occurs_at(s@, substring@, i as int) {
                assert(s@.subrange(i as int, i + substring@.len())[k as int] == substring@[k as int]);
            }
        }
        i += 1;
    }
    assert(forall|j: int| !occurs_at(s@, substring@, j));
    false
}

/// The position of the first character of `s` from `i` on that is no white space.
pub open spec fn trim_start(s: Seq<char>, i: int) -> int
    decreases s.len() - i,
{
    if 0 <= i < s.len() && is_whitespace(s[i]) {
        trim_start(s, i + 1)
    } else {
        i
    }
}

/// The position behind the last character of `s` before `j` that is no white
/// space, and not before `low`.
pub open spec fn trim_end(s: Seq<char>, low: int, j: int) -> int
    decreases j,
{
    if 0 <= low < j <= s.len() && is_whitespace(s[j - 1]) {
        trim_end(s, low, j - 1)
    } else {
        j
    }
}

/// A text without the white space at its start and at its end.
pub open spec fn trimmed(s: Seq<char>) -> Seq<char> {
    s.subrange(trim_start(s, 0), trim_end(s, trim_start(s, 0), s.len() as int))
}

/// Removes white space from the start and the end of a string.
pub fn trim(s: &str) -> (r: String)
    ensures
        r@ == trimmed(s@),
{
    let text = chars_of(s);
    let mut start: usize = 0;
    while start < text.len() && char_is_whitespace(text[start])
        invariant
            text@ == s@,
            0 <= start <= text.len(),
            trim_start(s@, 0) == trim_start(s@, start as int),
        decreases text.len() - start,
    {
        start += 1;
    }
    let mut end: usize = text.len();
    while end > start && char_is_whitespace(text[end - 1])
        invariant
            text@ == s@,
            start <= end <= text.len(),
            trim_end(s@, start as int, s@.len() as int) == trim_end(s@, start as int, end as int),
        decreases end,
    {
        end -= 1;
    }
    let mut out = String::new();
    let mut i: usize = start;
    assert(s@.subrange(start as int, start as int) =~= Seq::<char>::empty());
    while i < end
        invariant
            text@ == s@,
            start <= i <= end <= text.len(),
            out@ == s@.subrange(start as int, i as int),
        decreases end - i,
    {
        push_char(&mut out, text[i]);
        assert(s@.subrange(start as int, i as int).push(s@[i as int]) =~= s@.subrange(
            start as int,
            i + 1,
        ));
        i += 1;
    }
    out
}

} // verus!
