//! Strings as sequences of characters: what the standard library is taken
//! to do where `vstd` says nothing of it, and the conversions and comparisons
//! the command line needs.

use vstd::prelude::*;

verus! {

/// `String::push` appends the character to the end of the string.
pub assume_specification[ String::push ](s: &mut String, ch: char)
    ensures
        final(s)@ == old(s)@.push(ch),
;

/// `String::pop` takes the last character off the string and returns it;
/// an empty string stays empty and `None` is returned.
pub assume_specification[ String::pop ](s: &mut String) -> (ch: Option<char>)
    ensures
        match ch {
            Some(c) => old(s)@.len() > 0 && c == old(s)@.last() && final(s)@ == old(
                s,
            )@.drop_last(),
            None => old(s)@.len() == 0 && final(s)@ == old(s)@,
        },
;

/// `prefix` stands at the start of `s`.
pub open spec fn is_prefix(prefix: Seq<char>, s: Seq<char>) -> bool {
    prefix.len() <= s.len() && s.take(prefix.len() as int) == prefix
}

/// The characters of `s`.
pub fn chars_of(s: &str) -> (chars: Vec<char>)
    ensures
        chars@ == s@,
{
    let len = s.unicode_len();
    let mut chars: Vec<char> = Vec::new();
    let mut i: usize = 0;
    while i < len
        invariant
            len == s@.len(),
            i <= len,
            chars@ == s@.take(i as int),
        decreases len - i,
    {
        chars.push(s.get_char(i));
        proof {
            assert(s@.take(i + 1) =~= s@.take(i as int).push(s@[i as int]));
        }
        i = i + 1;
    }
    proof {
        assert(s@.take(len as int) =~= s@);
    }
    chars
}

/// The string of the characters of `chars` in `[from, to)`.
pub fn string_of(chars: &Vec<char>, from: usize, to: usize) -> (s: String)
    requires
        from <= to <= chars.len(),
    ensures
        s@ == chars@.subrange(from as int, to as int),
{
    let mut s = String::new();
    let mut i: usize = from;
    while i < to
        invariant
            from <= i <= to <= chars.len(),
            s@ == chars@.subrange(from as int, i as int),
        decreases to - i,
    {
        s.push(chars[i]);
        proof {
            assert(chars@.subrange(from as int, i + 1) =~= chars@.subrange(
                from as int,
                i as int,
            ).push(chars@[i as int]));
        }
        i = i + 1;
    }
    s
}

/// Whether the characters of `chars` in `[from, to)` are those of `word`.
pub fn range_is(chars: &Vec<char>, from: usize, to: usize, word: &str) -> (same: bool)
    requires
        from <= to <= chars.len(),
    ensures
        same == (chars@.subrange(from as int, to as int) == word@),
{
    let len = word.unicode_len();
    if to - from != len {
        return false;
    }
    let ghost part = chars@.subrange(from as int, to as int);
    let mut i: usize = 0;
    while i < len
        invariant
            from <= to <= chars.len(),
            len == word@.len() == to - from,
            part == chars@.subrange(from as int, to as int),
            i <= len,
            part.take(i as int) == word@.take(i as int),
        decreases len - i,
    {
        if chars[from + i] != word.get_char(i) {
            proof {
                assert(part[i as int] != word@[i as int]);
            }
            return false;
        }
        proof {
            assert(part.take(i + 1) =~= part.take(i as int).push(part[i as int]));
            assert(word@.take(i + 1) =~= word@.take(i as int).push(word@[i as int]));
        }
        i = i + 1;
    }
    proof {
        assert(part.take(len as int) =~= part);
        assert(word@.take(len as int) =~= word@);
    }
    true
}

/// Whether `chars` is `word`.
pub fn chars_are(chars: &Vec<char>, word: &str) -> (same: bool)
    ensures
        same == (chars@ == word@),
{
    proof {
        assert(chars@.subrange(0, chars.len() as int) =~= chars@);
    }
    range_is(chars, 0, chars.len(), word)
}

/// Whether `chars` begins with `word`.
pub fn begins_with(chars: &Vec<char>, word: &str) -> (begins: bool)
    ensures
        begins == is_prefix(word@, chars@),
{
    let len = word.unicode_len();
    if len > chars.len() {
        return false;
    }
    range_is(chars, 0, len, word)
}

/// `text` behind `lead`.
pub fn join(lead: &str, text: &str) -> (s: String)
    ensures
        s@ == lead@ + text@,
{
    String::from_str(lead).concat(text)
}

} // verus!
