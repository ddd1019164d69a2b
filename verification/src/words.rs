//! Words: the two classes of characters that word motions tell apart, and
//! the scans over a classified line.
//!
//! A word is a maximal run of alphanumeric characters. Punctuation is neither
//! word nor space; a scan over words stops at it, and so does a scan over
//! space.

use vstd::prelude::*;

verus! {

/// Whether `char::is_alphanumeric` holds of `c`.
pub uninterp spec fn is_alphanumeric(c: char) -> bool;

/// Whether `char::is_whitespace` holds of `c`.
pub uninterp spec fn is_whitespace(c: char) -> bool;

/// `char::is_alphanumeric` depends on the character alone: it tells whether
/// Unicode lists it as alphabetic or numeric.
pub assume_specification[ char::is_alphanumeric ](c: char) -> (b: bool)
    ensures
        b == is_alphanumeric(c),
;

/// `char::is_whitespace` depends on the character alone: it tells whether
/// Unicode gives it the property `White_Space`.
pub assume_specification[ char::is_whitespace ](c: char) -> (b: bool)
    ensures
        b == is_whitespace(c),
;

/// What the word motions read of a character.
#[derive(Clone, Copy, Debug, PartialEq, Eq, Structural)]
pub struct CharKind {
    /// The character belongs to a word.
    pub word: bool,
    /// The character is white space.
    pub space: bool,
}

/// The kind of the character `c`.
pub open spec fn kind_of(c: char) -> CharKind {
    CharKind { word: is_alphanumeric(c), space: is_whitespace(c) }
}

/// The kinds of the characters of `s`, one for one.
pub open spec fn kinds_of(s: Seq<char>) -> Seq<CharKind> {
    s.map_values(|c: char| kind_of(c))
}

/// The first index at or after `from` that holds no word character, or the
/// length.
pub open spec fn after_words(kinds: Seq<CharKind>, from: int) -> int
    decreases kinds.len() - from,
{
    if 0 <= from < kinds.len() && kinds[from].word {
        after_words(kinds, from + 1)
    } else {
        from
    }
}

/// The first index at or after `from` that holds no white space, or the
/// length.
pub open spec fn after_spaces(kinds: Seq<CharKind>, from: int) -> int
    decreases kinds.len() - from,
{
    if 0 <= from < kinds.len() && kinds[from].space {
        after_spaces(kinds, from + 1)
    } else {
        from
    }
}

/// The first index at or after `from` that holds white space, or the
/// length.
pub open spec fn after_token(kinds: Seq<CharKind>, from: int) -> int
    decreases kinds.len() - from,
{
    if 0 <= from < kinds.len() && !kinds[from].space {
        after_token(kinds, from + 1)
    } else {
        from
    }
}

/// The last index at or before `from` that holds no white space, or 0.
pub open spec fn before_spaces(kinds: Seq<CharKind>, from: int) -> int
    decreases from,
{
    if 0 < from < kinds.len() && kinds[from].space {
        before_spaces(kinds, from - 1)
    } else {
        from
    }
}

/// The first index of the run of word characters that ends just before
/// `from`.
pub open spec fn before_words(kinds: Seq<CharKind>, from: int) -> int
    decreases from,
{
    if 0 < from <= kinds.len() && kinds[from - 1].word {
        before_words(kinds, from - 1)
    } else {
        from
    }
}

/// Where the motion to the next word leads from `col`: past the word at
/// `col`, then past the white space behind it.
pub open spec fn forward_target(kinds: Seq<CharKind>, col: int) -> int {
    if 0 <= col < kinds.len() {
        after_spaces(kinds, after_words(kinds, col))
    } else {
        col
    }
}

/// Where the motion to the word before leads from `col`: one step back, back
/// over white space, then to the start of the word reached.
pub open spec fn backward_target(kinds: Seq<CharKind>, col: int) -> int {
    if 0 < col <= kinds.len() {
        before_words(kinds, before_spaces(kinds, col - 1))
    } else {
        col
    }
}

/// Where the motion to a word's end leads from `col`: past the word at
/// `col`, past the white space behind it, past the word that follows, and
/// one step back.
pub open spec fn end_target(kinds: Seq<CharKind>, col: int) -> int {
    if 0 <= col < kinds.len() {
        let stop = after_words(kinds, after_spaces(kinds, after_words(kinds, col)));
        if stop > 0 {
            stop - 1
        } else {
            stop
        }
    } else {
        col
    }
}

pub proof fn lemma_after_words(kinds: Seq<CharKind>, from: int)
    requires
        0 <= from <= kinds.len(),
    ensures
        from <= after_words(kinds, from) <= kinds.len(),
        forall|i: int| from <= i < after_words(kinds, from) ==> (#[trigger] kinds[i]).word,
        after_words(kinds, from) < kinds.len() ==> !kinds[after_words(kinds, from)].word,
    decreases kinds.len() - from,
{
    if from < kinds.len() && kinds[from].word {
        lemma_after_words(kinds, from + 1);
    }
}

pub proof fn lemma_after_spaces(kinds: Seq<CharKind>, from: int)
    requires
        0 <= from <= kinds.len(),
    ensures
        from <= after_spaces(kinds, from) <= kinds.len(),
        forall|i: int| from <= i < after_spaces(kinds, from) ==> (#[trigger] kinds[i]).space,
        after_spaces(kinds, from) < kinds.len() ==> !kinds[after_spaces(kinds, from)].space,
    decreases kinds.len() - from,
{
    if from < kinds.len() && kinds[from].space {
        lemma_after_spaces(kinds, from + 1);
    }
}

pub proof fn lemma_after_token(kinds: Seq<CharKind>, from: int)
    requires
        0 <= from <= kinds.len(),
    ensures
        from <= after_token(kinds, from) <= kinds.len(),
    decreases kinds.len() - from,
{
    if from < kinds.len() && !kinds[from].space {
        lemma_after_token(kinds, from + 1);
    }
}

pub proof fn lemma_before_spaces(kinds: Seq<CharKind>, from: int)
    requires
        0 <= from,
    ensures
        0 <= before_spaces(kinds, from) <= from,
    decreases from,
{
    if 0 < from < kinds.len() && kinds[from].space {
        lemma_before_spaces(kinds, from - 1);
    }
}

pub proof fn lemma_before_words(kinds: Seq<CharKind>, from: int)
    requires
        0 <= from,
    ensures
        0 <= before_words(kinds, from) <= from,
    decreases from,
{
    if 0 < from <= kinds.len() && kinds[from - 1].word {
        lemma_before_words(kinds, from - 1);
    }
}

/// The targets of the word motions lie in the line, or where the cursor was.
pub proof fn lemma_word_targets(kinds: Seq<CharKind>, col: int)
    requires
        0 <= col,
    ensures
        0 <= forward_target(kinds, col),
        0 <= backward_target(kinds, col) <= col,
        0 <= end_target(kinds, col),
        0 <= after_spaces(kinds, 0),
{
    if col < kinds.len() {
        lemma_after_words(kinds, col);
        lemma_after_spaces(kinds, after_words(kinds, col));
        lemma_after_words(kinds, after_spaces(kinds, after_words(kinds, col)));
    }
    if 0 < col <= kinds.len() {
        lemma_before_spaces(kinds, col - 1);
        lemma_before_words(kinds, before_spaces(kinds, col - 1));
    }
    lemma_after_spaces(kinds, 0);
}

/// A scan over words that has come from `from` to `at` over word characters
/// ends where the scan from `at` ends.
pub proof fn lemma_after_words_resume(kinds: Seq<CharKind>, from: int, at: int)
    requires
        0 <= from <= at <= kinds.len(),
        forall|i: int| from <= i < at ==> (#[trigger] kinds[i]).word,
    ensures
        after_words(kinds, from) == after_words(kinds, at),
    decreases at - from,
{
    if from < at {
        lemma_after_words_resume(kinds, from + 1, at);
    }
}

/// A scan over white space that has come from `from` to `at` over white
/// space ends where the scan from `at` ends.
pub proof fn lemma_after_spaces_resume(kinds: Seq<CharKind>, from: int, at: int)
    requires
        0 <= from <= at <= kinds.len(),
        forall|i: int| from <= i < at ==> (#[trigger] kinds[i]).space,
    ensures
        after_spaces(kinds, from) == after_spaces(kinds, at),
    decreases at - from,
{
    if from < at {
        lemma_after_spaces_resume(kinds, from + 1, at);
    }
}

/// The kind of a character, from what `char::is_alphanumeric` and
/// `char::is_whitespace` say of it.
pub fn char_kind(alphanumeric: bool, whitespace: bool) -> (kind: CharKind)
    ensures
        kind == (CharKind { word: alphanumeric, space: whitespace }),
{
    CharKind { word: alphanumeric, space: whitespace }
}

/// The kind of the character `c`.
pub fn classify(c: char) -> (kind: CharKind)
    ensures
        kind == kind_of(c),
{
    char_kind(c.is_alphanumeric(), c.is_whitespace())
}

/// Scans forward from `from` over word characters.
pub fn skip_words(kinds: &Vec<CharKind>, from: usize) -> (to: usize)
    requires
        from <= kinds.len(),
    ensures
        to == after_words(kinds@, from as int),
        from <= to <= kinds.len(),
{
    let mut at: usize = from;
    while at < kinds.len() && kinds[at].word
        invariant
            from <= at <= kinds.len(),
            after_words(kinds@, from as int) == after_words(kinds@, at as int),
        decreases kinds.len() - at,
    {
        at = at + 1;
    }
    at
}

/// Scans forward from `from` over white space.
pub fn skip_spaces(kinds: &Vec<CharKind>, from: usize) -> (to: usize)
    requires
        from <= kinds.len(),
    ensures
        to == after_spaces(kinds@, from as int),
        from <= to <= kinds.len(),
{
    let mut at: usize = from;
    while at < kinds.len() && kinds[at].space
        invariant
            from <= at <= kinds.len(),
            after_spaces(kinds@, from as int) == after_spaces(kinds@, at as int),
        decreases kinds.len() - at,
    {
        at = at + 1;
    }
    at
}

/// Scans forward from `from` over what is not white space.
pub fn skip_token(kinds: &Vec<CharKind>, from: usize) -> (to: usize)
    requires
        from <= kinds.len(),
    ensures
        to == after_token(kinds@, from as int),
        from <= to <= kinds.len(),
{
    let mut at: usize = from;
    while at < kinds.len() && !kinds[at].space
        invariant
            from <= at <= kinds.len(),
            after_token(kinds@, from as int) == after_token(kinds@, at as int),
        decreases kinds.len() - at,
    {
        at = at + 1;
    }
    at
}

/// The kinds of the characters of `chars`, one for one.
pub fn classify_all(chars: &Vec<char>) -> (kinds: Vec<CharKind>)
    ensures
        kinds@ == kinds_of(chars@),
{
    let mut kinds: Vec<CharKind> = Vec::new();
    let mut i: usize = 0;
    while i < chars.len()
        invariant
            i <= chars.len(),
            kinds@ == kinds_of(chars@.take(i as int)),
        decreases chars.len() - i,
    {
        kinds.push(classify(chars[i]));
        proof {
            assert(chars@.take(i + 1) =~= chars@.take(i as int).push(chars@[i as int]));
            assert(kinds@ =~= kinds_of(chars@.take(i + 1)));
        }
        i = i + 1;
    }
    proof {
        assert(chars@.take(chars.len() as int) =~= chars@);
    }
    kinds
}

/// The column to which the motion to the next word leads.
pub fn word_forward(kinds: &Vec<CharKind>, col: usize) -> (to: usize)
    ensures
        to == forward_target(kinds@, col as int),
        col < kinds.len() ==> col <= to <= kinds.len(),
{
    if col < kinds.len() {
        let past_word = skip_words(kinds, col);
        skip_spaces(kinds, past_word)
    } else {
        col
    }
}

/// The column to which the motion to the word before leads.
pub fn word_backward(kinds: &Vec<CharKind>, col: usize) -> (to: usize)
    requires
        col <= kinds.len(),
    ensures
        to == backward_target(kinds@, col as int),
        to <= col,
{
    if col > 0 {
        let mut at: usize = col - 1;
        while at > 0 && kinds[at].space
            invariant
                at < col <= kinds.len(),
                before_spaces(kinds@, col - 1) == before_spaces(kinds@, at as int),
            decreases at,
        {
            at = at - 1;
        }
        while at > 0 && kinds[at - 1].word
            invariant
                at < col <= kinds.len(),
                before_words(kinds@, before_spaces(kinds@, col - 1)) == before_words(
                    kinds@,
                    at as int,
                ),
            decreases at,
        {
            at = at - 1;
        }
        at
    } else {
        col
    }
}

/// The column to which the motion to a word's end leads.
pub fn word_end(kinds: &Vec<CharKind>, col: usize) -> (to: usize)
    ensures
        to == end_target(kinds@, col as int),
        col < kinds.len() ==> to <= kinds.len(),
{
    if col < kinds.len() {
        let past_word = skip_words(kinds, col);
        let past_space = skip_spaces(kinds, past_word);
        let stop = skip_words(kinds, past_space);
        if stop > 0 {
            stop - 1
        } else {
            stop
        }
    } else {
        col
    }
}

} // verus!
