//! Substitution of a literal pattern: what the text becomes, and the edit
//! that makes the rope hold it.
//!
//! Occurrences are found from left to right and do not overlap. The empty
//! pattern occurs before every character and once more at the end.

use crate::rope::{rope_remove, rope_text, text_fits};
use crate::search::{find_forward, first_match, lemma_first_match, matches_at, occurs_at};
use crate::text::{cut, splice};
use ropey::Rope;
use vstd::prelude::*;

verus! {

/// `text` with every occurrence of `pattern` replaced.
pub open spec fn replace_all(text: Seq<char>, pattern: Seq<char>, replacement: Seq<char>) -> Seq<
    char,
>
    decreases text.len(),
{
    if pattern.len() == 0 {
        if text.len() == 0 {
            replacement
        } else {
            replacement + seq![text[0]] + replace_all(text.skip(1), pattern, replacement)
        }
    } else if text.len() < pattern.len() {
        text
    } else if text.take(pattern.len() as int) == pattern {
        replacement + replace_all(text.skip(pattern.len() as int), pattern, replacement)
    } else {
        seq![text[0]] + replace_all(text.skip(1), pattern, replacement)
    }
}

/// `text` with the first occurrence of `pattern` replaced.
pub open spec fn replace_first(
    text: Seq<char>,
    pattern: Seq<char>,
    replacement: Seq<char>,
) -> Seq<char> {
    match first_match(text, pattern, 0) {
        Some(at) => splice(cut(text, at, at + pattern.len()), at, replacement),
        None => text,
    }
}

/// `text` after the substitution: every occurrence replaced where `global`
/// is set, the first one where it is not.
pub open spec fn substituted(
    text: Seq<char>,
    pattern: Seq<char>,
    replacement: Seq<char>,
    global: bool,
) -> Seq<char> {
    if global {
        replace_all(text, pattern, replacement)
    } else {
        replace_first(text, pattern, replacement)
    }
}

/// What `replace_all` does with the text from `at` on.
pub proof fn lemma_replace_all_from(
    text: Seq<char>,
    pattern: Seq<char>,
    replacement: Seq<char>,
    at: int,
)
    requires
        0 <= at <= text.len(),
    ensures
        replace_all(text.skip(at), pattern, replacement) == if pattern.len() == 0 {
            if at == text.len() {
                replacement
            } else {
                replacement + seq![text[at]] + replace_all(text.skip(at + 1), pattern, replacement)
            }
        } else if text.len() - at < pattern.len() {
            text.skip(at)
        } else if matches_at(text, pattern, at) {
            replacement + replace_all(text.skip(at + pattern.len()), pattern, replacement)
        } else {
            seq![text[at]] + replace_all(text.skip(at + 1), pattern, replacement)
        },
{
    let rest = text.skip(at);
    if at < text.len() {
        assert(rest.skip(1) =~= text.skip(at + 1));
        assert(rest[0] == text[at]);
    }
    if text.len() - at >= pattern.len() {
        assert(rest.take(pattern.len() as int) =~= text.subrange(at, at + pattern.len()));
        assert(rest.skip(pattern.len() as int) =~= text.skip(at + pattern.len()));
    }
}

/// Replaces the characters in `[at, at + len)` by `replacement`.
fn replace_range(content: &mut Rope, at: usize, len: usize, replacement: &str)
    requires
        at + len <= rope_text(*old(content)).len(),
    ensures
        rope_text(*final(content)) == rope_text(*old(content)).take(at as int) + replacement@
            + rope_text(*old(content)).skip(at + len),
        rope_text(*final(content)).len() <= usize::MAX,
{
    let ghost before = rope_text(*content);
    text_fits(content);
    rope_remove(content, at, at + len);
    let ghost removed = rope_text(*content);
    content.insert(at, replacement);
    text_fits(content);
    proof {
        assert(removed.take(at as int) =~= before.take(at as int));
        assert(removed.skip(at as int) =~= before.skip(at + len));
    }
}

/// The text up to `at` is done: with the rest replaced, it is `result`.
pub open spec fn done_up_to(
    now: Seq<char>,
    at: int,
    pattern: Seq<char>,
    replacement: Seq<char>,
    result: Seq<char>,
) -> bool {
    0 <= at <= now.len() && now.take(at) + replace_all(now.skip(at), pattern, replacement)
        == result
}

/// One step of the replacement: an occurrence at `at` has been replaced.
proof fn lemma_replaced_one(
    now: Seq<char>,
    next: Seq<char>,
    at: int,
    pattern: Seq<char>,
    replacement: Seq<char>,
    result: Seq<char>,
)
    requires
        done_up_to(now, at, pattern, replacement, result),
        pattern.len() > 0,
        matches_at(now, pattern, at),
        next == now.take(at) + replacement + now.skip(at + pattern.len()),
    ensures
        done_up_to(next, at + replacement.len(), pattern, replacement, result),
{
    lemma_replace_all_from(now, pattern, replacement, at);
    let to = at + replacement.len();
    assert(next.take(to) =~= now.take(at) + replacement);
    assert(next.skip(to) =~= now.skip(at + pattern.len()));
    assert(next.take(to) + replace_all(next.skip(to), pattern, replacement) =~= now.take(at) + (
    replacement + replace_all(now.skip(at + pattern.len()), pattern, replacement)));
}

/// One step of the replacement: no occurrence at `at`, the character stays.
proof fn lemma_kept_one(
    now: Seq<char>,
    at: int,
    pattern: Seq<char>,
    replacement: Seq<char>,
    result: Seq<char>,
)
    requires
        done_up_to(now, at, pattern, replacement, result),
        pattern.len() > 0,
        now.len() - at >= pattern.len(),
        !matches_at(now, pattern, at),
    ensures
        done_up_to(now, at + 1, pattern, replacement, result),
{
    lemma_replace_all_from(now, pattern, replacement, at);
    assert(now.take(at + 1) =~= now.take(at) + seq![now[at]]);
    assert(now.take(at + 1) + replace_all(now.skip(at + 1), pattern, replacement) =~= now.take(at)
        + (seq![now[at]] + replace_all(now.skip(at + 1), pattern, replacement)));
}

/// The replacement is done where the rest is shorter than the pattern.
proof fn lemma_replaced_all(
    now: Seq<char>,
    at: int,
    pattern: Seq<char>,
    replacement: Seq<char>,
    result: Seq<char>,
)
    requires
        done_up_to(now, at, pattern, replacement, result),
        pattern.len() > 0,
        now.len() - at < pattern.len(),
    ensures
        now == result,
{
    lemma_replace_all_from(now, pattern, replacement, at);
    assert(now.take(at) + now.skip(at) =~= now);
}

/// One step with the empty pattern: the replacement has been put in at
/// `at`, before a character or at the end.
proof fn lemma_put_between(
    now: Seq<char>,
    next: Seq<char>,
    at: int,
    replacement: Seq<char>,
    result: Seq<char>,
)
    requires
        done_up_to(now, at, Seq::empty(), replacement, result),
        next == now.take(at) + replacement + now.skip(at),
    ensures
        at == now.len() ==> next == result,
        at < now.len() ==> done_up_to(
            next,
            at + replacement.len() + 1,
            Seq::empty(),
            replacement,
            result,
        ),
{
    let pattern = Seq::<char>::empty();
    lemma_replace_all_from(now, pattern, replacement, at);
    if at == now.len() {
        assert(now.skip(at) =~= Seq::<char>::empty());
        assert(next =~= now.take(at) + replacement);
    } else {
        let to = at + replacement.len() + 1;
        assert(next.take(to) =~= now.take(at) + replacement + seq![now[at]]);
        assert(next.skip(to) =~= now.skip(at + 1));
        assert(next.take(to) + replace_all(next.skip(to), pattern, replacement) =~= now.take(at)
            + (replacement + seq![now[at]] + replace_all(now.skip(at + 1), pattern, replacement)));
    }
}

/// Puts `replacement` in before every character of the rope's text, and at
/// its end.
fn put_between(content: &mut Rope, replacement: &str)
    ensures
        rope_text(*final(content)) == replace_all(
            rope_text(*old(content)),
            Seq::empty(),
            replacement@,
        ),
{
    let ghost result = replace_all(rope_text(*content), Seq::empty(), replacement@);
    let width = replacement.unicode_len();
    let mut at: usize = 0;
    proof {
        assert(rope_text(*content).skip(0) =~= rope_text(*content));
        assert(rope_text(*content).take(0) + result =~= result);
    }
    loop
        invariant_except_break
            width == replacement@.len(),
            done_up_to(rope_text(*content), at as int, Seq::empty(), replacement@, result),
        ensures
            rope_text(*content) == result,
        decreases rope_text(*content).len() - at,
    {
        let ghost now = rope_text(*content);
        let len = content.len_chars();
        replace_range(content, at, 0, replacement);
        proof {
            assert(now.skip(at + 0) =~= now.skip(at as int));
            lemma_put_between(now, rope_text(*content), at as int, replacement@, result);
        }
        if at == len {
            break;
        }
        at = at + width + 1;
    }
}

/// Replaces every occurrence of `pattern` in the rope's text.
pub fn replace_every(content: &mut Rope, pattern: &Vec<char>, replacement: &str)
    ensures
        rope_text(*final(content)) == replace_all(
            rope_text(*old(content)),
            pattern@,
            replacement@,
        ),
{
    if pattern.len() == 0 {
        proof {
            assert(pattern@ =~= Seq::<char>::empty());
        }
        put_between(content, replacement);
        return;
    }
    let ghost result = replace_all(rope_text(*content), pattern@, replacement@);
    let width = replacement.unicode_len();
    let mut at: usize = 0;
    proof {
        assert(rope_text(*content).skip(0) =~= rope_text(*content));
        assert(rope_text(*content).take(0) + result =~= result);
    }
    loop
        invariant_except_break
            pattern.len() > 0,
            width == replacement@.len(),
            done_up_to(rope_text(*content), at as int, pattern@, replacement@, result),
        ensures
            rope_text(*content) == result,
        decreases rope_text(*content).len() - at,
    {
        let ghost now = rope_text(*content);
        let len = content.len_chars();
        if pattern.len() > len - at {
            proof {
                lemma_replaced_all(now, at as int, pattern@, replacement@, result);
            }
            break;
        }
        if occurs_at(content, pattern, at) {
            replace_range(content, at, pattern.len(), replacement);
            proof {
                lemma_replaced_one(
                    now,
                    rope_text(*content),
                    at as int,
                    pattern@,
                    replacement@,
                    result,
                );
            }
            at = at + width;
        } else {
            proof {
                lemma_kept_one(now, at as int, pattern@, replacement@, result);
            }
            at = at + 1;
        }
    }
}

/// Replaces the first occurrence of `pattern` in the rope's text.
pub fn replace_one(content: &mut Rope, pattern: &Vec<char>, replacement: &str)
    ensures
        rope_text(*final(content)) == replace_first(
            rope_text(*old(content)),
            pattern@,
            replacement@,
        ),
{
    proof {
        lemma_first_match(rope_text(*content), pattern@, 0);
    }
    if let Some(at) = find_forward(content, pattern, 0) {
        replace_range(content, at, pattern.len(), replacement);
        proof {
            let text = rope_text(*old(content));
            let removed = cut(text, at as int, at + pattern.len());
            assert(removed.take(at as int) =~= text.take(at as int));
            assert(removed.skip(at as int) =~= text.skip(at + pattern.len()));
        }
    }
}

} // verus!
