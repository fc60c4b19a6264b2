//! What the functions on texts do, told by the characters.

use vstd::prelude::*;
use crate::text::{
    decimal, digit, joined, last_lines, lemma_length_before, lines, occurs, occurs_at, small_letter,
    small_letters, text_before, trimmed, trimmed_end, trimmed_start, white_space, without_trailing,
};

verus! {

/// White space is what Unicode gives this property: tab to carriage return, the space, the next
/// line, the no-break space, the spaces from U+2000 on, and a few more; no letter, digit or
/// punctuation mark of ASCII is.
pub proof fn law_white_space_is_that_of_unicode(c: char)
    ensures
        ({
            let code = c as int;
            white_space(c) <==> (9 <= code <= 13 || code == 32 || code == 133 || code == 160 || code == 5760
                || 8192 <= code <= 8202 || code == 8232 || code == 8233 || code == 8239 || code == 8287
                || code == 12288)
        }),
{
}

/// Trimming takes away white space at both ends, all of it, and nothing else.
pub proof fn law_trimming_takes_white_space_only(text: Seq<char>) -> (part: (int, int))
    ensures
        0 <= part.0 <= part.1 <= text.len(),
        trimmed(text) == text.subrange(part.0, part.1),
        forall|i: int| 0 <= i < part.0 || part.1 <= i < text.len() ==> white_space(#[trigger] text[i]),
        part.0 < part.1 ==> !white_space(text[part.0]) && !white_space(text[part.1 - 1]),
{
    let start = lemma_trimmed_start(text);
    let rest = trimmed_start(text);
    let end = lemma_trimmed_end(rest);
    assert(rest.take(end) =~= text.subrange(start, start + end));
    assert forall|i: int| 0 <= i < start || start + end <= i < text.len() implies white_space(
        #[trigger] text[i],
    ) by {
        if i >= start {
            assert(text[i] == rest[i - start]);
        }
    }
    (start, start + end)
}

proof fn lemma_trimmed_start(text: Seq<char>) -> (start: int)
    ensures
        0 <= start <= text.len(),
        trimmed_start(text) == text.skip(start),
        forall|i: int| 0 <= i < start ==> white_space(#[trigger] text[i]),
        start < text.len() ==> !white_space(text[start]),
    decreases text.len(),
{
    if text.len() > 0 && white_space(text[0]) {
        let rest = text.drop_first();
        let start = lemma_trimmed_start(rest);
        assert(rest.skip(start) =~= text.skip(start + 1));
        assert forall|i: int| 0 <= i < start + 1 implies white_space(#[trigger] text[i]) by {
            if i > 0 {
                assert(text[i] == rest[i - 1]);
            }
        }
        start + 1
    } else {
        assert(text.skip(0) =~= text);
        0
    }
}

proof fn lemma_trimmed_end(text: Seq<char>) -> (end: int)
    ensures
        0 <= end <= text.len(),
        trimmed_end(text) == text.take(end),
        forall|i: int| end <= i < text.len() ==> white_space(#[trigger] text[i]),
        end > 0 ==> !white_space(text[end - 1]),
    decreases text.len(),
{
    if text.len() > 0 && white_space(text.last()) {
        let rest = text.drop_last();
        let end = lemma_trimmed_end(rest);
        assert(rest.take(end) =~= text.take(end));
        assert forall|i: int| end <= i < text.len() implies white_space(#[trigger] text[i]) by {
            if i < rest.len() {
                assert(text[i] == rest[i]);
            }
        }
        end
    } else {
        assert(text.take(text.len() as int) =~= text);
        text.len() as int
    }
}

/// Small letters keep every character but the capital letters of ASCII, which each become the small
/// letter 32 places behind.
pub proof fn law_small_letters_change_capitals_only(text: Seq<char>, i: int)
    requires
        0 <= i < text.len(),
    ensures
        small_letters(text).len() == text.len(),
        65 <= text[i] as int <= 90 ==> small_letters(text)[i] as int == text[i] as int + 32,
        !(65 <= text[i] as int <= 90) ==> small_letters(text)[i] == text[i],
{
    assert(small_letters(text)[i] == small_letter(text[i]));
}

/// A pattern stands in a text exactly if the text can be split before and behind it.
pub proof fn law_patterns_stand_where_a_text_splits(
    text: Seq<char>,
    before: Seq<char>,
    pattern: Seq<char>,
    behind: Seq<char>,
)
    ensures
        text == before + pattern + behind ==> occurs(text, pattern),
        occurs(text, pattern) ==> exists|at: int|
            0 <= at <= text.len() - pattern.len() && #[trigger] text.subrange(at, at + pattern.len())
                == pattern,
{
    if text == before + pattern + behind {
        let at = before.len() as int;
        assert(text.subrange(at, at + pattern.len()) =~= pattern);
        assert(occurs_at(text, pattern, at));
    }
    if occurs(text, pattern) {
        let at = choose|at: int| occurs_at(text, pattern, at);
        assert(text.subrange(at, at + pattern.len()) == pattern);
    }
}

/// The first line of a text ends at the first line feed, without a carriage return right before
/// it; what follows is cut the same way. A last line needs no line feed.
pub proof fn law_lines_end_at_line_feeds(line: Seq<char>, rest: Seq<char>)
    requires
        !line.contains('\n'),
    ensures
        lines(line + seq!['\n'] + rest) == seq![
            if line.len() > 0 && line.last() == '\r' {
                line.drop_last()
            } else {
                line
            },
        ] + lines(rest),
        line.len() > 0 ==> lines(line) == seq![line],
        lines(Seq::empty()) == Seq::<Seq<char>>::empty(),
{
    let text = line + seq!['\n'] + rest;
    assert forall|i: int| 0 <= i < line.len() implies line[i] != '\n' by {
        assert(line.contains(line[i]));
    }
    assert forall|i: int| 0 <= i < line.len() implies text[i] != '\n' by {
        assert(text[i] == line[i]);
    }
    lemma_length_before(text, '\n', line.len() as int);
    lemma_length_before(line, '\n', line.len() as int);
    assert(text.take(line.len() as int) =~= line);
    assert(text.skip(line.len() + 1int) =~= rest);
}

/// Lines are joined with one line feed between each two of them.
pub proof fn law_joined_lines_have_line_feeds_between(some: Seq<Seq<char>>, line: Seq<char>)
    ensures
        joined(Seq::empty()) == Seq::<char>::empty(),
        joined(seq![line]) == line,
        some.len() > 0 ==> joined(some.push(line)) == joined(some) + seq!['\n'] + line,
{
    assert(some.push(line).drop_last() =~= some);
}

/// The last lines are the end of the lines: as many as asked for, or all of them.
pub proof fn law_last_lines_are_the_end(all: Seq<Seq<char>>, count: int, i: int)
    requires
        0 <= count,
        0 <= i < last_lines(all, count).len(),
    ensures
        last_lines(all, count).len() == (if all.len() < count {
            all.len() as int
        } else {
            count
        }),
        last_lines(all, count)[i] == all[all.len() - last_lines(all, count).len() + i],
{
}

/// The number that decimal digits stand for.
pub open spec fn value_of(digits: Seq<char>) -> int
    decreases digits.len(),
{
    if digits.len() == 0 {
        0
    } else {
        10 * value_of(digits.drop_last()) + (digits.last() as int - '0' as int)
    }
}

/// The decimal digits of a number stand for it, and have no zero in front.
pub proof fn law_decimals_stand_for_their_number(number: nat)
    ensures
        value_of(decimal(number)) == number,
        decimal(number).len() > 0,
        number > 0 ==> decimal(number)[0] != '0',
        forall|i: int| 0 <= i < decimal(number).len() ==> '0' <= #[trigger] decimal(number)[i] <= '9',
    decreases number,
{
    if number < 10 {
        assert(decimal(number).drop_last() =~= Seq::empty());
        reveal_with_fuel(value_of, 2);
    } else {
        law_decimals_stand_for_their_number(number / 10);
        assert(decimal(number).drop_last() =~= decimal(number / 10));
        assert(decimal(number).last() == digit(number % 10));
    }
}

/// A text without the copies of a suffix at its end does not end with it, and what was taken away
/// is copies of it.
pub proof fn law_trailing_copies_are_taken_away(text: Seq<char>, suffix: Seq<char>) -> (copies: nat)
    requires
        suffix.len() > 0,
    ensures
        !suffix.is_suffix_of(without_trailing(text, suffix)),
        text == without_trailing(text, suffix) + repeated(suffix, copies),
    decreases text.len(),
{
    if suffix.is_suffix_of(text) {
        let rest = text.take(text.len() - suffix.len());
        let copies = law_trailing_copies_are_taken_away(rest, suffix);
        assert(text =~= rest + suffix);
        assert(text =~= without_trailing(text, suffix) + repeated(suffix, copies + 1));
        copies + 1
    } else {
        assert(text =~= text + repeated(suffix, 0));
        0
    }
}

/// A text so many times over.
pub open spec fn repeated(text: Seq<char>, times: nat) -> Seq<char>
    decreases times,
{
    if times == 0 {
        Seq::empty()
    } else {
        repeated(text, (times - 1) as nat) + text
    }
}

/// One text comes before another exactly if, where they first differ, it has ended or has the
/// smaller character.
pub proof fn law_texts_are_ordered_by_their_first_difference(a: Seq<char>, b: Seq<char>, i: int)
    requires
        0 <= i <= a.len() && i <= b.len(),
        a.take(i) == b.take(i),
        i < a.len() && i < b.len() ==> a[i] != b[i],
    ensures
        text_before(a, b) <==> if i < a.len() && i < b.len() {
            (a[i] as int) < (b[i] as int)
        } else {
            a.len() < b.len() && i == a.len()
        },
    decreases i,
{
    if i > 0 {
        assert(a.take(i)[0] == a[0] && b.take(i)[0] == b[0]);
        let x = a.drop_first();
        let y = b.drop_first();
        assert(x.take(i - 1) =~= a.take(i).drop_first());
        assert(y.take(i - 1) =~= b.take(i).drop_first());
        assert(x.len() == a.len() - 1 && y.len() == b.len() - 1);
        assert(i < a.len() ==> x[i - 1] == a[i]);
        assert(i < b.len() ==> y[i - 1] == b[i]);
        law_texts_are_ordered_by_their_first_difference(x, y, i - 1);
    }
}

} // verus!
