//! Text operations on the characters of a string.

use vstd::prelude::*;

verus! {

/// Whether `a` comes strictly before `b` in the order of their code points.
pub open spec fn text_before(a: Seq<char>, b: Seq<char>) -> bool
    decreases a.len(),
{
    if b.len() == 0 {
        false
    } else if a.len() == 0 {
        true
    } else if a[0] != b[0] {
        (a[0] as int) < (b[0] as int)
    } else {
        text_before(a.drop_first(), b.drop_first())
    }
}

pub proof fn lemma_text_before_irreflexive(a: Seq<char>)
    ensures
        !text_before(a, a),
    decreases a.len(),
{
    if a.len() > 0 {
        lemma_text_before_irreflexive(a.drop_first());
    }
}

pub proof fn lemma_text_before_transitive(a: Seq<char>, b: Seq<char>, c: Seq<char>)
    requires
        text_before(a, b),
        text_before(b, c),
    ensures
        text_before(a, c),
    decreases a.len(),
{
    if a.len() > 0 && b.len() > 0 && c.len() > 0 && a[0] == b[0] && b[0] == c[0] {
        lemma_text_before_transitive(a.drop_first(), b.drop_first(), c.drop_first());
    }
}

pub proof fn lemma_text_before_total(a: Seq<char>, b: Seq<char>)
    ensures
        a == b || text_before(a, b) || text_before(b, a),
    decreases a.len(),
{
    if a.len() == 0 && b.len() == 0 {
        assert(a =~= b);
    } else if a.len() > 0 && b.len() > 0 && a[0] == b[0] {
        lemma_text_before_total(a.drop_first(), b.drop_first());
        if a.drop_first() == b.drop_first() {
            assert(a.len() == a.drop_first().len() + 1 && b.len() == b.drop_first().len() + 1);
            assert forall|i: int| 0 <= i < a.len() implies a[i] == b[i] by {
                if i > 0 {
                    assert(a[i] == a.drop_first()[i - 1]);
                    assert(b[i] == b.drop_first()[i - 1]);
                }
            }
            assert(a =~= b);
        }
    }
}

/// The characters of `text`.
pub fn to_chars(text: &str) -> (chars: Vec<char>)
    ensures
        chars@ == text@,
{
    let mut chars: Vec<char> = Vec::new();
    for c in iter: text.chars()
        invariant
            iter.seq() == text@,
            chars@ == text@.take(iter.index() as int),
    {
        chars.push(c);
        assert(text@.take(iter.index() as int + 1) =~= text@.take(iter.index() as int).push(c));
    }
    assert(text@.take(text@.len() as int) =~= text@);
    chars
}

/// Whether two texts hold the same characters.
pub fn same_text(a: &str, b: &str) -> (same: bool)
    ensures
        same == (a@ == b@),
{
    a.to_owned() == b.to_owned()
}

/// Whether `a` comes strictly before `b`.
pub fn is_before(a: &str, b: &str) -> (before: bool)
    ensures
        before == text_before(a@, b@),
{
    let left = to_chars(a);
    let right = to_chars(b);
    let mut i: usize = 0;
    assert(a@.skip(0) =~= a@);
    assert(b@.skip(0) =~= b@);
    while i < left.len() && i < right.len() && left[i] == right[i]
        invariant
            left@ == a@,
            right@ == b@,
            i <= left.len(),
            i <= right.len(),
            text_before(a@, b@) == text_before(a@.skip(i as int), b@.skip(i as int)),
        decreases left.len() - i,
    {
        assert(a@.skip(i as int).drop_first() =~= a@.skip(i + 1));
        assert(b@.skip(i as int).drop_first() =~= b@.skip(i + 1));
        i = i + 1;
    }
    if i < right.len() {
        i == left.len() || left[i] < right[i]
    } else {
        false
    }
}

/// White space as Unicode defines it.
pub open spec fn white_space(c: char) -> bool {
    ||| '\u{9}' <= c <= '\u{d}'
    ||| c == '\u{20}'
    ||| c == '\u{85}'
    ||| c == '\u{a0}'
    ||| c == '\u{1680}'
    ||| '\u{2000}' <= c <= '\u{200a}'
    ||| c == '\u{2028}'
    ||| c == '\u{2029}'
    ||| c == '\u{202f}'
    ||| c == '\u{205f}'
    ||| c == '\u{3000}'
}

/// Whether a text holds white space only.
pub open spec fn blank(text: Seq<char>) -> bool {
    forall|i: int| 0 <= i < text.len() ==> white_space(#[trigger] text[i])
}

/// A text without the white space at its start.
pub open spec fn trimmed_start(text: Seq<char>) -> Seq<char>
    decreases text.len(),
{
    if text.len() > 0 && white_space(text[0]) {
        trimmed_start(text.drop_first())
    } else {
        text
    }
}

/// A text without the white space at its end.
pub open spec fn trimmed_end(text: Seq<char>) -> Seq<char>
    decreases text.len(),
{
    if text.len() > 0 && white_space(text.last()) {
        trimmed_end(text.drop_last())
    } else {
        text
    }
}

/// A text without the white space at both ends.
pub open spec fn trimmed(text: Seq<char>) -> Seq<char> {
    trimmed_end(trimmed_start(text))
}

/// Whether `pattern` stands in `text` at the position `at`.
pub open spec fn occurs_at(text: Seq<char>, pattern: Seq<char>, at: int) -> bool {
    &&& 0 <= at <= text.len() - pattern.len()
    &&& text.subrange(at, at + pattern.len()) == pattern
}

/// Whether `pattern` stands somewhere in `text`.
pub open spec fn occurs(text: Seq<char>, pattern: Seq<char>) -> bool {
    exists|at: int| occurs_at(text, pattern, at)
}

/// A text without the copies of `suffix` at its end.
pub open spec fn without_trailing(text: Seq<char>, suffix: Seq<char>) -> Seq<char>
    decreases text.len(),
{
    if suffix.len() > 0 && suffix.is_suffix_of(text) {
        without_trailing(text.take(text.len() - suffix.len()), suffix)
    } else {
        text
    }
}

/// A letter from `A` to `Z` as its small letter; every other character as it is.
pub open spec fn small_letter(c: char) -> char {
    if 'A' <= c <= 'Z' {
        (c as int + 32) as char
    } else {
        c
    }
}

/// A text with the letters from `A` to `Z` as small letters.
pub open spec fn small_letters(text: Seq<char>) -> Seq<char> {
    text.map_values(|c: char| small_letter(c))
}

/// The number of characters before the first `stop`, or in the text where there is none.
pub open spec fn length_before(text: Seq<char>, stop: char) -> int
    decreases text.len(),
{
    if text.len() == 0 || text[0] == stop {
        0
    } else {
        1 + length_before(text.drop_first(), stop)
    }
}

/// The first position at which `pattern` stands in `text`, for a text in which it stands.
#[verifier::opaque]
pub open spec fn first_occurrence(text: Seq<char>, pattern: Seq<char>) -> int {
    choose|at: int|
        #![trigger occurs_at(text, pattern, at)]
        occurs_at(text, pattern, at) && forall|earlier: int|
            0 <= earlier < at ==> !occurs_at(text, pattern, earlier)
}

/// The lines of a text, without their ends: `\n`, or `\r\n`. The end of the last line may be
/// missing.
pub open spec fn lines(text: Seq<char>) -> Seq<Seq<char>>
    decreases text.len(),
{
    let length = length_before(text, '\n');
    if text.len() == 0 {
        Seq::empty()
    } else if 0 <= length < text.len() {
        let line = text.take(length);
        let line = if line.len() > 0 && line.last() == '\r' {
            line.drop_last()
        } else {
            line
        };
        seq![line] + lines(text.skip(length + 1))
    } else {
        seq![text]
    }
}

/// Lines as one text, with `\n` between them.
pub open spec fn joined(lines: Seq<Seq<char>>) -> Seq<char>
    decreases lines.len(),
{
    if lines.len() == 0 {
        Seq::empty()
    } else if lines.len() == 1 {
        lines[0]
    } else {
        joined(lines.drop_last()) + seq!['\n'] + lines.last()
    }
}

/// The last `count` of some lines, or all of them where there are fewer.
pub open spec fn last_lines(lines: Seq<Seq<char>>, count: int) -> Seq<Seq<char>> {
    if lines.len() <= count {
        lines
    } else {
        lines.skip(lines.len() - count)
    }
}

/// A natural number in decimal digits.
pub open spec fn decimal(number: nat) -> Seq<char>
    decreases number,
{
    if number < 10 {
        seq![digit(number)]
    } else {
        decimal(number / 10).push(digit(number % 10))
    }
}

/// A decimal digit.
pub open spec fn digit(value: nat) -> char {
    ('0' as int + value) as char
}

/// `String::push` appends a character.
pub assume_specification[ String::push ](text: &mut String, c: char)
    ensures
        final(text)@ == old(text)@.push(c),
;

/// Whether a character is white space.
pub fn is_white_space(c: char) -> (white: bool)
    ensures
        white == white_space(c),
{
    ('\u{9}' <= c && c <= '\u{d}') || c == '\u{20}' || c == '\u{85}' || c == '\u{a0}' || c == '\u{1680}' || (
    '\u{2000}' <= c && c <= '\u{200a}') || c == '\u{2028}' || c == '\u{2029}' || c == '\u{202f}' || c
        == '\u{205f}' || c == '\u{3000}'
}

/// Whether a text holds white space only.
pub fn is_blank(text: &str) -> (all_white: bool)
    ensures
        all_white == blank(text@),
{
    let chars = to_chars(text);
    let mut i: usize = 0;
    while i < chars.len()
        invariant
            chars@ == text@,
            i <= chars.len(),
            forall|j: int| 0 <= j < i ==> white_space(#[trigger] text@[j]),
        decreases chars.len() - i,
    {
        if !is_white_space(chars[i]) {
            return false;
        }
        i = i + 1;
    }
    true
}

/// A text without the white space at both ends.
pub fn trim(text: &str) -> (inner: &str)
    ensures
        inner@ == trimmed(text@),
{
    let chars = to_chars(text);
    let mut start: usize = 0;
    assert(text@.skip(0) =~= text@);
    while start < chars.len() && is_white_space(chars[start])
        invariant
            chars@ == text@,
            start <= chars.len(),
            trimmed_start(text@) == trimmed_start(text@.skip(start as int)),
        decreases chars.len() - start,
    {
        assert(text@.skip(start as int).drop_first() =~= text@.skip(start + 1));
        start = start + 1;
    }
    let ghost rest = text@.skip(start as int);
    let mut end: usize = chars.len();
    assert(rest.take(end - start) =~= rest);
    while start < end && is_white_space(chars[end - 1])
        invariant
            chars@ == text@,
            start <= end <= chars.len(),
            rest == text@.skip(start as int),
            trimmed_end(rest) == trimmed_end(rest.take(end - start)),
        decreases end,
    {
        assert(rest.take(end - start).last() == chars@[end - 1]);
        assert(rest.take(end - start).drop_last() =~= rest.take(end - 1 - start));
        end = end - 1;
    }
    proof {
        if start < end {
            assert(rest.take(end - start).last() == chars@[end - 1]);
        }
        assert(rest.take(end - start) =~= text@.subrange(start as int, end as int));
    }
    text.substring_char(start, end)
}

/// A text is blank exactly if nothing is left of it without the white space at its ends.
pub proof fn law_blank_texts_trim_to_nothing(text: Seq<char>)
    ensures
        blank(text) <==> trimmed(text).len() == 0,
{
    lemma_trimmed_start_blank(text);
    lemma_trimmed_end_blank(trimmed_start(text));
}

proof fn lemma_trimmed_start_blank(text: Seq<char>)
    ensures
        blank(text) <==> blank(trimmed_start(text)),
        blank(text) ==> trimmed_start(text).len() == 0,
    decreases text.len(),
{
    if text.len() > 0 && white_space(text[0]) {
        let rest = text.drop_first();
        lemma_trimmed_start_blank(rest);
        if blank(rest) {
            assert forall|i: int| 0 <= i < text.len() implies white_space(#[trigger] text[i]) by {
                if i > 0 {
                    assert(text[i] == rest[i - 1]);
                }
            }
        }
        if blank(text) {
            assert forall|i: int| 0 <= i < rest.len() implies white_space(#[trigger] rest[i]) by {
                assert(rest[i] == text[i + 1]);
            }
        }
    }
}

proof fn lemma_trimmed_end_blank(text: Seq<char>)
    ensures
        blank(text) <==> trimmed_end(text).len() == 0,
    decreases text.len(),
{
    if text.len() > 0 && white_space(text.last()) {
        let rest = text.drop_last();
        lemma_trimmed_end_blank(rest);
        if blank(rest) {
            assert forall|i: int| 0 <= i < text.len() implies white_space(#[trigger] text[i]) by {
                if i < rest.len() {
                    assert(text[i] == rest[i]);
                }
            }
        }
        if blank(text) {
            assert forall|i: int| 0 <= i < rest.len() implies white_space(#[trigger] rest[i]) by {
                assert(rest[i] == text[i]);
            }
        }
    } else if text.len() > 0 {
        assert(text.last() == text[text.len() - 1]);
    }
}

/// What is left of a text without the white space at its ends does not start with any.
pub proof fn lemma_trimmed_first(text: Seq<char>)
    ensures
        trimmed(text).len() > 0 ==> !white_space(trimmed(text)[0]),
{
    lemma_trimmed_start_first(text);
    lemma_trimmed_end_first(trimmed_start(text));
}

proof fn lemma_trimmed_start_first(text: Seq<char>)
    ensures
        trimmed_start(text).len() > 0 ==> !white_space(trimmed_start(text)[0]),
    decreases text.len(),
{
    if text.len() > 0 && white_space(text[0]) {
        lemma_trimmed_start_first(text.drop_first());
    }
}

proof fn lemma_trimmed_end_first(text: Seq<char>)
    ensures
        trimmed_end(text).len() > 0 ==> text.len() > 0 && trimmed_end(text)[0] == text[0],
    decreases text.len(),
{
    if text.len() > 0 && white_space(text.last()) {
        lemma_trimmed_end_first(text.drop_last());
    }
}

/// Whether `pattern` stands in `text` at the position `at`.
fn stands_at(text: &Vec<char>, pattern: &Vec<char>, at: usize) -> (stands: bool)
    ensures
        stands == occurs_at(text@, pattern@, at as int),
{
    if at > text.len() || pattern.len() > text.len() - at {
        return false;
    }
    let ghost window = text@.subrange(at as int, at + pattern@.len());
    let mut i: usize = 0;
    while i < pattern.len()
        invariant
            i <= pattern.len(),
            at + pattern.len() <= text.len(),
            window == text@.subrange(at as int, at + pattern@.len()),
            forall|j: int| 0 <= j < i ==> window[j] == pattern@[j],
        decreases pattern.len() - i,
    {
        assert(window[i as int] == text@[at + i]);
        if text[at + i] != pattern[i] {
            return false;
        }
        i = i + 1;
    }
    assert(window =~= pattern@);
    true
}

pub(crate) proof fn lemma_first_occurrence(text: Seq<char>, pattern: Seq<char>, at: int)
    requires
        occurs_at(text, pattern, at),
        forall|earlier: int| 0 <= earlier < at ==> !occurs_at(text, pattern, earlier),
    ensures
        occurs(text, pattern),
        first_occurrence(text, pattern) == at,
{
    reveal(first_occurrence);
    let first = first_occurrence(text, pattern);
    assert(occurs_at(text, pattern, first) && forall|earlier: int|
        0 <= earlier < first ==> !occurs_at(text, pattern, earlier));
    assert(first == at) by {
        if first < at {
            assert(!occurs_at(text, pattern, first));
        }
    }
}

/// The first position at which `pattern` stands in `text`.
pub fn find(text: &str, pattern: &str) -> (position: Option<usize>)
    ensures
        position is Some <==> occurs(text@, pattern@),
        position matches Some(at) ==> at == first_occurrence(text@, pattern@),
        position matches Some(at) ==> occurs_at(text@, pattern@, at as int),
{
    let text_chars = to_chars(text);
    let pattern_chars = to_chars(pattern);
    let mut at: usize = 0;
    while at < text_chars.len()
        invariant
            text_chars@ == text@,
            pattern_chars@ == pattern@,
            at <= text_chars.len(),
            forall|earlier: int| 0 <= earlier < at ==> !occurs_at(text@, pattern@, earlier),
        decreases text_chars.len() - at,
    {
        if stands_at(&text_chars, &pattern_chars, at) {
            proof {
                lemma_first_occurrence(text@, pattern@, at as int);
            }
            return Some(at);
        }
        at = at + 1;
    }
    if stands_at(&text_chars, &pattern_chars, at) {
        proof {
            lemma_first_occurrence(text@, pattern@, at as int);
        }
        Some(at)
    } else {
        None
    }
}

/// Whether `pattern` stands somewhere in `text`.
pub fn contains(text: &str, pattern: &str) -> (found: bool)
    ensures
        found == occurs(text@, pattern@),
{
    find(text, pattern).is_some()
}

/// Whether `text` starts with `prefix`.
pub fn starts_with(text: &str, prefix: &str) -> (starts: bool)
    ensures
        starts == prefix@.is_prefix_of(text@),
{
    let text_chars = to_chars(text);
    let prefix_chars = to_chars(prefix);
    stands_at(&text_chars, &prefix_chars, 0)
}

/// A text without the copies of `suffix` at its end.
pub fn trim_trailing<'a>(text: &'a str, suffix: &str) -> (front: &'a str)
    requires
        suffix@.len() > 0,
    ensures
        front@ == without_trailing(text@, suffix@),
{
    let text_chars = to_chars(text);
    let suffix_chars = to_chars(suffix);
    let mut end: usize = text_chars.len();
    assert(text@.take(end as int) =~= text@);
    while suffix_chars.len() <= end && stands_at(&text_chars, &suffix_chars, end - suffix_chars.len())
        invariant
            text_chars@ == text@,
            suffix_chars@ == suffix@,
            suffix@.len() > 0,
            end <= text_chars.len(),
            without_trailing(text@, suffix@) == without_trailing(text@.take(end as int), suffix@),
        decreases end,
    {
        let ghost shown = text@.take(end as int);
        assert(shown.subrange(end - suffix@.len(), end as int) =~= text@.subrange(
            end - suffix@.len(),
            end as int,
        ));
        assert(suffix@.is_suffix_of(shown));
        assert(shown.take(end - suffix@.len()) =~= text@.take(end - suffix@.len()));
        end = end - suffix_chars.len();
    }
    proof {
        let shown = text@.take(end as int);
        if suffix@.is_suffix_of(shown) {
            assert(text@.subrange(end - suffix@.len(), end as int) =~= suffix@);
        }
        assert(shown =~= text@.subrange(0, end as int));
    }
    text.substring_char(0, end)
}

/// A text with the letters from `A` to `Z` as small letters.
pub fn to_small_letters(text: &str) -> (small: String)
    ensures
        small@ == small_letters(text@),
{
    let chars = to_chars(text);
    let mut small = String::new();
    let mut i: usize = 0;
    while i < chars.len()
        invariant
            chars@ == text@,
            i <= chars.len(),
            small@ == small_letters(text@.take(i as int)),
        decreases chars.len() - i,
    {
        let c = chars[i];
        if 'A' <= c && c <= 'Z' {
            small.push((c as u8 + 32) as char);
        } else {
            small.push(c);
        }
        i = i + 1;
        assert(small@ =~= small_letters(text@.take(i as int)));
    }
    assert(text@.take(i as int) =~= text@);
    small
}

/// Whether two texts are the same but for the size of the letters from `A` to `Z`.
pub fn same_letters(a: &str, b: &str) -> (same: bool)
    ensures
        same == (small_letters(a@) == small_letters(b@)),
{
    to_small_letters(a) == to_small_letters(b)
}

/// The first `count` characters of a text.
pub fn take_chars(text: &str, count: usize) -> (front: &str)
    ensures
        front@ == (if text@.len() <= count {
            text@
        } else {
            text@.take(count as int)
        }),
{
    let length = text.unicode_len();
    if length <= count {
        text
    } else {
        assert(text@.subrange(0, count as int) =~= text@.take(count as int));
        text.substring_char(0, count)
    }
}

/// One text after another.
pub fn concat(a: &str, b: &str) -> (whole: String)
    ensures
        whole@ == a@ + b@,
{
    let mut whole = a.to_owned();
    whole.append(b);
    whole
}

/// Three texts, one after another.
pub fn concat3(a: &str, b: &str, c: &str) -> (whole: String)
    ensures
        whole@ == a@ + b@ + c@,
{
    let mut whole = a.to_owned();
    whole.append(b);
    whole.append(c);
    whole
}

/// A natural number in decimal digits.
pub fn to_decimal(number: u64) -> (digits: String)
    ensures
        digits@ == decimal(number as nat),
    decreases number,
{
    let last = (48 + (number % 10) as u8) as char;
    if number < 10 {
        let mut digits = String::new();
        digits.push(last);
        assert(digits@ =~= seq![digit(number as nat)]);
        digits
    } else {
        let mut digits = to_decimal(number / 10);
        digits.push(last);
        digits
    }
}

pub proof fn lemma_length_before(text: Seq<char>, stop: char, length: int)
    requires
        0 <= length <= text.len(),
        forall|i: int| 0 <= i < length ==> text[i] != stop,
        length < text.len() ==> text[length] == stop,
    ensures
        length_before(text, stop) == length,
    decreases length,
{
    if length > 0 {
        assert(forall|i: int| 0 <= i < length - 1 ==> text.drop_first()[i] == text[i + 1]);
        lemma_length_before(text.drop_first(), stop, length - 1);
    }
}

/// No stop stands before the first one.
pub proof fn lemma_length_before_bounds(text: Seq<char>, stop: char)
    ensures
        0 <= length_before(text, stop) <= text.len(),
        forall|i: int| 0 <= i < length_before(text, stop) ==> text[i] != stop,
        length_before(text, stop) < text.len() ==> text[length_before(text, stop)] == stop,
    decreases text.len(),
{
    if text.len() > 0 && text[0] != stop {
        let rest = text.drop_first();
        lemma_length_before_bounds(rest, stop);
        assert forall|i: int| 0 <= i < length_before(text, stop) implies text[i] != stop by {
            if i > 0 {
                assert(rest[i - 1] == text[i]);
            }
        }
    }
}

/// The part of a text from `start` up to the next `stop`, or to its end where there is none.
pub fn part_until(text: &str, start: usize, stop: char) -> (part: &str)
    requires
        start <= text@.len(),
    ensures
        part@ == text@.skip(start as int).take(length_before(text@.skip(start as int), stop)),
{
    let chars = to_chars(text);
    let ghost rest = text@.skip(start as int);
    let mut end: usize = start;
    while end < chars.len() && chars[end] != stop
        invariant
            chars@ == text@,
            start <= end <= chars.len(),
            forall|i: int| start <= i < end ==> text@[i] != stop,
        decreases chars.len() - end,
    {
        end = end + 1;
    }
    proof {
        lemma_length_before(rest, stop, end - start);
        assert(text@.subrange(start as int, end as int) =~= rest.take(end - start));
    }
    text.substring_char(start, end)
}

/// The part of a text behind its last `mark`, or all of it where there is none.
pub open spec fn after_last(text: Seq<char>, mark: char) -> Seq<char>
    decreases text.len(),
{
    if text.len() == 0 || text.last() == mark {
        Seq::empty()
    } else {
        after_last(text.drop_last(), mark).push(text.last())
    }
}

pub proof fn lemma_after_last(text: Seq<char>, mark: char, start: int)
    requires
        0 <= start <= text.len(),
        forall|i: int| start <= i < text.len() ==> text[i] != mark,
        start > 0 ==> text[start - 1] == mark,
    ensures
        after_last(text, mark) == text.skip(start),
    decreases text.len(),
{
    if start < text.len() {
        lemma_after_last(text.drop_last(), mark, start);
        assert(text.drop_last().skip(start).push(text.last()) =~= text.skip(start));
    } else {
        assert(text.skip(start) =~= Seq::empty());
    }
}

/// What is left behind the last `mark` holds no `mark`, and nothing that the text does not hold.
pub proof fn lemma_after_last_holds(text: Seq<char>, mark: char)
    ensures
        after_last(text, mark).len() <= text.len(),
        forall|i: int|
            0 <= i < after_last(text, mark).len() ==> #[trigger] after_last(text, mark)[i] != mark
                && text.contains(after_last(text, mark)[i]),
    decreases text.len(),
{
    if text.len() > 0 && text.last() != mark {
        let front = text.drop_last();
        lemma_after_last_holds(front, mark);
        assert forall|i: int| 0 <= i < after_last(text, mark).len() implies #[trigger] after_last(
            text,
            mark,
        )[i] != mark && text.contains(after_last(text, mark)[i]) by {
            if i < after_last(front, mark).len() {
                let c = after_last(front, mark)[i];
                assert(front.contains(c));
                let j = choose|j: int| 0 <= j < front.len() && front[j] == c;
                assert(text[j] == c);
            } else {
                assert(text[text.len() - 1] == text.last());
            }
        }
    }
}

/// A text that holds a `mark` ends in it and in what is left behind the last one.
pub proof fn lemma_after_last_within(text: Seq<char>, mark: char)
    requires
        text.contains(mark),
    ensures
        after_last(text, mark).len() < text.len(),
        text[text.len() - after_last(text, mark).len() - 1] == mark,
        text.skip(text.len() - after_last(text, mark).len()) == after_last(text, mark),
    decreases text.len(),
{
    if text.last() != mark {
        let front = text.drop_last();
        let i = choose|i: int| 0 <= i < text.len() && text[i] == mark;
        assert(front[i] == mark);
        lemma_after_last_within(front, mark);
    }
    assert(text.skip(text.len() - after_last(text, mark).len()) =~= after_last(text, mark));
}

/// What a list of texts holds.
pub open spec fn texts_view(texts: Seq<String>) -> Seq<Seq<char>> {
    texts.map_values(|text: String| text@)
}

/// The characters of some texts.
pub open spec fn parts_view(parts: Seq<&str>) -> Seq<Seq<char>> {
    parts.map_values(|part: &str| part@)
}

/// A list of texts that holds copies of `parts`.
pub fn to_texts(parts: Vec<&str>) -> (texts: Vec<String>)
    ensures
        texts_view(texts@) == parts_view(parts@),
{
    let mut texts: Vec<String> = Vec::new();
    let mut i: usize = 0;
    while i < parts.len()
        invariant
            i <= parts.len(),
            texts@.len() == i,
            forall|j: int| 0 <= j < i ==> (#[trigger] texts@[j])@ == parts@[j]@,
        decreases parts.len() - i,
    {
        texts.push(parts[i].to_owned());
        i = i + 1;
    }
    assert(texts_view(texts@) =~= parts_view(parts@));
    texts
}

/// The lines of a text, without their ends.
pub fn split_lines(text: &str) -> (parts: Vec<String>)
    ensures
        texts_view(parts@) == lines(text@),
{
    let chars = to_chars(text);
    let mut parts: Vec<String> = Vec::new();
    let mut start: usize = 0;
    assert(text@.skip(0) =~= text@);
    assert(texts_view(parts@) + lines(text@) =~= lines(text@));
    while start < chars.len()
        invariant
            chars@ == text@,
            start <= chars.len(),
            texts_view(parts@) + lines(text@.skip(start as int)) == lines(text@),
        decreases chars.len() - start,
    {
        let ghost rest = text@.skip(start as int);
        let mut end: usize = start;
        while end < chars.len() && chars[end] != '\n'
            invariant
                chars@ == text@,
                start <= end <= chars.len(),
                forall|i: int| start <= i < end ==> text@[i] != '\n',
            decreases chars.len() - end,
        {
            end = end + 1;
        }
        proof {
            lemma_length_before(rest, '\n', end - start);
        }
        let stop: usize = if end < chars.len() && end > start && chars[end - 1] == '\r' {
            end - 1
        } else {
            end
        };
        let part = text.substring_char(start, stop).to_owned();
        let ghost before = texts_view(parts@);
        parts.push(part);
        assert(texts_view(parts@) =~= before.push(part@));
        if end < chars.len() {
            proof {
                let line = rest.take(end - start);
                if end > start {
                    assert(line.last() == text@[end - 1]);
                }
                let kept = if line.len() > 0 && line.last() == '\r' {
                    line.drop_last()
                } else {
                    line
                };
                assert(part@ =~= kept);
                assert(rest.skip(end - start + 1) =~= text@.skip(end + 1));
                assert(texts_view(parts@) + lines(text@.skip(end + 1)) =~= before + lines(rest));
            }
            start = end + 1;
        } else {
            proof {
                assert(part@ =~= rest);
                assert(lines(rest) == seq![rest]);
                assert(text@.skip(end as int).len() == 0);
                assert(texts_view(parts@) + lines(text@.skip(end as int)) =~= before + lines(rest));
            }
            start = end;
        }
    }
    assert(text@.skip(start as int).len() == 0);
    assert(texts_view(parts@) =~= lines(text@));
    parts
}

/// The last `count` lines of a text, with `\n` between them.
pub fn tail(text: &str, count: usize) -> (end: String)
    ensures
        end@ == joined(last_lines(lines(text@), count as int)),
{
    let parts = split_lines(text);
    let first: usize = if parts.len() <= count {
        0
    } else {
        parts.len() - count
    };
    let ghost shown = last_lines(lines(text@), count as int);
    let mut end = String::new();
    let mut i: usize = first;
    assert(joined(shown.take(0)) =~= Seq::empty());
    while i < parts.len()
        invariant
            texts_view(parts@) == lines(text@),
            shown == lines(text@).skip(first as int),
            first <= i <= parts.len(),
            end@ == joined(shown.take(i - first)),
        decreases parts.len() - i,
    {
        proof {
            assert(texts_view(parts@)[i as int] == parts@[i as int]@);
            assert(shown.take(i - first + 1).drop_last() =~= shown.take(i - first));
            assert(shown.take(i - first + 1).last() == parts@[i as int]@);
            reveal_strlit("\n");
            assert("\n"@ =~= seq!['\n']);
        }
        if i > first {
            end.append("\n");
        }
        end.append(parts[i].as_str());
        i = i + 1;
    }
    assert(shown.take(i - first) =~= shown);
    end
}

} // verus!
