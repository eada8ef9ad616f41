//! Text as sequences of characters: searching, splitting, and numbers in decimal, octal and
//! hexadecimal.

use vstd::prelude::*;
use vstd::slice::slice_subrange;

verus! {

broadcast use vstd::string::group_string_axioms;

/// `String::push` appends one character.
pub assume_specification[ String::push ](text: &mut String, character: char)
    ensures
        final(text)@ == old(text)@.push(character),
;

/// The characters of `text`.
pub fn chars_of(text: &str) -> (chars: Vec<char>)
    ensures
        chars@ == text@,
{
    let mut chars: Vec<char> = Vec::new();
    for character in iter: text.chars()
        invariant
            iter.seq() == text@,
            chars@ == text@.take(iter.index()),
    {
        chars.push(character);
    }
    chars
}

/// The text made of `chars`.
pub fn string_of(chars: &[char]) -> (text: String)
    ensures
        text@ == chars@,
{
    let mut text = String::new();
    push_chars(&mut text, chars);
    text
}

/// Appends `chars`.
pub fn push_chars(text: &mut String, chars: &[char])
    ensures
        final(text)@ == old(text)@ + chars@,
{
    let mut i: usize = 0;
    while i < chars.len()
        invariant
            i <= chars@.len(),
            text@ == old(text)@ + chars@.take(i as int),
        decreases chars@.len() - i,
    {
        text.push(chars[i]);
        i = i + 1;
    }
}

/// Whether two texts are the same.
pub fn equals(left: &[char], right: &[char]) -> (same: bool)
    ensures
        same == (left@ == right@),
{
    if left.len() != right.len() {
        return false;
    }
    let mut i: usize = 0;
    while i < left.len()
        invariant
            i <= left@.len(),
            left@.len() == right@.len(),
            forall|j: int| 0 <= j < i ==> left@[j] == right@[j],
        decreases left@.len() - i,
    {
        if left[i] != right[i] {
            return false;
        }
        i = i + 1;
    }
    assert(left@ =~= right@);
    true
}

/// Whether `chars` spell `text`.
pub fn spells(chars: &[char], text: &str) -> (same: bool)
    ensures
        same == (chars@ == text@),
{
    let other = chars_of(text);
    equals(chars, other.as_slice())
}

/// Whether `text` starts with `prefix`.
pub open spec fn has_prefix(text: Seq<char>, prefix: Seq<char>) -> bool {
    prefix.len() <= text.len() && text.take(prefix.len() as int) == prefix
}

/// Whether `text` ends with `suffix`.
pub open spec fn has_suffix(text: Seq<char>, suffix: Seq<char>) -> bool {
    suffix.len() <= text.len() && text.skip(text.len() - suffix.len()) == suffix
}

/// What follows `prefix` in `text`, if `text` starts with it.
pub fn strip_prefix<'a>(text: &'a [char], prefix: &str) -> (rest: Option<&'a [char]>)
    ensures
        match rest {
            Some(found) => has_prefix(text@, prefix@) && found@ == text@.skip(
                prefix@.len() as int,
            ),
            None => !has_prefix(text@, prefix@),
        },
{
    let prefix = chars_of(prefix);
    if prefix.len() > text.len() {
        return None;
    }
    let head = slice_subrange(text, 0, prefix.len());
    assert(head@ =~= text@.take(prefix@.len() as int));
    if equals(head, prefix.as_slice()) {
        let found = slice_subrange(text, prefix.len(), text.len());
        assert(found@ =~= text@.skip(prefix@.len() as int));
        Some(found)
    } else {
        None
    }
}

/// What precedes `suffix` in `text`, if `text` ends with it.
pub fn strip_suffix<'a>(text: &'a [char], suffix: &str) -> (rest: Option<&'a [char]>)
    ensures
        match rest {
            Some(found) => has_suffix(text@, suffix@) && found@ == text@.take(
                text@.len() - suffix@.len(),
            ),
            None => !has_suffix(text@, suffix@),
        },
{
    let suffix = chars_of(suffix);
    if suffix.len() > text.len() {
        return None;
    }
    let at: usize = text.len() - suffix.len();
    let tail = slice_subrange(text, at, text.len());
    assert(tail@ =~= text@.skip(at as int));
    if equals(tail, suffix.as_slice()) {
        let found = slice_subrange(text, 0, at);
        assert(found@ =~= text@.take(at as int));
        Some(found)
    } else {
        None
    }
}

/// Where `character` first stands in `text`, or the length of `text`.
pub open spec fn position(text: Seq<char>, character: char) -> int
    decreases text.len(),
{
    if text.len() == 0 {
        0
    } else if text[0] == character {
        0
    } else {
        1 + position(text.skip(1), character)
    }
}

/// The first position is within the text, and is the first.
pub proof fn lemma_position(text: Seq<char>, character: char)
    ensures
        0 <= position(text, character) <= text.len(),
        position(text, character) < text.len() ==> text[position(text, character)] == character,
        forall|i: int| 0 <= i < position(text, character) ==> #[trigger] text[i] != character,
    decreases text.len(),
{
    if text.len() > 0 && text[0] != character {
        lemma_position(text.skip(1), character);
        assert forall|i: int| 0 <= i < position(text, character) implies #[trigger] text[i]
            != character by {
            if i > 0 {
                assert(text[i] == text.skip(1)[i - 1]);
            }
        }
    }
}

/// A character that `head` lacks is first found right behind it.
pub proof fn lemma_position_behind(head: Seq<char>, character: char, tail: Seq<char>)
    requires
        forall|i: int| 0 <= i < head.len() ==> #[trigger] head[i] != character,
    ensures
        position(head + seq![character] + tail, character) == head.len(),
{
    let text = head + seq![character] + tail;
    lemma_position(text, character);
    let at = position(text, character);
    assert(text[head.len() as int] == character);
    if at < head.len() {
        assert(text[at] == head[at]);
    }
    if at > head.len() {
        assert(text[head.len() as int] != character);
    }
}

/// Where `character` first stands in `text`, or the length of `text`.
pub fn find_char(text: &[char], character: char) -> (found: usize)
    ensures
        found == position(text@, character),
        found <= text@.len(),
        found < text@.len() ==> text@[found as int] == character,
{
    let mut i: usize = 0;
    assert(text@.skip(0) =~= text@);
    while i < text.len()
        invariant
            i <= text@.len(),
            position(text@, character) == i + position(text@.skip(i as int), character),
        decreases text@.len() - i,
    {
        if text[i] == character {
            return i;
        }
        assert(text@.skip(i as int).skip(1) =~= text@.skip(i + 1));
        i = i + 1;
    }
    i
}

/// The pieces of `text` between occurrences of `separator`.
pub open spec fn split_on(text: Seq<char>, separator: char) -> Seq<Seq<char>>
    decreases text.len(),
{
    let at = position(text, separator);
    if 0 <= at < text.len() {
        seq![text.take(at)] + split_on(text.skip(at + 1), separator)
    } else {
        seq![text]
    }
}

/// The views of several texts.
pub open spec fn views(texts: Seq<Vec<char>>) -> Seq<Seq<char>> {
    Seq::new(texts.len(), |i: int| texts[i]@)
}

/// An owned copy.
pub fn copy_chars(chars: &[char]) -> (copy: Vec<char>)
    ensures
        copy@ == chars@,
{
    let mut copy: Vec<char> = Vec::with_capacity(chars.len());
    let mut i: usize = 0;
    while i < chars.len()
        invariant
            i <= chars@.len(),
            copy@ == chars@.take(i as int),
        decreases chars@.len() - i,
    {
        copy.push(chars[i]);
        i = i + 1;
    }
    copy
}

/// Splits `text` at every `separator`.
pub fn split(text: &[char], separator: char) -> (pieces: Vec<Vec<char>>)
    ensures
        views(pieces@) == split_on(text@, separator),
        pieces@.len() > 0,
{
    let mut pieces: Vec<Vec<char>> = Vec::new();
    let mut start: usize = 0;
    assert(text@.skip(0) =~= text@);
    assert(views(pieces@) + split_on(text@, separator) =~= split_on(text@, separator));
    loop
        invariant
            start <= text@.len(),
            views(pieces@) + split_on(text@.skip(start as int), separator) == split_on(
                text@,
                separator,
            ),
        decreases text@.len() - start,
    {
        let rest = slice_subrange(text, start, text.len());
        assert(rest@ =~= text@.skip(start as int));
        let at: usize = find_char(rest, separator);
        let piece = slice_subrange(rest, 0, at);
        let ghost before = pieces@;
        pieces.push(copy_chars(piece));
        assert(views(pieces@) =~= views(before).push(piece@));
        if at == rest.len() {
            assert(piece@ =~= rest@);
            assert(views(pieces@) =~= split_on(text@, separator));
            return pieces;
        }
        assert(piece@ =~= rest@.take(at as int));
        assert(rest@.skip(at + 1) =~= text@.skip(start + at + 1));
        assert(views(pieces@) + split_on(text@.skip(start + at + 1), separator) =~= split_on(
            text@,
            separator,
        ));
        start = start + at + 1;
    }
}

/// `line` without the carriage return that ends it.
pub open spec fn without_return(line: Seq<char>) -> Seq<char> {
    if line.len() > 0 && line.last() == '\r' {
        line.drop_last()
    } else {
        line
    }
}

/// The lines of `text`: each ends at a line feed, with or without a carriage return before it;
/// the last one need not end.
pub open spec fn lines_of(text: Seq<char>) -> Seq<Seq<char>> {
    let pieces = split_on(text, '\n');
    let ended = Seq::new((pieces.len() - 1) as nat, |i: int| without_return(pieces[i]));
    if pieces.last().len() == 0 {
        ended
    } else {
        ended.push(pieces.last())
    }
}

/// Splits `text` into lines.
pub fn lines(text: &[char]) -> (lines: Vec<Vec<char>>)
    ensures
        views(lines@) == lines_of(text@),
{
    let mut pieces = split(text, '\n');
    let ghost all = pieces@;
    let count: usize = pieces.len() - 1;
    let mut i: usize = 0;
    let mut lines: Vec<Vec<char>> = Vec::new();
    while i < count
        invariant
            count + 1 == pieces@.len(),
            pieces@ == all,
            i <= count,
            lines@.len() == i,
            forall|j: int| 0 <= j < i ==> (#[trigger] lines@[j])@ == without_return(all[j]@),
        decreases count - i,
    {
        let piece = &pieces[i];
        let length: usize = piece.len();
        let line = if length > 0 && piece[length - 1] == '\r' {
            let kept = slice_subrange(piece.as_slice(), 0, length - 1);
            assert(kept@ =~= piece@.drop_last());
            copy_chars(kept)
        } else {
            copy_chars(piece.as_slice())
        };
        lines.push(line);
        i = i + 1;
    }
    let ghost ended = lines@;
    if pieces[count].len() > 0 {
        let last = copy_chars(pieces[count].as_slice());
        lines.push(last);
    }
    assert(views(all)[count as int] == all[count as int]@);
    assert(views(lines@) =~= lines_of(text@)) by {
        assert(views(all).last() == all.last()@);
        assert forall|j: int| 0 <= j < count implies #[trigger] views(lines@)[j] == lines_of(
            text@,
        )[j] by {
            assert(lines@[j] == ended[j]);
            assert(views(all)[j] == all[j]@);
        }
    }
    lines
}

/// Whether Unicode counts `character` as white space.
pub open spec fn is_space(character: char) -> bool {
    ||| '\u{9}' <= character <= '\u{d}'
    ||| character == ' '
    ||| character == '\u{85}'
    ||| character == '\u{a0}'
    ||| character == '\u{1680}'
    ||| '\u{2000}' <= character <= '\u{200a}'
    ||| character == '\u{2028}'
    ||| character == '\u{2029}'
    ||| character == '\u{202f}'
    ||| character == '\u{205f}'
    ||| character == '\u{3000}'
}

/// Whether Unicode counts `character` as white space.
pub fn space(character: char) -> (white: bool)
    ensures
        white == is_space(character),
{
    ('\u{9}' <= character && character <= '\u{d}') || character == ' ' || character == '\u{85}'
        || character == '\u{a0}' || character == '\u{1680}' || ('\u{2000}' <= character && character
        <= '\u{200a}') || character == '\u{2028}' || character == '\u{2029}' || character
        == '\u{202f}' || character == '\u{205f}' || character == '\u{3000}'
}

/// How many characters at the start of `text` are white space, or are not.
pub open spec fn leading(text: Seq<char>, white: bool) -> int
    decreases text.len(),
{
    if text.len() > 0 && is_space(text[0]) == white {
        1 + leading(text.skip(1), white)
    } else {
        0
    }
}

/// The run at the start is within the text, and ends where its kind does.
pub proof fn lemma_leading(text: Seq<char>, white: bool)
    ensures
        0 <= leading(text, white) <= text.len(),
        leading(text, white) < text.len() ==> is_space(text[leading(text, white)]) != white,
        forall|i: int| 0 <= i < leading(text, white) ==> is_space(#[trigger] text[i]) == white,
    decreases text.len(),
{
    if text.len() > 0 && is_space(text[0]) == white {
        lemma_leading(text.skip(1), white);
        assert forall|i: int| 0 <= i < leading(text, white) implies is_space(#[trigger] text[i])
            == white by {
            if i > 0 {
                assert(text[i] == text.skip(1)[i - 1]);
            }
        }
    }
}

/// How many characters at the start of `text` are white space, or are not.
pub fn count_leading(text: &[char], white: bool) -> (count: usize)
    ensures
        count == leading(text@, white),
        count <= text@.len(),
{
    let mut i: usize = 0;
    assert(text@.skip(0) =~= text@);
    while i < text.len()
        invariant
            i <= text@.len(),
            leading(text@, white) == i + leading(text@.skip(i as int), white),
        decreases text@.len() - i,
    {
        if space(text[i]) != white {
            return i;
        }
        assert(text@.skip(i as int).skip(1) =~= text@.skip(i + 1));
        i = i + 1;
    }
    i
}

/// `text` without the white space at its start.
pub open spec fn trimmed_start(text: Seq<char>) -> Seq<char> {
    text.skip(leading(text, true))
}

/// `text` without the white space at its start.
pub fn trim_start(text: &[char]) -> (rest: &[char])
    ensures
        rest@ == trimmed_start(text@),
{
    let rest = slice_subrange(text, count_leading(text, true), text.len());
    assert(rest@ =~= trimmed_start(text@));
    rest
}

/// `text` without the white space at its end.
pub open spec fn trimmed_end(text: Seq<char>) -> Seq<char>
    decreases text.len(),
{
    if text.len() > 0 && is_space(text.last()) {
        trimmed_end(text.drop_last())
    } else {
        text
    }
}

/// `text` without the white space around it.
pub open spec fn trimmed(text: Seq<char>) -> Seq<char> {
    trimmed_end(trimmed_start(text))
}

/// `text` without the white space around it.
pub fn trim(text: &[char]) -> (rest: &[char])
    ensures
        rest@ == trimmed(text@),
{
    let start = trim_start(text);
    let mut end: usize = start.len();
    assert(start@.take(end as int) =~= start@);
    while end > 0 && space(start[end - 1])
        invariant
            end <= start@.len(),
            trimmed_end(start@.take(end as int)) == trimmed(text@),
        decreases end,
    {
        assert(start@.take(end as int).drop_last() =~= start@.take(end - 1));
        end = end - 1;
    }
    let rest = slice_subrange(start, 0, end);
    assert(rest@ =~= start@.take(end as int));
    rest
}

/// The words of `text`, which white space separates.
pub open spec fn words_of(text: Seq<char>) -> Seq<Seq<char>>
    decreases text.len(),
    via words_of_decreases
{
    let rest = trimmed_start(text);
    if rest.len() == 0 {
        Seq::empty()
    } else {
        let length = leading(rest, false);
        seq![rest.take(length)] + words_of(rest.skip(length))
    }
}

#[via_fn]
proof fn words_of_decreases(text: Seq<char>) {
    lemma_leading(text, true);
    let rest = trimmed_start(text);
    lemma_leading(rest, false);
    if rest.len() > 0 {
        assert(rest[0] == text[leading(text, true)]);
        assert(leading(rest, false) > 0);
    }
}

/// Splits `text` into words.
pub fn words(text: &[char]) -> (words: Vec<Vec<char>>)
    ensures
        views(words@) == words_of(text@),
{
    let mut words: Vec<Vec<char>> = Vec::new();
    let mut start: usize = 0;
    assert(text@.skip(0) =~= text@);
    assert(views(words@) + words_of(text@) =~= words_of(text@));
    loop
        invariant
            start <= text@.len(),
            views(words@) + words_of(text@.skip(start as int)) == words_of(text@),
        decreases text@.len() - start,
    {
        let tail = slice_subrange(text, start, text.len());
        assert(tail@ =~= text@.skip(start as int));
        let blanks: usize = count_leading(tail, true);
        let rest = slice_subrange(tail, blanks, tail.len());
        assert(rest@ =~= trimmed_start(tail@));
        if rest.len() == 0 {
            assert(views(words@) =~= words_of(text@));
            return words;
        }
        let length: usize = count_leading(rest, false);
        let word = slice_subrange(rest, 0, length);
        assert(word@ =~= rest@.take(length as int));
        let ghost before = words@;
        words.push(copy_chars(word));
        assert(views(words@) =~= views(before).push(word@));
        assert(rest@.skip(length as int) =~= text@.skip(start + blanks + length));
        assert(views(words@) + words_of(text@.skip(start + blanks + length)) =~= words_of(text@));
        proof {
            lemma_leading(tail@, true);
            lemma_leading(rest@, false);
            assert(rest@[0] == tail@[blanks as int]);
        }
        start = start + blanks + length;
    }
}

/// Whether `needle` stands at `at` in `text`.
pub open spec fn occurs_at(text: Seq<char>, needle: Seq<char>, at: int) -> bool {
    0 <= at && at + needle.len() <= text.len() && text.subrange(at, at + needle.len()) == needle
}

/// Where `needle` first stands in `text` from `from` on.
pub open spec fn find_from(text: Seq<char>, needle: Seq<char>, from: int) -> Option<int>
    decreases text.len() - from + 1,
{
    if from < 0 || from + needle.len() > text.len() {
        None
    } else if occurs_at(text, needle, from) {
        Some(from)
    } else {
        find_from(text, needle, from + 1)
    }
}

/// Where `needle` first stands in `text`.
pub open spec fn find_in(text: Seq<char>, needle: Seq<char>) -> Option<int> {
    find_from(text, needle, 0)
}

/// Where `needle` first stands in `text`.
pub fn find_text(text: &[char], needle: &[char]) -> (found: Option<usize>)
    ensures
        match found {
            Some(at) => find_in(text@, needle@) == Some(at as int) && at + needle.len() <= text.len(),
            None => find_in(text@, needle@) is None,
        },
{
    if needle.len() > text.len() {
        return None;
    }
    let last: usize = text.len() - needle.len();
    let mut i: usize = 0;
    loop
        invariant
            i <= last,
            last + needle.len() == text.len(),
            find_from(text@, needle@, 0) == find_from(text@, needle@, i as int),
        decreases last - i,
    {
        let here = slice_subrange(text, i, i + needle.len());
        if equals(here, needle) {
            return Some(i);
        }
        if i == last {
            assert(find_from(text@, needle@, i + 1) is None);
            return None;
        }
        i = i + 1;
    }
}

/// Whether `needle` stands somewhere in `text`.
pub fn contains(text: &[char], needle: &str) -> (found: bool)
    ensures
        found == (find_in(text@, needle@) is Some),
{
    let needle = chars_of(needle);
    find_text(text, needle.as_slice()).is_some()
}

/// Whether `character` is a decimal digit.
pub open spec fn is_digit(character: char) -> bool {
    '0' <= character <= '9'
}

/// Whether `text` consists of decimal digits.
pub open spec fn all_digits(text: Seq<char>) -> bool {
    forall|i: int| 0 <= i < text.len() ==> is_digit(#[trigger] text[i])
}

/// The number that `digits` denote.
pub open spec fn digits_value(digits: Seq<char>) -> int
    decreases digits.len(),
{
    if digits.len() == 0 {
        0
    } else {
        10 * digits_value(digits.drop_last()) + (digits.last() as int - '0' as int)
    }
}

/// The decimal digits of `number`, without leading zeros.
pub open spec fn decimal(number: int) -> Seq<char>
    decreases number,
{
    if number < 10 {
        seq![(48 + number) as char]
    } else {
        decimal(number / 10).push((48 + number % 10) as char)
    }
}

/// Law: the digits of a number denote it, and there is no superfluous zero among them.
pub proof fn law_decimal_denotes_its_number(number: int)
    requires
        0 <= number,
    ensures
        digits_value(decimal(number)) == number,
        all_digits(decimal(number)),
        decimal(number).len() >= 1,
        decimal(number).len() > 1 ==> decimal(number)[0] != '0',
    decreases number,
{
    if number < 10 {
        let text = decimal(number);
        assert(text.drop_last() =~= Seq::<char>::empty());
        assert(digits_value(text.drop_last()) == 0);
    } else {
        law_decimal_denotes_its_number(number / 10);
        assert(decimal(number).drop_last() =~= decimal(number / 10));
        assert(decimal(number)[0] == decimal(number / 10)[0]);
        if number / 10 < 10 {
            let first = number / 10;
            assert(decimal(first)[0] == (48 + first) as char);
            assert((48 + first) as char as int == 48 + first);
        } else {
            law_decimal_denotes_its_number(number / 10 / 10);
        }
    }
}

/// Law: different numbers have different digits.
pub proof fn law_decimal_is_injective(left: int, right: int)
    requires
        0 <= left,
        0 <= right,
        decimal(left) == decimal(right),
    ensures
        left == right,
{
    law_decimal_denotes_its_number(left);
    law_decimal_denotes_its_number(right);
}

/// The character for a decimal digit.
fn digit_char(digit: u64) -> (character: char)
    requires
        digit < 10,
    ensures
        character == (48 + digit) as char,
{
    (48u8 + digit as u8) as char
}

/// Appends `number` in decimal.
pub fn push_decimal(text: &mut String, number: u64)
    ensures
        final(text)@ == old(text)@ + decimal(number as int),
    decreases number,
{
    if number < 10 {
        text.push(digit_char(number));
    } else {
        push_decimal(text, number / 10);
        text.push(digit_char(number % 10));
    }
}

/// `number` in decimal.
pub fn decimal_text(number: u64) -> (text: String)
    ensures
        text@ == decimal(number as int),
{
    let mut text = String::new();
    push_decimal(&mut text, number);
    text
}

/// A digit of a number in a base up to sixteen.
pub open spec fn base_digit(digit: int) -> char {
    if digit < 10 {
        (48 + digit) as char
    } else {
        (87 + digit) as char
    }
}

/// The last `width` digits of `number` in `base`.
pub open spec fn base_digits(number: int, base: int, width: nat) -> Seq<char>
    decreases width,
{
    if width == 0 {
        Seq::empty()
    } else {
        base_digits(number / base, base, (width - 1) as nat).push(base_digit(number % base))
    }
}

/// Appends the last `width` digits of `number` in `base`.
pub fn push_base(text: &mut String, number: u64, base: u64, width: u64)
    requires
        2 <= base <= 16,
    ensures
        final(text)@ == old(text)@ + base_digits(number as int, base as int, width as nat),
    decreases width,
{
    if width > 0 {
        push_base(text, number / base, base, width - 1);
        let digit: u8 = (number % base) as u8;
        if digit < 10 {
            text.push((48u8 + digit) as char);
        } else {
            text.push((87u8 + digit) as char);
        }
    }
}

/// `number` in decimal with zeros in front, up to at least three digits.
pub open spec fn decimal3(number: int) -> Seq<char> {
    if number < 1000 {
        base_digits(number, 10, 3)
    } else {
        decimal(number)
    }
}

/// Appends `number` in decimal with zeros in front, up to at least three digits.
pub fn push_decimal3(text: &mut String, number: u64)
    ensures
        final(text)@ == old(text)@ + decimal3(number as int),
{
    if number < 1000 {
        push_base(text, number, 10, 3);
    } else {
        push_decimal(text, number);
    }
}

/// A longer text of digits denotes no smaller number than its start.
proof fn lemma_digits_value_grows(digits: Seq<char>, count: int)
    requires
        all_digits(digits),
        0 <= count <= digits.len(),
    ensures
        0 <= digits_value(digits.take(count)) <= digits_value(digits),
    decreases digits.len(),
{
    if count == digits.len() {
        assert(digits.take(count) =~= digits);
        if count > 0 {
            lemma_digits_value_grows(digits.drop_last(), 0);
        }
        if digits.len() > 0 {
            assert(is_digit(digits.last()));
            lemma_digits_value_grows(digits.drop_last(), digits.len() - 1);
        }
    } else {
        lemma_digits_value_grows(digits.drop_last(), count);
        assert(digits.drop_last().take(count) =~= digits.take(count));
        assert(is_digit(digits.last()));
    }
}

/// Whether `text` consists of decimal digits.
pub fn only_digits(text: &[char]) -> (digits: bool)
    ensures
        digits == all_digits(text@),
{
    let mut i: usize = 0;
    while i < text.len()
        invariant
            i <= text@.len(),
            forall|j: int| 0 <= j < i ==> is_digit(#[trigger] text@[j]),
        decreases text@.len() - i,
    {
        if !('0' <= text[i] && text[i] <= '9') {
            assert(!is_digit(text@[i as int]));
            return false;
        }
        i = i + 1;
    }
    true
}

/// The number up to `limit` that `digits` denote.
pub fn parse_digits(digits: &[char], limit: u64) -> (number: Option<u64>)
    ensures
        match number {
            Some(value) => {
                &&& digits@.len() > 0
                &&& all_digits(digits@)
                &&& value == digits_value(digits@)
                &&& value <= limit
            },
            None => digits@.len() == 0 || !all_digits(digits@) || digits_value(digits@) > limit,
        },
{
    if digits.len() == 0 || !only_digits(digits) {
        return None;
    }
    let mut value: u64 = 0;
    let mut i: usize = 0;
    assert(digits@.take(0) =~= Seq::<char>::empty());
    while i < digits.len()
        invariant
            i <= digits@.len(),
            all_digits(digits@),
            value == digits_value(digits@.take(i as int)),
            value <= limit,
        decreases digits@.len() - i,
    {
        assert(is_digit(digits@[i as int]));
        let digit: u64 = digits[i] as u64 - 48;
        proof {
            assert(digits@.take(i + 1).drop_last() =~= digits@.take(i as int));
            lemma_digits_value_grows(digits@, i + 1);
        }
        if value > (u64::MAX - digit) / 10 || value * 10 + digit > limit {
            return None;
        }
        value = value * 10 + digit;
        i = i + 1;
    }
    assert(digits@.take(digits@.len() as int) =~= digits@);
    Some(value)
}

/// `text` without a plus sign at its start.
pub open spec fn without_plus(text: Seq<char>) -> Seq<char> {
    if text.len() > 0 && text[0] == '+' {
        text.skip(1)
    } else {
        text
    }
}

/// Whether `text` is an unsigned number up to `limit`, with or without a plus sign.
pub open spec fn is_unsigned(text: Seq<char>, limit: int) -> bool {
    let digits = without_plus(text);
    digits.len() > 0 && all_digits(digits) && digits_value(digits) <= limit
}

/// The unsigned number up to `limit` that `text` denotes, with or without a plus sign.
pub fn parse_unsigned(text: &[char], limit: u64) -> (number: Option<u64>)
    ensures
        match number {
            Some(value) => is_unsigned(text@, limit as int) && value == digits_value(
                without_plus(text@),
            ) && value <= limit,
            None => !is_unsigned(text@, limit as int),
        },
{
    if text.len() > 0 && text[0] == '+' {
        let digits = slice_subrange(text, 1, text.len());
        assert(digits@ =~= text@.skip(1));
        parse_digits(digits, limit)
    } else {
        parse_digits(text, limit)
    }
}

/// Whether `text` is a number in decimal without superfluous zeros.
pub open spec fn is_canonical(text: Seq<char>) -> bool {
    text.len() > 0 && all_digits(text) && (text.len() > 1 ==> text[0] != '0')
}

/// Whether `text` is a number in decimal without superfluous zeros.
pub fn canonical(text: &[char]) -> (canonical: bool)
    ensures
        canonical == is_canonical(text@),
{
    text.len() > 0 && only_digits(text) && !(text.len() > 1 && text[0] == '0')
}

/// Law: a canonical text is the decimal of the number that it denotes.
pub proof fn law_canonical_is_decimal(text: Seq<char>)
    requires
        is_canonical(text),
    ensures
        decimal(digits_value(text)) == text,
        digits_value(text) >= 0,
    decreases text.len(),
{
    let last = text.last();
    assert(is_digit(last));
    if text.len() == 1 {
        assert(text.drop_last() =~= Seq::<char>::empty());
        assert(digits_value(text.drop_last()) == 0);
        assert(decimal(digits_value(text)) =~= text);
    } else {
        let head = text.drop_last();
        assert(is_canonical(head)) by {
            assert forall|i: int| 0 <= i < head.len() implies is_digit(#[trigger] head[i]) by {
                assert(is_digit(text[i]));
            }
        }
        law_canonical_is_decimal(head);
        assert(digits_value(head) >= 1) by {
            if digits_value(head) == 0 {
                assert(decimal(0)[0] == '0');
                assert(head[0] == text[0]);
            }
        }
        let value = digits_value(text);
        assert(value / 10 == digits_value(head) && value % 10 == last as int - 48);
        assert(decimal(value) =~= text);
    }
}

/// The strings' views.
pub open spec fn string_views(texts: Seq<String>) -> Seq<Seq<char>> {
    Seq::new(texts.len(), |i: int| texts[i]@)
}

/// Several texts with `separator` between them.
pub open spec fn joined_with(texts: Seq<Seq<char>>, separator: Seq<char>) -> Seq<char>
    decreases texts.len(),
{
    if texts.len() == 0 {
        Seq::empty()
    } else if texts.len() == 1 {
        texts[0]
    } else {
        joined_with(texts.drop_last(), separator) + separator + texts.last()
    }
}

/// Joins several texts with `separator` between them.
pub fn join(texts: &Vec<String>, separator: &str) -> (text: String)
    ensures
        text@ == joined_with(string_views(texts@), separator@),
{
    let mut text = String::new();
    let mut i: usize = 0;
    let ghost all = string_views(texts@);
    assert(all.take(0) =~= Seq::<Seq<char>>::empty());
    while i < texts.len()
        invariant
            i <= texts@.len(),
            all == string_views(texts@),
            text@ == joined_with(all.take(i as int), separator@),
        decreases texts@.len() - i,
    {
        proof {
            assert(all.take(i + 1).drop_last() =~= all.take(i as int));
            assert(all.take(i + 1).last() == texts@[i as int]@);
        }
        if i > 0 {
            text.append(separator);
        }
        text.append(texts[i].as_str());
        assert(text@ =~= joined_with(all.take(i + 1), separator@)) by {
            reveal_with_fuel(joined_with, 2);
        }
        i = i + 1;
    }
    assert(all.take(texts@.len() as int) =~= all);
    text
}

/// Law: the start and the end of a text are what they are put together from.
pub proof fn law_prefixes_and_suffixes(text: Seq<char>, part: Seq<char>, other: Seq<char>)
    ensures
        has_prefix(part + other, part),
        has_suffix(other + part, part),
        has_prefix(text, part) ==> text == part + text.skip(part.len() as int),
        has_suffix(text, part) ==> text == text.take(text.len() - part.len()) + part,
{
    assert((part + other).take(part.len() as int) =~= part);
    assert((other + part).skip((other + part).len() - part.len()) =~= part);
    if has_prefix(text, part) {
        assert(text =~= part + text.skip(part.len() as int));
    }
    if has_suffix(text, part) {
        assert(text =~= text.take(text.len() - part.len()) + part);
    }
}

/// Law: what comes before the first separator is the first piece, and what comes behind it is
/// split in the same way; a text without the separator is one piece.
pub proof fn law_split_piece_by_piece(first: Seq<char>, separator: char, rest: Seq<char>)
    requires
        forall|i: int| 0 <= i < first.len() ==> #[trigger] first[i] != separator,
    ensures
        split_on(first, separator) == seq![first],
        split_on(first + seq![separator] + rest, separator) == seq![first] + split_on(
            rest,
            separator,
        ),
{
    let text = first + seq![separator] + rest;
    lemma_position(first, separator);
    lemma_position_behind(first, separator, rest);
    assert(text.take(first.len() as int) =~= first);
    assert(text.skip(first.len() as int + 1) =~= rest);
}

/// Law: a text has the lines that its line feeds end, each without the carriage return before the
/// line feed, and what follows the last line feed, if anything does.
pub proof fn law_lines_one_by_one(line: Seq<char>, rest: Seq<char>)
    requires
        forall|i: int| 0 <= i < line.len() ==> #[trigger] line[i] != '\n',
    ensures
        lines_of(line + seq!['\n'] + rest) == seq![
            if line.len() > 0 && line.last() == '\r' {
                line.drop_last()
            } else {
                line
            },
        ] + lines_of(rest),
        line.len() > 0 ==> lines_of(line) == seq![line],
        lines_of(Seq::empty()) == Seq::<Seq<char>>::empty(),
{
    let none = Seq::<char>::empty();
    law_split_piece_by_piece(line, '\n', rest);
    law_split_piece_by_piece(none, '\n', none);
    let text = line + seq!['\n'] + rest;
    let pieces = split_on(rest, '\n');
    let all = split_on(text, '\n');
    assert(pieces.len() >= 1);
    assert(all == seq![line] + pieces);
    assert(all.last() == pieces.last());
    assert(lines_of(text) =~= seq![without_return(line)] + lines_of(rest)) by {
        assert forall|i: int| 0 <= i < pieces.len() implies all[i + 1] == #[trigger] pieces[i] by {}
    }
    if line.len() > 0 {
        assert(lines_of(line) =~= seq![line]);
    }
    assert(lines_of(none) =~= Seq::<Seq<char>>::empty());
}

/// A run of one kind in front of the other kind.
proof fn lemma_leading_run(run: Seq<char>, rest: Seq<char>, white: bool)
    requires
        forall|i: int| 0 <= i < run.len() ==> is_space(#[trigger] run[i]) == white,
        rest.len() > 0 ==> is_space(rest[0]) != white,
    ensures
        leading(run + rest, white) == run.len(),
{
    let text = run + rest;
    lemma_leading(text, white);
    let at = leading(text, white);
    if at < run.len() {
        assert(text[at] == run[at]);
    }
    if at > run.len() {
        assert(text[run.len() as int] == rest[0]);
    }
}

/// Law: white space around a text is dropped, as much of it as there is, and nothing else.
pub proof fn law_trimming_drops_only_space(before: Seq<char>, text: Seq<char>, after: Seq<char>)
    requires
        forall|i: int| 0 <= i < before.len() ==> is_space(#[trigger] before[i]),
        forall|i: int| 0 <= i < after.len() ==> is_space(#[trigger] after[i]),
        text.len() > 0,
        !is_space(text[0]),
        !is_space(text.last()),
    ensures
        trimmed(before + text + after) == text,
        trimmed_start(before + text + after) == text + after,
    decreases after.len(),
{
    let all = before + text + after;
    assert(all =~= before + (text + after));
    lemma_leading_run(before, text + after, true);
    assert(all.skip(before.len() as int) =~= text + after);
    lemma_trimmed_end(text, after);
}

/// White space at the end is dropped.
proof fn lemma_trimmed_end(text: Seq<char>, after: Seq<char>)
    requires
        forall|i: int| 0 <= i < after.len() ==> is_space(#[trigger] after[i]),
        text.len() > 0,
        !is_space(text.last()),
    ensures
        trimmed_end(text + after) == text,
    decreases after.len(),
{
    let all = text + after;
    if after.len() > 0 {
        assert(all.last() == after[after.len() - 1]);
        assert(all.drop_last() =~= text + after.drop_last());
        lemma_trimmed_end(text, after.drop_last());
    } else {
        assert(all =~= text);
    }
}

/// Law: a text has the words that white space separates, however much of it stands between and
/// around them.
pub proof fn law_words_one_by_one(before: Seq<char>, word: Seq<char>, rest: Seq<char>)
    requires
        forall|i: int| 0 <= i < before.len() ==> is_space(#[trigger] before[i]),
        word.len() > 0,
        forall|i: int| 0 <= i < word.len() ==> !is_space(#[trigger] word[i]),
        rest.len() > 0 ==> is_space(rest[0]),
    ensures
        words_of(before + word + rest) == seq![word] + words_of(rest),
        words_of(before) == Seq::<Seq<char>>::empty(),
{
    let text = before + word + rest;
    let none = Seq::<char>::empty();
    assert(text =~= before + (word + rest));
    assert((word + rest)[0] == word[0]);
    lemma_leading_run(before, word + rest, true);
    assert(text.skip(before.len() as int) =~= word + rest);
    lemma_leading_run(word, rest, false);
    assert((word + rest).take(word.len() as int) =~= word);
    assert((word + rest).skip(word.len() as int) =~= rest);
    assert(before =~= before + none);
    lemma_leading_run(before, none, true);
    assert(before.skip(before.len() as int) =~= none);
}

/// Law: a text is found where it first occurs, and not found exactly if it occurs nowhere.
pub proof fn law_first_occurrence_is_found(text: Seq<char>, needle: Seq<char>, at: int)
    ensures
        find_in(text, needle) is None <==> forall|i: int|
            0 <= i && i + needle.len() <= text.len() ==> #[trigger] text.subrange(
                i,
                i + needle.len(),
            ) != needle,
        find_in(text, needle) == Some(at) <==> {
            &&& 0 <= at
            &&& at + needle.len() <= text.len()
            &&& text.subrange(at, at + needle.len()) == needle
            &&& forall|i: int|
                0 <= i < at ==> #[trigger] text.subrange(i, i + needle.len()) != needle
        },
{
    lemma_find_from(text, needle, 0);
    match find_in(text, needle) {
        Some(found) => {
            assert(text.subrange(found, found + needle.len()) == needle);
            if 0 <= at < found {
                assert(!occurs_at(text, needle, at));
            }
        },
        None => {
            assert forall|i: int| 0 <= i && i + needle.len() <= text.len() implies
                #[trigger] text.subrange(i, i + needle.len()) != needle by {
                assert(!occurs_at(text, needle, i));
            }
            if 0 <= at {
                assert(!occurs_at(text, needle, at));
            }
        },
    }
    if find_in(text, needle) is Some {
        assert forall|i: int| 0 <= i < find_in(text, needle)->0 implies #[trigger] text.subrange(
            i,
            i + needle.len(),
        ) != needle by {
            assert(!occurs_at(text, needle, i));
        }
    }
}

/// What looking from some place on finds.
proof fn lemma_find_from(text: Seq<char>, needle: Seq<char>, from: int)
    requires
        0 <= from,
    ensures
        match find_from(text, needle, from) {
            Some(found) => {
                &&& from <= found
                &&& occurs_at(text, needle, found)
                &&& forall|i: int| from <= i < found ==> !#[trigger] occurs_at(text, needle, i)
            },
            None => forall|i: int| from <= i ==> !#[trigger] occurs_at(text, needle, i),
        },
    decreases text.len() - from + 1,
{
    if from + needle.len() <= text.len() && !occurs_at(text, needle, from) {
        lemma_find_from(text, needle, from + 1);
    }
}

/// Law: a number is read from its digits, with or without a plus sign, exactly up to the limit.
pub proof fn law_unsigned_numbers(number: int, limit: int, text: Seq<char>)
    requires
        0 <= number,
    ensures
        is_unsigned(decimal(number), limit) <==> number <= limit,
        is_unsigned(seq!['+'] + decimal(number), limit) <==> number <= limit,
        digits_value(without_plus(decimal(number))) == number,
        digits_value(without_plus(seq!['+'] + decimal(number))) == number,
        is_unsigned(text, limit) ==> text.len() > 0 && (text[0] == '+' || '0' <= text[0] <= '9')
            && forall|i: int| 1 <= i < text.len() ==> '0' <= #[trigger] text[i] <= '9',
{
    law_decimal_denotes_its_number(number);
    assert(is_digit(decimal(number)[0]));
    assert((seq!['+'] + decimal(number)).skip(1) =~= decimal(number));
    if is_unsigned(text, limit) {
        let digits = without_plus(text);
        assert forall|i: int| 1 <= i < text.len() implies '0' <= #[trigger] text[i] <= '9' by {
            if text[0] == '+' {
                assert(is_digit(digits[i - 1]));
            } else {
                assert(is_digit(digits[i]));
            }
        }
        assert(is_digit(digits[0]));
    }
}

/// Law: a number is canonical exactly if it is the decimal of a number.
pub proof fn law_canonical_numbers(text: Seq<char>, number: int)
    requires
        0 <= number,
    ensures
        is_canonical(decimal(number)),
        is_canonical(text) ==> text == decimal(digits_value(text)) && digits_value(text) >= 0,
{
    law_decimal_denotes_its_number(number);
    if is_canonical(text) {
        law_canonical_is_decimal(text);
    }
}

/// The number that digits in `base` denote.
pub open spec fn base_value(digits: Seq<char>, base: int) -> int
    decreases digits.len(),
{
    if digits.len() == 0 {
        0
    } else {
        let last = digits.last();
        base * base_value(digits.drop_last(), base) + (if '0' <= last <= '9' {
            last as int - '0' as int
        } else {
            10 + last as int - 'a' as int
        })
    }
}

/// `base` to the power of `width`.
pub open spec fn power(base: int, width: nat) -> int
    decreases width,
{
    if width == 0 {
        1
    } else {
        base * power(base, (width - 1) as nat)
    }
}

/// Law: the digits of a number in a base denote it, as far as they reach, in exactly as many
/// characters as were asked for.
pub proof fn law_base_digits_denote_their_number(number: int, base: int, width: nat)
    requires
        2 <= base <= 16,
        0 <= number < power(base, width),
    ensures
        base_digits(number, base, width).len() == width,
        base_value(base_digits(number, base, width), base) == number,
    decreases width,
{
    if width > 0 {
        let rest = number / base;
        let last = number % base;
        let smaller = power(base, (width - 1) as nat);
        assert(number == base * rest + last && 0 <= last < base) by (nonlinear_arith)
            requires
                2 <= base,
                rest == number / base,
                last == number % base,
        ;
        assert(0 <= rest < smaller) by (nonlinear_arith)
            requires
                2 <= base,
                0 <= number < base * smaller,
                number == base * rest + last,
                0 <= last < base,
        ;
        law_base_digits_denote_their_number(rest, base, (width - 1) as nat);
        let digits = base_digits(number, base, width);
        assert(digits.drop_last() =~= base_digits(rest, base, (width - 1) as nat));
        assert(digits.last() == base_digit(last));
        if last < 10 {
            assert(digits.last() == (48 + last) as char);
        } else {
            assert(digits.last() == (87 + last) as char);
        }
    }
}

/// Law: texts are joined in order with the separator between any two of them and nowhere else.
pub proof fn law_joining_goes_on(texts: Seq<Seq<char>>, more: Seq<char>, separator: Seq<char>)
    ensures
        joined_with(Seq::empty(), separator) == Seq::<char>::empty(),
        joined_with(seq![more], separator) == more,
        texts.len() > 0 ==> joined_with(texts.push(more), separator) == joined_with(
            texts,
            separator,
        ) + separator + more,
{
    assert(texts.push(more).drop_last() =~= texts);
}

} // verus!
