//! Text as sequences of characters.

use vstd::prelude::*;

verus! {

/// `String::push` appends one character.
pub assume_specification[ String::push ](string: &mut String, ch: char)
    ensures
        final(string)@ == old(string)@.push(ch),
;

/// The characters of a string slice.
pub fn chars_of(text: &str) -> (chars: Vec<char>)
    ensures
        chars@ == text@,
{
    let mut chars: Vec<char> = Vec::new();
    for ch in it: text.chars()
        invariant
            chars@ == text@.take(it.index() as int),
            it.seq() == text@,
    {
        chars.push(ch);
    }
    assert(text@.take(text@.len() as int) =~= text@);
    chars
}

/// The string with the given characters.
pub fn string_of(chars: &[char]) -> (text: String)
    ensures
        text@ == chars@,
{
    let mut text = String::new();
    let mut i: usize = 0;
    while i < chars.len()
        invariant
            i <= chars@.len(),
            text@ == chars@.take(i as int),
        decreases chars@.len() - i,
    {
        text.push(chars[i]);
        assert(chars@.take(i + 1) =~= chars@.take(i as int).push(chars@[i as int]));
        i = i + 1;
    }
    assert(chars@.take(chars@.len() as int) =~= chars@);
    text
}

/// Appends a text.
pub fn append(text: &mut String, more: &str)
    ensures
        final(text)@ == old(text)@ + more@,
{
    text.append(more);
}

/// A part of a text.
pub fn part_of(text: &[char], from: usize, to: usize) -> (part: Vec<char>)
    requires
        from <= to <= text@.len(),
    ensures
        part@ == text@.subrange(from as int, to as int),
{
    let mut part: Vec<char> = Vec::new();
    let mut i: usize = from;
    while i < to
        invariant
            from <= i <= to <= text@.len(),
            part@ == text@.subrange(from as int, i as int),
        decreases to - i,
    {
        part.push(text[i]);
        assert(text@.subrange(from as int, i + 1) =~= text@.subrange(from as int, i as int).push(
            text@[i as int],
        ));
        i = i + 1;
    }
    part
}

/// Whether two character sequences are equal.
pub fn same_chars(a: &[char], b: &[char]) -> (same: bool)
    ensures
        same == (a@ == b@),
{
    if a.len() != b.len() {
        return false;
    }
    let mut i: usize = 0;
    while i < a.len()
        invariant
            i <= a@.len(),
            a@.len() == b@.len(),
            forall|k: int| 0 <= k < i ==> a@[k] == b@[k],
        decreases a@.len() - i,
    {
        if a[i] != b[i] {
            return false;
        }
        i = i + 1;
    }
    assert(a@ =~= b@);
    true
}

/// Whether two string slices hold the same text.
pub fn same_text(a: &str, b: &str) -> (same: bool)
    ensures
        same == (a@ == b@),
{
    let a = chars_of(a);
    let b = chars_of(b);
    same_chars(a.as_slice(), b.as_slice())
}

/// Whether a text begins with another.
pub open spec fn begins_with(text: Seq<char>, prefix: Seq<char>) -> bool {
    prefix.len() <= text.len() && text.take(prefix.len() as int) == prefix
}

/// Whether a text begins with another.
pub fn starts_with(text: &[char], prefix: &str) -> (starts: bool)
    ensures
        starts == begins_with(text@, prefix@),
{
    let prefix = chars_of(prefix);
    if text.len() < prefix.len() {
        return false;
    }
    holds_at(text, prefix.as_slice(), 0)
}

/// Whether a text holds another at a place.
pub open spec fn found_at(text: Seq<char>, part: Seq<char>, at: int) -> bool {
    0 <= at && at + part.len() <= text.len() && text.subrange(at, at + part.len()) == part
}

/// Whether a text holds another anywhere.
pub open spec fn has_part(text: Seq<char>, part: Seq<char>) -> bool {
    exists|at: int| #[trigger] found_at(text, part, at)
}

fn holds_at(text: &[char], part: &[char], at: usize) -> (found: bool)
    requires
        at + part@.len() <= text@.len(),
    ensures
        found == found_at(text@, part@, at as int),
        at == 0 ==> found == begins_with(text@, part@),
{
    let ghost here = text@.subrange(at as int, at + part@.len());
    assert(at == 0 ==> here =~= text@.take(part@.len() as int));
    let mut i: usize = 0;
    while i < part.len()
        invariant
            i <= part@.len(),
            at + part.len() <= text.len(),
            here == text@.subrange(at as int, at + part@.len()),
            forall|k: int| 0 <= k < i ==> here[k] == part@[k],
        decreases part@.len() - i,
    {
        assert(here[i as int] == text@[at + i]);
        if text[at + i] != part[i] {
            return false;
        }
        i = i + 1;
    }
    assert(here =~= part@);
    true
}

/// The first place at which a text holds another.
pub fn find(text: &[char], part: &[char]) -> (place: Option<usize>)
    ensures
        place is Some <==> has_part(text@, part@),
        place matches Some(at) ==> found_at(text@, part@, at as int) && forall|k: int|
            0 <= k < at ==> !found_at(text@, part@, k),
{
    if part.len() > text.len() {
        return None;
    }
    let last: usize = text.len() - part.len();
    let mut at: usize = 0;
    while at <= last
        invariant
            at <= last + 1,
            last + part@.len() == text@.len(),
            forall|k: int| 0 <= k < at ==> !found_at(text@, part@, k),
        decreases last + 1 - at,
    {
        if holds_at(text, part, at) {
            return Some(at);
        }
        if at == last {
            assert forall|k: int| !found_at(text@, part@, k) by {}
            return None;
        }
        at = at + 1;
    }
    None
}

/// Whether a text holds another anywhere.
pub fn contains(text: &[char], part: &[char]) -> (found: bool)
    ensures
        found == has_part(text@, part@),
{
    find(text, part).is_some()
}

/// A letter of the English alphabet in lower case; any other character as it is.
pub open spec fn lower(ch: char) -> char {
    if 'A' <= ch <= 'Z' {
        (ch as u32 + 32) as char
    } else {
        ch
    }
}

/// A text with the letters of the English alphabet in lower case.
pub open spec fn lowered(text: Seq<char>) -> Seq<char> {
    Seq::new(text.len(), |i: int| lower(text[i]))
}

/// A text with the letters of the English alphabet in lower case.
pub fn to_lower(text: &[char]) -> (low: Vec<char>)
    ensures
        low@ == lowered(text@),
{
    let mut low: Vec<char> = Vec::new();
    let mut i: usize = 0;
    while i < text.len()
        invariant
            i <= text@.len(),
            low@ == lowered(text@).take(i as int),
        decreases text@.len() - i,
    {
        let ch: char = text[i];
        let small: char = if 'A' <= ch && ch <= 'Z' {
            (ch as u8 + 32) as char
        } else {
            ch
        };
        low.push(small);
        assert(small == lower(ch));
        assert(lowered(text@).take(i + 1) =~= lowered(text@).take(i as int).push(small));
        i = i + 1;
    }
    assert(lowered(text@).take(i as int) =~= lowered(text@));
    low
}

/// A decimal digit.
pub open spec fn digit(value: int) -> char {
    (48 + value) as char
}

/// A number in decimal.
pub open spec fn decimal(value: nat) -> Seq<char>
    decreases value,
{
    if value < 10 {
        seq![digit(value as int)]
    } else {
        decimal(value / 10).push(digit((value % 10) as int))
    }
}

/// Appends a number in decimal.
pub fn append_number(text: &mut String, value: u64)
    ensures
        final(text)@ == old(text)@ + decimal(value as nat),
    decreases value,
{
    let last: char = (48u8 + (value % 10) as u8) as char;
    assert(last == digit((value % 10) as int));
    if value >= 10 {
        append_number(text, value / 10);
    }
    let ghost before = text@;
    text.push(last);
    assert(text@ =~= old(text)@ + decimal(value as nat));
}

/// Whether a character is a decimal digit.
pub open spec fn is_digit(ch: char) -> bool {
    '0' <= ch <= '9'
}

/// The number that a run of decimal digits stands for.
pub open spec fn number_of(digits: Seq<char>) -> int
    decreases digits.len(),
{
    if digits.len() == 0 {
        0
    } else {
        number_of(digits.drop_last()) * 10 + (digits.last() as int - 48)
    }
}

/// How many decimal digits a text begins with.
pub open spec fn digits_at_start(text: Seq<char>) -> int
    decreases text.len(),
{
    if text.len() > 0 && is_digit(text[0]) {
        1 + digits_at_start(text.drop_first())
    } else {
        0
    }
}

/// A number that is written in decimal reads back as itself: it is a run of digits without a
/// leading zero, save for zero itself.
pub proof fn a_decimal_reads_back(value: nat)
    ensures
        number_of(decimal(value)) == value,
        decimal(value).len() > 0,
        forall|i: int| 0 <= i < decimal(value).len() ==> '0' <= #[trigger] decimal(value)[i] <= '9',
        value > 0 ==> decimal(value)[0] != '0',
    decreases value,
{
    let digits = decimal(value);
    reveal_with_fuel(number_of, 2);
    if value >= 10 {
        let before = decimal(value / 10);
        a_decimal_reads_back(value / 10);
        assert(digits.drop_last() =~= before);
        assert forall|i: int| 0 <= i < digits.len() implies '0' <= #[trigger] digits[i] <= '9' by {
            if i < before.len() {
                assert(digits[i] == before[i]);
            }
        }
        assert(digits[0] == before[0]);
    } else {
        assert(digits.drop_last() =~= Seq::empty());
    }
}

/// Each digit counts ten times what the one after it does, and no run of digits is less than
/// nothing.
pub proof fn digits_count_in_tens(before: Seq<char>, last: char)
    requires
        '0' <= last <= '9',
        forall|i: int| 0 <= i < before.len() ==> '0' <= #[trigger] before[i] <= '9',
    ensures
        number_of(Seq::empty()) == 0,
        number_of(before.push(last)) == 10 * number_of(before) + (last as int - '0' as int),
        number_of(before) >= 0,
    decreases before.len(),
{
    assert(before.push(last).drop_last() =~= before);
    if before.len() > 0 {
        let shorter = before.drop_last();
        assert('0' <= before[before.len() - 1] <= '9');
        assert forall|i: int| 0 <= i < shorter.len() implies '0' <= #[trigger] shorter[i] <= '9' by {
            assert(shorter[i] == before[i]);
        }
        digits_count_in_tens(shorter, before.last());
    }
}

/// A text begins with another exactly when it is that other with something behind it.
pub proof fn a_beginning_is_followed_by_the_rest(text: Seq<char>, prefix: Seq<char>)
    ensures
        begins_with(text, prefix) <==> exists|rest: Seq<char>| text == #[trigger] (prefix + rest),
{
    if begins_with(text, prefix) {
        assert(text =~= prefix + text.skip(prefix.len() as int));
    }
    if exists|rest: Seq<char>| text == #[trigger] (prefix + rest) {
        let rest = choose|rest: Seq<char>| text == #[trigger] (prefix + rest);
        assert(text.take(prefix.len() as int) =~= prefix);
    }
}

/// A text holds another exactly when that other stands in it between two others.
pub proof fn a_part_stands_between_two_others(text: Seq<char>, part: Seq<char>)
    ensures
        has_part(text, part) <==> exists|before: Seq<char>, after: Seq<char>|
            text == #[trigger] (before + part + after),
{
    if has_part(text, part) {
        let at = choose|at: int| #[trigger] found_at(text, part, at);
        assert(text =~= text.take(at) + part + text.skip(at + part.len()));
    }
    if exists|before: Seq<char>, after: Seq<char>| text == #[trigger] (before + part + after) {
        let (before, after) = choose|before: Seq<char>, after: Seq<char>|
            text == #[trigger] (before + part + after);
        let at = before.len() as int;
        assert(text.subrange(at, at + part.len()) =~= part);
        assert(found_at(text, part, at));
    }
}

/// In lower case a text keeps its length and every character but the capital letters of the
/// English alphabet, of which each becomes the small one: its code is greater by 32.
pub proof fn only_capitals_are_lowered(text: Seq<char>, i: int)
    requires
        0 <= i < text.len(),
    ensures
        lowered(text).len() == text.len(),
        'A' <= text[i] <= 'Z' ==> lowered(text)[i] as int == text[i] as int + 32,
        !('A' <= text[i] <= 'Z') ==> lowered(text)[i] == text[i],
{
}

} // verus!
