//! What the streaming screen shows of a session's status line.

use crate::settings::H264Profile;
use crate::text::{append, chars_of, find, part_of, string_of};
use crate::{lines, text};
use vstd::prelude::*;

verus! {

/// Whether a character can be part of a field's value.
pub open spec fn is_value_char(ch: char) -> bool {
    ||| '0' <= ch <= '9'
    ||| 'A' <= ch <= 'Z'
    ||| 'a' <= ch <= 'z'
    ||| ch == '/'
    ||| ch == '.'
    ||| ch == '%'
}

/// How many characters of a text, from its start, can be part of a value.
pub open spec fn value_len(text: Seq<char>) -> int
    decreases text.len(),
{
    if text.len() > 0 && is_value_char(text[0]) {
        1 + value_len(text.drop_first())
    } else {
        0
    }
}

/// The first place, from a given one on, at which a text holds another.
pub open spec fn first_place(text: Seq<char>, part: Seq<char>, from: int) -> Option<int>
    decreases text.len() - from,
{
    if text::found_at(text, part, from) {
        Some(from)
    } else if from >= text.len() {
        None
    } else {
        first_place(text, part, from + 1)
    }
}

/// The value after the first occurrence of a key; empty if the key does not occur.
pub open spec fn field(status: Seq<char>, key: Seq<char>) -> Seq<char> {
    match first_place(status, key, 0) {
        Some(at) => {
            let rest = status.skip(at + key.len());
            rest.take(value_len(rest))
        },
        None => Seq::empty(),
    }
}

/// Whether a character is white space.
pub open spec fn is_space(ch: char) -> bool {
    let code = ch as u32;
    ||| 0x9 <= code <= 0xd
    ||| code == 0x20
    ||| code == 0x85
    ||| code == 0xa0
    ||| code == 0x1680
    ||| 0x2000 <= code <= 0x200a
    ||| code == 0x2028
    ||| code == 0x2029
    ||| code == 0x202f
    ||| code == 0x205f
    ||| code == 0x3000
}

/// How many characters of a text, from its start, are not white space.
pub open spec fn word_len(text: Seq<char>) -> int
    decreases text.len(),
{
    if text.len() > 0 && !is_space(text[0]) {
        1 + word_len(text.drop_first())
    } else {
        0
    }
}

/// The words of a text: what stands between white space.
pub open spec fn words(text: Seq<char>) -> Seq<Seq<char>>
    decreases text.len(),
{
    if text.len() == 0 {
        Seq::empty()
    } else if is_space(text[0]) {
        words(text.drop_first())
    } else {
        let n = word_len(text);
        if 0 < n <= text.len() {
            seq![text.take(n)] + words(text.skip(n))
        } else {
            Seq::empty()
        }
    }
}

/// Whether a word starts a line of its own: one with a colon or a slash.
pub open spec fn starts_entry(word: Seq<char>) -> bool {
    word.contains(':') || word.contains('/')
}

/// Words as lines: a word without colon or slash goes to the end of the line before it, and is
/// left out if there is none.
pub open spec fn entries(all: Seq<Seq<char>>) -> Seq<Seq<char>>
    decreases all.len(),
{
    if all.len() == 0 {
        Seq::empty()
    } else {
        let before = entries(all.drop_last());
        let word = all.last();
        if starts_entry(word) {
            before.push(word)
        } else if before.len() > 0 {
            before.drop_last().push(before.last().push(' ') + word)
        } else {
            before
        }
    }
}

/// The texts of a list of strings.
pub open spec fn strings_view(strings: Seq<String>) -> Seq<Seq<char>> {
    Seq::new(strings.len(), |i: int| strings[i]@)
}

/// How many characters stand before the first slash.
pub open spec fn before_slash(text: Seq<char>) -> int
    decreases text.len(),
{
    if text.len() > 0 && text[0] != '/' {
        1 + before_slash(text.drop_first())
    } else {
        0
    }
}

/// What stands between the first slash and the second, or the end; empty without a slash.
pub open spec fn second_part(text: Seq<char>) -> Seq<char> {
    let slash = before_slash(text);
    if slash < text.len() {
        let rest = text.skip(slash + 1);
        rest.take(before_slash(rest))
    } else {
        Seq::empty()
    }
}

/// The bandwidth and the frame rate that is shown, as far as the status states them.
pub open spec fn fps_overlay(status: Seq<char>) -> Seq<char> {
    let bandwidth = field(status, "bw:"@);
    let presented = second_part(field(status, "d/p:"@));
    let first = if bandwidth.len() > 0 {
        bandwidth + "kbps"@
    } else {
        Seq::empty()
    };
    let second = if presented.len() > 0 {
        "FPS:"@ + presented
    } else {
        Seq::empty()
    };
    if first.len() > 0 && second.len() > 0 {
        first + "  "@ + second
    } else {
        first + second
    }
}

/// The name of a profile as it is shown.
pub open spec fn profile_label(profile: H264Profile) -> Seq<char> {
    match profile {
        H264Profile::Baseline => "Base"@,
        H264Profile::Main => "Main"@,
        H264Profile::High => "High"@,
    }
}

proof fn lemma_first_place(text: Seq<char>, part: Seq<char>, from: int, at: int)
    requires
        0 <= from <= at,
        text::found_at(text, part, at),
        forall|k: int| from <= k < at ==> !text::found_at(text, part, k),
    ensures
        first_place(text, part, from) == Some(at),
    decreases at - from,
{
    if from < at {
        lemma_first_place(text, part, from + 1, at);
    }
}

proof fn lemma_no_place(text: Seq<char>, part: Seq<char>, from: int)
    requires
        0 <= from,
        forall|k: int| !text::found_at(text, part, k),
    ensures
        first_place(text, part, from) is None,
    decreases text.len() - from,
{
    if from < text.len() {
        lemma_no_place(text, part, from + 1);
    }
}

proof fn lemma_value_len(text: Seq<char>, n: int)
    requires
        0 <= n <= text.len(),
        forall|i: int| 0 <= i < n ==> is_value_char(#[trigger] text[i]),
        n < text.len() ==> !is_value_char(text[n]),
    ensures
        value_len(text) == n,
    decreases text.len(),
{
    if n > 0 {
        let rest = text.drop_first();
        assert(is_value_char(text[0]));
        assert forall|i: int| 0 <= i < n - 1 implies is_value_char(#[trigger] rest[i]) by {
            assert(rest[i] == text[i + 1]);
        }
        lemma_value_len(rest, n - 1);
    }
}

proof fn lemma_word_len(text: Seq<char>, n: int)
    requires
        0 <= n <= text.len(),
        forall|i: int| 0 <= i < n ==> !is_space(#[trigger] text[i]),
        n < text.len() ==> is_space(text[n]),
    ensures
        word_len(text) == n,
    decreases text.len(),
{
    if n > 0 {
        let rest = text.drop_first();
        assert(!is_space(text[0]));
        assert forall|i: int| 0 <= i < n - 1 implies !is_space(#[trigger] rest[i]) by {
            assert(rest[i] == text[i + 1]);
        }
        lemma_word_len(rest, n - 1);
    }
}

proof fn lemma_before_slash(text: Seq<char>, n: int)
    requires
        0 <= n <= text.len(),
        forall|i: int| 0 <= i < n ==> #[trigger] text[i] != '/',
        n < text.len() ==> text[n] == '/',
    ensures
        before_slash(text) == n,
    decreases text.len(),
{
    if n > 0 {
        let rest = text.drop_first();
        assert(text[0] != '/');
        assert forall|i: int| 0 <= i < n - 1 implies #[trigger] rest[i] != '/' by {
            assert(rest[i] == text[i + 1]);
        }
        lemma_before_slash(rest, n - 1);
    }
}

fn value_char(ch: char) -> (part: bool)
    ensures
        part == is_value_char(ch),
{
    ('0' <= ch && ch <= '9') || ('A' <= ch && ch <= 'Z') || ('a' <= ch && ch <= 'z') || ch == '/'
        || ch == '.' || ch == '%'
}

fn space(ch: char) -> (space: bool)
    ensures
        space == is_space(ch),
{
    let code: u32 = ch as u32;
    (0x9 <= code && code <= 0xd) || code == 0x20 || code == 0x85 || code == 0xa0 || code == 0x1680
        || (0x2000 <= code && code <= 0x200a) || code == 0x2028 || code == 0x2029 || code == 0x202f
        || code == 0x205f || code == 0x3000
}

fn field_chars(status: &[char], key: &str) -> (value: Vec<char>)
    ensures
        value@ == field(status@, key@),
{
    let key = chars_of(key);
    match find(status, key.as_slice()) {
        Some(at) => {
            proof {
                lemma_first_place(status@, key@, 0, at as int);
            }
            assert(at + key.len() <= status.len());
            let start: usize = at + key.len();
            let ghost rest = status@.skip(start as int);
            let mut end: usize = start;
            while end < status.len() && value_char(status[end])
                invariant
                    start <= end <= status@.len(),
                    rest == status@.skip(start as int),
                    forall|i: int| 0 <= i < end - start ==> is_value_char(#[trigger] rest[i]),
                decreases status@.len() - end,
            {
                assert(rest[end - start] == status@[end as int]);
                end = end + 1;
            }
            proof {
                if end < status@.len() {
                    assert(rest[end - start] == status@[end as int]);
                }
                lemma_value_len(rest, end - start);
                assert(rest.take(end - start) =~= status@.subrange(start as int, end as int));
            }
            part_of(status, start, end)
        },
        None => {
            proof {
                assert forall|k: int| !text::found_at(status@, key@, k) by {
                    if text::found_at(status@, key@, k) {
                        assert(text::has_part(status@, key@));
                    }
                }
                lemma_no_place(status@, key@, 0);
            }
            Vec::new()
        },
    }
}

/// The value after a key in a status line, e.g. `60` after `srcfps:`.
pub fn extract_field(status: &str, key: &str) -> (value: String)
    ensures
        value@ == field(status@, key@),
{
    let status = chars_of(status);
    let value = field_chars(status.as_slice(), key);
    string_of(value.as_slice())
}

/// The words of a text.
fn split_words(text: &[char]) -> (all: Vec<Vec<char>>)
    ensures
        lines::lines_view(all@) == words(text@),
{
    let mut all: Vec<Vec<char>> = Vec::new();
    let mut start: usize = 0;
    proof {
        assert(text@.skip(0) =~= text@);
        assert(lines::lines_view(all@) + words(text@) =~= words(text@));
    }
    while start < text.len()
        invariant
            start <= text@.len(),
            lines::lines_view(all@) + words(text@.skip(start as int)) == words(text@),
        decreases text@.len() - start,
    {
        let ghost rest = text@.skip(start as int);
        assert(rest[0] == text@[start as int]);
        if space(text[start]) {
            assert(rest.drop_first() =~= text@.skip(start + 1));
            start = start + 1;
        } else {
            let mut end: usize = start + 1;
            while end < text.len() && !space(text[end])
                invariant
                    start < end <= text@.len(),
                    rest == text@.skip(start as int),
                    forall|i: int| 0 <= i < end - start ==> !is_space(#[trigger] rest[i]),
                decreases text@.len() - end,
            {
                assert(rest[end - start] == text@[end as int]);
                end = end + 1;
            }
            proof {
                if end < text@.len() {
                    assert(rest[end - start] == text@[end as int]);
                }
                lemma_word_len(rest, end - start);
                assert(rest.take(end - start) =~= text@.subrange(start as int, end as int));
                assert(rest.skip(end - start) =~= text@.skip(end as int));
            }
            let word = part_of(text, start, end);
            let ghost before = lines::lines_view(all@);
            all.push(word);
            proof {
                assert(lines::lines_view(all@) =~= before.push(word@));
                assert(lines::lines_view(all@) + words(text@.skip(end as int)) =~= before
                    + words(rest));
            }
            start = end;
        }
    }
    proof {
        assert(words(text@.skip(start as int)) =~= Seq::empty());
        assert(lines::lines_view(all@) =~= words(text@));
    }
    all
}

fn word_starts_entry(word: &Vec<char>) -> (starts: bool)
    ensures
        starts == starts_entry(word@),
{
    let mut i: usize = 0;
    while i < word.len()
        invariant
            i <= word@.len(),
            forall|k: int| 0 <= k < i ==> #[trigger] word@[k] != ':' && word@[k] != '/',
        decreases word@.len() - i,
    {
        if word[i] == ':' || word[i] == '/' {
            assert(word@.contains(word@[i as int]));
            return true;
        }
        i = i + 1;
    }
    false
}

/// Splits a status line into one line per entry, for the debug panel.
pub fn split_status_lines(status: &str) -> (result: Vec<String>)
    ensures
        strings_view(result@) == entries(words(status@)),
{
    let text = chars_of(status);
    let all = split_words(text.as_slice());
    let ghost seen = words(status@);
    let mut result: Vec<String> = Vec::new();
    let mut i: usize = 0;
    proof {
        assert(seen.take(0) =~= Seq::empty());
        assert(strings_view(result@) =~= entries(seen.take(0)));
    }
    while i < all.len()
        invariant
            i <= all@.len(),
            lines::lines_view(all@) == seen,
            strings_view(result@) == entries(seen.take(i as int)),
        decreases all@.len() - i,
    {
        let ghost before = result@;
        proof {
            assert(lines::lines_view(all@)[i as int] == all@[i as int]@);
            assert(seen.take(i + 1).drop_last() =~= seen.take(i as int));
            assert(seen.take(i + 1).last() == all@[i as int]@);
        }
        if word_starts_entry(&all[i]) {
            result.push(string_of(all[i].as_slice()));
            assert(strings_view(result@) =~= strings_view(before).push(all@[i as int]@));
        } else {
            match result.pop() {
                Some(mut last) => {
                    let ghost line = last@;
                    assert(line == strings_view(before).last());
                    last.push(' ');
                    let word = string_of(all[i].as_slice());
                    append(&mut last, word.as_str());
                    result.push(last);
                    assert(strings_view(result@) =~= strings_view(before).drop_last().push(
                        line.push(' ') + all@[i as int]@,
                    ));
                },
                None => {
                    assert(strings_view(result@) =~= strings_view(before));
                },
            }
        }
        i = i + 1;
    }
    assert(seen.take(i as int) =~= seen);
    result
}

fn second_part_of(text: &[char]) -> (part: Vec<char>)
    ensures
        part@ == second_part(text@),
{
    let mut slash: usize = 0;
    while slash < text.len() && text[slash] != '/'
        invariant
            slash <= text@.len(),
            forall|i: int| 0 <= i < slash ==> #[trigger] text@[i] != '/',
        decreases text@.len() - slash,
    {
        slash = slash + 1;
    }
    proof {
        lemma_before_slash(text@, slash as int);
    }
    if slash == text.len() {
        return Vec::new();
    }
    let start: usize = slash + 1;
    let ghost rest = text@.skip(start as int);
    let mut end: usize = start;
    while end < text.len() && text[end] != '/'
        invariant
            start <= end <= text@.len(),
            rest == text@.skip(start as int),
            forall|i: int| 0 <= i < end - start ==> #[trigger] rest[i] != '/',
        decreases text@.len() - end,
    {
        assert(rest[end - start] == text@[end as int]);
        end = end + 1;
    }
    proof {
        if end < text@.len() {
            assert(rest[end - start] == text@[end as int]);
        }
        lemma_before_slash(rest, end - start);
        assert(rest.take(end - start) =~= text@.subrange(start as int, end as int));
    }
    part_of(text, start, end)
}

/// The text of the overlay in the corner: bandwidth and frame rate; empty when the status states
/// neither.
pub fn fps_overlay_text(status: &str) -> (overlay: String)
    ensures
        overlay@ == fps_overlay(status@),
{
    let status = chars_of(status);
    let bandwidth = field_chars(status.as_slice(), "bw:");
    let rates = field_chars(status.as_slice(), "d/p:");
    let presented = second_part_of(rates.as_slice());
    proof {
        reveal_strlit("kbps");
        reveal_strlit("FPS:");
    }
    let mut overlay = String::new();
    if bandwidth.len() > 0 {
        let value = string_of(bandwidth.as_slice());
        append(&mut overlay, value.as_str());
        append(&mut overlay, "kbps");
        assert(overlay@ =~= bandwidth@ + "kbps"@);
        if presented.len() > 0 {
            append(&mut overlay, "  ");
        }
    }
    if presented.len() > 0 {
        append(&mut overlay, "FPS:");
        let value = string_of(presented.as_slice());
        append(&mut overlay, value.as_str());
    }
    assert(overlay@ =~= fps_overlay(status@));
    overlay
}

/// The lines of the debug panel: the entries of the status line, and the profile.
pub fn debug_lines(status: &str, profile: H264Profile) -> (result: Vec<String>)
    ensures
        strings_view(result@) == entries(words(status@)).push("profile:"@ + profile_label(profile)),
{
    let mut result = split_status_lines(status);
    let mut line = String::new();
    append(&mut line, "profile:");
    append(
        &mut line,
        match profile {
            H264Profile::Baseline => "Base",
            H264Profile::Main => "Main",
            H264Profile::High => "High",
        },
    );
    assert(line@ =~= "profile:"@ + profile_label(profile));
    let ghost before = strings_view(result@);
    result.push(line);
    assert(strings_view(result@) =~= before.push(line@));
    result
}

// Laws.

/// Whether a character can stand in a value: a letter of the English alphabet, a digit, or one of
/// slash, point and percent.
pub open spec fn may_stand_in_a_value(ch: char) -> bool {
    ('0' <= ch <= '9') || ('a' <= ch <= 'z') || ('A' <= ch <= 'Z') || ch == '/' || ch == '.' || ch
        == '%'
}

/// A field is what stands behind the first occurrence of its key, up to the first character that
/// cannot stand in a value.
pub proof fn a_field_stands_behind_its_key(
    before: Seq<char>,
    key: Seq<char>,
    value: Seq<char>,
    after: Seq<char>,
)
    requires
        forall|at: int|
            0 <= at < before.len() ==> !#[trigger] text::found_at(
                before + key + value + after,
                key,
                at,
            ),
        forall|i: int| 0 <= i < value.len() ==> may_stand_in_a_value(#[trigger] value[i]),
        after.len() > 0 ==> !may_stand_in_a_value(after[0]),
    ensures
        field(before + key + value + after, key) == value,
{
    let status = before + key + value + after;
    let at = before.len() as int;
    assert(status.subrange(at, at + key.len()) =~= key);
    lemma_first_place(status, key, 0, at);
    let rest = status.skip(at + key.len());
    assert(rest =~= value + after);
    assert forall|i: int| 0 <= i < value.len() implies is_value_char(#[trigger] rest[i]) by {
        assert(may_stand_in_a_value(value[i]));
    }
    lemma_value_len(rest, value.len() as int);
    assert(rest.take(value.len() as int) =~= value);
}

/// Without its key a field is empty.
pub proof fn no_field_without_its_key(status: Seq<char>, key: Seq<char>)
    requires
        !text::has_part(status, key),
    ensures
        field(status, key) == Seq::<char>::empty(),
{
    assert forall|k: int| !text::found_at(status, key, k) by {}
    lemma_no_place(status, key, 0);
}

/// Words are what stands between white space: the first one, then those of what follows it. Space
/// at the start counts for nothing.
pub proof fn words_stand_between_spaces(word: Seq<char>, space: char, rest: Seq<char>)
    requires
        word.len() > 0,
        forall|i: int| 0 <= i < word.len() ==> !is_space(#[trigger] word[i]),
        is_space(space),
    ensures
        words(word) == seq![word],
        words(word + seq![space] + rest) == seq![word] + words(rest),
        words(seq![space] + rest) == words(rest),
        words(Seq::empty()) == Seq::<Seq<char>>::empty(),
{
    reveal_with_fuel(words, 3);
    let n = word.len() as int;
    assert(!is_space(word[0]));
    lemma_word_len(word, n);
    assert(word.take(n) =~= word);
    assert(word.skip(n) =~= Seq::empty());
    assert(words(word) =~= seq![word]);
    let tail = seq![space] + rest;
    assert(tail.drop_first() =~= rest);
    let both = word + seq![space] + rest;
    assert forall|i: int| 0 <= i < n implies !is_space(#[trigger] both[i]) by {
        assert(both[i] == word[i]);
    }
    assert(both[0] == word[0]);
    assert(both[n] == space);
    lemma_word_len(both, n);
    assert(both.take(n) =~= word);
    assert(both.skip(n) =~= tail);
}

/// Blanks, tabs and line ends are white space; letters, digits and the signs of a status line are
/// not.
pub proof fn what_is_a_space(ch: char)
    ensures
        ch == ' ' || ch == '\t' || ch == '\n' || ch == '\r' ==> is_space(ch),
        may_stand_in_a_value(ch) || ch == ':' || ch == '-' || ch == '_' || ch == ',' ==> !is_space(
            ch,
        ),
{
}

/// Each word with a colon or a slash begins a line of its own. Any other is put behind the line
/// before it, with a blank between, and is left out where there is none.
pub proof fn words_with_a_colon_or_slash_begin_lines(all: Seq<Seq<char>>, word: Seq<char>)
    ensures
        ({
            let before = entries(all);
            let after = entries(all.push(word));
            &&& word.contains(':') || word.contains('/') ==> after == before.push(word)
            &&& !word.contains(':') && !word.contains('/') && before.len() > 0 ==> {
                &&& after.len() == before.len()
                &&& after.drop_last() == before.drop_last()
                &&& after.last() == before.last() + seq![' '] + word
            }
            &&& !word.contains(':') && !word.contains('/') && before.len() == 0 ==> after.len() == 0
        }),
        entries(Seq::empty()) == Seq::<Seq<char>>::empty(),
{
    assert(all.push(word).drop_last() =~= all);
    let before = entries(all);
    if before.len() > 0 {
        assert(before.last().push(' ') + word =~= before.last() + seq![' '] + word);
        assert(before.drop_last().push(before.last().push(' ') + word).drop_last()
            =~= before.drop_last());
    }
}

/// What stands between the first slash of a text and the second, or its end.
pub proof fn the_second_part_stands_behind_the_slash(
    first: Seq<char>,
    second: Seq<char>,
    rest: Seq<char>,
)
    requires
        forall|i: int| 0 <= i < first.len() ==> #[trigger] first[i] != '/',
        forall|i: int| 0 <= i < second.len() ==> #[trigger] second[i] != '/',
        rest.len() > 0 ==> rest[0] == '/',
    ensures
        second_part(first + seq!['/'] + second + rest) == second,
        second_part(first) == Seq::<char>::empty(),
{
    let n = first.len() as int;
    let m = second.len() as int;
    let text = first + seq!['/'] + second + rest;
    assert forall|i: int| 0 <= i < n implies #[trigger] text[i] != '/' by {
        assert(text[i] == first[i]);
    }
    assert(text[n] == '/');
    lemma_before_slash(text, n);
    lemma_before_slash(first, n);
    let behind = text.skip(n + 1);
    assert(behind =~= second + rest);
    assert forall|i: int| 0 <= i < m implies #[trigger] behind[i] != '/' by {
        assert(behind[i] == second[i]);
    }
    lemma_before_slash(behind, m);
    assert(behind.take(m) =~= second);
}

/// The overlay states the bandwidth and the presented frame rate, each where the status has it,
/// with two blanks between them where it has both.
pub proof fn the_overlay_states_what_the_status_has(status: Seq<char>)
    ensures
        ({
            let bandwidth = field(status, "bw:"@);
            let presented = second_part(field(status, "d/p:"@));
            fps_overlay(status) == if bandwidth.len() == 0 && presented.len() == 0 {
                Seq::<char>::empty()
            } else if presented.len() == 0 {
                bandwidth + "kbps"@
            } else if bandwidth.len() == 0 {
                "FPS:"@ + presented
            } else {
                bandwidth + "kbps"@ + "  "@ + "FPS:"@ + presented
            }
        }),
{
    reveal_strlit("kbps");
    reveal_strlit("FPS:");
    let bandwidth = field(status, "bw:"@);
    let presented = second_part(field(status, "d/p:"@));
    assert(bandwidth + "kbps"@ + Seq::<char>::empty() =~= bandwidth + "kbps"@);
    assert(Seq::<char>::empty() + ("FPS:"@ + presented) =~= "FPS:"@ + presented);
    assert(Seq::<char>::empty() + Seq::<char>::empty() =~= Seq::<char>::empty());
    assert(bandwidth + "kbps"@ + "  "@ + "FPS:"@ + presented =~= bandwidth + "kbps"@ + "  "@ + (
    "FPS:"@ + presented));
}

} // verus!
