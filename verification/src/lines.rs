//! Texts as lines.

use crate::text::{chars_of, contains, part_of, string_of};
use crate::text;
use vstd::prelude::*;

verus! {

/// The texts of a list of lines.
pub open spec fn lines_view(lines: Seq<Vec<char>>) -> Seq<Seq<char>> {
    Seq::new(lines.len(), |i: int| lines[i]@)
}

/// Where the first line of a text ends: at its line feed, or where the text ends.
pub open spec fn line_end(text: Seq<char>) -> int
    decreases text.len(),
{
    if text.len() == 0 || text[0] == '\n' {
        0
    } else {
        1 + line_end(text.drop_first())
    }
}

/// A line without the carriage return that belongs to its line feed.
pub open spec fn without_return(line: Seq<char>) -> Seq<char> {
    if line.len() > 0 && line.last() == '\r' {
        line.drop_last()
    } else {
        line
    }
}

/// The lines of a text. A line ends with a line feed, which may have a carriage return before
/// it; the last line may go without.
pub open spec fn raw_lines(text: Seq<char>) -> Seq<Seq<char>>
    decreases text.len(),
{
    if text.len() == 0 {
        Seq::empty()
    } else {
        let end = line_end(text);
        if 0 <= end < text.len() {
            seq![without_return(text.take(end))] + raw_lines(text.skip(end + 1))
        } else {
            seq![text]
        }
    }
}

/// A line without the carriage returns at its end.
pub open spec fn trimmed(line: Seq<char>) -> Seq<char>
    decreases line.len(),
{
    if line.len() > 0 && line.last() == '\r' {
        trimmed(line.drop_last())
    } else {
        line
    }
}

/// The lines of a text, without any carriage returns at their ends.
pub open spec fn text_lines(text: Seq<char>) -> Seq<Seq<char>> {
    raw_lines(text).map_values(|line: Seq<char>| trimmed(line))
}

/// What separates the lines of a text.
pub open spec fn newline_of(text: Seq<char>) -> Seq<char> {
    if text::has_part(text, "\r\n"@) {
        "\r\n"@
    } else {
        "\n"@
    }
}

/// Whether the last line of a text is ended.
pub open spec fn ends_line(text: Seq<char>) -> bool {
    text.len() > 0 && text.last() == '\n'
}

/// Lines with a separator between them.
pub open spec fn joined(lines: Seq<Seq<char>>, newline: Seq<char>) -> Seq<char>
    decreases lines.len(),
{
    if lines.len() == 0 {
        Seq::empty()
    } else if lines.len() == 1 {
        lines[0]
    } else {
        joined(lines.drop_last(), newline) + newline + lines.last()
    }
}

/// Lines put together in the way of a given text: with its separator, and ended if that is.
pub open spec fn rejoined(text: Seq<char>, lines: Seq<Seq<char>>) -> Seq<char> {
    joined(lines, newline_of(text)) + if ends_line(text) {
        newline_of(text)
    } else {
        Seq::empty()
    }
}

proof fn lemma_line_end(text: Seq<char>)
    ensures
        0 <= line_end(text) <= text.len(),
        line_end(text) < text.len() ==> text[line_end(text)] == '\n',
        forall|i: int| 0 <= i < line_end(text) ==> text[i] != '\n',
    decreases text.len(),
{
    if text.len() > 0 && text[0] != '\n' {
        let rest = text.drop_first();
        lemma_line_end(rest);
        assert forall|i: int| 0 <= i < line_end(text) implies text[i] != '\n' by {
            if i > 0 {
                assert(rest[i - 1] == text[i]);
            }
        }
    }
}

proof fn lemma_line_end_is(text: Seq<char>, end: int)
    requires
        0 <= end <= text.len(),
        end < text.len() ==> text[end] == '\n',
        forall|i: int| 0 <= i < end ==> text[i] != '\n',
    ensures
        line_end(text) == end,
{
    lemma_line_end(text);
    let at = line_end(text);
    if at < end {
        assert(text[at] != '\n');
    } else if end < at {
        assert(text[end] != '\n');
    }
}

/// The lines of a text.
pub fn split_lines(text: &[char]) -> (lines: Vec<Vec<char>>)
    ensures
        lines_view(lines@) == raw_lines(text@),
{
    let mut lines: Vec<Vec<char>> = Vec::new();
    let mut start: usize = 0;
    assert(text@.skip(0) =~= text@);
    assert(lines_view(lines@) + raw_lines(text@.skip(0)) =~= raw_lines(text@));
    while start < text.len()
        invariant
            start <= text@.len(),
            lines_view(lines@) + raw_lines(text@.skip(start as int)) == raw_lines(text@),
        decreases text@.len() - start,
    {
        let ghost rest = text@.skip(start as int);
        let mut end: usize = start;
        while end < text.len() && text[end] != '\n'
            invariant
                start <= end <= text@.len(),
                rest == text@.skip(start as int),
                forall|i: int| 0 <= i < end - start ==> rest[i] != '\n',
            decreases text@.len() - end,
        {
            end = end + 1;
        }
        proof {
            lemma_line_end_is(rest, end - start);
        }
        let ghost before = lines@;
        if end == text.len() {
            let line = part_of(text, start, end);
            assert(line@ =~= rest);
            lines.push(line);
            assert(lines_view(lines@) =~= lines_view(before).push(rest));
            assert(raw_lines(rest) =~= seq![rest]);
            assert(lines_view(lines@) =~= raw_lines(text@));
            return lines;
        }
        let stop: usize = if end > start && text[end - 1] == '\r' {
            end - 1
        } else {
            end
        };
        let line = part_of(text, start, stop);
        proof {
            assert(rest.take(end - start) =~= text@.subrange(start as int, end as int));
            assert(line@ =~= without_return(rest.take(end - start)));
            assert(rest.skip(end - start + 1) =~= text@.skip(end + 1));
        }
        lines.push(line);
        assert(lines_view(lines@) =~= lines_view(before).push(line@));
        assert(lines_view(lines@) + raw_lines(text@.skip(end + 1)) =~= lines_view(before)
            + raw_lines(rest));
        start = end + 1;
    }
    assert(raw_lines(text@.skip(start as int)) =~= Seq::empty());
    assert(lines_view(lines@) =~= raw_lines(text@));
    lines
}

/// A line without the carriage returns at its end.
fn trim(line: &[char]) -> (short: Vec<char>)
    ensures
        short@ == trimmed(line@),
{
    let mut end: usize = line.len();
    assert(line@.take(end as int) =~= line@);
    while end > 0 && line[end - 1] == '\r'
        invariant
            end <= line@.len(),
            trimmed(line@.take(end as int)) == trimmed(line@),
        decreases end,
    {
        assert(line@.take(end as int).drop_last() =~= line@.take(end - 1));
        end = end - 1;
    }
    let short = part_of(line, 0, end);
    assert(short@ =~= line@.take(end as int));
    short
}

/// The lines of a text, without any carriage returns at their ends.
pub fn split_trimmed(text: &[char]) -> (lines: Vec<Vec<char>>)
    ensures
        lines_view(lines@) == text_lines(text@),
{
    let raw = split_lines(text);
    let mut lines: Vec<Vec<char>> = Vec::new();
    let mut i: usize = 0;
    while i < raw.len()
        invariant
            i <= raw@.len(),
            lines_view(raw@) == raw_lines(text@),
            lines_view(lines@) == text_lines(text@).take(i as int),
        decreases raw@.len() - i,
    {
        let ghost before = lines@;
        let line = trim(raw[i].as_slice());
        assert(line@ == text_lines(text@)[i as int]) by {
            assert(lines_view(raw@)[i as int] == raw@[i as int]@);
        }
        lines.push(line);
        assert(lines_view(lines@) =~= lines_view(before).push(line@));
        assert(text_lines(text@).take(i + 1) =~= text_lines(text@).take(i as int).push(line@));
        i = i + 1;
    }
    assert(text_lines(text@).take(i as int) =~= text_lines(text@));
    lines
}

fn extend(text: &mut Vec<char>, more: &[char])
    ensures
        final(text)@ == old(text)@ + more@,
{
    let mut i: usize = 0;
    assert(text@ =~= old(text)@ + more@.take(0));
    while i < more.len()
        invariant
            i <= more@.len(),
            text@ == old(text)@ + more@.take(i as int),
        decreases more@.len() - i,
    {
        text.push(more[i]);
        assert(text@ =~= old(text)@ + more@.take(i + 1));
        i = i + 1;
    }
    assert(more@.take(i as int) =~= more@);
}

/// Lines put together in the way of a given text: with its separator, and ended if that is.
pub fn rejoin(text: &[char], lines: &Vec<Vec<char>>) -> (result: String)
    ensures
        result@ == rejoined(text@, lines_view(lines@)),
{
    let return_and_feed = chars_of("\r\n");
    let newline = if contains(text, return_and_feed.as_slice()) {
        return_and_feed
    } else {
        chars_of("\n")
    };
    assert(newline@ == newline_of(text@));
    let ghost all = lines_view(lines@);
    let mut result: Vec<char> = Vec::new();
    let mut i: usize = 0;
    assert(all.take(0) =~= Seq::empty());
    while i < lines.len()
        invariant
            i <= lines@.len(),
            all == lines_view(lines@),
            result@ == joined(all.take(i as int), newline@),
        decreases lines@.len() - i,
    {
        let ghost before = result@;
        if i > 0 {
            extend(&mut result, newline.as_slice());
        }
        extend(&mut result, lines[i].as_slice());
        proof {
            assert(all.take(i + 1).drop_last() =~= all.take(i as int));
            assert(all.take(i + 1).last() == lines@[i as int]@);
            if i == 0 {
                assert(result@ =~= lines@[0]@);
            } else {
                assert(result@ =~= before + newline@ + lines@[i as int]@);
            }
        }
        i = i + 1;
    }
    assert(all.take(i as int) =~= all);
    if text.len() > 0 && text[text.len() - 1] == '\n' {
        extend(&mut result, newline.as_slice());
    } else {
        assert(result@ =~= result@ + Seq::empty());
    }
    string_of(result.as_slice())
}

/// Whether all line feeds of a text stand alone, without any carriage return about.
pub open spec fn feeds_only(text: Seq<char>) -> bool {
    forall|i: int| 0 <= i < text.len() ==> #[trigger] text[i] != '\r'
}

/// Whether every line feed of a text has a carriage return before it, and every carriage return
/// a line feed after it.
pub open spec fn returns_and_feeds(text: Seq<char>) -> bool {
    &&& forall|i: int|
        0 <= i < text.len() && #[trigger] text[i] == '\n' ==> i > 0 && text[i - 1] == '\r'
    &&& forall|i: int|
        0 <= i < text.len() && #[trigger] text[i] == '\r' ==> i + 1 < text.len() && text[i + 1]
            == '\n'
}

/// Whether the lines of a text are all separated in one way.
pub open spec fn is_uniform(text: Seq<char>) -> bool {
    feeds_only(text) || returns_and_feeds(text)
}

spec fn separated_by(text: Seq<char>, newline: Seq<char>) -> bool {
    ||| newline == seq!['\n'] && feeds_only(text)
    ||| newline == seq!['\r', '\n'] && returns_and_feeds(text)
}

proof fn lemma_joined_from_the_front(
    first: Seq<char>,
    others: Seq<Seq<char>>,
    newline: Seq<char>,
)
    requires
        others.len() > 0,
    ensures
        joined(seq![first] + others, newline) == first + newline + joined(others, newline),
    decreases others.len(),
{
    let all = seq![first] + others;
    if others.len() == 1 {
        assert(all.drop_last() =~= seq![first]);
        assert(all =~= seq![first, others[0]]);
        assert(joined(all.drop_last(), newline) == first);
        assert(joined(all, newline) =~= first + newline + others[0]);
    } else {
        let before = others.drop_last();
        lemma_joined_from_the_front(first, before, newline);
        assert(all.drop_last() =~= seq![first] + before);
        assert(all.last() == others.last());
        assert(joined(all, newline) =~= first + newline + joined(others, newline));
    }
}

proof fn lemma_first_line(text: Seq<char>, newline: Seq<char>)
    requires
        separated_by(text, newline),
        line_end(text) < text.len(),
    ensures
        ({
            let end = line_end(text);
            let line = trimmed(without_return(text.take(end)));
            let rest = text.skip(end + 1);
            &&& 0 <= end
            &&& text == line + newline + rest
            &&& separated_by(rest, newline)
        }),
{
    lemma_line_end(text);
    let end = line_end(text);
    let whole = text.take(end);
    let rest = text.skip(end + 1);
    assert(text[end] == '\n');
    if newline == seq!['\n'] && feeds_only(text) {
        if end > 0 {
            assert(whole.last() == text[end - 1]);
        }
        assert(trimmed(without_return(whole)) == whole);
        assert(text =~= whole + newline + rest);
        assert forall|i: int| 0 <= i < rest.len() implies #[trigger] rest[i] != '\r' by {
            assert(rest[i] == text[end + 1 + i]);
        }
    } else {
        assert(text[end - 1] == '\r');
        let line = without_return(whole);
        assert(whole.last() == '\r');
        assert(line =~= text.take(end - 1));
        if end - 1 > 0 {
            assert(text[end - 2] != '\r') by {
                if text[end - 2] == '\r' {
                    assert(text[end - 2 + 1] == '\n');
                }
            }
            assert(line.last() == text[end - 2]);
        }
        assert(trimmed(line) == line);
        assert(text =~= line + newline + rest);
        assert forall|i: int| 0 <= i < rest.len() && #[trigger] rest[i] == '\n' implies i > 0
            && rest[i - 1] == '\r' by {
            assert(rest[i] == text[end + 1 + i]);
            if i > 0 {
                assert(rest[i - 1] == text[end + i]);
            }
        }
        assert forall|i: int| 0 <= i < rest.len() && #[trigger] rest[i] == '\r' implies i + 1
            < rest.len() && rest[i + 1] == '\n' by {
            assert(rest[i] == text[end + 1 + i]);
            assert(rest[i + 1] == text[end + 2 + i]);
        }
    }
}

proof fn lemma_put_together(text: Seq<char>, newline: Seq<char>)
    requires
        separated_by(text, newline),
    ensures
        joined(text_lines(text), newline) + (if ends_line(text) {
            newline
        } else {
            Seq::empty()
        }) == text,
        text.len() > 0 ==> text_lines(text).len() > 0,
    decreases text.len(),
{
    let all = text_lines(text);
    if text.len() == 0 {
        assert(raw_lines(text) =~= Seq::empty());
        assert(all =~= Seq::empty());
        assert(text =~= Seq::empty());
    } else {
        lemma_line_end(text);
        let end = line_end(text);
        if end == text.len() {
            assert(raw_lines(text) =~= seq![text]);
            assert(text.last() != '\n' && text.last() != '\r') by {
                assert(text[end - 1] != '\n');
                if text[end - 1] == '\r' {
                    assert(separated_by(text, newline));
                }
            }
            assert(all =~= seq![text]);
            assert(text + Seq::<char>::empty() =~= text);
        } else {
            lemma_first_line(text, newline);
            let line = trimmed(without_return(text.take(end)));
            let rest = text.skip(end + 1);
            lemma_put_together(rest, newline);
            assert(all =~= seq![line] + text_lines(rest));
            if rest.len() == 0 {
                assert(raw_lines(rest) =~= Seq::empty());
                assert(all =~= seq![line]);
                assert(text =~= line + newline);
            } else {
                lemma_joined_from_the_front(line, text_lines(rest), newline);
                assert(text.last() == rest.last());
                assert(joined(all, newline) + (if ends_line(text) {
                    newline
                } else {
                    Seq::empty()
                }) =~= line + newline + rest);
            }
        }
    }
}

/// A text whose lines are all separated in one way is the same after it was taken apart into its
/// lines and put together again.
pub proof fn a_uniform_text_is_put_together_again(text: Seq<char>)
    requires
        is_uniform(text),
    ensures
        rejoined(text, text_lines(text)) == text,
{
    reveal_strlit("\r\n");
    reveal_strlit("\n");
    assert("\r\n"@ =~= seq!['\r', '\n']);
    assert("\n"@ =~= seq!['\n']);
    let both = seq!['\r', '\n'];
    if text::has_part(text, both) {
        let at = choose|at: int| #[trigger] text::found_at(text, both, at);
        assert(text.subrange(at, at + 2)[0] == text[at]);
        assert(text[at] == '\r');
        lemma_put_together(text, both);
    } else {
        if returns_and_feeds(text) {
            assert forall|i: int| 0 <= i < text.len() implies #[trigger] text[i] != '\r' by {
                if text[i] == '\r' {
                    assert(text.subrange(i, i + 2) =~= both);
                    assert(text::found_at(text, both, i));
                }
            }
        }
        lemma_put_together(text, seq!['\n']);
    }
}

/// Whether a line has no line feed in it and no carriage return at its end.
pub open spec fn is_clean(line: Seq<char>) -> bool {
    &&& forall|i: int| 0 <= i < line.len() ==> #[trigger] line[i] != '\n'
    &&& line.len() > 0 ==> line.last() != '\r'
}

/// Whether all of some lines are clean.
pub open spec fn all_clean(lines: Seq<Seq<char>>) -> bool {
    forall|i: int| 0 <= i < lines.len() ==> is_clean(#[trigger] lines[i])
}

proof fn lemma_trimmed_is_clean(line: Seq<char>)
    requires
        forall|i: int| 0 <= i < line.len() ==> #[trigger] line[i] != '\n',
    ensures
        is_clean(trimmed(line)),
    decreases line.len(),
{
    if line.len() > 0 && line.last() == '\r' {
        let shorter = line.drop_last();
        assert forall|i: int| 0 <= i < shorter.len() implies #[trigger] shorter[i] != '\n' by {
            assert(shorter[i] == line[i]);
        }
        lemma_trimmed_is_clean(shorter);
    }
}

/// The lines that a text is taken apart into are clean.
pub proof fn lines_of_a_text_are_clean(text: Seq<char>)
    ensures
        all_clean(text_lines(text)),
        text.len() > 0 ==> text_lines(text).len() > 0,
    decreases text.len(),
{
    let all = text_lines(text);
    if text.len() > 0 {
        lemma_line_end(text);
        let end = line_end(text);
        if end < text.len() {
            let line = without_return(text.take(end));
            let rest = text.skip(end + 1);
            lines_of_a_text_are_clean(rest);
            assert(all =~= seq![trimmed(line)] + text_lines(rest));
            assert forall|i: int| 0 <= i < line.len() implies #[trigger] line[i] != '\n' by {
                assert(line[i] == text[i]);
            }
            lemma_trimmed_is_clean(line);
            assert forall|i: int| 0 <= i < all.len() implies is_clean(#[trigger] all[i]) by {
                if i > 0 {
                    assert(all[i] == text_lines(rest)[i - 1]);
                }
            }
        } else {
            assert(all =~= seq![trimmed(text)]);
            lemma_trimmed_is_clean(text);
        }
    } else {
        assert(all =~= Seq::empty());
    }
}

/// Whether something separates lines.
spec fn is_newline(newline: Seq<char>) -> bool {
    newline == seq!['\n'] || newline == seq!['\r', '\n']
}

proof fn lemma_newline_of(text: Seq<char>)
    ensures
        is_newline(newline_of(text)),
        text::has_part(text, seq!['\r', '\n']) <==> newline_of(text) == seq!['\r', '\n'],
{
    reveal_strlit("\r\n");
    reveal_strlit("\n");
    assert("\r\n"@ =~= seq!['\r', '\n']);
    assert("\n"@ =~= seq!['\n']);
    assert(seq!['\n'].len() != seq!['\r', '\n'].len());
}

proof fn lemma_split_off(line: Seq<char>, newline: Seq<char>, rest: Seq<char>)
    requires
        is_clean(line),
        is_newline(newline),
    ensures
        text_lines(line + newline + rest) == seq![line] + text_lines(rest),
        ends_line(line + newline + rest) == (rest.len() == 0 || ends_line(rest)),
{
    let text = line + newline + rest;
    let end = line.len() + newline.len() - 1;
    assert(text[end] == '\n');
    assert forall|i: int| 0 <= i < end implies text[i] != '\n' by {
        if i < line.len() {
            assert(text[i] == line[i]);
        }
    }
    lemma_line_end_is(text, end);
    assert(text.skip(end + 1) =~= rest);
    let whole = text.take(end);
    if newline == seq!['\n'] {
        assert(whole =~= line);
        assert(without_return(whole) == line);
    } else {
        assert(whole =~= line.push('\r'));
        assert(without_return(whole) =~= line);
    }
    assert(trimmed(line) == line);
    assert(text_lines(text) =~= seq![line] + text_lines(rest));
    if rest.len() > 0 {
        assert(text.last() == rest.last());
    } else {
        assert(text.last() == '\n');
    }
}

/// The end of a text: a separator, or nothing.
spec fn ending(ended: bool, newline: Seq<char>) -> Seq<char> {
    if ended {
        newline
    } else {
        Seq::empty()
    }
}

proof fn lemma_split_again(lines: Seq<Seq<char>>, newline: Seq<char>, ended: bool)
    requires
        lines.len() > 0,
        all_clean(lines),
        is_newline(newline),
        ended || lines.last().len() > 0,
    ensures
        text_lines(joined(lines, newline) + ending(ended, newline)) == lines,
        ends_line(joined(lines, newline) + ending(ended, newline)) == ended,
        joined(lines, newline).len() + ending(ended, newline).len() > 0,
    decreases lines.len(),
{
    let first = lines[0];
    assert(is_clean(first));
    let text = joined(lines, newline) + ending(ended, newline);
    if lines.len() == 1 {
        assert(joined(lines, newline) == first);
        if ended {
            assert(text =~= first + newline + Seq::<char>::empty());
            lemma_split_off(first, newline, Seq::empty());
            assert(raw_lines(Seq::<char>::empty()) =~= Seq::empty());
            assert(text_lines(Seq::<char>::empty()) =~= Seq::empty());
            assert(text_lines(text) =~= lines);
        } else {
            assert(text =~= first);
            lemma_line_end_is(text, text.len() as int);
            assert(raw_lines(text) =~= seq![text]);
            assert(trimmed(text) == text);
            assert(text_lines(text) =~= lines);
            assert(first[first.len() - 1] != '\n');
        }
    } else {
        let others = lines.drop_first();
        assert(others.last() == lines.last());
        assert forall|i: int| 0 <= i < others.len() implies is_clean(#[trigger] others[i]) by {
            assert(others[i] == lines[i + 1]);
        }
        lemma_split_again(others, newline, ended);
        let rest = joined(others, newline) + ending(ended, newline);
        assert(lines =~= seq![first] + others);
        lemma_joined_from_the_front(first, others, newline);
        assert(text =~= first + newline + rest);
        lemma_split_off(first, newline, rest);
        assert(text_lines(text) =~= lines);
    }
}

/// Whether no line feed of a text has a carriage return before it.
spec fn no_returns_before_feeds(text: Seq<char>) -> bool {
    &&& forall|i: int| 0 < i < text.len() && #[trigger] text[i] == '\n' ==> text[i - 1] != '\r'
    &&& text.len() > 0 ==> text.last() != '\r'
}

proof fn lemma_joined_by_feeds(lines: Seq<Seq<char>>)
    requires
        all_clean(lines),
    ensures
        no_returns_before_feeds(joined(lines, seq!['\n'])),
    decreases lines.len(),
{
    let newline = seq!['\n'];
    let text = joined(lines, newline);
    if lines.len() == 1 {
        assert(is_clean(lines[0]));
        assert forall|i: int| 0 < i < text.len() && #[trigger] text[i] == '\n' implies text[i - 1]
            != '\r' by {
            assert(lines[0][i] != '\n');
        }
    } else if lines.len() > 1 {
        let before = lines.drop_last();
        assert forall|i: int| 0 <= i < before.len() implies is_clean(#[trigger] before[i]) by {
            assert(before[i] == lines[i]);
        }
        lemma_joined_by_feeds(before);
        let start = joined(before, newline);
        let last = lines.last();
        assert(is_clean(lines[lines.len() - 1]));
        assert forall|i: int| 0 < i < text.len() && #[trigger] text[i] == '\n' implies text[i - 1]
            != '\r' by {
            if i < start.len() {
                assert(text[i] == start[i] && text[i - 1] == start[i - 1]);
            } else if i == start.len() {
                assert(text[i - 1] == start.last());
            } else {
                assert(last[i - start.len() - 1] != '\n');
            }
        }
        if last.len() > 0 {
            assert(text.last() == last.last());
        } else {
            assert(text.last() == '\n');
        }
    }
}

proof fn lemma_newline_stays(lines: Seq<Seq<char>>, newline: Seq<char>, ended: bool)
    requires
        all_clean(lines),
        is_newline(newline),
        ended || lines.len() >= 2,
    ensures
        newline_of(joined(lines, newline) + ending(ended, newline)) == newline,
{
    let both = seq!['\r', '\n'];
    let body = joined(lines, newline);
    let text = body + ending(ended, newline);
    lemma_newline_of(text);
    if newline == both {
        let at = if ended {
            body.len() as int
        } else {
            joined(lines.drop_last(), newline).len() as int
        };
        assert(text.subrange(at, at + 2) =~= both);
        assert(text::found_at(text, both, at));
    } else {
        lemma_joined_by_feeds(lines);
        if text::has_part(text, both) {
            let at = choose|at: int| #[trigger] text::found_at(text, both, at);
            assert(text.subrange(at, at + 2)[0] == text[at]);
            assert(text.subrange(at, at + 2)[1] == text[at + 1]);
            assert(text[at] == '\r' && text[at + 1] == '\n');
            if at + 1 < body.len() {
                assert(body[at + 1] == '\n' && body[at] == '\r');
            } else {
                assert(body.last() == '\r');
            }
            assert(false);
        }
        assert(newline_of(text) == newline);
    }
}

/// Whether an edit of lines can be made on a text that was put together from lines: it makes no
/// lines from none, and an empty line at the end, which is lost when the text is taken apart,
/// would have stayed where it is.
pub open spec fn edits_again(
    lines: Seq<Seq<char>>,
    ended: bool,
    edit: spec_fn(Seq<Seq<char>>) -> Seq<Seq<char>>,
) -> bool {
    let after = edit(lines);
    &&& edit(Seq::empty()) == Seq::<Seq<char>>::empty()
    &&& !ended && lines.len() == 1 ==> {
        &&& after.len() <= 1
        &&& lines[0].len() == 0 ==> after == lines
    }
    &&& !ended && lines.len() >= 2 && lines.last().len() == 0 ==> {
        &&& after.len() >= 2
        &&& after.last().len() == 0
        &&& edit(lines.drop_last()) == after.drop_last()
    }
}

/// An edit of the text that some lines were put together to is the edit of those lines, put
/// together in the same way.
pub proof fn an_edited_text_is_edited_by_its_lines(
    text: Seq<char>,
    lines: Seq<Seq<char>>,
    edit: spec_fn(Seq<Seq<char>>) -> Seq<Seq<char>>,
)
    requires
        all_clean(lines),
        text.len() > 0 ==> lines.len() > 0,
        edits_again(lines, ends_line(text), edit),
    ensures
        ({
            let once = rejoined(text, lines);
            rejoined(once, edit(text_lines(once))) == rejoined(text, edit(lines))
        }),
{
    let newline = newline_of(text);
    let ended = ends_line(text);
    let once = rejoined(text, lines);
    let after = edit(lines);
    lemma_newline_of(text);
    assert(once == joined(lines, newline) + ending(ended, newline));
    if lines.len() == 0 {
        assert(lines =~= Seq::empty());
        assert(once =~= Seq::empty());
        assert(raw_lines(once) =~= Seq::empty());
        assert(text_lines(once) =~= Seq::empty());
        assert(rejoined(once, after) =~= Seq::empty());
        assert(rejoined(text, after) =~= Seq::empty());
    } else if ended || lines.last().len() > 0 {
        lemma_split_again(lines, newline, ended);
        if ended || lines.len() >= 2 {
            lemma_newline_stays(lines, newline, ended);
        } else {
            assert(joined(after, newline_of(once)) == joined(after, newline));
        }
    } else if lines.len() == 1 {
        assert(once =~= Seq::empty());
        assert(raw_lines(once) =~= Seq::empty());
        assert(text_lines(once) =~= Seq::empty());
        assert(joined(after, newline) == lines[0]);
        assert(rejoined(text, after) =~= Seq::empty());
        assert(rejoined(once, Seq::<Seq<char>>::empty()) =~= Seq::empty());
    } else {
        let before = lines.drop_last();
        assert forall|i: int| 0 <= i < before.len() implies is_clean(#[trigger] before[i]) by {
            assert(before[i] == lines[i]);
        }
        assert(once =~= joined(before, newline) + ending(true, newline));
        lemma_split_again(before, newline, true);
        lemma_newline_stays(before, newline, true);
        assert(rejoined(text, after) =~= joined(after.drop_last(), newline) + newline);
    }
}

proof fn lemma_line_before_the_rest(line: Seq<char>, ending: Seq<char>, rest: Seq<char>)
    requires
        is_clean(line),
        ending == seq!['\n'] || ending == seq!['\r', '\n'],
    ensures
        raw_lines(line + ending + rest) == seq![line] + raw_lines(rest),
{
    let text = line + ending + rest;
    let end = (line.len() + ending.len() - 1) as int;
    assert forall|i: int| 0 <= i < end implies text[i] != '\n' by {
        if i < line.len() {
            assert(text[i] == line[i]);
        }
    }
    lemma_line_end_is(text, end);
    assert(text.skip(end + 1) =~= rest);
    if ending.len() == 1 {
        assert(text.take(end) =~= line);
    } else {
        assert(text.take(end) =~= line.push('\r'));
        assert(line.push('\r').drop_last() =~= line);
    }
}

/// A text is taken apart at its line feeds, each with the carriage return before it if there is
/// one: the first line, then the lines of what follows. What has no line feed is one line, and
/// nothing at all has none.
pub proof fn a_text_is_taken_apart_at_its_line_feeds(line: Seq<char>, rest: Seq<char>)
    requires
        is_clean(line),
    ensures
        raw_lines(line + seq!['\n'] + rest) == seq![line] + raw_lines(rest),
        raw_lines(line + seq!['\r', '\n'] + rest) == seq![line] + raw_lines(rest),
        text_lines(line + seq!['\n'] + rest) == seq![line] + text_lines(rest),
        text_lines(line + seq!['\r', '\n'] + rest) == seq![line] + text_lines(rest),
        line.len() > 0 ==> raw_lines(line) == seq![line] && text_lines(line) == seq![line],
        raw_lines(Seq::empty()) == Seq::<Seq<char>>::empty(),
        text_lines(Seq::empty()) == Seq::<Seq<char>>::empty(),
{
    lemma_line_before_the_rest(line, seq!['\n'], rest);
    lemma_line_before_the_rest(line, seq!['\r', '\n'], rest);
    assert(text_lines(line + seq!['\n'] + rest) =~= seq![line] + text_lines(rest));
    assert(text_lines(line + seq!['\r', '\n'] + rest) =~= seq![line] + text_lines(rest));
    if line.len() > 0 {
        lemma_line_end_is(line, line.len() as int);
        assert(text_lines(line) =~= seq![line]);
    }
    assert(text_lines(Seq::empty()) =~= Seq::<Seq<char>>::empty());
}

/// Lines are put together in the way of a text: with carriage returns where it has one before any
/// line feed, and ended where its last line is. One more line comes behind the others.
pub proof fn lines_are_put_together_in_the_way_of_a_text(
    text: Seq<char>,
    lines: Seq<Seq<char>>,
    line: Seq<char>,
)
    ensures
        ({
            let newline = if exists|i: int|
                0 <= i < text.len() - 1 && #[trigger] text[i] == '\r' && text[i + 1] == '\n' {
                seq!['\r', '\n']
            } else {
                seq!['\n']
            };
            let ended = text.len() > 0 && text[text.len() - 1] == '\n';
            let end = if ended {
                newline
            } else {
                Seq::empty()
            };
            &&& rejoined(text, Seq::empty()) == end
            &&& rejoined(text, seq![line]) == line + end
            &&& lines.len() > 0 && ended ==> rejoined(text, lines.push(line)) == rejoined(
                text,
                lines,
            ) + line + newline
            &&& lines.len() > 0 && !ended ==> rejoined(text, lines.push(line)) == rejoined(
                text,
                lines,
            ) + newline + line
        }),
{
    reveal_strlit("\r\n");
    reveal_strlit("\n");
    let both = seq!['\r', '\n'];
    assert("\r\n"@ =~= both);
    assert("\n"@ =~= seq!['\n']);
    let has_both = exists|i: int|
        0 <= i < text.len() - 1 && #[trigger] text[i] == '\r' && text[i + 1] == '\n';
    if has_both {
        let i = choose|i: int|
            0 <= i < text.len() - 1 && #[trigger] text[i] == '\r' && text[i + 1] == '\n';
        assert(text.subrange(i, i + 2) =~= both);
        assert(text::found_at(text, both, i));
    }
    if text::has_part(text, both) {
        let at = choose|at: int| #[trigger] text::found_at(text, both, at);
        assert(text.subrange(at, at + 2)[0] == text[at]);
        assert(text.subrange(at, at + 2)[1] == text[at + 1]);
        assert(text[at] == '\r');
    }
    let newline = newline_of(text);
    let end = if ends_line(text) {
        newline
    } else {
        Seq::empty()
    };
    assert(newline == if has_both {
        both
    } else {
        seq!['\n']
    });
    assert(rejoined(text, Seq::empty()) =~= end);
    if lines.len() > 0 {
        assert(lines.push(line).drop_last() =~= lines);
        assert(joined(lines.push(line), newline) == joined(lines, newline) + newline + line);
        assert(rejoined(text, lines.push(line)) =~= joined(lines, newline) + newline + line + end);
        if ends_line(text) {
            assert(rejoined(text, lines.push(line)) =~= rejoined(text, lines) + line + newline);
        } else {
            assert(rejoined(text, lines) =~= joined(lines, newline));
            assert(rejoined(text, lines.push(line)) =~= rejoined(text, lines) + newline + line);
        }
    }
}

} // verus!
