//! Edits of session descriptions.
//!
//! A session description is a list of lines. Each `m=` line starts a media section, which goes
//! up to the next one; what comes before the first is the session section.

use crate::lines::{rejoin, split_lines, split_trimmed};
use crate::text::{append, append_number, chars_of, contains, starts_with, to_lower};
use crate::{lines, text};
use vstd::prelude::*;

verus! {

/// The bitrate cap where the settings state none, in kbps.
pub const VIDEO_BITRATE_CAP_KBPS: u32 = 15_000;

/// Whether a line starts a media section.
pub open spec fn is_media_line(line: Seq<char>) -> bool {
    text::begins_with(line, "m="@)
}

/// Whether a line states a frame rate.
pub open spec fn is_framerate_line(line: Seq<char>) -> bool {
    text::begins_with(line, "a=framerate:"@)
}

/// Whether a line states a bandwidth.
pub open spec fn is_bandwidth_line(line: Seq<char>) -> bool {
    text::begins_with(line, "b=AS:"@) || text::begins_with(line, "b=TIAS:"@)
}

/// Whether a line names H.264, in upper or lower case.
pub open spec fn names_h264(line: Seq<char>) -> bool {
    text::has_part(text::lowered(line), " h264/"@)
}

/// Where the first section of some lines ends.
pub open spec fn section_end(lines: Seq<Seq<char>>) -> int
    decreases lines.len(),
{
    if lines.len() <= 1 {
        lines.len() as int
    } else if is_media_line(lines[1]) {
        1
    } else {
        1 + section_end(lines.drop_first())
    }
}

/// Whether a section is about video.
pub open spec fn is_video(section: Seq<Seq<char>>) -> bool {
    section.len() > 0 && text::begins_with(section[0], "m=video "@)
}

/// Whether a section is about H.264 video.
pub open spec fn is_h264_video(section: Seq<Seq<char>>) -> bool {
    is_video(section) && exists|i: int| 0 <= i < section.len() && names_h264(#[trigger] section[i])
}

/// The lines that do not state a frame rate.
pub open spec fn without_framerate(lines: Seq<Seq<char>>) -> Seq<Seq<char>> {
    lines.filter(|line: Seq<char>| !is_framerate_line(line))
}

/// The lines that do not state a bandwidth.
pub open spec fn without_bandwidth(lines: Seq<Seq<char>>) -> Seq<Seq<char>> {
    lines.filter(|line: Seq<char>| !is_bandwidth_line(line))
}

/// The line that states a frame rate.
pub open spec fn framerate_line(fps: nat) -> Seq<char> {
    "a=framerate:"@ + text::decimal(fps)
}

/// The two lines that state a bandwidth, in kilobits and in bits per second.
pub open spec fn bandwidth_lines(kbps: nat) -> Seq<Seq<char>> {
    seq!["b=AS:"@ + text::decimal(kbps), "b=TIAS:"@ + text::decimal(kbps * 1000)]
}

/// The line that a section states a wanted frame rate in, if it is about H.264 video.
pub open spec fn requested_rate(section: Seq<Seq<char>>, rate: Option<nat>) -> Seq<Seq<char>> {
    match rate {
        Some(fps) if is_h264_video(section) => seq![framerate_line(fps)],
        _ => Seq::empty(),
    }
}

/// A section with its frame rate replaced: a video section loses the ones it states, and one
/// about H.264 states the wanted one, if there is one, at its end.
pub open spec fn section_with_rate(section: Seq<Seq<char>>, rate: Option<nat>) -> Seq<Seq<char>> {
    if is_video(section) {
        without_framerate(section) + requested_rate(section, rate)
    } else {
        section
    }
}

/// The lines with the frame rate replaced in every video section.
pub open spec fn lines_with_rate(lines: Seq<Seq<char>>, rate: Option<nat>) -> Seq<Seq<char>>
    decreases lines.len(),
{
    let end = section_end(lines);
    if !(0 < end <= lines.len()) {
        Seq::empty()
    } else {
        section_with_rate(lines.take(end), rate) + lines_with_rate(lines.skip(end), rate)
    }
}

/// A session description with the frame rate replaced in every video section.
pub open spec fn text_with_rate(sdp: Seq<char>, rate: Option<nat>) -> Seq<char> {
    lines::rejoined(sdp, lines_with_rate(lines::text_lines(sdp), rate))
}

/// A section with its bandwidth capped: it loses the bandwidths it states and states the given
/// one at its end.
pub open spec fn capped_section(section: Seq<Seq<char>>, kbps: nat) -> Seq<Seq<char>> {
    without_bandwidth(section) + bandwidth_lines(kbps)
}

/// The lines with the bandwidth capped in the first H.264 video section.
pub open spec fn capped_lines(lines: Seq<Seq<char>>, kbps: nat) -> Seq<Seq<char>>
    decreases lines.len(),
{
    let end = section_end(lines);
    if !(0 < end <= lines.len()) {
        Seq::empty()
    } else if is_h264_video(lines.take(end)) {
        capped_section(lines.take(end), kbps) + lines.skip(end)
    } else {
        lines.take(end) + capped_lines(lines.skip(end), kbps)
    }
}

/// A session description with the bandwidth capped in its first H.264 video section.
pub open spec fn capped_text(sdp: Seq<char>, kbps: nat) -> Seq<char> {
    lines::rejoined(sdp, capped_lines(lines::text_lines(sdp), kbps))
}

/// The extension id that an `a=extmap:` line states.
pub open spec fn extmap_id(line: Seq<char>) -> Option<u8> {
    let rest = line.skip("a=extmap:"@.len() as int);
    let digits = rest.take(text::digits_at_start(rest));
    if digits.len() == 0 || text::number_of(digits) > 255 {
        None
    } else {
        Some(text::number_of(digits) as u8)
    }
}

/// The extension id of the first `a=extmap:` line that names a URI, in upper or lower case, and
/// states an id.
pub open spec fn extmap_id_among(lines: Seq<Seq<char>>, uri: Seq<char>) -> Option<u8>
    decreases lines.len(),
{
    if lines.len() == 0 {
        None
    } else if text::begins_with(lines[0], "a=extmap:"@) && text::has_part(
        text::lowered(lines[0]),
        text::lowered(uri),
    ) && extmap_id(lines[0]) is Some {
        extmap_id(lines[0])
    } else {
        extmap_id_among(lines.drop_first(), uri)
    }
}

proof fn lemma_digits_at_start(line: Seq<char>, n: int)
    requires
        0 <= n <= line.len(),
        forall|i: int| 0 <= i < n ==> text::is_digit(#[trigger] line[i]),
        n < line.len() ==> !text::is_digit(line[n]),
    ensures
        text::digits_at_start(line) == n,
    decreases line.len(),
{
    if n > 0 {
        let rest = line.drop_first();
        assert forall|i: int| 0 <= i < n - 1 implies text::is_digit(#[trigger] rest[i]) by {
            assert(rest[i] == line[i + 1]);
        }
        assert(text::is_digit(line[0]));
        lemma_digits_at_start(rest, n - 1);
    }
}

proof fn lemma_number_grows(digits: Seq<char>, ch: char)
    requires
        forall|i: int| 0 <= i < digits.len() ==> text::is_digit(#[trigger] digits[i]),
        text::is_digit(ch),
    ensures
        text::number_of(digits) >= 0,
        text::number_of(digits.push(ch)) == text::number_of(digits) * 10 + (ch as int - 48),
        text::number_of(digits.push(ch)) >= text::number_of(digits),
    decreases digits.len(),
{
    assert(digits.push(ch).drop_last() =~= digits);
    if digits.len() > 0 {
        let before = digits.drop_last();
        assert(text::is_digit(digits.last()));
        assert forall|i: int| 0 <= i < before.len() implies text::is_digit(#[trigger] before[i]) by {
            assert(before[i] == digits[i]);
        }
        lemma_number_grows(before, digits.last());
        assert(before.push(digits.last()) =~= digits);
    }
}

/// The extension id that an `a=extmap:` line states.
fn parse_extmap_id(line: &[char]) -> (id: Option<u8>)
    requires
        text::begins_with(line@, "a=extmap:"@),
    ensures
        id == extmap_id(line@),
{
    let start: usize = 9;
    proof {
        reveal_strlit("a=extmap:");
        assert("a=extmap:"@.len() == 9);
    }
    let ghost rest = line@.skip(9);
    let mut value: u32 = 0;
    let mut end: usize = start;
    assert(rest.take(0) =~= Seq::empty());
    while end < line.len() && '0' <= line[end] && line[end] <= '9'
        invariant
            start == 9,
            9 <= end <= line@.len(),
            rest == line@.skip(9),
            forall|i: int| 0 <= i < end - 9 ==> text::is_digit(#[trigger] rest[i]),
            value <= 2559,
            value <= 255 ==> value == text::number_of(rest.take(end - 9)),
            value > 255 ==> text::number_of(rest.take(end - 9)) > 255,
        decreases line@.len() - end,
    {
        let ch: char = line[end];
        proof {
            let digits = rest.take(end - 9);
            assert(rest[end - 9] == ch);
            assert(rest.take(end - 9 + 1) =~= digits.push(ch));
            lemma_number_grows(digits, ch);
        }
        if value <= 255 {
            value = value * 10 + (ch as u32 - 48);
        }
        end = end + 1;
    }
    proof {
        if end < line@.len() {
            assert(rest[end - 9] == line@[end as int]);
        }
        lemma_digits_at_start(rest, end - 9);
    }
    if end == start || value > 255 {
        None
    } else {
        Some(value as u8)
    }
}

/// Finds the extension id that an answer negotiated for a URI, in upper or lower case. Lines that
/// state no id are passed over.
pub fn extract_extmap_id(sdp: &str, uri: &str) -> (id: Option<u8>)
    ensures
        id == extmap_id_among(lines::raw_lines(sdp@), uri@),
{
    let text = chars_of(sdp);
    let all = split_lines(text.as_slice());
    let uri_chars = chars_of(uri);
    let low_uri = to_lower(uri_chars.as_slice());
    let ghost seen = lines::raw_lines(sdp@);
    let mut i: usize = 0;
    assert(seen.skip(0) =~= seen);
    while i < all.len()
        invariant
            i <= all@.len(),
            seen == lines::raw_lines(sdp@),
            lines::lines_view(all@) == seen,
            low_uri@ == text::lowered(uri@),
            extmap_id_among(seen, uri@) == extmap_id_among(seen.skip(i as int), uri@),
        decreases all@.len() - i,
    {
        let line = all[i].as_slice();
        proof {
            assert(lines::lines_view(all@)[i as int] == line@);
            assert(seen.skip(i as int)[0] == line@);
            assert(seen.skip(i as int).drop_first() =~= seen.skip(i + 1));
        }
        if starts_with(line, "a=extmap:") {
            let low = to_lower(line);
            if contains(low.as_slice(), low_uri.as_slice()) {
                let id = parse_extmap_id(line);
                if id.is_some() {
                    return id;
                }
            }
        }
        i = i + 1;
    }
    assert(seen.skip(i as int) =~= Seq::empty());
    None
}

/// Removes the frame rates that the video sections of a session description state.
pub fn strip_video_fps(sdp: &str) -> (result: String)
    ensures
        result@ == text_with_rate(sdp@, None),
{
    replace_rate(sdp, None)
}

/// An attribute that a line can state.
#[derive(Clone, Copy)]
enum Attribute {
    Framerate,
    Bandwidth,
}

/// The lines that do not state an attribute.
spec fn without(lines: Seq<Seq<char>>, attribute: Attribute) -> Seq<Seq<char>> {
    match attribute {
        Attribute::Framerate => without_framerate(lines),
        Attribute::Bandwidth => without_bandwidth(lines),
    }
}

fn copy_of(line: &Vec<char>) -> (copy: Vec<char>)
    ensures
        copy@ == line@,
{
    let mut copy: Vec<char> = Vec::new();
    let mut i: usize = 0;
    while i < line.len()
        invariant
            i <= line@.len(),
            copy@ == line@.take(i as int),
        decreases line@.len() - i,
    {
        copy.push(line[i]);
        assert(line@.take(i + 1) =~= line@.take(i as int).push(line@[i as int]));
        i = i + 1;
    }
    assert(line@.take(i as int) =~= line@);
    copy
}

/// The lines of a range that do not state an attribute.
fn keep_other_lines(
    all: &Vec<Vec<char>>,
    from: usize,
    to: usize,
    attribute: Attribute,
) -> (kept: Vec<Vec<char>>)
    requires
        from <= to <= all@.len(),
    ensures
        lines::lines_view(kept@) == without(
            lines::lines_view(all@).subrange(from as int, to as int),
            attribute,
        ),
{
    reveal(Seq::filter);
    let ghost section = lines::lines_view(all@).subrange(from as int, to as int);
    let mut kept: Vec<Vec<char>> = Vec::new();
    let mut i: usize = from;
    assert(section.take(0) =~= Seq::empty());
    assert(lines::lines_view(kept@) =~= Seq::empty());
    while i < to
        invariant
            from <= i <= to <= all@.len(),
            section == lines::lines_view(all@).subrange(from as int, to as int),
            lines::lines_view(kept@) == without(section.take(i - from), attribute),
        decreases to - i,
    {
        reveal(Seq::filter);
        let line = all[i].as_slice();
        let ghost before = kept@;
        proof {
            assert(lines::lines_view(all@)[i as int] == line@);
            assert(section[i - from] == line@);
            assert(section.take(i - from + 1).drop_last() =~= section.take(i - from));
            assert(section.take(i - from + 1).last() == line@);
        }
        let states = match attribute {
            Attribute::Framerate => starts_with(line, "a=framerate:"),
            Attribute::Bandwidth => starts_with(line, "b=AS:") || starts_with(line, "b=TIAS:"),
        };
        if !states {
            kept.push(copy_of(&all[i]));
            assert(lines::lines_view(kept@) =~= lines::lines_view(before).push(line@));
        }
        i = i + 1;
    }
    assert(section.take(to - from) =~= section);
    kept
}

proof fn lemma_section_end(lines: Seq<Seq<char>>)
    ensures
        0 <= section_end(lines) <= lines.len(),
        lines.len() > 0 ==> section_end(lines) > 0,
        section_end(lines) < lines.len() ==> is_media_line(lines[section_end(lines)]),
        forall|i: int| 1 <= i < section_end(lines) ==> !is_media_line(#[trigger] lines[i]),
    decreases lines.len(),
{
    if lines.len() > 1 && !is_media_line(lines[1]) {
        let rest = lines.drop_first();
        lemma_section_end(rest);
        assert forall|i: int| 1 <= i < section_end(lines) implies !is_media_line(
            #[trigger] lines[i],
        ) by {
            if i > 1 {
                assert(rest[i - 1] == lines[i]);
            }
        }
    }
}

proof fn lemma_section_end_is(lines: Seq<Seq<char>>, end: int)
    requires
        lines.len() > 0,
        0 < end <= lines.len(),
        end < lines.len() ==> is_media_line(lines[end]),
        forall|i: int| 1 <= i < end ==> !is_media_line(#[trigger] lines[i]),
    ensures
        section_end(lines) == end,
{
    lemma_section_end(lines);
    let at = section_end(lines);
    if at < end {
        assert(!is_media_line(lines[at]));
    } else if end < at {
        assert(!is_media_line(lines[end]));
    }
}

/// Where the section that starts at a line ends.
fn find_section_end(all: &Vec<Vec<char>>, start: usize) -> (end: usize)
    requires
        start < all.len(),
    ensures
        start < end <= all@.len(),
        end - start == section_end(lines::lines_view(all@).skip(start as int)),
{
    let ghost rest = lines::lines_view(all@).skip(start as int);
    let mut end: usize = start + 1;
    while end < all.len() && !starts_with(all[end].as_slice(), "m=")
        invariant
            start < end <= all@.len(),
            rest == lines::lines_view(all@).skip(start as int),
            forall|i: int| 1 <= i < end - start ==> !is_media_line(#[trigger] rest[i]),
        decreases all@.len() - end,
    {
        assert(rest[end - start] == all@[end as int]@);
        end = end + 1;
    }
    proof {
        if end < all@.len() {
            assert(rest[end - start] == all@[end as int]@);
        }
        lemma_section_end_is(rest, end - start);
    }
    end
}

/// Whether a section is about video, and whether about H.264 video.
fn inspect_section(all: &Vec<Vec<char>>, start: usize, end: usize) -> (kind: (bool, bool))
    requires
        start < end <= all@.len(),
    ensures
        kind.0 == is_video(lines::lines_view(all@).subrange(start as int, end as int)),
        kind.1 == is_h264_video(lines::lines_view(all@).subrange(start as int, end as int)),
{
    let ghost section = lines::lines_view(all@).subrange(start as int, end as int);
    assert(section[0] == all@[start as int]@);
    if !starts_with(all[start].as_slice(), "m=video ") {
        return (false, false);
    }
    let mark = chars_of(" h264/");
    let mut i: usize = start;
    while i < end
        invariant
            start <= i <= end <= all@.len(),
            start < end,
            section == lines::lines_view(all@).subrange(start as int, end as int),
            mark@ == " h264/"@,
            is_video(section),
            forall|k: int| 0 <= k < i - start ==> !names_h264(#[trigger] section[k]),
        decreases end - i,
    {
        let low = to_lower(all[i].as_slice());
        assert(section[i - start] == all@[i as int]@);
        if contains(low.as_slice(), mark.as_slice()) {
            assert(names_h264(section[i - start]));
            return (true, true);
        }
        i = i + 1;
    }
    (true, false)
}

fn attribute_line(name: &str, value: u64) -> (line: Vec<char>)
    ensures
        line@ == name@ + text::decimal(value as nat),
{
    let mut line = String::new();
    append(&mut line, name);
    append_number(&mut line, value);
    assert(line@ =~= name@ + text::decimal(value as nat));
    chars_of(line.as_str())
}

/// Appends lines.
fn extend_lines(output: &mut Vec<Vec<char>>, more: Vec<Vec<char>>)
    ensures
        lines::lines_view(final(output)@) == lines::lines_view(old(output)@) + lines::lines_view(
            more@,
        ),
{
    let mut more = more;
    let ghost added = more@;
    output.append(&mut more);
    assert(lines::lines_view(output@) =~= lines::lines_view(old(output)@) + lines::lines_view(
        added,
    ));
}

/// Requests a frame rate in every H.264 video section of a session description, in place of any
/// that its video sections state.
pub fn request_video_fps(sdp: &str, video_fps: u32) -> (result: String)
    ensures
        result@ == text_with_rate(sdp@, Some(video_fps as nat)),
{
    replace_rate(sdp, Some(video_fps))
}

/// A frame rate as a number of the contracts.
pub open spec fn rate_view(rate: Option<u32>) -> Option<nat> {
    match rate {
        Some(fps) => Some(fps as nat),
        None => None,
    }
}

/// Replaces the frame rates that the video sections of a session description state.
fn replace_rate(sdp: &str, rate: Option<u32>) -> (result: String)
    ensures
        result@ == text_with_rate(sdp@, rate_view(rate)),
{
    let text = chars_of(sdp);
    let all = split_trimmed(text.as_slice());
    let ghost seen = lines::text_lines(sdp@);
    let ghost wanted = lines_with_rate(seen, rate_view(rate));
    let mut output: Vec<Vec<char>> = Vec::new();
    let mut start: usize = 0;
    proof {
        assert(seen.skip(0) =~= seen);
        assert(lines::lines_view(output@) + wanted =~= wanted);
    }
    while start < all.len()
        invariant
            start <= all@.len(),
            lines::lines_view(all@) == seen,
            wanted == lines::lines_view(output@) + lines_with_rate(
                seen.skip(start as int),
                rate_view(rate),
            ),
        decreases all@.len() - start,
    {
        let end: usize = find_section_end(&all, start);
        let ghost section = seen.subrange(start as int, end as int);
        let ghost before = lines::lines_view(output@);
        proof {
            assert(seen.skip(start as int).take(end - start) =~= section);
            assert(seen.skip(start as int).skip(end - start) =~= seen.skip(end as int));
        }
        let (video, h264) = inspect_section(&all, start, end);
        if video {
            let mut kept = keep_other_lines(&all, start, end, Attribute::Framerate);
            let ghost others = lines::lines_view(kept@);
            match rate {
                Some(fps) if h264 => {
                    kept.push(attribute_line("a=framerate:", fps as u64));
                    assert(lines::lines_view(kept@) =~= others + seq![framerate_line(fps as nat)]);
                },
                _ => {
                    assert(others =~= others + Seq::empty());
                },
            }
            assert(lines::lines_view(kept@) == section_with_rate(section, rate_view(rate)));
            extend_lines(&mut output, kept);
        } else {
            extend_lines(&mut output, copy_lines(&all, start, end));
        }
        assert(lines::lines_view(output@) == before + section_with_rate(section, rate_view(rate)));
        assert(wanted =~= lines::lines_view(output@) + lines_with_rate(
            seen.skip(end as int),
            rate_view(rate),
        ));
        start = end;
    }
    proof {
        assert(seen.skip(start as int) =~= Seq::empty());
        assert(lines_with_rate(Seq::<Seq<char>>::empty(), rate_view(rate)) =~= Seq::empty());
        assert(lines::lines_view(output@) =~= wanted);
    }
    rejoin(text.as_slice(), &output)
}

/// The lines of a range.
fn copy_lines(all: &Vec<Vec<char>>, from: usize, to: usize) -> (copied: Vec<Vec<char>>)
    requires
        from <= to <= all@.len(),
    ensures
        lines::lines_view(copied@) == lines::lines_view(all@).subrange(from as int, to as int),
{
    let mut copied: Vec<Vec<char>> = Vec::new();
    let mut i: usize = from;
    while i < to
        invariant
            from <= i <= to <= all@.len(),
            copied@.len() == i - from,
            forall|k: int| 0 <= k < copied@.len() ==> (#[trigger] copied@[k])@ == all@[from + k]@,
        decreases to - i,
    {
        copied.push(copy_of(&all[i]));
        i = i + 1;
    }
    assert(lines::lines_view(copied@) =~= lines::lines_view(all@).subrange(
        from as int,
        to as int,
    ));
    copied
}

/// Caps the bandwidth of the H.264 video section of a session description, in place of any that
/// it states. Where there are several, the first is meant.
pub fn cap_video_bitrate(sdp: &str, max_kbps: u32) -> (result: String)
    ensures
        result@ == capped_text(sdp@, max_kbps as nat),
{
    let text = chars_of(sdp);
    let all = split_trimmed(text.as_slice());
    let ghost seen = lines::text_lines(sdp@);
    let ghost wanted = capped_lines(seen, max_kbps as nat);
    let mut output: Vec<Vec<char>> = Vec::new();
    let mut start: usize = 0;
    proof {
        assert(seen.skip(0) =~= seen);
        assert(lines::lines_view(output@) + wanted =~= wanted);
    }
    while start < all.len()
        invariant
            start <= all@.len(),
            lines::lines_view(all@) == seen,
            text@ == sdp@,
            seen == lines::text_lines(sdp@),
            wanted == capped_lines(seen, max_kbps as nat),
            wanted == lines::lines_view(output@) + capped_lines(
                seen.skip(start as int),
                max_kbps as nat,
            ),
        decreases all@.len() - start,
    {
        let end: usize = find_section_end(&all, start);
        let ghost section = seen.subrange(start as int, end as int);
        let ghost before = lines::lines_view(output@);
        proof {
            assert(seen.skip(start as int).take(end - start) =~= section);
            assert(seen.skip(start as int).skip(end - start) =~= seen.skip(end as int));
        }
        let (_, h264) = inspect_section(&all, start, end);
        if h264 {
            let mut kept = keep_other_lines(&all, start, end, Attribute::Bandwidth);
            let ghost others = lines::lines_view(kept@);
            kept.push(attribute_line("b=AS:", max_kbps as u64));
            kept.push(attribute_line("b=TIAS:", max_kbps as u64 * 1000));
            proof {
                assert(max_kbps as nat * 1000 == (max_kbps * 1000) as nat);
                assert(lines::lines_view(kept@) =~= others + bandwidth_lines(max_kbps as nat));
            }
            extend_lines(&mut output, kept);
            extend_lines(&mut output, copy_lines(&all, end, all.len()));
            proof {
                assert(seen.subrange(end as int, seen.len() as int) =~= seen.skip(end as int));
                assert(lines::lines_view(output@) =~= wanted);
            }
            return rejoin(text.as_slice(), &output);
        }
        extend_lines(&mut output, copy_lines(&all, start, end));
        assert(wanted =~= lines::lines_view(output@) + capped_lines(
            seen.skip(end as int),
            max_kbps as nat,
        ));
        start = end;
    }
    proof {
        assert(seen.skip(start as int) =~= Seq::empty());
        assert(capped_lines(Seq::<Seq<char>>::empty(), max_kbps as nat) =~= Seq::empty());
        assert(lines::lines_view(output@) =~= wanted);
    }
    rejoin(text.as_slice(), &output)
}

} // verus!
