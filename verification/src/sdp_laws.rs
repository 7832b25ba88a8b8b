//! Laws of the edits of session descriptions.

use crate::{lines, sdp, text};
use vstd::prelude::*;

verus! {

type Line = Seq<char>;

proof fn lemma_filter_keeps_members(all: Seq<Line>, keeps: spec_fn(Line) -> bool, i: int) -> (j: int)
    requires
        0 <= i < all.filter(keeps).len(),
    ensures
        0 <= j < all.len(),
        all[j] == all.filter(keeps)[i],
        keeps(all[j]),
    decreases all.len(),
{
    reveal(Seq::filter);
    let before = all.drop_last();
    if i < before.filter(keeps).len() {
        let j = lemma_filter_keeps_members(before, keeps, i);
        assert(before[j] == all[j]);
        j
    } else {
        all.len() - 1
    }
}

proof fn lemma_filter_keeps_all(all: Seq<Line>, keeps: spec_fn(Line) -> bool)
    requires
        forall|i: int| 0 <= i < all.len() ==> keeps(#[trigger] all[i]),
    ensures
        all.filter(keeps) == all,
    decreases all.len(),
{
    reveal(Seq::filter);
    if all.len() > 0 {
        let before = all.drop_last();
        assert forall|i: int| 0 <= i < before.len() implies keeps(#[trigger] before[i]) by {
            assert(before[i] == all[i]);
        }
        lemma_filter_keeps_all(before, keeps);
        assert(keeps(all[all.len() - 1]));
        assert(before.push(all.last()) =~= all);
    }
}

proof fn lemma_filter_keeps_none(all: Seq<Line>, keeps: spec_fn(Line) -> bool)
    requires
        forall|i: int| 0 <= i < all.len() ==> !keeps(#[trigger] all[i]),
    ensures
        all.filter(keeps) == Seq::<Line>::empty(),
    decreases all.len(),
{
    reveal(Seq::filter);
    if all.len() > 0 {
        let before = all.drop_last();
        assert forall|i: int| 0 <= i < before.len() implies !keeps(#[trigger] before[i]) by {
            assert(before[i] == all[i]);
        }
        lemma_filter_keeps_none(before, keeps);
        assert(!keeps(all[all.len() - 1]));
    } else {
        assert(all =~= Seq::<Line>::empty());
    }
}

proof fn lemma_filter_twice(all: Seq<Line>, keeps: spec_fn(Line) -> bool)
    ensures
        all.filter(keeps).filter(keeps) == all.filter(keeps),
{
    let kept = all.filter(keeps);
    assert forall|i: int| 0 <= i < kept.len() implies keeps(#[trigger] kept[i]) by {
        let _ = lemma_filter_keeps_members(all, keeps, i);
    }
    lemma_filter_keeps_all(kept, keeps);
}

/// A section after lines were taken out of it and others put at its end.
spec fn rewritten(section: Seq<Line>, keeps: spec_fn(Line) -> bool, added: Seq<Line>) -> Seq<Line> {
    section.filter(keeps) + added
}

/// Whether lines may be put at the end of a section: they start no other, do not name H.264, and
/// would be taken out of it again.
spec fn may_be_added(added: Seq<Line>, keeps: spec_fn(Line) -> bool) -> bool {
    forall|i: int|
        0 <= i < added.len() ==> !keeps(#[trigger] added[i]) && !sdp::is_media_line(added[i])
            && !sdp::names_h264(added[i])
}

/// Whether some lines are one section.
spec fn is_section(section: Seq<Line>) -> bool {
    &&& section.len() > 0
    &&& forall|i: int| 1 <= i < section.len() ==> !sdp::is_media_line(#[trigger] section[i])
}

/// Whether no line that names H.264 is taken out.
spec fn keeps_h264(section: Seq<Line>, keeps: spec_fn(Line) -> bool) -> bool {
    forall|i: int|
        0 <= i < section.len() && sdp::names_h264(section[i]) ==> keeps(#[trigger] section[i])
}

proof fn lemma_rewritten(section: Seq<Line>, keeps: spec_fn(Line) -> bool, added: Seq<Line>)
    requires
        is_section(section),
        keeps(section[0]),
        may_be_added(added, keeps),
    ensures
        is_section(rewritten(section, keeps, added)),
        rewritten(section, keeps, added)[0] == section[0],
        rewritten(section, keeps, added).filter(keeps) == section.filter(keeps),
        sdp::is_video(rewritten(section, keeps, added)) == sdp::is_video(section),
        sdp::is_h264_video(rewritten(section, keeps, added)) ==> sdp::is_h264_video(section),
        keeps_h264(section, keeps) && sdp::is_h264_video(section) ==> sdp::is_h264_video(
            rewritten(section, keeps, added),
        ),
        keeps_h264(section, keeps) ==> keeps_h264(rewritten(section, keeps, added), keeps),
{
    let after = rewritten(section, keeps, added);
    let first = seq![section[0]];
    let tail = section.drop_first();
    assert(section =~= first + tail);
    Seq::filter_distributes_over_add(first, tail, keeps);
    assert forall|i: int| 0 <= i < first.len() implies keeps(#[trigger] first[i]) by {}
    lemma_filter_keeps_all(first, keeps);
    let kept = section.filter(keeps);
    assert(kept == first + tail.filter(keeps));
    assert(kept[0] == section[0] && after[0] == kept[0]);
    assert forall|i: int| 1 <= i < after.len() implies !sdp::is_media_line(#[trigger] after[i]) by {
        if i < kept.len() {
            assert(kept[i] == tail.filter(keeps)[i - 1]);
            let j = lemma_filter_keeps_members(tail, keeps, i - 1);
            assert(tail[j] == section[j + 1]);
        } else {
            assert(after[i] == added[i - kept.len()]);
        }
    }
    Seq::filter_distributes_over_add(kept, added, keeps);
    lemma_filter_twice(section, keeps);
    lemma_filter_keeps_none(added, keeps);
    assert(kept + Seq::<Line>::empty() =~= kept);
    if keeps_h264(section, keeps) && sdp::is_h264_video(section) {
        let i = choose|i: int| 0 <= i < section.len() && sdp::names_h264(#[trigger] section[i]);
        assert(keeps(section[i]));
        section.lemma_filter_contains(keeps, i);
        let j = choose|j: int| 0 <= j < kept.len() && kept[j] == section[i];
        assert(after[j] == section[i]);
        assert(sdp::names_h264(after[j]));
    }
    if sdp::is_h264_video(after) {
        let i = choose|i: int| 0 <= i < after.len() && sdp::names_h264(#[trigger] after[i]);
        if i < kept.len() {
            assert(after[i] == kept[i]);
            let j = lemma_filter_keeps_members(section, keeps, i);
            assert(sdp::names_h264(section[j]));
        } else {
            assert(after[i] == added[i - kept.len()]);
        }
    }
    assert forall|i: int| 0 <= i < after.len() && sdp::names_h264(after[i]) implies keeps(
        #[trigger] after[i],
    ) by {
        if i < kept.len() {
            assert(after[i] == kept[i]);
            let _ = lemma_filter_keeps_members(section, keeps, i);
        } else {
            assert(after[i] == added[i - kept.len()]);
        }
    }
}

proof fn lemma_section_end(all: Seq<Line>)
    requires
        all.len() > 0,
    ensures
        0 < sdp::section_end(all) <= all.len(),
        is_section(all.take(sdp::section_end(all))),
        sdp::section_end(all) < all.len() ==> sdp::is_media_line(all[sdp::section_end(all)]),
    decreases all.len(),
{
    let end = sdp::section_end(all);
    if all.len() > 1 && !sdp::is_media_line(all[1]) {
        let rest = all.drop_first();
        lemma_section_end(rest);
        let section = all.take(end);
        assert forall|i: int| 1 <= i < section.len() implies !sdp::is_media_line(
            #[trigger] section[i],
        ) by {
            if i > 1 {
                assert(rest.take(end - 1)[i - 1] == section[i]);
            }
        }
    }
}

proof fn lemma_section_before(section: Seq<Line>, rest: Seq<Line>)
    requires
        is_section(section),
        rest.len() > 0 ==> sdp::is_media_line(rest[0]),
    ensures
        sdp::section_end(section + rest) == section.len(),
        (section + rest).take(section.len() as int) == section,
        (section + rest).skip(section.len() as int) == rest,
    decreases section.len(),
{
    let all = section + rest;
    assert(all.take(section.len() as int) =~= section);
    assert(all.skip(section.len() as int) =~= rest);
    if section.len() > 1 {
        let tail = section.drop_first();
        assert(all[1] == section[1]);
        assert forall|i: int| 1 <= i < tail.len() implies !sdp::is_media_line(
            #[trigger] tail[i],
        ) by {
            assert(tail[i] == section[i + 1]);
        }
        lemma_section_before(tail, rest);
        assert(all.drop_first() =~= tail + rest);
    } else if rest.len() > 0 {
        assert(all[1] == rest[0]);
    }
}

proof fn lemma_no_space_in_decimal(value: nat)
    ensures
        text::decimal(value).len() > 0,
        forall|i: int|
            0 <= i < text::decimal(value).len() ==> text::is_digit(
                #[trigger] text::decimal(value)[i],
            ),
    decreases value,
{
    let digits = text::decimal(value);
    if value >= 10 {
        lemma_no_space_in_decimal(value / 10);
        let before = text::decimal(value / 10);
        assert forall|i: int| 0 <= i < digits.len() implies text::is_digit(#[trigger] digits[i]) by {
            if i < before.len() {
                assert(digits[i] == before[i]);
            }
        }
    }
}

/// A text without spaces does not name H.264.
proof fn lemma_no_space_no_h264(line: Line)
    requires
        forall|i: int| 0 <= i < line.len() ==> #[trigger] line[i] != ' ',
    ensures
        !sdp::names_h264(line),
{
    reveal_strlit(" h264/");
    if sdp::names_h264(line) {
        let low = text::lowered(line);
        let at = choose|at: int| #[trigger] text::found_at(low, " h264/"@, at);
        assert(low.subrange(at, at + " h264/"@.len())[0] == low[at]);
        assert(line[at] != ' ');
    }
}

proof fn lemma_attribute_line(name: Line, value: nat)
    requires
        name.len() > 2,
        name[0] != 'm',
        forall|i: int| 0 <= i < name.len() ==> #[trigger] name[i] != ' ',
    ensures
        text::begins_with(name + text::decimal(value), name),
        !sdp::is_media_line(name + text::decimal(value)),
        !sdp::names_h264(name + text::decimal(value)),
{
    let line = name + text::decimal(value);
    assert(line.take(name.len() as int) =~= name);
    reveal_strlit("m=");
    assert(line.take(2)[0] == name[0]);
    lemma_no_space_in_decimal(value);
    assert forall|i: int| 0 <= i < line.len() implies #[trigger] line[i] != ' ' by {
        if i < name.len() {
            assert(line[i] == name[i]);
        } else {
            assert(text::is_digit(text::decimal(value)[i - name.len()]));
        }
    }
    lemma_no_space_no_h264(line);
}

spec fn not_framerate() -> spec_fn(Line) -> bool {
    |line: Line| !sdp::is_framerate_line(line)
}

spec fn not_bandwidth() -> spec_fn(Line) -> bool {
    |line: Line| !sdp::is_bandwidth_line(line)
}

proof fn lemma_framerate_may_be_added(fps: nat)
    ensures
        may_be_added(seq![sdp::framerate_line(fps)], not_framerate()),
{
    reveal_strlit("a=framerate:");
    lemma_attribute_line("a=framerate:"@, fps);
}

proof fn lemma_bandwidth_may_be_added(kbps: nat)
    ensures
        may_be_added(sdp::bandwidth_lines(kbps), not_bandwidth()),
{
    reveal_strlit("b=AS:");
    reveal_strlit("b=TIAS:");
    lemma_attribute_line("b=AS:"@, kbps);
    lemma_attribute_line("b=TIAS:"@, kbps * 1000);
}

proof fn lemma_media_lines_state_nothing(line: Line)
    requires
        sdp::is_media_line(line),
    ensures
        !sdp::is_framerate_line(line),
        !sdp::is_bandwidth_line(line),
{
    reveal_strlit("m=");
    reveal_strlit("a=framerate:");
    reveal_strlit("b=AS:");
    reveal_strlit("b=TIAS:");
    assert(line.take(2)[0] == line[0]);
    if sdp::is_framerate_line(line) {
        assert(line.take("a=framerate:"@.len() as int)[0] == line[0]);
    }
    if text::begins_with(line, "b=AS:"@) {
        assert(line.take("b=AS:"@.len() as int)[0] == line[0]);
    }
    if text::begins_with(line, "b=TIAS:"@) {
        assert(line.take("b=TIAS:"@.len() as int)[0] == line[0]);
    }
}

proof fn lemma_video_sections_start_with_a_media_line(section: Seq<Line>)
    requires
        sdp::is_video(section),
    ensures
        sdp::is_media_line(section[0]),
{
    reveal_strlit("m=");
    reveal_strlit("m=video ");
    let line = section[0];
    let video = line.take("m=video "@.len() as int);
    assert(video[0] == line[0] && video[1] == line[1]);
    assert(line.take(2) =~= "m="@);
}

proof fn lemma_section_with_rate(section: Seq<Line>, rate: Option<nat>)
    requires
        is_section(section),
    ensures
        is_section(sdp::section_with_rate(section, rate)),
        sdp::section_with_rate(section, rate)[0] == section[0],
        keeps_h264(section, not_framerate()) ==> keeps_h264(
            sdp::section_with_rate(section, rate),
            not_framerate(),
        ),
        forall|other: Option<nat>| #[trigger]
            sdp::section_with_rate(sdp::section_with_rate(section, rate), other)
                == sdp::section_with_rate(section, other) || (other is Some && !keeps_h264(
                section,
                not_framerate(),
            )),
        sdp::is_h264_video(sdp::section_with_rate(section, rate)) ==> sdp::is_h264_video(section),
{
    if sdp::is_video(section) {
        lemma_video_sections_start_with_a_media_line(section);
        lemma_media_lines_state_nothing(section[0]);
        let added = sdp::requested_rate(section, rate);
        if rate is Some {
            lemma_framerate_may_be_added(rate->0);
        }
        lemma_rewritten(section, not_framerate(), added);
        let after = sdp::section_with_rate(section, rate);
        assert(after =~= rewritten(section, not_framerate(), added));
        assert forall|other: Option<nat>| #[trigger]
            sdp::section_with_rate(after, other) == sdp::section_with_rate(section, other) || (
            other is Some && !keeps_h264(section, not_framerate())) by {
            if other is None || keeps_h264(section, not_framerate()) {
                assert(sdp::without_framerate(after) == sdp::without_framerate(section));
                assert(sdp::requested_rate(after, other) == sdp::requested_rate(section, other));
            }
        }
    }
}

/// Whether no line that states a frame rate names H.264.
pub open spec fn framerates_name_no_codec(all: Seq<Seq<char>>) -> bool {
    forall|i: int|
        0 <= i < all.len() && sdp::is_framerate_line(#[trigger] all[i]) ==> !sdp::names_h264(all[i])
}

/// Whether no line that states a bandwidth names H.264.
pub open spec fn bandwidths_name_no_codec(all: Seq<Seq<char>>) -> bool {
    forall|i: int|
        0 <= i < all.len() && sdp::is_bandwidth_line(#[trigger] all[i]) ==> !sdp::names_h264(all[i])
}

/// Replacing the frame rates of some lines twice is the same as doing it the second time only,
/// whether the one before was a request or not. Where the second is a request, no line that
/// states a frame rate may name H.264.
pub proof fn a_frame_rate_replaces_the_one_before(
    all: Seq<Seq<char>>,
    before: Option<nat>,
    rate: Option<nat>,
)
    requires
        rate is Some ==> framerates_name_no_codec(all),
    ensures
        sdp::lines_with_rate(sdp::lines_with_rate(all, before), rate) == sdp::lines_with_rate(
            all,
            rate,
        ),
        all.len() > 0 ==> sdp::lines_with_rate(all, before).len() > 0 && sdp::lines_with_rate(
            all,
            before,
        )[0] == all[0],
    decreases all.len(),
{
    if all.len() > 0 {
        let end = sdp::section_end(all);
        lemma_section_end(all);
        let section = all.take(end);
        let rest = all.skip(end);
        if rate is Some {
            assert forall|i: int| 0 <= i < section.len() && sdp::names_h264(section[i]) implies (
            not_framerate())(#[trigger] section[i]) by {
                assert(section[i] == all[i]);
            }
            assert forall|i: int| 0 <= i < rest.len() && sdp::is_framerate_line(
                #[trigger] rest[i],
            ) implies !sdp::names_h264(rest[i]) by {
                assert(rest[i] == all[end + i]);
            }
        }
        lemma_section_with_rate(section, before);
        a_frame_rate_replaces_the_one_before(rest, before, rate);
        let first = sdp::section_with_rate(section, before);
        let others = sdp::lines_with_rate(rest, before);
        if rest.len() > 0 {
            assert(rest[0] == all[end]);
        } else {
            assert(rest =~= Seq::empty());
            assert(others =~= Seq::empty());
        }
        lemma_section_before(first, others);
        assert(sdp::section_with_rate(first, rate) == sdp::section_with_rate(section, rate));
        assert(sdp::lines_with_rate(all, before) == first + others);
    }
}

/// An H.264 video section states the requested frame rate, once and at its end; a video section
/// of which none is requested states none; a section that is not about video is left alone.
pub proof fn one_frame_rate_in_an_h264_section(section: Seq<Seq<char>>, rate: Option<nat>)
    ensures
        ({
            let after = sdp::section_with_rate(section, rate);
            let requested = sdp::is_h264_video(section) && rate is Some;
            &&& requested ==> after.len() > 0 && after.last() == sdp::framerate_line(rate->0)
                && sdp::is_framerate_line(after.last())
            &&& sdp::is_video(section) ==> forall|i: int|
                0 <= i < after.len() - if requested {
                    1int
                } else {
                    0
                } ==> !sdp::is_framerate_line(#[trigger] after[i])
            &&& !sdp::is_video(section) ==> after == section
        }),
{
    if sdp::is_video(section) {
        if rate is Some {
            lemma_framerate_may_be_added(rate->0);
            reveal_strlit("a=framerate:");
            lemma_attribute_line("a=framerate:"@, rate->0);
        }
        let kept = sdp::without_framerate(section);
        let after = sdp::section_with_rate(section, rate);
        assert forall|i: int| 0 <= i < kept.len() implies !sdp::is_framerate_line(
            #[trigger] after[i],
        ) by {
            assert(after[i] == kept[i]);
            let _ = lemma_filter_keeps_members(section, not_framerate(), i);
        }
    }
}

/// A capped section states the cap in kilobits and in bits per second at its end, and no other
/// bandwidth.
pub proof fn one_bandwidth_in_a_capped_section(section: Seq<Seq<char>>, kbps: nat)
    ensures
        ({
            let after = sdp::capped_section(section, kbps);
            let n = after.len() as int;
            &&& n >= 2
            &&& after.skip(n - 2) == sdp::bandwidth_lines(kbps)
            &&& forall|i: int| 0 <= i < n - 2 ==> !sdp::is_bandwidth_line(#[trigger] after[i])
        }),
{
    let kept = sdp::without_bandwidth(section);
    let after = sdp::capped_section(section, kbps);
    assert(after.skip(after.len() - 2) =~= sdp::bandwidth_lines(kbps));
    assert forall|i: int| 0 <= i < after.len() - 2 implies !sdp::is_bandwidth_line(
        #[trigger] after[i],
    ) by {
        assert(after[i] == kept[i]);
        let _ = lemma_filter_keeps_members(section, not_bandwidth(), i);
    }
}

/// A cap replaces the one before, and the same cap again changes nothing.
pub proof fn a_cap_replaces_the_one_before(all: Seq<Seq<char>>, before: nat, kbps: nat)
    requires
        bandwidths_name_no_codec(all),
    ensures
        sdp::capped_lines(sdp::capped_lines(all, before), kbps) == sdp::capped_lines(all, kbps),
        all.len() > 0 ==> sdp::capped_lines(all, before).len() > 0 && sdp::capped_lines(
            all,
            before,
        )[0] == all[0],
    decreases all.len(),
{
    if all.len() > 0 {
        let end = sdp::section_end(all);
        lemma_section_end(all);
        let section = all.take(end);
        let rest = all.skip(end);
        if rest.len() > 0 {
            assert(rest[0] == all[end]);
        } else {
            assert(rest =~= Seq::empty());
        }
        if sdp::is_h264_video(section) {
            assert forall|i: int| 0 <= i < section.len() && sdp::names_h264(section[i]) implies (
            not_bandwidth())(#[trigger] section[i]) by {
                assert(section[i] == all[i]);
            }
            lemma_video_sections_start_with_a_media_line(section);
            lemma_media_lines_state_nothing(section[0]);
            lemma_bandwidth_may_be_added(before);
            lemma_rewritten(section, not_bandwidth(), sdp::bandwidth_lines(before));
            let first = sdp::capped_section(section, before);
            assert(first =~= rewritten(section, not_bandwidth(), sdp::bandwidth_lines(before)));
            lemma_section_before(first, rest);
            assert(sdp::capped_section(first, kbps) == sdp::capped_section(section, kbps));
        } else {
            assert forall|i: int| 0 <= i < rest.len() && sdp::is_bandwidth_line(
                #[trigger] rest[i],
            ) implies !sdp::names_h264(rest[i]) by {
                assert(rest[i] == all[end + i]);
            }
            a_cap_replaces_the_one_before(rest, before, kbps);
            let others = sdp::capped_lines(rest, before);
            if rest.len() == 0 {
                assert(others =~= Seq::empty());
            }
            lemma_section_before(section, others);
        }
    }
}

/// Whether some section of a session description is about H.264 video.
pub open spec fn has_h264_video(all: Seq<Seq<char>>) -> bool
    decreases all.len(),
{
    let end = sdp::section_end(all);
    if !(0 < end <= all.len()) {
        false
    } else {
        sdp::is_h264_video(all.take(end)) || has_h264_video(all.skip(end))
    }
}

/// A session description without H.264 video keeps all its lines, and nothing else.
pub proof fn a_description_without_h264_keeps_its_lines(all: Seq<Seq<char>>, kbps: nat)
    requires
        !has_h264_video(all),
    ensures
        sdp::capped_lines(all, kbps) == all,
    decreases all.len(),
{
    if all.len() > 0 {
        lemma_section_end(all);
        let end = sdp::section_end(all);
        a_description_without_h264_keeps_its_lines(all.skip(end), kbps);
        assert(all.take(end) + all.skip(end) =~= all);
    } else {
        assert(all =~= Seq::empty());
    }
}

/// A session description without H.264 video whose lines are all separated in one way is left
/// untouched.
pub proof fn a_description_without_h264_is_left_untouched(sdp: Seq<char>, kbps: nat)
    requires
        lines::is_uniform(sdp),
        !has_h264_video(lines::text_lines(sdp)),
    ensures
        sdp::capped_text(sdp, kbps) == sdp,
{
    a_description_without_h264_keeps_its_lines(lines::text_lines(sdp), kbps);
    lines::a_uniform_text_is_put_together_again(sdp);
}

proof fn lemma_empty_line()
    ensures
        !sdp::is_media_line(Seq::empty()),
        !sdp::is_framerate_line(Seq::empty()),
        !sdp::is_bandwidth_line(Seq::empty()),
        !sdp::names_h264(Seq::empty()),
{
    reveal_strlit("m=");
    reveal_strlit("a=framerate:");
    reveal_strlit("b=AS:");
    reveal_strlit("b=TIAS:");
    lemma_no_space_no_h264(Seq::empty());
}

/// A section and what is left of it without the empty line at its end are about the same.
proof fn lemma_section_without_its_empty_end(section: Seq<Line>)
    requires
        is_section(section),
        section.len() >= 2,
        section.last().len() == 0,
    ensures
        is_section(section.drop_last()),
        sdp::is_video(section.drop_last()) == sdp::is_video(section),
        sdp::is_h264_video(section.drop_last()) == sdp::is_h264_video(section),
{
    let shorter = section.drop_last();
    lemma_empty_line();
    assert(section.last() =~= Seq::empty());
    assert forall|i: int| 1 <= i < shorter.len() implies !sdp::is_media_line(
        #[trigger] shorter[i],
    ) by {
        assert(shorter[i] == section[i]);
    }
    if sdp::is_h264_video(section) {
        let i = choose|i: int| 0 <= i < section.len() && sdp::names_h264(#[trigger] section[i]);
        assert(i < section.len() - 1);
        assert(shorter[i] == section[i]);
    }
    if sdp::is_h264_video(shorter) {
        let i = choose|i: int| 0 <= i < shorter.len() && sdp::names_h264(#[trigger] shorter[i]);
        assert(section[i] == shorter[i]);
    }
}

/// Some lines with an empty one at their end, taken apart into the first section and the rest:
/// the empty line goes from the rest, or there is no rest.
proof fn lemma_empty_end_is_in_the_rest(all: Seq<Line>)
    requires
        all.len() >= 2,
        all.last().len() == 0,
        sdp::section_end(all) < all.len(),
    ensures
        ({
            let end = sdp::section_end(all);
            let rest = all.skip(end);
            &&& rest.len() >= 2
            &&& rest.last() == all.last()
            &&& sdp::section_end(all.drop_last()) == end
            &&& all.drop_last().take(end) == all.take(end)
            &&& all.drop_last().skip(end) == rest.drop_last()
        }),
{
    lemma_section_end(all);
    lemma_empty_line();
    let end = sdp::section_end(all);
    let rest = all.skip(end);
    assert(all.last() =~= Seq::empty());
    assert(rest[0] == all[end]);
    assert(rest.last() == all.last());
    let shorter = rest.drop_last();
    assert(shorter[0] == all[end]);
    lemma_section_before(all.take(end), shorter);
    assert(all.drop_last() =~= all.take(end) + shorter);
}

/// Whether the last section of some lines is about H.264 video.
spec fn ends_with_h264(all: Seq<Line>) -> bool
    decreases all.len(),
{
    let end = sdp::section_end(all);
    if !(0 < end < all.len()) {
        sdp::is_h264_video(all)
    } else {
        ends_with_h264(all.skip(end))
    }
}

proof fn lemma_rate_at_the_end(all: Seq<Line>, fps: nat)
    requires
        all.len() > 0,
    ensures
        sdp::lines_with_rate(all, Some(fps)).len() > 0,
        sdp::lines_with_rate(all, Some(fps))[0] == all[0],
        ends_with_h264(sdp::lines_with_rate(all, Some(fps))) ==> sdp::lines_with_rate(
            all,
            Some(fps),
        ).last() == sdp::framerate_line(fps),
    decreases all.len(),
{
    let end = sdp::section_end(all);
    lemma_section_end(all);
    let section = all.take(end);
    let rest = all.skip(end);
    lemma_section_with_rate(section, Some(fps));
    let first = sdp::section_with_rate(section, Some(fps));
    let others = sdp::lines_with_rate(rest, Some(fps));
    let after = sdp::lines_with_rate(all, Some(fps));
    assert(after == first + others);
    if rest.len() > 0 {
        assert(rest[0] == all[end]);
        lemma_rate_at_the_end(rest, fps);
        lemma_section_before(first, others);
        assert(after.last() == others.last());
    } else {
        assert(rest =~= Seq::empty());
        assert(others =~= Seq::empty());
        assert(after =~= first);
        lemma_section_before(first, others);
    }
}

proof fn lemma_rate_with_an_empty_end(all: Seq<Line>, rate: Option<nat>)
    requires
        all.len() >= 2,
        all.last().len() == 0,
        rate is None || !ends_with_h264(all),
    ensures
        ({
            let after = sdp::lines_with_rate(all, rate);
            &&& after.len() >= 2
            &&& after.last().len() == 0
            &&& sdp::lines_with_rate(all.drop_last(), rate) == after.drop_last()
        }),
    decreases all.len(),
{
    let end = sdp::section_end(all);
    lemma_section_end(all);
    let section = all.take(end);
    let rest = all.skip(end);
    let after = sdp::lines_with_rate(all, rate);
    let others = sdp::lines_with_rate(rest, rate);
    let first = sdp::section_with_rate(section, rate);
    if end < all.len() {
        lemma_empty_end_is_in_the_rest(all);
        lemma_rate_with_an_empty_end(rest, rate);
        assert(after.last() == others.last());
        assert(first + others.drop_last() =~= after.drop_last());
    } else {
        let shorter = all.drop_last();
        assert(section =~= all);
        assert(rest =~= Seq::empty());
        assert(others =~= Seq::empty());
        assert(after =~= first);
        lemma_section_without_its_empty_end(all);
        lemma_section_before(shorter, Seq::empty());
        assert(shorter + Seq::<Line>::empty() =~= shorter);
        assert(shorter.skip(shorter.len() as int) =~= Seq::empty());
        assert(sdp::lines_with_rate(Seq::<Line>::empty(), rate) =~= Seq::empty());
        let shorter_after = sdp::section_with_rate(shorter, rate);
        assert(sdp::lines_with_rate(shorter, rate) =~= shorter_after);
        lemma_section_with_rate(shorter, rate);
        if sdp::is_video(all) {
            lemma_empty_line();
            assert(all.last() =~= Seq::empty());
            reveal(Seq::filter);
            assert(all.filter(not_framerate()) == shorter.filter(not_framerate()).push(all.last()));
            assert(sdp::requested_rate(all, rate) == Seq::<Line>::empty());
            assert(first =~= shorter_after.push(all.last()));
        } else {
            assert(first =~= shorter_after.push(all.last()));
        }
        assert(first.drop_last() =~= shorter_after);
    }
}

proof fn lemma_clean_attribute(name: Line, value: nat)
    requires
        forall|i: int| 0 <= i < name.len() ==> #[trigger] name[i] != '\n',
    ensures
        lines::is_clean(name + text::decimal(value)),
{
    let line = name + text::decimal(value);
    lemma_no_space_in_decimal(value);
    assert forall|i: int| 0 <= i < line.len() implies #[trigger] line[i] != '\n' by {
        if i < name.len() {
            assert(line[i] == name[i]);
        } else {
            assert(text::is_digit(text::decimal(value)[i - name.len()]));
        }
    }
    assert(text::is_digit(text::decimal(value)[text::decimal(value).len() - 1]));
}

proof fn lemma_kept_lines_are_clean(all: Seq<Line>, keeps: spec_fn(Line) -> bool)
    requires
        lines::all_clean(all),
    ensures
        lines::all_clean(all.filter(keeps)),
{
    let kept = all.filter(keeps);
    assert forall|i: int| 0 <= i < kept.len() implies lines::is_clean(#[trigger] kept[i]) by {
        let j = lemma_filter_keeps_members(all, keeps, i);
        assert(lines::is_clean(all[j]));
    }
}

proof fn lemma_rate_keeps_lines_clean(all: Seq<Line>, rate: Option<nat>)
    requires
        lines::all_clean(all),
    ensures
        lines::all_clean(sdp::lines_with_rate(all, rate)),
    decreases all.len(),
{
    if all.len() > 0 {
        let end = sdp::section_end(all);
        lemma_section_end(all);
        let section = all.take(end);
        let rest = all.skip(end);
        assert forall|i: int| 0 <= i < section.len() implies lines::is_clean(
            #[trigger] section[i],
        ) by {
            assert(section[i] == all[i]);
        }
        assert forall|i: int| 0 <= i < rest.len() implies lines::is_clean(#[trigger] rest[i]) by {
            assert(rest[i] == all[end + i]);
        }
        lemma_rate_keeps_lines_clean(rest, rate);
        lemma_kept_lines_are_clean(section, not_framerate());
        if rate is Some {
            reveal_strlit("a=framerate:");
            lemma_clean_attribute("a=framerate:"@, rate->0);
        }
        let kept = section.filter(not_framerate());
        let first = sdp::section_with_rate(section, rate);
        let others = sdp::lines_with_rate(rest, rate);
        let after = sdp::lines_with_rate(all, rate);
        assert forall|i: int| 0 <= i < after.len() implies lines::is_clean(#[trigger] after[i]) by {
            if i < first.len() {
                assert(after[i] == first[i]);
                if sdp::is_video(section) && i < kept.len() {
                    assert(first[i] == kept[i]);
                } else if !sdp::is_video(section) {
                    assert(first[i] == section[i]);
                }
            } else {
                assert(after[i] == others[i - first.len()]);
            }
        }
    }
}

proof fn lemma_rate_of_one_line(line: Line, rate: Option<nat>)
    requires
        rate is None || !ends_with_h264(seq![line]),
    ensures
        sdp::lines_with_rate(seq![line], rate).len() <= 1,
        line.len() == 0 ==> sdp::lines_with_rate(seq![line], rate) == seq![line],
{
    let all = seq![line];
    assert(all.take(1) =~= all);
    assert(all.skip(1) =~= Seq::empty());
    assert(sdp::lines_with_rate(Seq::<Line>::empty(), rate) =~= Seq::empty());
    assert(sdp::lines_with_rate(all, rate) =~= sdp::section_with_rate(all, rate));
    reveal_strlit("m=video ");
    if sdp::is_video(all) {
        assert(sdp::requested_rate(all, rate) == Seq::<Line>::empty());
        reveal(Seq::filter);
        assert(all.drop_last() =~= Seq::empty());
        assert(all.drop_last().filter(not_framerate()) =~= Seq::empty());
    }
}

proof fn lemma_rates_are_replaced_in_a_text(sdp: Seq<char>, before: Option<nat>, rate: Option<nat>)
    requires
        rate is Some ==> before is Some && framerates_name_no_codec(lines::text_lines(sdp)),
    ensures
        sdp::text_with_rate(sdp::text_with_rate(sdp, before), rate) == sdp::text_with_rate(
            sdp,
            rate,
        ),
{
    let all = lines::text_lines(sdp);
    let once = sdp::lines_with_rate(all, before);
    let edit = |lines: Seq<Line>| sdp::lines_with_rate(lines, rate);
    lines::lines_of_a_text_are_clean(sdp);
    lemma_rate_keeps_lines_clean(all, before);
    a_frame_rate_replaces_the_one_before(all, before, rate);
    assert(sdp::lines_with_rate(Seq::<Line>::empty(), rate) =~= Seq::empty());
    if rate is Some && once.len() > 0 {
        if all.len() == 0 {
            assert(once =~= Seq::empty());
        }
        lemma_rate_at_the_end(all, before->0);
        reveal_strlit("a=framerate:");
        lemma_attribute_line("a=framerate:"@, before->0);
    }
    if once.len() == 1 {
        let line = once[0];
        assert(once =~= seq![line]);
        if rate is Some && ends_with_h264(once) {
            lemma_video_sections_start_with_a_media_line(once);
            lemma_media_lines_state_nothing(line);
            assert(false);
        }
        lemma_rate_of_one_line(line, rate);
    }
    if once.len() >= 2 && once.last().len() == 0 {
        lemma_rate_with_an_empty_end(once, rate);
    }
    assert(lines::edits_again(once, lines::ends_line(sdp), edit));
    lines::an_edited_text_is_edited_by_its_lines(sdp, once, edit);
}

/// Of two frame rates that are requested one after the other the last one wins, and requesting
/// the same one again changes nothing. No line that states a frame rate may name H.264.
pub proof fn the_last_request_wins(sdp: Seq<char>, before: nat, fps: nat)
    requires
        framerates_name_no_codec(lines::text_lines(sdp)),
    ensures
        sdp::text_with_rate(sdp::text_with_rate(sdp, Some(before)), Some(fps))
            == sdp::text_with_rate(sdp, Some(fps)),
{
    lemma_rates_are_replaced_in_a_text(sdp, Some(before), Some(fps));
}

/// Removing the frame rates twice is the same as once, and it also takes back a request.
pub proof fn frame_rates_are_removed_once(sdp: Seq<char>, fps: nat)
    ensures
        sdp::text_with_rate(sdp::text_with_rate(sdp, None), None) == sdp::text_with_rate(sdp, None),
        sdp::text_with_rate(sdp::text_with_rate(sdp, Some(fps)), None) == sdp::text_with_rate(
            sdp,
            None,
        ),
{
    lemma_rates_are_replaced_in_a_text(sdp, None, None);
    lemma_rates_are_replaced_in_a_text(sdp, Some(fps), None);
}

/// Whether the first H.264 video section of some lines is their last section.
spec fn caps_the_end(all: Seq<Line>) -> bool
    decreases all.len(),
{
    let end = sdp::section_end(all);
    if !(0 < end < all.len()) {
        sdp::is_h264_video(all)
    } else {
        !sdp::is_h264_video(all.take(end)) && caps_the_end(all.skip(end))
    }
}

proof fn lemma_capped_section(section: Seq<Line>, kbps: nat)
    requires
        is_section(section),
        sdp::is_h264_video(section),
        keeps_h264(section, not_bandwidth()),
    ensures
        is_section(sdp::capped_section(section, kbps)),
        sdp::capped_section(section, kbps)[0] == section[0],
        sdp::is_h264_video(sdp::capped_section(section, kbps)),
        sdp::capped_section(section, kbps).last().len() > 0,
{
    let added = sdp::bandwidth_lines(kbps);
    let after = sdp::capped_section(section, kbps);
    assert(after == rewritten(section, not_bandwidth(), added));
    assert(after.last().len() > 0) by {
        reveal_strlit("b=TIAS:");
        assert(after.last() == added[1]);
        assert(added[1].len() >= "b=TIAS:"@.len());
    }
    assert((not_bandwidth())(section[0])) by {
        lemma_video_sections_start_with_a_media_line(section);
        lemma_media_lines_state_nothing(section[0]);
    }
    lemma_bandwidth_may_be_added(kbps);
    lemma_rewritten(section, not_bandwidth(), added);
}

proof fn lemma_cap_at_the_end(all: Seq<Line>, kbps: nat)
    requires
        all.len() > 0,
        bandwidths_name_no_codec(all),
    ensures
        sdp::capped_lines(all, kbps).len() > 0,
        sdp::capped_lines(all, kbps)[0] == all[0],
        caps_the_end(sdp::capped_lines(all, kbps)) ==> sdp::capped_lines(all, kbps).last().len()
            > 0 && sdp::capped_lines(all, kbps).len() > 1,
    decreases all.len(),
{
    let end = sdp::section_end(all);
    lemma_section_end(all);
    let section = all.take(end);
    let rest = all.skip(end);
    let after = sdp::capped_lines(all, kbps);
    if rest.len() > 0 {
        assert(rest[0] == all[end]);
    } else {
        assert(rest =~= Seq::empty());
        assert(sdp::capped_lines(rest, kbps) =~= Seq::empty());
    }
    if sdp::is_h264_video(section) {
        assert forall|i: int| 0 <= i < section.len() && sdp::names_h264(section[i]) implies (
        not_bandwidth())(#[trigger] section[i]) by {
            assert(section[i] == all[i]);
        }
        lemma_capped_section(section, kbps);
        let first = sdp::capped_section(section, kbps);
        lemma_section_before(first, rest);
        if rest.len() == 0 {
            assert(after =~= first);
        }
    } else {
        let others = sdp::capped_lines(rest, kbps);
        if rest.len() > 0 {
            assert forall|i: int| 0 <= i < rest.len() && sdp::is_bandwidth_line(
                #[trigger] rest[i],
            ) implies !sdp::names_h264(rest[i]) by {
                assert(rest[i] == all[end + i]);
            }
            lemma_cap_at_the_end(rest, kbps);
            assert(after.last() == others.last());
        }
        lemma_section_before(section, others);
        if rest.len() == 0 {
            assert(after =~= section);
        }
    }
}

proof fn lemma_cap_with_an_empty_end(all: Seq<Line>, kbps: nat)
    requires
        all.len() >= 2,
        all.last().len() == 0,
        !caps_the_end(all),
    ensures
        ({
            let after = sdp::capped_lines(all, kbps);
            &&& after.len() >= 2
            &&& after.last().len() == 0
            &&& sdp::capped_lines(all.drop_last(), kbps) == after.drop_last()
        }),
    decreases all.len(),
{
    let end = sdp::section_end(all);
    lemma_section_end(all);
    let section = all.take(end);
    let rest = all.skip(end);
    let after = sdp::capped_lines(all, kbps);
    if end < all.len() {
        lemma_empty_end_is_in_the_rest(all);
        if sdp::is_h264_video(section) {
            let first = sdp::capped_section(section, kbps);
            assert(first + rest.drop_last() =~= after.drop_last());
        } else {
            lemma_cap_with_an_empty_end(rest, kbps);
            let others = sdp::capped_lines(rest, kbps);
            assert(after.last() == others.last());
            assert(section + others.drop_last() =~= after.drop_last());
        }
    } else {
        let shorter = all.drop_last();
        assert(section =~= all);
        assert(rest =~= Seq::empty());
        assert(sdp::capped_lines(Seq::<Line>::empty(), kbps) =~= Seq::empty());
        assert(after =~= all);
        lemma_section_without_its_empty_end(all);
        lemma_section_before(shorter, Seq::empty());
        assert(shorter + Seq::<Line>::empty() =~= shorter);
        assert(shorter.skip(shorter.len() as int) =~= Seq::empty());
        assert(sdp::capped_lines(shorter, kbps) =~= shorter);
    }
}

proof fn lemma_cap_keeps_lines_clean(all: Seq<Line>, kbps: nat)
    requires
        lines::all_clean(all),
    ensures
        lines::all_clean(sdp::capped_lines(all, kbps)),
    decreases all.len(),
{
    if all.len() > 0 {
        let end = sdp::section_end(all);
        lemma_section_end(all);
        let section = all.take(end);
        let rest = all.skip(end);
        assert forall|i: int| 0 <= i < section.len() implies lines::is_clean(
            #[trigger] section[i],
        ) by {
            assert(section[i] == all[i]);
        }
        assert forall|i: int| 0 <= i < rest.len() implies lines::is_clean(#[trigger] rest[i]) by {
            assert(rest[i] == all[end + i]);
        }
        lemma_cap_keeps_lines_clean(rest, kbps);
        lemma_kept_lines_are_clean(section, not_bandwidth());
        reveal_strlit("b=AS:");
        reveal_strlit("b=TIAS:");
        lemma_clean_attribute("b=AS:"@, kbps);
        lemma_clean_attribute("b=TIAS:"@, kbps * 1000);
    }
}

/// Of two caps the last one wins, and the same cap again changes nothing. No line that states a
/// bandwidth may name H.264.
pub proof fn the_last_cap_wins(sdp: Seq<char>, before: nat, kbps: nat)
    requires
        bandwidths_name_no_codec(lines::text_lines(sdp)),
    ensures
        sdp::capped_text(sdp::capped_text(sdp, before), kbps) == sdp::capped_text(sdp, kbps),
{
    let all = lines::text_lines(sdp);
    let once = sdp::capped_lines(all, before);
    let edit = |lines: Seq<Line>| sdp::capped_lines(lines, kbps);
    lines::lines_of_a_text_are_clean(sdp);
    lemma_cap_keeps_lines_clean(all, before);
    a_cap_replaces_the_one_before(all, before, kbps);
    assert(sdp::capped_lines(Seq::<Line>::empty(), kbps) =~= Seq::empty());
    if all.len() > 0 {
        lemma_cap_at_the_end(all, before);
    } else {
        assert(once =~= Seq::empty());
    }
    if once.len() == 1 {
        assert(once.take(1) =~= once);
        assert(once.skip(1) =~= Seq::empty());
        assert(!sdp::is_h264_video(once));
        assert(sdp::capped_lines(once, kbps) =~= once);
    }
    if once.len() >= 2 && once.last().len() == 0 {
        lemma_cap_with_an_empty_end(once, kbps);
    }
    assert(lines::edits_again(once, lines::ends_line(sdp), edit));
    lines::an_edited_text_is_edited_by_its_lines(sdp, once, edit);
}

// What an edit keeps and what it adds, line by line.

/// Whether a line starts with a word.
pub open spec fn opens_with(line: Seq<char>, word: Seq<char>) -> bool {
    line.len() >= word.len() && line.take(word.len() as int) == word
}

/// Whether a line is one of those that a cap replaces.
pub open spec fn caps_bandwidth(line: Seq<char>) -> bool {
    opens_with(line, "b=AS:"@) || opens_with(line, "b=TIAS:"@)
}

/// Whether some lines are about H.264 video: the first starts with `m=video ` and one of them
/// names the codec, in upper or lower case.
pub open spec fn about_h264_video(section: Seq<Seq<char>>) -> bool {
    &&& section.len() > 0
    &&& opens_with(section[0], "m=video "@)
    &&& exists|i: int, at: int|
        0 <= i < section.len() && 0 <= at <= section[i].len() - 6 && #[trigger] text::lowered(
            section[i].subrange(at, at + 6),
        ) == " h264/"@
}

/// Whether some lines are one media section or the session section, and others what follows: the
/// others start with the next `m=` line, if there are any.
pub open spec fn section_before(section: Seq<Seq<char>>, rest: Seq<Seq<char>>) -> bool {
    &&& section.len() > 0
    &&& forall|i: int| 1 <= i < section.len() ==> !opens_with(#[trigger] section[i], "m="@)
    &&& rest.len() > 0 ==> opens_with(rest[0], "m="@)
}

proof fn lemma_about_h264_video(section: Seq<Line>)
    ensures
        about_h264_video(section) == sdp::is_h264_video(section),
{
    reveal_strlit(" h264/");
    if about_h264_video(section) {
        let (i, at) = choose|i: int, at: int|
            0 <= i < section.len() && 0 <= at <= section[i].len() - 6 && #[trigger] text::lowered(
                section[i].subrange(at, at + 6),
            ) == " h264/"@;
        let low = text::lowered(section[i]);
        assert(low.subrange(at, at + 6) =~= text::lowered(section[i].subrange(at, at + 6)));
        assert(text::found_at(low, " h264/"@, at));
        assert(sdp::names_h264(section[i]));
    }
    if sdp::is_h264_video(section) {
        let i = choose|i: int| 0 <= i < section.len() && sdp::names_h264(#[trigger] section[i]);
        let low = text::lowered(section[i]);
        let at = choose|at: int| #[trigger] text::found_at(low, " h264/"@, at);
        assert(low.subrange(at, at + 6) =~= text::lowered(section[i].subrange(at, at + 6)));
        assert(text::lowered(section[i].subrange(at, at + 6)) == " h264/"@);
    }
}

proof fn lemma_section_and_rest(section: Seq<Line>, rest: Seq<Line>)
    requires
        section_before(section, rest),
    ensures
        sdp::section_end(section + rest) == section.len(),
        (section + rest).take(section.len() as int) == section,
        (section + rest).skip(section.len() as int) == rest,
        section.len() <= (section + rest).len(),
{
    assert forall|i: int| 1 <= i < section.len() implies !sdp::is_media_line(
        #[trigger] section[i],
    ) by {
        assert(!opens_with(section[i], "m="@));
    }
    lemma_section_before(section, rest);
}

/// A cap goes through a description section by section. It passes over every section that is not
/// about H.264 video and leaves it as it is. In the first one that is, the lines that start with
/// `b=AS:` or `b=TIAS:` are taken out, every other line stays in its place, and the two that
/// state the cap come at the end, in kilobits and in bits per second. All sections after it are
/// left as they are.
pub proof fn a_cap_rewrites_the_first_h264_section(
    section: Seq<Seq<char>>,
    rest: Seq<Seq<char>>,
    kbps: nat,
)
    requires
        section_before(section, rest),
    ensures
        sdp::capped_lines(Seq::empty(), kbps) == Seq::<Seq<char>>::empty(),
        sdp::capped_lines(section + rest, kbps) == if about_h264_video(section) {
            section.filter(|line: Seq<char>| !caps_bandwidth(line)) + seq![
                "b=AS:"@ + text::decimal(kbps),
                "b=TIAS:"@ + text::decimal(kbps * 1000),
            ] + rest
        } else {
            section + sdp::capped_lines(rest, kbps)
        },
{
    lemma_section_and_rest(section, rest);
    lemma_about_h264_video(section);
    let keeps = |line: Seq<char>| !caps_bandwidth(line);
    assert(keeps =~= not_bandwidth());
}

/// A frame rate goes through a description section by section. A section that is not about video
/// is left as it is. Out of one that is, the lines that start with `a=framerate:` are taken,
/// every other line stays in its place, and if it is about H.264 and a rate is asked for, the
/// line that states it comes at the end.
pub proof fn a_frame_rate_rewrites_the_video_sections(
    section: Seq<Seq<char>>,
    rest: Seq<Seq<char>>,
    rate: Option<nat>,
)
    requires
        section_before(section, rest),
    ensures
        sdp::lines_with_rate(Seq::empty(), rate) == Seq::<Seq<char>>::empty(),
        sdp::lines_with_rate(section + rest, rate) == (if opens_with(section[0], "m=video "@) {
            section.filter(|line: Seq<char>| !opens_with(line, "a=framerate:"@)) + (if rate is Some
                && about_h264_video(section) {
                seq!["a=framerate:"@ + text::decimal(rate->0)]
            } else {
                Seq::empty()
            })
        } else {
            section
        }) + sdp::lines_with_rate(rest, rate),
{
    lemma_section_and_rest(section, rest);
    lemma_about_h264_video(section);
    let keeps = |line: Seq<char>| !opens_with(line, "a=framerate:"@);
    assert(keeps =~= not_framerate());
}

proof fn lemma_cap_lines_are_caps(kbps: nat)
    ensures
        caps_bandwidth("b=AS:"@ + text::decimal(kbps)),
        caps_bandwidth("b=TIAS:"@ + text::decimal(kbps * 1000)),
{
    let first = "b=AS:"@ + text::decimal(kbps);
    let second = "b=TIAS:"@ + text::decimal(kbps * 1000);
    assert(first.take("b=AS:"@.len() as int) =~= "b=AS:"@);
    assert(second.take("b=TIAS:"@.len() as int) =~= "b=TIAS:"@);
}

/// Capping keeps every line of a description that does not start with `b=AS:` or `b=TIAS:`, in
/// its order: leaving those out, the lines before and after are the same.
pub proof fn a_cap_keeps_every_other_line(all: Seq<Seq<char>>, kbps: nat)
    ensures
        sdp::capped_lines(all, kbps).filter(|line: Seq<char>| !caps_bandwidth(line)) == all.filter(
            |line: Seq<char>| !caps_bandwidth(line),
        ),
    decreases all.len(),
{
    let keeps = |line: Seq<char>| !caps_bandwidth(line);
    let after = sdp::capped_lines(all, kbps);
    if all.len() == 0 {
        assert(all =~= Seq::empty());
        assert(after =~= Seq::empty());
    } else {
        let end = sdp::section_end(all);
        lemma_section_end(all);
        let section = all.take(end);
        let rest = all.skip(end);
        assert(section + rest =~= all);
        assert(keeps =~= not_bandwidth());
        Seq::filter_distributes_over_add(section, rest, keeps);
        if sdp::is_h264_video(section) {
            let added = sdp::bandwidth_lines(kbps);
            let kept = section.filter(keeps);
            lemma_cap_lines_are_caps(kbps);
            assert forall|i: int| 0 <= i < added.len() implies !keeps(#[trigger] added[i]) by {}
            lemma_filter_keeps_none(added, keeps);
            lemma_filter_twice(section, keeps);
            Seq::filter_distributes_over_add(kept, added, keeps);
            Seq::filter_distributes_over_add(kept + added, rest, keeps);
            assert(after == kept + added + rest);
            assert(kept + Seq::<Line>::empty() =~= kept);
        } else {
            a_cap_keeps_every_other_line(rest, kbps);
            Seq::filter_distributes_over_add(section, sdp::capped_lines(rest, kbps), keeps);
        }
    }
}

/// A line of a capped description is a line of the description itself, or one of the two that
/// state the cap.
pub proof fn a_cap_adds_only_the_cap(all: Seq<Seq<char>>, kbps: nat, i: int)
    requires
        0 <= i < sdp::capped_lines(all, kbps).len(),
    ensures
        ({
            let line = sdp::capped_lines(all, kbps)[i];
            ||| all.contains(line)
            ||| line == "b=AS:"@ + text::decimal(kbps)
            ||| line == "b=TIAS:"@ + text::decimal(kbps * 1000)
        }),
    decreases all.len(),
{
    let after = sdp::capped_lines(all, kbps);
    if all.len() > 0 {
        let end = sdp::section_end(all);
        lemma_section_end(all);
        let section = all.take(end);
        let rest = all.skip(end);
        if sdp::is_h264_video(section) {
            let kept = section.filter(not_bandwidth());
            let added = sdp::bandwidth_lines(kbps);
            if i < kept.len() {
                let j = lemma_filter_keeps_members(section, not_bandwidth(), i);
                assert(after[i] == kept[i]);
                assert(all[j] == section[j]);
            } else if i < kept.len() + 2 {
                assert(after[i] == added[i - kept.len()]);
            } else {
                assert(after[i] == rest[i - kept.len() - 2]);
                assert(all[end + i - kept.len() - 2] == after[i]);
            }
        } else if i < section.len() {
            assert(after[i] == section[i]);
            assert(all[i] == after[i]);
        } else {
            let others = sdp::capped_lines(rest, kbps);
            a_cap_adds_only_the_cap(rest, kbps, i - section.len());
            assert(after[i] == others[i - section.len()]);
            if rest.contains(after[i]) {
                let j = choose|j: int| 0 <= j < rest.len() && rest[j] == after[i];
                assert(all[end + j] == after[i]);
            }
        }
    }
}

/// Replacing the frame rates keeps every line that does not start with `a=framerate:`, in its
/// order.
pub proof fn a_frame_rate_keeps_every_other_line(all: Seq<Seq<char>>, rate: Option<nat>)
    ensures
        sdp::lines_with_rate(all, rate).filter(
            |line: Seq<char>| !opens_with(line, "a=framerate:"@),
        ) == all.filter(|line: Seq<char>| !opens_with(line, "a=framerate:"@)),
    decreases all.len(),
{
    let keeps = |line: Seq<char>| !opens_with(line, "a=framerate:"@);
    let after = sdp::lines_with_rate(all, rate);
    if all.len() == 0 {
        assert(all =~= Seq::empty());
        assert(after =~= Seq::empty());
    } else {
        let end = sdp::section_end(all);
        lemma_section_end(all);
        let section = all.take(end);
        let rest = all.skip(end);
        let first = sdp::section_with_rate(section, rate);
        assert(section + rest =~= all);
        assert(keeps =~= not_framerate());
        Seq::filter_distributes_over_add(section, rest, keeps);
        a_frame_rate_keeps_every_other_line(rest, rate);
        Seq::filter_distributes_over_add(first, sdp::lines_with_rate(rest, rate), keeps);
        if sdp::is_video(section) {
            let added = sdp::requested_rate(section, rate);
            let kept = section.filter(keeps);
            if rate is Some {
                let line = "a=framerate:"@ + text::decimal(rate->0);
                assert(line.take("a=framerate:"@.len() as int) =~= "a=framerate:"@);
            }
            assert forall|i: int| 0 <= i < added.len() implies !keeps(#[trigger] added[i]) by {}
            lemma_filter_keeps_none(added, keeps);
            lemma_filter_twice(section, keeps);
            Seq::filter_distributes_over_add(kept, added, keeps);
            assert(first == kept + added);
            assert(kept + Seq::<Line>::empty() =~= kept);
        }
    }
}

// Extension ids.

/// Whether a line states an extension id for a URI: after `a=extmap:` come the digits of a number
/// up to 255, then no further digit, and the URI stands somewhere in the line, in upper or lower
/// case.
pub open spec fn states_extension(line: Seq<char>, uri: Seq<char>, id: u8) -> bool {
    &&& opens_with(line, "a=extmap:"@)
    &&& text::has_part(text::lowered(line), text::lowered(uri))
    &&& exists|n: int| 0 < n <= line.len() - 9 && #[trigger] digits_behind(line, 9, n) && id
        == text::number_of(line.subrange(9, 9 + n))
}

/// Whether exactly so many digits stand at a place.
pub open spec fn digits_behind(line: Seq<char>, at: int, n: int) -> bool {
    &&& forall|k: int| at <= k < at + n ==> '0' <= #[trigger] line[k] <= '9'
    &&& at + n < line.len() ==> !('0' <= line[at + n] <= '9')
}

proof fn lemma_digits(line: Seq<char>)
    ensures
        0 <= text::digits_at_start(line) <= line.len(),
        digits_behind(line, 0, text::digits_at_start(line)),
    decreases line.len(),
{
    if line.len() > 0 && text::is_digit(line[0]) {
        let rest = line.drop_first();
        lemma_digits(rest);
        let n = text::digits_at_start(line);
        assert forall|k: int| 0 <= k < n implies '0' <= #[trigger] line[k] <= '9' by {
            if k > 0 {
                assert(rest[k - 1] == line[k]);
            }
        }
        if n < line.len() {
            assert(rest[n - 1] == line[n]);
        }
    }
}

proof fn lemma_states_extension(line: Line, uri: Line)
    ensures
        forall|id: u8| #[trigger]
            states_extension(line, uri, id) <==> text::begins_with(line, "a=extmap:"@)
                && text::has_part(text::lowered(line), text::lowered(uri)) && sdp::extmap_id(line)
                == Some(id),
{
    reveal_strlit("a=extmap:");
    if opens_with(line, "a=extmap:"@) {
        let rest = line.skip(9);
        let m = text::digits_at_start(rest);
        lemma_digits(rest);
        let digits = rest.take(m);
        assert forall|k: int| 0 <= k < digits.len() implies '0' <= #[trigger] digits[k] <= '9' by {
            assert(rest[k] == digits[k]);
        }
        text::digits_count_in_tens(digits, '0');
        assert(rest.take(m) =~= line.subrange(9, 9 + m));
        assert(digits_behind(line, 9, m)) by {
            assert forall|k: int| 9 <= k < 9 + m implies '0' <= #[trigger] line[k] <= '9' by {
                assert(rest[k - 9] == line[k]);
            }
            if 9 + m < line.len() {
                assert(rest[m] == line[9 + m]);
            }
        }
        assert forall|n: int| 0 < n <= line.len() - 9 && #[trigger] digits_behind(line, 9, n) implies n
            == m by {
            if n < m {
                assert(rest[n] == line[9 + n]);
            } else if m < n {
                assert(rest[m] == line[9 + m]);
            }
        }
    }
}

/// An extension id that is read out of a description is stated by one of its lines, and no line
/// before that one states any for the URI; where none is read, no line states one.
pub proof fn an_extension_id_is_the_first_that_is_stated(all: Seq<Seq<char>>, uri: Seq<char>)
    ensures
        match sdp::extmap_id_among(all, uri) {
            Some(id) => exists|i: int|
                0 <= i < all.len() && #[trigger] states_extension(all[i], uri, id) && forall|
                    j: int,
                    other: u8,
                | 0 <= j < i ==> !#[trigger] states_extension(all[j], uri, other),
            None => forall|j: int, other: u8|
                0 <= j < all.len() ==> !#[trigger] states_extension(all[j], uri, other),
        },
    decreases all.len(),
{
    if all.len() > 0 {
        lemma_states_extension(all[0], uri);
        let rest = all.drop_first();
        an_extension_id_is_the_first_that_is_stated(rest, uri);
        let found = sdp::extmap_id_among(all, uri);
        let first = text::begins_with(all[0], "a=extmap:"@) && text::has_part(
            text::lowered(all[0]),
            text::lowered(uri),
        ) && sdp::extmap_id(all[0]) is Some;
        if first {
            assert(states_extension(all[0], uri, found->0));
        } else {
            assert forall|other: u8| !#[trigger] states_extension(all[0], uri, other) by {}
            match found {
                Some(id) => {
                    let i = choose|i: int|
                        0 <= i < rest.len() && #[trigger] states_extension(rest[i], uri, id)
                            && forall|j: int, other: u8|
                            0 <= j < i ==> !#[trigger] states_extension(rest[j], uri, other);
                    assert(all[i + 1] == rest[i]);
                    assert(states_extension(all[i + 1], uri, id));
                    assert forall|j: int, other: u8|
                        0 <= j < i + 1 implies !#[trigger] states_extension(all[j], uri, other) by {
                        if j > 0 {
                            assert(rest[j - 1] == all[j]);
                        }
                    }
                },
                None => {
                    assert forall|j: int, other: u8|
                        0 <= j < all.len() implies !#[trigger] states_extension(
                        all[j],
                        uri,
                        other,
                    ) by {
                        if j > 0 {
                            assert(rest[j - 1] == all[j]);
                        }
                    }
                },
            }
        }
    }
}

} // verus!
