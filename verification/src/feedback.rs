//! Transport feedback: what is reported of the packets that carried a transport number.

use crate::packet;
use vstd::prelude::*;
use vstd::relations::{sorted_by, total_ordering};

verus! {

/// The distances between the transport numbers of neighbouring arrivals.
pub open spec fn number_gaps(annotations: Seq<(u16, u64)>) -> Seq<u16> {
    Seq::new(
        if annotations.len() == 0 {
            0
        } else {
            (annotations.len() - 1) as nat
        },
        |i: int| packet::sequence_distance(annotations[i].0, annotations[i + 1].0) as u16,
    )
}

/// The order by which gaps are ranked.
pub open spec fn ascending() -> spec_fn(u16, u16) -> bool {
    |a: u16, b: u16| a <= b
}

/// The gap of middle rank, the higher one of two; 0 when there is no gap.
pub open spec fn median(gaps: Seq<u16>) -> u16 {
    if gaps.len() == 0 {
        0
    } else {
        gaps.sort_by(ascending())[gaps.len() as int / 2]
    }
}

/// Puts a gap in its place among sorted ones.
fn insert_in_order(sorted: &mut Vec<u16>, gap: u16)
    requires
        sorted_by(old(sorted)@, ascending()),
    ensures
        sorted_by(final(sorted)@, ascending()),
        final(sorted)@.to_multiset() == old(sorted)@.to_multiset().insert(gap),
        final(sorted)@.len() == old(sorted)@.len() + 1,
{
    let mut at: usize = 0;
    while at < sorted.len() && sorted[at] < gap
        invariant
            at <= sorted@.len(),
            sorted@ == old(sorted)@,
            forall|i: int| 0 <= i < at ==> sorted@[i] < gap,
        decreases sorted@.len() - at,
    {
        at = at + 1;
    }
    proof {
        broadcast use vstd::seq_lib::group_to_multiset_ensures;

        let before = old(sorted)@;
        let after = before.insert(at as int, gap);
        assert(after.to_multiset() == before.to_multiset().insert(gap));
        assert forall|i: int, j: int| 0 <= i < j < after.len() implies #[trigger] ascending()(
            after[i],
            after[j],
        ) by {
            if i < at && j > at {
                assert(ascending()(before[i], before[j - 1]));
            } else if j < at {
                assert(ascending()(before[i], before[j]));
            } else if i > at {
                assert(ascending()(before[i - 1], before[j - 1]));
            } else if i == at {
                if j - 1 > at {
                    assert(ascending()(before[at as int], before[j - 1]));
                }
            }
        }
    }
    sorted.insert(at, gap);
}

/// The gap of middle rank between the transport numbers of neighbouring arrivals.
pub fn median_gap(annotations: &Vec<(u16, u64)>) -> (gap: u16)
    ensures
        gap == median(number_gaps(annotations@)),
{
    let ghost gaps = number_gaps(annotations@);
    let mut sorted: Vec<u16> = Vec::new();
    let mut i: usize = 0;
    proof {
        broadcast use vstd::seq_lib::group_to_multiset_ensures;

        assert(sorted@ =~= gaps.take(0));
    }
    while i < annotations.len() && i + 1 < annotations.len()
        invariant
            i <= gaps.len(),
            gaps == number_gaps(annotations@),
            sorted@.len() == i,
            sorted_by(sorted@, ascending()),
            sorted@.to_multiset() == gaps.take(i as int).to_multiset(),
        decreases annotations@.len() - i,
    {
        let gap: u16 = annotations[i + 1].0.wrapping_sub(annotations[i].0);
        assert(gap == gaps[i as int]);
        insert_in_order(&mut sorted, gap);
        proof {
            broadcast use vstd::seq_lib::group_to_multiset_ensures;

            assert(gaps.take(i + 1) =~= gaps.take(i as int).push(gap));
        }
        i = i + 1;
    }
    assert(gaps.take(i as int) =~= gaps);
    if sorted.len() == 0 {
        return 0;
    }
    proof {
        assert(total_ordering(ascending()));
        gaps.lemma_sort_by_ensures(ascending());
        vstd::seq_lib::lemma_sorted_unique(sorted@, gaps.sort_by(ascending()), ascending());
    }
    sorted[sorted.len() / 2]
}

/// A transport feedback report: all of `packet_status_count` packets from the base number on
/// arrived, each with the arrival delta given, in quarters of a millisecond.
#[derive(Debug, Clone)]
pub struct TwccReport {
    pub media_ssrc: u32,
    pub base_sequence_number: u16,
    pub packet_status_count: u16,
    pub reference_time: u32,
    /// The length of the one run of packets that are reported as received.
    pub run_length: u16,
    pub recv_deltas: Vec<i64>,
}

/// What a transport feedback report holds.
pub ghost struct TwccView {
    pub media_ssrc: u32,
    pub base_sequence_number: u16,
    pub packet_status_count: u16,
    pub reference_time: u32,
    pub run_length: u16,
    pub recv_deltas: Seq<i64>,
}

impl View for TwccReport {
    type V = TwccView;

    open spec fn view(&self) -> TwccView {
        TwccView {
            media_ssrc: self.media_ssrc,
            base_sequence_number: self.base_sequence_number,
            packet_status_count: self.packet_status_count,
            reference_time: self.reference_time,
            run_length: self.run_length,
            recv_deltas: self.recv_deltas@,
        }
    }
}

/// The report on some arrivals: their count from the first one's number on, in one run, each
/// with the smallest delta. The arrival times themselves are not reported.
pub open spec fn twcc_report(media_ssrc: u32, annotations: Seq<(u16, u64)>) -> TwccView {
    TwccView {
        media_ssrc,
        base_sequence_number: annotations[0].0,
        packet_status_count: annotations.len() as u16,
        reference_time: 0,
        run_length: annotations.len() as u16,
        recv_deltas: Seq::new(annotations.len(), |i: int| 1i64),
    }
}

/// The report on some arrivals.
pub fn report_arrivals(media_ssrc: u32, annotations: &Vec<(u16, u64)>) -> (report: TwccReport)
    requires
        0 < annotations@.len() <= u16::MAX,
    ensures
        report@ == twcc_report(media_ssrc, annotations@),
{
    let count: u16 = annotations.len() as u16;
    let mut recv_deltas: Vec<i64> = Vec::new();
    let mut i: u16 = 0;
    while i < count
        invariant
            i <= count,
            recv_deltas@ == Seq::new(i as nat, |k: int| 1i64),
        decreases count - i,
    {
        recv_deltas.push(1);
        i = i + 1;
        assert(recv_deltas@ =~= Seq::new(i as nat, |k: int| 1i64));
    }
    TwccReport {
        media_ssrc,
        base_sequence_number: annotations[0].0,
        packet_status_count: count,
        reference_time: 0,
        run_length: count,
        recv_deltas,
    }
}

/// The gaps are those between the transport numbers of neighbouring arrivals, round the circle of
/// 16 bits, one fewer than arrivals.
pub proof fn gaps_lie_between_neighbours(annotations: Seq<(u16, u64)>, i: int)
    requires
        0 <= i < annotations.len() - 1,
    ensures
        number_gaps(annotations).len() == annotations.len() - 1,
        number_gaps(annotations)[i] == (annotations[i + 1].0 - annotations[i].0) % 0x1_0000,
{
}

/// The median is in the middle: with the gaps put in order it stands at half their number.
pub proof fn the_median_stands_in_the_middle(gaps: Seq<u16>)
    requires
        gaps.len() > 0,
    ensures
        exists|ranked: Seq<u16>|
            {
                &&& #[trigger] ranked.to_multiset() == gaps.to_multiset()
                &&& ranked.len() == gaps.len()
                &&& forall|i: int, j: int| 0 <= i <= j < ranked.len() ==> ranked[i] <= ranked[j]
                &&& median(gaps) == ranked[gaps.len() as int / 2]
            },
{
    let ranked = gaps.sort_by(ascending());
    assert(total_ordering(ascending()));
    gaps.lemma_sort_by_ensures(ascending());
    assert(ranked.len() == gaps.len()) by {
        broadcast use vstd::seq_lib::group_to_multiset_ensures;

        assert(ranked.to_multiset().len() == gaps.to_multiset().len());
    }
    assert forall|i: int, j: int| 0 <= i <= j < ranked.len() implies ranked[i] <= ranked[j] by {
        if i < j {
            assert(ascending()(ranked[i], ranked[j]));
        }
    }
    assert(ranked.to_multiset() == gaps.to_multiset());
}

/// A report names the stream, begins with the number of the first arrival, and counts every one of
/// them as received, each with the smallest delta.
pub proof fn a_report_counts_every_arrival(media_ssrc: u32, annotations: Seq<(u16, u64)>, i: int)
    requires
        0 <= i < annotations.len() <= 65_535,
    ensures
        ({
            let report = twcc_report(media_ssrc, annotations);
            &&& report.media_ssrc == media_ssrc
            &&& report.base_sequence_number == annotations[0].0
            &&& report.packet_status_count == annotations.len()
            &&& report.run_length == annotations.len()
            &&& report.recv_deltas.len() == annotations.len()
            &&& report.recv_deltas[i] == 1
            &&& report.reference_time == 0
        }),
{
}

} // verus!
