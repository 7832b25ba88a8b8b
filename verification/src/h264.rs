//! The H.264 layer: RTP depacketization and a look into access units.

use bytes::Bytes;
use h264_reader::annexb::AnnexBReader;
use h264_reader::nal::sps::SeqParameterSet;
use h264_reader::nal::{Nal, NalHeader, RefNal};
use h264_reader::push::NalInterest;
use rtc::rtp::codec::h264::H264Packet;
use rtc::rtp::packetizer::Depacketizer;
use std::io::Read;
use vstd::prelude::*;

verus! {

/// The bytes an optional buffer holds.
pub open spec fn bytes_of(buffer: Option<Vec<u8>>) -> Option<Seq<u8>> {
    match buffer {
        Some(bytes) => Some(bytes@),
        None => None,
    }
}

/// The stateful H.264 depacketizer of the `rtc` crate.
#[verifier::external_type_specification]
#[verifier::external_body]
pub struct ExH264Packet(rtc::rtp::codec::h264::H264Packet);

/// The bytes of an unfinished fragmented unit that a depacketizer holds; empty between units.
pub uninterp spec fn h264_gathered(depacketizer: H264Packet) -> Seq<u8>;

/// Whether a depacketizer writes length prefixes in place of Annex B start codes.
pub uninterp spec fn h264_length_prefixed(depacketizer: H264Packet) -> bool;

/// What `H264Packet::depacketize` makes of one payload: the Annex B bytes it yields, `None` for
/// a payload it rejects, and the fragment bytes it holds afterwards.
pub uninterp spec fn h264_depacketized(gathered: Seq<u8>, payload: Seq<u8>) -> (
    Option<Seq<u8>>,
    Seq<u8>,
);

/// `H264Packet::default`: holds no fragment and writes Annex B start codes.
#[verifier::external_body]
pub(crate) fn new_depacketizer() -> (depacketizer: H264Packet)
    ensures
        h264_gathered(depacketizer) == Seq::<u8>::empty(),
        !h264_length_prefixed(depacketizer),
{
    H264Packet::default()
}

/// Whether the units of a STAP-A aggregate can be walked from `offset`: no lone byte is left
/// where a two-byte unit length must stand.
pub open spec fn aggregate_framed(payload: Seq<u8>, offset: int) -> bool
    decreases payload.len() - offset,
{
    if offset >= payload.len() {
        true
    } else if offset < 0 || offset + 1 == payload.len() {
        false
    } else {
        let size = payload[offset] * 256 + payload[offset + 1];
        offset + 2 + size > payload.len() || aggregate_framed(payload, offset + 2 + size)
    }
}

/// Whether `H264Packet::depacketize` can read a payload at all. Only a STAP-A aggregate that
/// ends inside a unit length cannot be read.
pub open spec fn depacketizable(payload: Seq<u8>) -> bool {
    payload.len() > 2 && payload[0] % 32 == 24 ==> aggregate_framed(payload, 1)
}

/// `H264Packet::depacketize` on a depacketizer that writes start codes: yields and keeps what
/// [`h264_depacketized`] names, and goes on writing start codes.
#[verifier::external_body]
pub(crate) fn depacketize(depacketizer: &mut H264Packet, payload: &[u8]) -> (unit: Option<Vec<u8>>)
    requires
        depacketizable(payload@),
        !h264_length_prefixed(*old(depacketizer)),
    ensures
        (bytes_of(unit), h264_gathered(*final(depacketizer))) == h264_depacketized(
            h264_gathered(*old(depacketizer)),
            payload@,
        ),
        !h264_length_prefixed(*final(depacketizer)),
{
    depacketizer.depacketize(&Bytes::copy_from_slice(payload)).ok().map(|unit| unit.to_vec())
}

/// Whether a payload starts a unit: anything of two bytes or more that is not a fragment, or a
/// fragment with its start bit set.
pub open spec fn starts_unit(payload: Seq<u8>) -> bool {
    &&& payload.len() >= 2
    &&& payload[0] % 32 == 28 || payload[0] % 32 == 29 ==> payload[1] >= 128
}

/// `H264Packet::is_partition_head`: exactly [`starts_unit`]. It reads nothing but the payload.
#[verifier::external_body]
pub(crate) fn is_partition_head(payload: &[u8]) -> (head: bool)
    ensures
        head == starts_unit(payload@),
{
    H264Packet::default().is_partition_head(&Bytes::copy_from_slice(payload))
}

/// Whether [`depacketize`] can read a payload.
pub fn is_depacketizable(payload: &[u8]) -> (ok: bool)
    ensures
        ok == depacketizable(payload@),
{
    if payload.len() <= 2 || payload[0] % 32 != 24 {
        return true;
    }
    let mut offset: usize = 1;
    while offset < payload.len()
        invariant
            1 <= offset,
            payload@.len() > 2,
            payload@[0] % 32 == 24,
            aggregate_framed(payload@, 1) == aggregate_framed(payload@, offset as int),
        decreases payload.len() - offset,
    {
        if offset + 1 == payload.len() {
            return false;
        }
        let size: usize = payload[offset] as usize * 256 + payload[offset + 1] as usize;
        if size > payload.len() - offset - 2 {
            return true;
        }
        offset = offset + 2 + size;
    }
    true
}

/// One call of the Annex B reader's unit handler.
pub struct NalCall {
    /// Whether the unit was complete at the call.
    pub complete: bool,
    /// The unit's bytes so far, header byte first.
    pub unit: Vec<u8>,
}

/// What one call of the unit handler was given.
pub ghost struct NalCallView {
    pub complete: bool,
    pub unit: Seq<u8>,
}

impl View for NalCall {
    type V = NalCallView;

    open spec fn view(&self) -> NalCallView {
        NalCallView { complete: self.complete, unit: self.unit@ }
    }
}

/// The views of a list of handler calls.
pub open spec fn calls_view(calls: Seq<NalCall>) -> Seq<NalCallView> {
    Seq::new(calls.len(), |i: int| calls[i]@)
}

/// The handler calls that `AnnexBReader` makes for one buffer that is pushed whole and then
/// ended, when every call asks for the rest of its unit.
pub uninterp spec fn annexb_calls(data: Seq<u8>) -> Seq<NalCallView>;

/// `AnnexBReader::accumulate`, one `push` of the whole buffer and `reset`: the handler calls in
/// order, as [`annexb_calls`] names them. The handler keeps what it is given and asks for more.
#[verifier::external_body]
pub(crate) fn read_annexb(data: &[u8]) -> (calls: Vec<NalCall>)
    ensures
        calls_view(calls@) == annexb_calls(data@),
{
    let mut calls: Vec<NalCall> = Vec::new();
    let mut reader = AnnexBReader::accumulate(|nal: RefNal<'_>| {
        let mut unit: Vec<u8> = Vec::new();
        let _ = nal.reader().read_to_end(&mut unit);
        calls.push(NalCall { complete: nal.is_complete(), unit });
        NalInterest::Buffer
    });
    reader.push(data);
    reader.reset();
    calls
}

/// The unit type in a NAL header byte; `None` when the forbidden bit is set.
pub open spec fn header_unit_type(header: u8) -> Option<u8> {
    if header < 128 {
        Some((header % 32) as u8)
    } else {
        None
    }
}

/// `NalHeader::new` and `NalHeader::nal_unit_type`: exactly [`header_unit_type`].
#[verifier::external_body]
pub(crate) fn nal_unit_type(header: u8) -> (unit_type: Option<u8>)
    ensures
        unit_type == header_unit_type(header),
{
    NalHeader::new(header).ok().map(|header| header.nal_unit_type().id())
}

/// The picture size that `SeqParameterSet::from_bits` and `pixel_dimensions` read out of a
/// sequence parameter set; `None` where either rejects it.
pub uninterp spec fn sps_dimensions(unit: Seq<u8>) -> Option<(u32, u32)>;

/// `SeqParameterSet::from_bits` on the unit's RBSP bits, then `pixel_dimensions`: the size that
/// [`sps_dimensions`] names.
#[verifier::external_body]
pub(crate) fn read_sps_dimensions(unit: &[u8]) -> (dimensions: Option<(u32, u32)>)
    requires
        unit@.len() > 0,
    ensures
        dimensions == sps_dimensions(unit@),
{
    let nal = RefNal::new(unit, &[], true);
    SeqParameterSet::from_bits(nal.rbsp_bits()).and_then(|sps| sps.pixel_dimensions()).ok()
}

/// The unit type of an IDR slice.
pub const UNIT_IDR_SLICE: u8 = 5;

/// The unit type of a sequence parameter set.
pub const UNIT_SEQUENCE_PARAMETER_SET: u8 = 7;

/// What the video receiver wants to know of an access unit.
#[derive(Debug, Clone, Copy)]
pub struct AccessUnitInfo {
    /// Whether the unit holds an IDR slice.
    pub has_idr: bool,
    /// The picture size its last sequence parameter set states.
    pub resolution: Option<(u32, u32)>,
}

/// The unit type of a non-empty NAL unit.
pub open spec fn unit_type_of(unit: Seq<u8>) -> Option<u8> {
    if unit.len() > 0 {
        header_unit_type(unit[0])
    } else {
        None
    }
}

/// Whether some completed unit is an IDR slice.
pub open spec fn calls_have_idr(calls: Seq<NalCallView>) -> bool {
    exists|i: int|
        0 <= i < calls.len() && (#[trigger] calls[i]).complete && unit_type_of(calls[i].unit)
            == Some(UNIT_IDR_SLICE)
}

/// The picture size that the last completed sequence parameter set states; `None` when there is
/// none or it does not parse.
pub open spec fn calls_resolution(calls: Seq<NalCallView>) -> Option<(u32, u32)>
    decreases calls.len(),
{
    if calls.len() == 0 {
        None
    } else if calls.last().complete && unit_type_of(calls.last().unit) == Some(
        UNIT_SEQUENCE_PARAMETER_SET,
    ) {
        sps_dimensions(calls.last().unit)
    } else {
        calls_resolution(calls.drop_last())
    }
}

impl AccessUnitInfo {
    /// Nothing seen yet.
    pub fn none() -> (info: Self)
        ensures
            !info.has_idr,
            info.resolution is None,
    {
        AccessUnitInfo { has_idr: false, resolution: None }
    }

    /// Takes note of one completed unit: an IDR slice marks the access unit, a sequence
    /// parameter set replaces the picture size by the one read from it.
    pub fn note_unit(&mut self, unit_type: Option<u8>, dimensions: Option<(u32, u32)>)
        ensures
            final(self).has_idr == (old(self).has_idr || unit_type == Some(UNIT_IDR_SLICE)),
            final(self).resolution == (if unit_type == Some(UNIT_SEQUENCE_PARAMETER_SET) {
                dimensions
            } else {
                old(self).resolution
            }),
    {
        match unit_type {
            Some(UNIT_IDR_SLICE) => {
                self.has_idr = true;
            },
            Some(UNIT_SEQUENCE_PARAMETER_SET) => {
                self.resolution = dimensions;
            },
            _ => {},
        }
    }
}

/// Looks through the units of one access unit in Annex B form.
pub fn inspect_h264_access_unit(data: &[u8]) -> (info: AccessUnitInfo)
    ensures
        info.has_idr == calls_have_idr(annexb_calls(data@)),
        info.resolution == calls_resolution(annexb_calls(data@)),
{
    let calls = read_annexb(data);
    inspect_calls(&calls)
}

/// Looks through the completed units among a list of handler calls.
pub fn inspect_calls(calls: &Vec<NalCall>) -> (info: AccessUnitInfo)
    ensures
        info.has_idr == calls_have_idr(calls_view(calls@)),
        info.resolution == calls_resolution(calls_view(calls@)),
{
    let mut info = AccessUnitInfo::none();
    let mut i: usize = 0;
    let ghost all = calls_view(calls@);
    while i < calls.len()
        invariant
            i <= calls.len(),
            all == calls_view(calls@),
            info.has_idr == calls_have_idr(all.take(i as int)),
            info.resolution == calls_resolution(all.take(i as int)),
        decreases calls.len() - i,
    {
        let call = &calls[i];
        assert(all.take(i + 1).drop_last() =~= all.take(i as int));
        assert(all.take(i + 1).last() == call@);
        proof {
            assert forall|k: int| 0 <= k < i implies all.take(i + 1)[k] == all.take(i as int)[k] by {}
            if calls_have_idr(all.take(i as int)) {
                let k = choose|k: int|
                    0 <= k < i && (#[trigger] all.take(i as int)[k]).complete && unit_type_of(
                        all.take(i as int)[k].unit,
                    ) == Some(UNIT_IDR_SLICE);
                assert(all.take(i + 1)[k].complete);
            }
            if calls_have_idr(all.take(i + 1)) {
                let k = choose|k: int|
                    0 <= k < i + 1 && (#[trigger] all.take(i + 1)[k]).complete && unit_type_of(
                        all.take(i + 1)[k].unit,
                    ) == Some(UNIT_IDR_SLICE);
                if k < i {
                    assert(all.take(i as int)[k].complete);
                }
            }
        }
        if call.complete && call.unit.len() > 0 {
            let unit_type = nal_unit_type(call.unit[0]);
            let dimensions = if unit_type == Some(UNIT_SEQUENCE_PARAMETER_SET) {
                read_sps_dimensions(call.unit.as_slice())
            } else {
                None
            };
            info.note_unit(unit_type, dimensions);
            assert(unit_type == unit_type_of(call@.unit));
        }
        assert(info.has_idr == calls_have_idr(all.take(i + 1))) by {
            if call@.complete && unit_type_of(call@.unit) == Some(UNIT_IDR_SLICE) {
                assert(all.take(i + 1)[i as int].complete);
            }
        }
        i = i + 1;
    }
    assert(all.take(calls.len() as int) =~= all);
    info
}

} // verus!
