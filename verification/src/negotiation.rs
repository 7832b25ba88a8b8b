//! What is offered to the console, and what is read out of its answer.

use crate::sdp::{cap_video_bitrate, extract_extmap_id, request_video_fps};
use crate::settings::H264Profile;
use crate::text::append;
use crate::video::{
    DecoderConfig, DEFAULT_VIDEO_FPS, HW_OUTPUT_HEIGHT, HW_OUTPUT_WIDTH, STREAM_HEIGHT,
    STREAM_WIDTH, UNLOCKED_VIDEO_FPS,
};
use crate::{lines, sdp};
use vstd::prelude::*;

verus! {

/// The URI of the transport number extension, as the draft has it.
pub const TWCC_URI: &'static str =
    "http://www.ietf.org/id/draft-holmer-rmcat-transport-wide-cc-extensions-01";

/// The URI of the transport number extension, as some consoles echo it.
pub const TWCC_EXPERIMENT_URI: &'static str =
    "http://www.webrtc.org/experiments/rtp-hdrext/transport-wide-cc-02";

/// The payload type of the video.
pub const VIDEO_PAYLOAD_TYPE: u8 = 102;

/// The profile and level that are offered for H.264: level 3.1 up to 30 frames per second, 3.2
/// above.
pub open spec fn profile_level_id(video_fps: u32, profile: H264Profile) -> Seq<char> {
    match (profile, video_fps > 30) {
        (H264Profile::Baseline, false) => "42e01f"@,
        (H264Profile::Baseline, true) => "42e020"@,
        (H264Profile::Main, false) => "4de01f"@,
        (H264Profile::Main, true) => "4de020"@,
        (H264Profile::High, false) => "64001f"@,
        (H264Profile::High, true) => "640020"@,
    }
}

/// The profile and level that are offered for H.264.
pub fn h264_profile_level_id(video_fps: u32, video_h264_profile: H264Profile) -> (id: &'static str)
    ensures
        id@ == profile_level_id(video_fps, video_h264_profile),
{
    let fast = video_fps > 30;
    match video_h264_profile {
        H264Profile::Baseline => if fast {
            "42e020"
        } else {
            "42e01f"
        },
        H264Profile::Main => if fast {
            "4de020"
        } else {
            "4de01f"
        },
        H264Profile::High => if fast {
            "640020"
        } else {
            "64001f"
        },
    }
}

/// The codecs that are offered.
#[derive(Debug, Clone, Copy, PartialEq, Eq, Structural)]
pub enum Codec {
    Opus,
    H264,
}

/// One codec as it is offered.
#[derive(Debug, Clone)]
pub struct CodecOffer {
    pub codec: Codec,
    pub clock_rate: u32,
    pub channels: u16,
    pub sdp_fmtp_line: String,
    /// The feedback that is understood: type and parameter.
    pub rtcp_feedback: Vec<(&'static str, &'static str)>,
    pub payload_type: u8,
}

/// One codec as it is offered.
#[verifier::ext_equal]
pub ghost struct CodecOfferView {
    pub codec: Codec,
    pub clock_rate: u32,
    pub channels: u16,
    pub sdp_fmtp_line: Seq<char>,
    pub rtcp_feedback: Seq<(Seq<char>, Seq<char>)>,
    pub payload_type: u8,
}

impl View for CodecOffer {
    type V = CodecOfferView;

    open spec fn view(&self) -> CodecOfferView {
        CodecOfferView {
            codec: self.codec,
            clock_rate: self.clock_rate,
            channels: self.channels,
            sdp_fmtp_line: self.sdp_fmtp_line@,
            rtcp_feedback: Seq::new(
                self.rtcp_feedback@.len(),
                |i: int| (self.rtcp_feedback@[i].0@, self.rtcp_feedback@[i].1@),
            ),
            payload_type: self.payload_type,
        }
    }
}

/// The audio offer: Opus in stereo, without feedback.
pub fn opus_offer(payload_type: u8) -> (offer: CodecOffer)
    ensures
        offer@ == (CodecOfferView {
            codec: Codec::Opus,
            clock_rate: 48_000,
            channels: 2,
            sdp_fmtp_line: "minptime=10;useinbandfec=1;stereo=1"@,
            rtcp_feedback: Seq::empty(),
            payload_type,
        }),
{
    let offer = CodecOffer {
        codec: Codec::Opus,
        clock_rate: 48_000,
        channels: 2,
        sdp_fmtp_line: "minptime=10;useinbandfec=1;stereo=1".to_string(),
        rtcp_feedback: Vec::new(),
        payload_type,
    };
    assert(offer@.rtcp_feedback =~= Seq::empty());
    offer
}

/// The format parameters of the video offer.
pub open spec fn h264_fmtp_line(video_fps: u32, profile: H264Profile) -> Seq<char> {
    "level-asymmetry-allowed=0;packetization-mode=1;profile-level-id="@ + profile_level_id(
        video_fps,
        profile,
    ) + ";max-dpb-size=1;max-bframes=0"@
}

/// The video offer: H.264, with only the feedback that the console echoes.
pub fn h264_offer(video_fps: u32, video_h264_profile: H264Profile) -> (offer: CodecOffer)
    ensures
        offer@ == (CodecOfferView {
            codec: Codec::H264,
            clock_rate: 90_000,
            channels: 0,
            sdp_fmtp_line: h264_fmtp_line(video_fps, video_h264_profile),
            rtcp_feedback: seq![
                ("goog-remb"@, ""@),
                ("ccm"@, "fir"@),
                ("nack"@, "pli"@),
            ],
            payload_type: VIDEO_PAYLOAD_TYPE,
        }),
{
    let mut line = String::new();
    append(&mut line, "level-asymmetry-allowed=0;packetization-mode=1;profile-level-id=");
    append(&mut line, h264_profile_level_id(video_fps, video_h264_profile));
    append(&mut line, ";max-dpb-size=1;max-bframes=0");
    assert(line@ =~= h264_fmtp_line(video_fps, video_h264_profile));
    let mut rtcp_feedback: Vec<(&'static str, &'static str)> = Vec::new();
    rtcp_feedback.push(("goog-remb", ""));
    rtcp_feedback.push(("ccm", "fir"));
    rtcp_feedback.push(("nack", "pli"));
    let offer = CodecOffer {
        codec: Codec::H264,
        clock_rate: 90_000,
        channels: 0,
        sdp_fmtp_line: line,
        rtcp_feedback,
        payload_type: VIDEO_PAYLOAD_TYPE,
    };
    assert(offer@.rtcp_feedback =~= seq![("goog-remb"@, ""@), ("ccm"@, "fir"@), ("nack"@, "pli"@)]);
    offer
}

/// The data channels that are spoken on.
#[derive(Debug, Clone, Copy, PartialEq, Eq, Structural)]
pub struct ChannelIds {
    pub control: u16,
    pub input: u16,
    pub message: u16,
}

/// The ids of the channels, which are opened in the order chat, control, input, message. The
/// chat channel is opened for the console's sake only.
pub fn channel_ids(ids: &Vec<u16>) -> (channels: ChannelIds)
    requires
        ids@.len() >= 4,
    ensures
        channels == (ChannelIds { control: ids@[1], input: ids@[2], message: ids@[3] }),
{
    ChannelIds { control: ids[1], input: ids[2], message: ids[3] }
}

/// The offer as it is sent: with the bitrate capped and the frame rate requested.
pub fn prepare_offer(offer: &str, video_bitrate_kbps: u32, video_fps: u32) -> (prepared: String)
    ensures
        prepared@ == sdp::text_with_rate(
            sdp::capped_text(offer@, video_bitrate_kbps as nat),
            Some(video_fps as nat),
        ),
{
    let capped = cap_video_bitrate(offer, video_bitrate_kbps);
    request_video_fps(capped.as_str(), video_fps)
}

/// The id that an answer negotiated for the transport number extension under either of its
/// URIs, the draft's first; 0 if it negotiated none.
pub fn negotiated_twcc_id(answer: &str) -> (id: u8)
    ensures
        ({
            let all = lines::raw_lines(answer@);
            id == match sdp::extmap_id_among(all, TWCC_URI@) {
                Some(id) => id,
                None => match sdp::extmap_id_among(all, TWCC_EXPERIMENT_URI@) {
                    Some(id) => id,
                    None => 0,
                },
            }
        }),
{
    match extract_extmap_id(answer, TWCC_URI) {
        Some(id) => id,
        None => match extract_extmap_id(answer, TWCC_EXPERIMENT_URI) {
            Some(id) => id,
            None => 0,
        },
    }
}

/// The frame rate of a stream.
pub fn stream_fps(unlock_video_fps: bool) -> (fps: u32)
    ensures
        fps == if unlock_video_fps {
            UNLOCKED_VIDEO_FPS
        } else {
            DEFAULT_VIDEO_FPS
        },
{
    if unlock_video_fps {
        UNLOCKED_VIDEO_FPS
    } else {
        DEFAULT_VIDEO_FPS
    }
}

/// What a stream is asked for with.
#[derive(Debug, Clone, Copy, PartialEq, Eq, Structural)]
pub struct StreamOptions {
    pub video_fps: u32,
    pub video_bitrate_kbps: u32,
    pub video_h264_profile: H264Profile,
    pub periodic_keyframe: bool,
    pub decode_sleep_ms: u32,
    pub decode_queue_depth: usize,
    pub remb_auto_shock_enabled: bool,
    pub remb_shock_drop_gap: u32,
    pub remb_shock_cooldown_secs: u32,
    pub remb_shock_duration_ms: u32,
}

/// What a session is set up with.
#[derive(Debug, Clone, Copy, PartialEq, Eq, Structural)]
pub struct RtcSessionConfig {
    pub audio_sample_rate: u32,
    pub audio_payload_type: u8,
    pub video_fps: u32,
    pub decoder: DecoderConfig,
    pub periodic_keyframe_enabled: bool,
    pub remb_auto_shock_enabled: bool,
    pub remb_shock_drop_gap: u32,
    pub remb_shock_cooldown_secs: u32,
    pub remb_shock_duration_ms: u32,
}

impl StreamOptions {
    /// What a session is set up with: the console's picture size is decoded to the screen's.
    pub fn session_config(&self, audio_sample_rate: u32, audio_payload_type: u8) -> (config:
        RtcSessionConfig)
        ensures
            config == (RtcSessionConfig {
                audio_sample_rate,
                audio_payload_type,
                video_fps: self.video_fps,
                decoder: DecoderConfig {
                    decode_width: STREAM_WIDTH,
                    decode_height: STREAM_HEIGHT,
                    output_width: HW_OUTPUT_WIDTH,
                    output_height: HW_OUTPUT_HEIGHT,
                    decode_sleep_ms: self.decode_sleep_ms,
                    decode_queue_depth: self.decode_queue_depth,
                },
                periodic_keyframe_enabled: self.periodic_keyframe,
                remb_auto_shock_enabled: self.remb_auto_shock_enabled,
                remb_shock_drop_gap: self.remb_shock_drop_gap,
                remb_shock_cooldown_secs: self.remb_shock_cooldown_secs,
                remb_shock_duration_ms: self.remb_shock_duration_ms,
            }),
    {
        RtcSessionConfig {
            audio_sample_rate,
            audio_payload_type,
            video_fps: self.video_fps,
            decoder: DecoderConfig {
                decode_width: STREAM_WIDTH,
                decode_height: STREAM_HEIGHT,
                output_width: HW_OUTPUT_WIDTH,
                output_height: HW_OUTPUT_HEIGHT,
                decode_sleep_ms: self.decode_sleep_ms,
                decode_queue_depth: self.decode_queue_depth,
            },
            periodic_keyframe_enabled: self.periodic_keyframe,
            remb_auto_shock_enabled: self.remb_auto_shock_enabled,
            remb_shock_drop_gap: self.remb_shock_drop_gap,
            remb_shock_cooldown_secs: self.remb_shock_cooldown_secs,
            remb_shock_duration_ms: self.remb_shock_duration_ms,
        }
    }
}

/// The profile is named by the first four digits, and the level by the last two: 3.1 up to 30
/// frames per second and 3.2 above, whatever the profile.
pub proof fn profile_and_level_are_named_apart(video_fps: u32, profile: H264Profile)
    ensures
        profile_level_id(video_fps, profile) == (match profile {
            H264Profile::Baseline => "42e0"@,
            H264Profile::Main => "4de0"@,
            H264Profile::High => "6400"@,
        }) + (if video_fps > 30 {
            "20"@
        } else {
            "1f"@
        }),
{
    reveal_strlit("42e0");
    reveal_strlit("4de0");
    reveal_strlit("6400");
    reveal_strlit("20");
    reveal_strlit("1f");
    reveal_strlit("42e01f");
    reveal_strlit("42e020");
    reveal_strlit("4de01f");
    reveal_strlit("4de020");
    reveal_strlit("64001f");
    reveal_strlit("640020");
    let id = profile_level_id(video_fps, profile);
    let name = match profile {
        H264Profile::Baseline => "42e0"@,
        H264Profile::Main => "4de0"@,
        H264Profile::High => "6400"@,
    };
    let level = if video_fps > 30 {
        "20"@
    } else {
        "1f"@
    };
    assert(id =~= name + level);
}

} // verus!
