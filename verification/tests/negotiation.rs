use green_vita::negotiation::{
    channel_ids, h264_offer, h264_profile_level_id, negotiated_twcc_id, opus_offer, prepare_offer,
    stream_fps, ChannelIds, Codec, StreamOptions, TWCC_EXPERIMENT_URI, TWCC_URI,
};
use green_vita::settings::H264Profile;

#[test]
fn selects_profile_level_id() {
    assert_eq!(h264_profile_level_id(30, H264Profile::Baseline), "42e01f");
    assert_eq!(h264_profile_level_id(60, H264Profile::Baseline), "42e020");
    assert_eq!(h264_profile_level_id(30, H264Profile::Main), "4de01f");
    assert_eq!(h264_profile_level_id(60, H264Profile::Main), "4de020");
}

#[test]
fn selects_high_profile_level_id() {
    assert_eq!(h264_profile_level_id(30, H264Profile::High), "64001f");
    assert_eq!(h264_profile_level_id(31, H264Profile::High), "640020");
}

#[test]
fn offers_opus_and_h264() {
    let opus = opus_offer(111);
    assert_eq!(opus.codec, Codec::Opus);
    assert_eq!((opus.clock_rate, opus.channels, opus.payload_type), (48_000, 2, 111));
    assert_eq!(opus.sdp_fmtp_line, "minptime=10;useinbandfec=1;stereo=1");
    assert!(opus.rtcp_feedback.is_empty());
    let h264 = h264_offer(60, H264Profile::Main);
    assert_eq!(h264.codec, Codec::H264);
    assert_eq!((h264.clock_rate, h264.channels, h264.payload_type), (90_000, 0, 102));
    assert_eq!(
        h264.sdp_fmtp_line,
        "level-asymmetry-allowed=0;packetization-mode=1;profile-level-id=4de020;\
         max-dpb-size=1;max-bframes=0"
    );
    assert_eq!(h264.rtcp_feedback, vec![("goog-remb", ""), ("ccm", "fir"), ("nack", "pli")]);
}

#[test]
fn picks_the_channels_by_their_order() {
    let ids = vec![9, 8, 7, 6];
    assert_eq!(channel_ids(&ids), ChannelIds { control: 8, input: 7, message: 6 });
}

#[test]
fn prepares_an_offer() {
    let offer = "v=0\nm=video 9 UDP 102\na=rtpmap:102 H264/90000\n";
    assert_eq!(
        prepare_offer(offer, 15_000, 30),
        "v=0\nm=video 9 UDP 102\na=rtpmap:102 H264/90000\n\
         b=AS:15000\nb=TIAS:15000000\na=framerate:30\n"
    );
}

#[test]
fn reads_the_transport_extension_under_either_uri() {
    let draft = format!("a=extmap:5 {}\na=extmap:6 {}\n", TWCC_EXPERIMENT_URI, TWCC_URI);
    assert_eq!(negotiated_twcc_id(&draft), 6);
    let experiment = format!("a=extmap:5 {}\n", TWCC_EXPERIMENT_URI);
    assert_eq!(negotiated_twcc_id(&experiment), 5);
    assert_eq!(negotiated_twcc_id("v=0\n"), 0);
}

#[test]
fn sets_a_session_up() {
    assert_eq!(stream_fps(false), 30);
    assert_eq!(stream_fps(true), 60);
    let options = StreamOptions {
        video_fps: 60,
        video_bitrate_kbps: 15_000,
        video_h264_profile: H264Profile::Baseline,
        periodic_keyframe: true,
        decode_sleep_ms: 13,
        decode_queue_depth: 6,
        remb_auto_shock_enabled: true,
        remb_shock_drop_gap: 10,
        remb_shock_cooldown_secs: 15,
        remb_shock_duration_ms: 100,
    };
    let config = options.session_config(48_000, 111);
    assert_eq!((config.decoder.decode_width, config.decoder.decode_height), (1280, 720));
    assert_eq!((config.decoder.output_width, config.decoder.output_height), (960, 544));
    assert_eq!((config.decoder.decode_sleep_ms, config.decoder.decode_queue_depth), (13, 6));
    assert_eq!((config.audio_sample_rate, config.audio_payload_type), (48_000, 111));
    assert!(config.periodic_keyframe_enabled && config.remb_auto_shock_enabled);
}
