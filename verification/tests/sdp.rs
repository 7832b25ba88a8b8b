use green_vita::sdp::{cap_video_bitrate, extract_extmap_id, request_video_fps, strip_video_fps};

#[test]
fn requests_thirty_fps_only_in_the_h264_video_section() {
    let offer = "v=0\r\n\
                 m=video 9 UDP/TLS/RTP/SAVPF 102\r\n\
                 a=rtpmap:102 H264/90000\r\n\
                 m=audio 9 UDP/TLS/RTP/SAVPF 111\r\n\
                 a=rtpmap:111 opus/48000/2\r\n";

    let constrained = request_video_fps(offer, 30);
    assert_eq!(constrained.matches("a=framerate:30").count(), 1);
    assert!(constrained.find("a=framerate:30").unwrap() < constrained.find("m=audio").unwrap());
}

#[test]
fn replaces_existing_frame_rate_when_unlocked() {
    let offer = "v=0\n\
                 m=video 9 UDP/TLS/RTP/SAVPF 102\n\
                 a=rtpmap:102 H264/90000\n\
                 a=framerate:30\n";

    let unlocked = request_video_fps(offer, 60);
    assert!(!unlocked.contains("a=framerate:30"));
    assert_eq!(unlocked.matches("a=framerate:60").count(), 1);
}

#[test]
fn injects_bandwidth_cap_into_the_h264_video_section() {
    let offer = "v=0\r\n\
                 m=video 9 UDP/TLS/RTP/SAVPF 102\r\n\
                 a=rtpmap:102 H264/90000\r\n\
                 b=AS:2500\r\n\
                 m=audio 9 UDP/TLS/RTP/SAVPF 111\r\n";

    let capped = cap_video_bitrate(offer, 8_000);
    assert_eq!(capped.matches("b=AS:8000").count(), 1);
    assert_eq!(capped.matches("b=TIAS:8000000").count(), 1);
    assert!(!capped.contains("b=AS:2500"));
    let video_end = capped.find("m=audio").unwrap();
    assert!(capped.find("b=AS:8000").unwrap() < video_end);
    assert!(capped.find("b=TIAS:8000000").unwrap() < video_end);
}

#[test]
fn leaves_sdp_without_h264_untouched() {
    let offer = "v=0\nm=audio 9 UDP/TLS/RTP/SAVPF 111\n";
    assert_eq!(cap_video_bitrate(offer, 8_000), offer);
}

#[test]
fn caps_a_video_section_that_comes_last() {
    let offer = "v=0\nm=video 9 UDP/TLS/RTP/SAVPF 102\na=rtpmap:102 h264/90000\n";
    assert_eq!(
        cap_video_bitrate(offer, 2_500),
        "v=0\nm=video 9 UDP/TLS/RTP/SAVPF 102\na=rtpmap:102 h264/90000\nb=AS:2500\nb=TIAS:2500000\n"
    );
}

#[test]
fn caps_only_the_h264_section() {
    let offer = "m=video 9 UDP 96\nb=AS:100\na=rtpmap:96 VP8/90000\n\
                 m=video 9 UDP 102\na=rtpmap:102 H264/90000\nb=TIAS:7\nm=audio 1\nb=AS:64";
    assert_eq!(
        cap_video_bitrate(offer, 10),
        "m=video 9 UDP 96\nb=AS:100\na=rtpmap:96 VP8/90000\n\
         m=video 9 UDP 102\na=rtpmap:102 H264/90000\nb=AS:10\nb=TIAS:10000\nm=audio 1\nb=AS:64"
    );
}

#[test]
fn a_later_cap_replaces_an_earlier_one() {
    let offer = "v=0\r\nm=video 9 UDP 102\r\na=rtpmap:102 H264/90000\r\n";
    let once = cap_video_bitrate(offer, 300);
    assert_eq!(cap_video_bitrate(&once, 300), once);
    assert_eq!(cap_video_bitrate(&once, 4_294_967_295), cap_video_bitrate(offer, 4_294_967_295));
    assert!(cap_video_bitrate(offer, 4_294_967_295).contains("b=TIAS:4294967295000\r\n"));
}

#[test]
fn a_later_frame_rate_replaces_an_earlier_one() {
    let offer = "v=0\r\nm=video 9 UDP 102\r\na=rtpmap:102 H264/90000\r\nm=audio 1\r\n";
    let once = request_video_fps(offer, 30);
    assert_eq!(
        once,
        "v=0\r\nm=video 9 UDP 102\r\na=rtpmap:102 H264/90000\r\na=framerate:30\r\nm=audio 1\r\n"
    );
    assert_eq!(request_video_fps(&once, 60), request_video_fps(offer, 60));
}

#[test]
fn strips_frame_rates_from_video_sections() {
    assert_eq!(
        strip_video_fps(
            "v=0\nm=video 9 X 102\na=framerate:30\nm=application 9 X 5\na=framerate:15\n"
        ),
        "v=0\nm=video 9 X 102\nm=application 9 X 5\na=framerate:15\n"
    );
    assert_eq!(
        strip_video_fps("v=0\r\na=framerate:30\r\nm=video 9\r\na=framerate:25.5"),
        "v=0\r\na=framerate:30\r\nm=video 9"
    );
    assert_eq!(strip_video_fps("v=0\r\r\na=x\r\n"), "v=0\r\na=x\r\n");
    assert_eq!(strip_video_fps(""), "");
}

#[test]
fn removing_frame_rates_twice_is_the_same_as_once() {
    let offers = [
        "m=video 9\n\na=framerate:30",
        "m=video 9\r\na=framerate:30",
        "m=video 9 H264/1\n\r",
        "m=video 9\n\r\r\na=framerate:1\rx\n",
        "\r",
        "\n",
    ];
    for offer in offers {
        let once = strip_video_fps(offer);
        assert_eq!(strip_video_fps(&once), once);
        assert_eq!(strip_video_fps(&request_video_fps(offer, 24)), once);
        let requested = request_video_fps(offer, 60);
        assert_eq!(request_video_fps(&request_video_fps(offer, 24), 60), requested);
        let capped = cap_video_bitrate(offer, 9);
        assert_eq!(cap_video_bitrate(&cap_video_bitrate(offer, 8), 9), capped);
    }
}

#[test]
fn finds_the_negotiated_extension() {
    let answer = "v=0\r\na=extmap:3 urn:abs-send-time\r\na=extmap:007/sendrecv HTTP://Example.org/TWCC\r\n";
    assert_eq!(extract_extmap_id(answer, "http://example.org/twcc"), Some(7));
    assert_eq!(extract_extmap_id(answer, "urn:abs-send-time"), Some(3));
    assert_eq!(extract_extmap_id(answer, "urn:other"), None);
}

#[test]
fn an_extension_without_an_id_is_passed_over() {
    assert_eq!(extract_extmap_id("a=extmap:300 urn:other\na=extmap:3 urn:want\n", "urn:want"), Some(3));
    assert_eq!(extract_extmap_id("a=extmap:x urn:a\na=extmap:4 urn:b", "urn:b"), Some(4));
    assert_eq!(extract_extmap_id("a=extmap:256 urn:b\na=extmap:4 urn:b", "urn:b"), Some(4));
    assert_eq!(extract_extmap_id("a=extmap:255 urn:a\na=extmap:4 urn:b", "urn:a"), Some(255));
    assert_eq!(extract_extmap_id("a=extmap:99999999999999999999 urn:a", "urn:a"), None);
}
