use green_vita::hud::{debug_lines, extract_field, fps_overlay_text, split_status_lines};
use green_vita::mesh::MeshBatch;
use green_vita::pixels::{
    blend_pixel, convert_bgr565_to_rgba8888, fill_background, flatten_pixels, image_to_rgba,
    pack_color, page_aligned, vertex_color, DECODE_SIZE, FB_SIZE,
};
use green_vita::power::{Clocks, PowerProfile};
use green_vita::settings::H264Profile;
use green_vita::surface::{FlipState, FrameSync, OutputChange, ShownFrame, VideoSurface};
use green_vita::textures::{power_of_two_size, ImageDecision, TextureKey, TextureQueue};
use green_vita::video::{DecodedFrame, DirectVideoOutput, TargetSearch, VideoTextureTarget};

#[test]
fn finds_fields_in_a_status_line() {
    let status = "srv:1280x720 enc:? srcfps:60 bw:9500 d/p:58/57/2 wait:0 50.5%";
    assert_eq!(extract_field(status, "srcfps:"), "60");
    assert_eq!(extract_field(status, "d/p:"), "58/57/2");
    assert_eq!(extract_field(status, "enc:"), "");
    assert_eq!(extract_field(status, "none:"), "");
    assert_eq!(extract_field(status, "wait:0 "), "50.5%");
    assert_eq!(extract_field("", ""), "");
    assert_eq!(extract_field("ab c", ""), "ab");
}

#[test]
fn shows_bandwidth_and_frame_rate() {
    assert_eq!(fps_overlay_text("bw:9500 d/p:58/57"), "9500kbps  FPS:57");
    assert_eq!(fps_overlay_text("d/p:58/57/1"), "FPS:57");
    assert_eq!(fps_overlay_text("bw:1 d/p:58"), "1kbps");
    assert_eq!(fps_overlay_text("nothing"), "");
}

#[test]
fn splits_a_status_line_into_entries() {
    assert_eq!(
        split_status_lines("lost words srv:1 a b\td/p c\u{3000}e:f"),
        vec!["srv:1 a b", "d/p c", "e:f"]
    );
    assert!(split_status_lines("  ").is_empty());
    assert_eq!(debug_lines("a:1", H264Profile::Baseline), vec!["a:1", "profile:Base"]);
    assert_eq!(debug_lines("", H264Profile::Main), vec!["profile:Main"]);
    assert_eq!(debug_lines("", H264Profile::High), vec!["profile:High"]);
}

#[test]
fn converts_a_decoded_picture() {
    let mut decoded = vec![0u8; DECODE_SIZE];
    decoded[0..2].copy_from_slice(&0xffffu16.to_le_bytes());
    decoded[2..4].copy_from_slice(&(1u16 | (2 << 5) | (3 << 11)).to_le_bytes());
    let last = DECODE_SIZE - 2;
    decoded[last..].copy_from_slice(&0x001fu16.to_le_bytes());
    let mut framebuffer = vec![7u8; FB_SIZE + 2];
    convert_bgr565_to_rgba8888(&decoded, &mut framebuffer);
    assert_eq!(framebuffer[0..4], [255, 255, 255, 255]);
    assert_eq!(framebuffer[4..8], [8, 8, 25, 255]);
    assert_eq!(framebuffer[8..12], [0, 0, 0, 255]);
    assert_eq!(framebuffer[FB_SIZE - 4..FB_SIZE], [255, 0, 0, 255]);
    assert_eq!(framebuffer[FB_SIZE..], [7, 7]);
}

#[test]
fn fills_the_background() {
    let mut framebuffer = vec![1u8; 10];
    fill_background(&mut framebuffer);
    assert_eq!(framebuffer, vec![0, 24, 48, 255, 0, 24, 48, 255, 1, 1]);
}

#[test]
fn blends_pixels() {
    assert_eq!(blend_pixel([1, 2, 3, 4], 0, [255, 255, 255, 255]), [1, 2, 3, 4]);
    assert_eq!(blend_pixel([1, 2, 3, 4], 255, [255, 255, 255, 0]), [1, 2, 3, 4]);
    assert_eq!(blend_pixel([9, 9, 9, 0], 128, [200, 100, 50, 255]), [100, 50, 25, 128]);
    assert_eq!(blend_pixel([9, 8, 7, 255], 255, [200, 100, 50, 255]), [200, 100, 50, 255]);
    assert_eq!(blend_pixel([0, 0, 200, 255], 128, [255, 0, 0, 255]), [64, 0, 99, 255]);
}

#[test]
fn takes_the_multiplication_out_of_an_image() {
    let image = vec![[10, 20, 30, 255], [0, 0, 0, 0], [64, 0, 32, 64]];
    let bytes = image_to_rgba(&image);
    assert_eq!(bytes.len(), 12);
    assert_eq!(bytes[0..8], [10, 20, 30, 255, 0, 0, 0, 0]);
    assert_eq!((bytes[9], bytes[11]), (0, 64));
    assert!(bytes[8] > 64 && bytes[10] > 32);
    assert_eq!(flatten_pixels(&image)[8..], [64, 0, 32, 64]);
}

#[test]
fn packs_colours() {
    assert_eq!(pack_color([1, 2, 3, 4]), 0x0403_0201);
    assert_eq!(vertex_color([0, 0, 0, 9]), 0x0900_0000);
    assert_eq!(vertex_color([255, 255, 255, 255]), 0xffff_ffff);
    for part in 0..=255 {
        assert_eq!(vertex_color([part, 0, part, 255]), pack_color([part, 0, part, 255]));
        assert_eq!(vertex_color([0, part, part, 0]), pack_color([0, part, part, 0]));
    }
    assert_ne!(vertex_color([64, 64, 64, 64]), pack_color([64, 64, 64, 64]));
    assert_eq!(page_aligned(0), 0);
    assert_eq!(page_aligned(1), 4096);
    assert_eq!(page_aligned(4096), 4096);
}

#[test]
fn uploads_the_largest_texture_on_screen() {
    let [a, b, c, d] = [1, 2, 3, 4].map(TextureKey::Managed);
    let mut queue = TextureQueue::new();
    assert_eq!(queue.set_image(a, false, true, 10), ImageDecision::Wait);
    assert_eq!(queue.set_image(b, false, true, 30), ImageDecision::Wait);
    assert_eq!(queue.set_image(c, false, true, 20), ImageDecision::Wait);
    assert_eq!(queue.set_image(d, false, true, 20), ImageDecision::Wait);
    assert_eq!(queue.next_upload(&vec![]), None);
    assert_eq!(queue.next_upload(&vec![a, c, d]), Some(d));
    assert_eq!(queue.next_upload(&vec![a, c, d]), Some(c));
    assert!(queue.is_uploaded(c) && !queue.is_uploaded(b));
    assert_eq!(queue.set_image(a, false, true, 40), ImageDecision::Wait);
    assert_eq!(queue.next_upload(&vec![a, b]), Some(a));
    queue.free(&vec![b, c]);
    assert!(!queue.is_uploaded(c) && queue.is_uploaded(a));
    assert_eq!(queue.next_upload(&vec![b]), None);
}

#[test]
fn stores_what_does_not_wait() {
    let font = TextureKey::Managed(0);
    let user = TextureKey::User(0);
    let mut queue = TextureQueue::new();
    assert_eq!(queue.set_image(font, false, false, 10), ImageDecision::Store);
    assert_eq!(queue.set_image(font, true, false, 10), ImageDecision::Ignore);
    assert_eq!(queue.set_image(font, false, true, 10), ImageDecision::Store);
    assert_eq!(queue.set_image(user, true, true, 10), ImageDecision::Store);
    assert!(queue.is_uploaded(user));
}

#[test]
fn sizes_textures_by_powers_of_two() {
    let sizes: Vec<u32> = [0, 1, 2, 3, 1000, 0x8000_0000].iter().map(|n| power_of_two_size(*n)).collect();
    assert_eq!(sizes, vec![1, 1, 2, 4, 1024, 0x8000_0000]);
}

#[test]
fn follows_a_sessions_output() {
    let frame = DecodedFrame { texture_index: 2, generation: 9, published_at_ns: 0 };
    let mut surface = VideoSurface::new();
    assert_eq!(surface.target_framebuffer(), 0);
    let nothing = OutputChange { clear_attached: false, register: false };
    assert_eq!(surface.ensure_direct_video_output(5, false), nothing);
    let shown = surface.sync_latest_frame(Some((1, frame)));
    assert_eq!(
        shown,
        FrameSync::Shown { frame: ShownFrame { texture_index: 2, generation: 9, mark: false } }
    );
    assert_eq!(surface.target_framebuffer(), 2);
    let attach = OutputChange { clear_attached: false, register: true };
    assert_eq!(surface.ensure_direct_video_output(5, true), attach);
    assert_eq!(surface.displayed_fb(), None);
    assert_eq!(surface.ensure_direct_video_output(5, true), nothing);
    assert_eq!(surface.sync_latest_frame(None), FrameSync::Nothing);
    let shown = surface.sync_latest_frame(Some((1, frame)));
    assert_eq!(
        shown,
        FrameSync::Shown { frame: ShownFrame { texture_index: 2, generation: 9, mark: true } }
    );
    assert_eq!(surface.sync_latest_frame(Some((1, frame))), FrameSync::Nothing);
    let wrong = DecodedFrame { texture_index: 3, ..frame };
    assert_eq!(
        surface.sync_latest_frame(Some((2, wrong))),
        FrameSync::InvalidTexture { index: 3 }
    );
    assert_eq!(surface.displayed_fb(), Some(2));
    let swap = OutputChange { clear_attached: true, register: true };
    assert_eq!(surface.ensure_direct_video_output(6, true), swap);
    assert!(surface.detach_direct_video_output());
    assert!(!surface.detach_direct_video_output());
    let leave = OutputChange { clear_attached: true, register: false };
    surface.ensure_direct_video_output(6, true);
    assert_eq!(surface.ensure_direct_video_output(7, false), leave);
}

#[test]
fn flips_to_framebuffers_that_are_not_shown() {
    let mut flips = FlipState::new();
    assert!(flips.wants_flip(0) && flips.wants_flip(2) && !flips.wants_flip(3));
    flips.flipped(1, false);
    assert!(flips.wants_flip(1));
    flips.flipped(1, true);
    assert!(!flips.wants_flip(1) && flips.wants_flip(0));
}

fn targets() -> [VideoTextureTarget; 3] {
    [1, 2, 3].map(|ptr| VideoTextureTarget { ptr, pitch: 4, capacity: 5 })
}

fn found(output: &DirectVideoOutput) -> Option<usize> {
    match output.find_target() {
        TargetSearch::Free { index, target } => {
            assert_eq!(target.ptr, index + 1);
            Some(index)
        }
        _ => None,
    }
}

#[test]
fn decodes_into_textures_that_nobody_uses() {
    let mut output = DirectVideoOutput::new(960, 544);
    assert_eq!((output.width(), output.height()), (960, 544));
    assert!(matches!(output.find_target(), TargetSearch::NoTargets));
    output.set_targets(targets());
    assert_eq!(found(&output), Some(0));
    assert_eq!(output.publish(0), (0, 1));
    assert_eq!(found(&output), Some(1));
    assert!(output.mark_displayed(0, 1));
    assert_eq!(output.publish(1), (1, 2));
    assert_eq!(found(&output), Some(2));
    assert!(output.mark_displayed(1, 2));
    assert_eq!(output.publish(2), (2, 3));
    assert!(matches!(output.find_target(), TargetSearch::Busy { .. }));
    assert!(output.keeps_waiting());
    assert_eq!(output.find_target_after_wait(), Some(0));
    assert!(!output.discard_pending(2, 2));
    assert!(output.discard_pending(2, 3));
    assert!(!output.keeps_waiting());
    assert_eq!(found(&output), Some(2));
    assert!(!output.mark_displayed(2, 1));
    output.clear_targets();
    assert!(matches!(output.find_target(), TargetSearch::NoTargets));
}

#[test]
fn a_stale_frame_does_not_release_a_later_one() {
    let mut output = DirectVideoOutput::new(1, 1);
    output.set_targets(targets());
    output.publish(0);
    output.publish(0);
    assert!(!output.mark_displayed(0, 1));
    assert!(output.keeps_waiting());
    assert!(output.mark_displayed(0, 2));
}

#[test]
fn meshes_are_drawn_in_one_go() {
    let mut batch = MeshBatch::new();
    assert!(!batch.draws());
    batch.add_mesh(4, &vec![0, 1, 2, 0, 2, 3]);
    batch.add_mesh(3, &vec![2, 1, 0]);
    assert_eq!(*batch.indices(), vec![0, 1, 2, 0, 2, 3, 6, 5, 4]);
    assert_eq!(batch.vertices(), 7);
    assert!(batch.draws());
    let mut large = MeshBatch::new();
    large.add_mesh(65_535, &vec![]);
    assert!(!large.draws());
    large.add_mesh(3, &vec![0, 1]);
    assert_eq!(*large.indices(), vec![65_535, 0]);
    assert!(!large.draws());
}

#[test]
fn a_session_puts_the_clocks_back() {
    let before = Clocks { arm: 333, bus: 111, gpu: 111, gpu_xbar: 111, wireless: 0 };
    let (mut profile, wanted) = PowerProfile::engage(true, before);
    let streaming = Clocks { arm: 444, bus: 222, gpu: 222, gpu_xbar: 166, wireless: 1 };
    assert_eq!(wanted, Some(streaming));
    assert_eq!(profile.restore(), Some(before));
    assert_eq!(profile.restore(), None);
    let (mut off, nothing) = PowerProfile::engage(false, before);
    assert_eq!((nothing, off.restore()), (None, None));
}
