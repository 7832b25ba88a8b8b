use green_vita::audio_rtp::AudioRtp;
use green_vita::media::AudioReceiver;
use green_vita::packet::RtpPacket;

fn packet(payload_type: u8, sequence_number: u16, payload: &[u8]) -> RtpPacket {
    RtpPacket {
        payload_type,
        sequence_number,
        timestamp: sequence_number as u32 * 960,
        marker: false,
        extensions: Vec::new(),
        payload: payload.to_vec(),
    }
}

#[test]
fn puts_audio_packets_in_order() {
    let mut rtp = AudioRtp::new(48_000, 111);
    let mut waiting = Vec::new();
    for sequence in [1u16, 3, 2, 4] {
        rtp.receive(packet(111, sequence, &[sequence as u8, 9]), &mut waiting);
    }
    assert_eq!(waiting, vec![vec![1, 9], vec![2, 9], vec![3, 9]]);
}

#[test]
fn ignores_other_payload_types() {
    let mut rtp = AudioRtp::new(48_000, 111);
    let mut waiting = Vec::new();
    for sequence in 1..5u16 {
        rtp.receive(packet(110, sequence, &[1]), &mut waiting);
    }
    assert!(waiting.is_empty());
}

#[test]
fn holds_back_when_enough_packets_wait() {
    let mut rtp = AudioRtp::new(48_000, 111);
    let mut waiting = Vec::new();
    for sequence in 0..60u16 {
        rtp.receive(packet(111, sequence, &[sequence as u8]), &mut waiting);
    }
    assert_eq!(waiting.len(), 32);
    assert_eq!(waiting[31], vec![31]);
    let mut overfull = vec![vec![0u8]; 40];
    rtp.receive(packet(111, 60, &[1]), &mut overfull);
    assert_eq!(overfull.len(), 40);
}

#[test]
fn an_audio_track_takes_its_own_packets() {
    let mut receiver = AudioReceiver::new(48_000, 111);
    assert!(!receiver.handles("audio"));
    receiver.open("audio".to_string());
    assert!(receiver.handles("audio") && !receiver.handles("video"));
    for sequence in 1..4u16 {
        receiver.receive(packet(111, sequence, &[sequence as u8]));
    }
    assert_eq!(receiver.take_packets(), vec![vec![1], vec![2]]);
    assert!(receiver.take_packets().is_empty());
}

#[test]
fn a_packet_without_sound_fills_its_place() {
    let mut rtp = AudioRtp::new(48_000, 111);
    let mut waiting = Vec::new();
    for sequence in [1u16, 2, 3, 4, 5, 6] {
        let payload: &[u8] = if sequence == 3 { &[] } else { &[sequence as u8] };
        rtp.receive(packet(111, sequence, payload), &mut waiting);
    }
    assert_eq!(waiting, vec![vec![1], vec![2], vec![4], vec![5]]);
}

#[test]
fn silence_goes_on_for_long() {
    let mut rtp = AudioRtp::new(48_000, 111);
    let mut waiting = Vec::new();
    for sequence in 0..200_000u32 {
        rtp.receive(packet(111, sequence as u16, &[]), &mut waiting);
    }
    assert!(waiting.is_empty());
    for sequence in 200_000..200_100u32 {
        rtp.receive(packet(111, sequence as u16, &[sequence as u8]), &mut waiting);
        waiting.truncate(1);
    }
    assert_eq!(waiting.len(), 1);
}

#[test]
fn silent_packets_from_far_apart_make_way_for_sound() {
    let mut rtp = AudioRtp::new(48_000, 111);
    let mut waiting = Vec::new();
    for sequence in [0u16, 32_000, 64_000, 30_464] {
        rtp.receive(packet(111, sequence, &[]), &mut waiting);
    }
    assert!(waiting.is_empty());
    for sequence in 1..4u16 {
        rtp.receive(packet(111, sequence, &[sequence as u8]), &mut waiting);
    }
    assert_eq!(waiting, vec![vec![1], vec![2]]);
    rtp.receive(packet(111, 20_000, &[7]), &mut waiting);
    assert_eq!(waiting, vec![vec![1], vec![2], vec![3]]);
    for sequence in 20_001..20_010u16 {
        rtp.receive(packet(111, sequence, &[8]), &mut waiting);
    }
    assert_eq!(waiting[3..5], [vec![7], vec![8]]);
}
