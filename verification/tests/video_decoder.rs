use webrtc_archive_player::video_decoder::{decoder_thread_count, decoder_threads_for, DecodedFrame, RtpDepacketizer, VideoCodecKind};

#[test]
fn empty_payload_gives_nothing() {
    let mut d = RtpDepacketizer::new(VideoCodecKind::H264);
    assert_eq!(d.depacketize(&[]), None);
    let mut d = RtpDepacketizer::new(VideoCodecKind::H265);
    assert_eq!(d.depacketize(&[]), None);
}

#[test]
fn h264_single_nal_gets_a_start_code() {
    let mut d = RtpDepacketizer::new(VideoCodecKind::H264);
    assert_eq!(d.depacketize(&[0x65, 0xAA, 0xBB]), Some(vec![0, 0, 0, 1, 0x65, 0xAA, 0xBB]));
}

#[test]
fn h264_short_and_unknown_payloads_are_dropped() {
    let mut d = RtpDepacketizer::new(VideoCodecKind::H264);
    assert_eq!(d.depacketize(&[0x65]), None);
    assert_eq!(d.depacketize(&[0x65, 0x01]), None);
    assert_eq!(d.depacketize(&[0x1E, 0x01, 0x02]), None);
    // An access unit delimiter may be two bytes long.
    assert_eq!(d.depacketize(&[0x09, 0xF0]), Some(vec![0, 0, 0, 1, 0x09, 0xF0]));
}

#[test]
fn h264_aggregation_packet_yields_its_units() {
    let mut d = RtpDepacketizer::new(VideoCodecKind::H264);
    let stap = [0x18, 0x00, 0x02, 0x67, 0x42, 0x00, 0x01, 0x68];
    assert_eq!(d.depacketize(&stap), Some(vec![0, 0, 0, 1, 0x67, 0x42, 0, 0, 0, 1, 0x68]));
    // A length past the end is an error.
    assert_eq!(d.depacketize(&[0x18, 0x00, 0x09, 0x67]), None);
}

#[test]
fn h264_fragments_are_reassembled() {
    let mut d = RtpDepacketizer::new(VideoCodecKind::H264);
    assert_eq!(d.depacketize(&[0x7C, 0x85, 0x01, 0x02]), None);
    assert_eq!(d.depacketize(&[0x7C, 0x05, 0x03]), None);
    assert_eq!(d.depacketize(&[0x7C, 0x45, 0x04]), Some(vec![0, 0, 0, 1, 0x65, 0x01, 0x02, 0x03, 0x04]));
}

#[test]
fn hevc_single_nal_gets_a_start_code() {
    let mut d = RtpDepacketizer::new(VideoCodecKind::H265);
    assert_eq!(d.depacketize(&[0x40, 0x01, 0x0C]), Some(vec![0, 0, 0, 1, 0x40, 0x01, 0x0C]));
    assert_eq!(d.depacketize(&[0x40, 0x01]), None);
    // Types past the fragmentation unit are passed on as one unit too.
    assert_eq!(d.depacketize(&[0x64, 0x01, 0x00]), Some(vec![0, 0, 0, 1, 0x64, 0x01, 0x00]));
}

#[test]
fn hevc_aggregation_packet_yields_its_units() {
    let mut d = RtpDepacketizer::new(VideoCodecKind::H265);
    let ap = [0x60, 0x01, 0x00, 0x02, 0x40, 0x01, 0x00, 0x03, 0x42, 0x01, 0x01, 0x00, 0x07];
    assert_eq!(
        d.depacketize(&ap),
        Some(vec![0, 0, 0, 1, 0x40, 0x01, 0, 0, 0, 1, 0x42, 0x01, 0x01])
    );
    // A first unit of length zero leaves nothing to decode.
    assert_eq!(d.depacketize(&[0x60, 0x01, 0x00, 0x00, 0x40]), None);
}

#[test]
fn hevc_fragments_are_reassembled() {
    let mut d = RtpDepacketizer::new(VideoCodecKind::H265);
    // FU of an IDR_W_RADL unit (type 19): start, middle, end.
    assert_eq!(d.depacketize(&[0x62, 0x01, 0x93, 0xAA]), None);
    assert_eq!(d.depacketize(&[0x62, 0x01, 0x13, 0xBB]), None);
    assert_eq!(d.depacketize(&[0x62, 0x01, 0x53, 0xCC]), Some(vec![0, 0, 0, 1, 0x26, 0x01, 0xAA, 0xBB, 0xCC]));
    // A middle piece without a start is dropped.
    assert_eq!(d.depacketize(&[0x62, 0x01, 0x53, 0xCC]), None);
    // A piece that is both first and last is a whole unit.
    assert_eq!(d.depacketize(&[0x62, 0x01, 0xD3, 0xDD]), Some(vec![0, 0, 0, 1, 0x26, 0x01, 0xDD]));
}

#[test]
fn frame_takes_width_times_three_bytes_of_each_row() {
    let plane: Vec<u8> = (0..20).collect();
    let f = DecodedFrame::from_rgb_plane(2, 3, 6, &plane);
    assert_eq!((f.width, f.height), (2, 3));
    assert_eq!(f.data, (0..18).collect::<Vec<u8>>());
    let f = DecodedFrame::from_rgb_plane(2, 4, 6, &plane);
    assert_eq!(f.data, plane);
}

#[test]
fn frame_drops_the_row_padding() {
    let f = DecodedFrame::from_rgb_plane(1, 1, 4, &[10, 20, 30, 99]);
    assert_eq!(f.data, vec![10, 20, 30]);
    let plane: Vec<u8> = (0..16).collect();
    let f = DecodedFrame::from_rgb_plane(2, 2, 8, &plane);
    assert_eq!(f.data, vec![0, 1, 2, 3, 4, 5, 8, 9, 10, 11, 12, 13]);
    assert_eq!(f.data.len(), 2 * 3 * 2);
}

#[test]
fn decoder_uses_at_least_one_thread() {
    assert!(decoder_thread_count() >= 1);
}

#[test]
fn decoder_threads_follow_the_cpus() {
    assert_eq!(decoder_threads_for(0), 1);
    assert_eq!(decoder_threads_for(1), 1);
    assert_eq!(decoder_threads_for(12), 12);
}
