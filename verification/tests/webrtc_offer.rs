use webrtc_archive_player::webrtc_offer::{force_setup_active, unwrap_rtp_timestamp, RtpClock};

#[test]
fn timestamps_unwrap_across_the_32_bit_wrap() {
    assert_eq!(unwrap_rtp_timestamp(100, 40, 1000), 1060);
    assert_eq!(unwrap_rtp_timestamp(40, 100, 1000), 940);
    assert_eq!(unwrap_rtp_timestamp(10, u32::MAX - 9, 5000), 5020);
    assert_eq!(unwrap_rtp_timestamp(u32::MAX - 9, 10, 5000), 4980);
    assert_eq!(unwrap_rtp_timestamp(0x8000_0000, 0, 0), -0x8000_0000);
    assert_eq!(unwrap_rtp_timestamp(0x7FFF_FFFF, 0, 0), 0x7FFF_FFFF);
    assert_eq!(unwrap_rtp_timestamp(0, 0x8000_0000, 0), -0x8000_0000);
}

#[test]
fn clock_maps_ticks_to_milliseconds() {
    let mut c = RtpClock::new();
    assert_eq!(c.observe(u32::MAX - 44_999, 1, 10_000, 20_000), Some(10_000));
    assert_eq!(c.observe(45_000, 1, 10_000, 20_000), Some(11_000));
    assert_eq!(c.observe(45_000 + 90, 1, 10_000, 20_000), Some(11_001));
    assert_eq!(c.unwrapped_rtp, 90_090);
    // Past the end of the fragment nothing is reported.
    assert_eq!(c.observe(45_000 + 90 * 20_000, 1, 10_000, 20_000), None);
}

#[test]
fn clock_restarts_with_a_new_generation() {
    let mut c = RtpClock::new();
    c.observe(1000, 1, 10_000, 20_000);
    c.observe(91_000, 1, 10_000, 20_000);
    assert_eq!(c.observe(5, 2, 50_000, 60_000), Some(50_000));
    assert_eq!(c.ref_real_ms, 50_000);
    assert_eq!(c.last_generation, 2);
}

#[test]
fn clock_reports_nothing_outside_a_playback() {
    let mut c = RtpClock::new();
    assert_eq!(c.observe(1000, 0, 0, 100), None);
}

#[test]
fn backward_steps_round_toward_zero_and_are_not_reported() {
    let mut c = RtpClock::new();
    assert_eq!(c.observe(1_000_000, 3, 10_000, 20_000), Some(10_000));
    // 150 ticks back is -1.66 ms, rounded toward zero to -1 ms: before the reference.
    assert_eq!(c.observe(1_000_000 - 150, 3, 10_000, 20_000), None);
    assert_eq!(c.unwrapped_rtp, -150);
}

#[test]
fn offer_becomes_dtls_active() {
    let sdp = "v=0\r\na=setup:actpass\r\nm=application\r\na=setup:actpass\r\n";
    assert_eq!(force_setup_active(sdp), sdp.replace("setup:actpass", "setup:active"));
    assert_eq!(force_setup_active("a=setup:active\r\n"), "a=setup:active\r\n");
    assert_eq!(force_setup_active("setup:actpasssetup:actpass"), "setup:activesetup:active");
    assert_eq!(force_setup_active(""), "");
}

#[test]
fn no_actpass_is_left_after_forcing() {
    for sdp in ["a=setup:actpass\r\n", "setup:actpassetup:actpass", "setup:actpasss", "setup:actpas", "ssetup:actpass"] {
        let out = force_setup_active(sdp);
        assert!(!out.contains("setup:actpass"), "{:?} gave {:?}", sdp, out);
    }
    assert_eq!(force_setup_active("setup:actpassetup:actpass"), "setup:activeetup:actpass");
}
