use webrtc_archive_player::webrtc_client::{
    answer_from_fields, answer_from_reply, extract_h26x_rtpmap_lines, host_from_webrtc_url, AnswerError,
    HttpTlsOptions,
};

const OFFER: &str = "v=0\r\n\
o=- 1 2 IN IP4 0.0.0.0\r\n\
m=video 9 UDP/TLS/RTP/SAVPF 102 103 96\r\n\
a=rtpmap:102 H264/90000\r\n\
a=fmtp:102 level-asymmetry-allowed=1;packetization-mode=1;profile-level-id=42e01f\r\n\
a=rtpmap:103 H265/90000\r\n\
a=rtpmap:96 VP8/90000\r\n\
a=rtcp-fb:102 nack\r\n\
a=rtpmap:104 h264/90000";

#[test]
fn rtpmap_lines_of_h26x_codecs_are_extracted() {
    let lines = extract_h26x_rtpmap_lines(OFFER);
    assert_eq!(
        lines,
        vec![
            "a=rtpmap:102 H264/90000".to_string(),
            "a=rtpmap:103 H265/90000".to_string(),
            "a=rtpmap:104 h264/90000".to_string(),
        ]
    );
}

#[test]
fn rtpmap_extraction_matches_std_lines() {
    let sdp = "a=rtpmap:1 H264/1\n\na=fmtp:1 h264\na=rtpmap:2 x-H265\r\r\nz a=rtpmap:3 H264\r";
    let expected: Vec<String> = sdp
        .lines()
        .filter(|l| l.contains("a=rtpmap:"))
        .filter(|l| {
            let lower = l.to_ascii_lowercase();
            lower.contains("h264") || lower.contains("h265")
        })
        .map(|l| l.to_string())
        .collect();
    assert_eq!(extract_h26x_rtpmap_lines(sdp), expected);
    assert_eq!(expected.len(), 3);
    assert!(extract_h26x_rtpmap_lines("").is_empty());
}

#[test]
fn host_is_taken_from_the_signalling_url() {
    assert_eq!(
        host_from_webrtc_url("https://10.24.88.31:7200/webrtc?app=live&stream=x&type=archive"),
        Some("10.24.88.31".to_string())
    );
    assert_eq!(host_from_webrtc_url("https://evs.eltex.loc/webrtc"), Some("evs.eltex.loc".to_string()));
    assert_eq!(host_from_webrtc_url("not a url"), None);
}

#[test]
fn tls_options_are_plain_values() {
    let t = HttpTlsOptions { insecure_skip_verify: true };
    let u = t;
    assert!(u.insecure_skip_verify && t.insecure_skip_verify);
}

#[test]
fn http_error_status_is_reported() {
    match answer_from_reply(500, "boom".to_string()) {
        Err(AnswerError::Http { status, body }) => {
            assert_eq!(status, 500);
            assert_eq!(body, "boom");
        }
        other => panic!("unexpected {:?}", other),
    }
}

#[test]
fn invalid_json_is_reported() {
    match answer_from_reply(200, "v=0".to_string()) {
        Err(AnswerError::InvalidJson { body }) => assert_eq!(body, "v=0"),
        other => panic!("unexpected {:?}", other),
    }
}

#[test]
fn missing_sdp_is_reported() {
    match answer_from_reply(201, "{\"code\":0}".to_string()) {
        Err(AnswerError::MissingSdp { body }) => assert_eq!(body, "{\"code\":0}"),
        other => panic!("unexpected {:?}", other),
    }
    assert!(matches!(answer_from_reply(200, "{\"sdp\":5}".to_string()), Err(AnswerError::MissingSdp { .. })));
}

#[test]
fn both_answer_formats_are_read() {
    let a = answer_from_reply(200, "{\"sdp\":\"v=0\\r\\n\"}".to_string()).unwrap();
    assert_eq!(a.sdp, "v=0\r\n");
    assert_eq!(a.code, None);
    assert_eq!(a.id, None);
    assert_eq!(a.typ, None);
    let a = answer_from_reply(200, "{\"code\":0,\"id\":\"abc\",\"sdp\":\"v=0\",\"type\":\"answer\"}".to_string()).unwrap();
    assert_eq!(a.sdp, "v=0");
    assert_eq!(a.code, Some(0));
    assert_eq!(a.id, Some("abc".to_string()));
    assert_eq!(a.typ, Some("answer".to_string()));
}

#[test]
fn answer_code_is_truncated_to_32_bits() {
    let a = answer_from_fields(String::new(), Some("s".to_string()), Some(0x1_0000_0005), None, None).unwrap();
    assert_eq!(a.code, Some(5));
    let a = answer_from_fields(String::new(), Some("s".to_string()), Some(-1), None, None).unwrap();
    assert_eq!(a.code, Some(-1));
}

#[test]
fn codec_lines_of_joined_offers_are_joined() {
    let a = "v=0\r\na=rtpmap:102 H264/90000\r\na=rtpmap:96 VP8/90000";
    let b = "a=rtpmap:103 h265/90000\r\nm=audio 9";
    let joined = format!("{}\n{}", a, b);
    let mut expected = extract_h26x_rtpmap_lines(a);
    expected.extend(extract_h26x_rtpmap_lines(b));
    assert_eq!(extract_h26x_rtpmap_lines(&joined), expected);
    assert_eq!(expected, vec!["a=rtpmap:102 H264/90000", "a=rtpmap:103 h265/90000"]);
}

#[test]
fn answer_fields_come_from_their_own_keys() {
    let a = answer_from_reply(200, "{\"type\":\"answer\",\"sdp\":\"v=1\",\"id\":7,\"code\":\"x\"}".to_string()).unwrap();
    assert_eq!(a.sdp, "v=1");
    assert_eq!(a.typ.as_deref(), Some("answer"));
    assert_eq!(a.id, None);
    assert_eq!(a.code, None);
    let a = answer_from_reply(204, "{\"sdp\":\"s\",\"code\":-3}".to_string()).unwrap();
    assert_eq!(a.code, Some(-3));
}
