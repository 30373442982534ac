use webrtc_archive_player::answer_sdp::{
    candidate_addresses_of, candidate_with_ip, candidate_words_of, char_is_white_space, first_candidate_words,
    host_candidate, lines_of, rewrite_answer_candidates,
};

fn std_words(line: &str) -> Option<Vec<String>> {
    line.trim_start()
        .strip_prefix("a=candidate:")
        .map(|rest| rest.split_whitespace().map(|s| s.to_string()).collect())
}

#[test]
fn candidate_words_match_std_splitting() {
    for line in [
        "a=candidate:1 1 udp 2130706431 evs.eltex.loc 50000 typ host",
        "  a=candidate:1 1 udp 2130706431 10.0.0.1 50000 typ host generation 0",
        "\ta=candidate:foo\u{a0}1  udp\u{2003}7 h 9 ",
        "a=candidate:",
        "a=candidate:1 2 3",
        "a=rtpmap:96 H264/90000",
        "xa=candidate:1 1 udp 1 h 2",
        "",
    ] {
        assert_eq!(candidate_words_of(line), std_words(line), "line {:?}", line);
    }
}

#[test]
fn white_space_matches_std() {
    for c in ['\t', '\n', '\u{b}', '\u{c}', '\r', ' ', '\u{85}', '\u{a0}', '\u{1680}', '\u{2000}', '\u{200a}',
        '\u{2028}', '\u{2029}', '\u{202f}', '\u{205f}', '\u{3000}', 'a', '\u{200b}', '\u{feff}', '\u{180e}', '0']
    {
        assert_eq!(char_is_white_space(c), c.is_whitespace(), "char {:?}", c);
    }
}

#[test]
fn candidate_is_written_with_the_resolved_ip() {
    let w = candidate_words_of("a=candidate:1 1 udp 2130706431 evs.eltex.loc 50000 typ host").unwrap();
    assert_eq!(candidate_with_ip(&w, "10.24.88.31"), "a=candidate:1 1 udp 2130706431 10.24.88.31 50000 typ host");
    let w = candidate_words_of("a=candidate:f 1 udp 7 h 9").unwrap();
    assert_eq!(candidate_with_ip(&w, "::1"), "a=candidate:f 1 udp 7 ::1 9");
}

#[test]
fn host_candidate_uses_the_server_address() {
    let w = candidate_words_of("a=candidate:1 1 udp 2130706431 172.17.0.2 50000 typ host").unwrap();
    assert_eq!(host_candidate(&w, "10.24.88.31"), "candidate:1 1 udp 2130706431 10.24.88.31 50000 typ host");
}

const ANSWER: &str = "v=0\r\no=- 1 1 IN IP4 0.0.0.0\r\na=candidate:1 1 udp 2130706431 evs.eltex.loc 50000 typ host\r\na=candidate:2 1 udp 5\r\n  a=candidate:3 1 udp 7 10.0.0.9 50001 typ srflx\r\na=candidate:4 1 tcp 9 gone.example 9 typ host\r\na=end-of-candidates";

#[test]
fn lines_follow_std_lines() {
    for text in [ANSWER, "", "a", "a\n", "a\r\n\r\nb\r", "\n\n"] {
        let expected: Vec<String> = text.lines().map(|l| l.to_string()).collect();
        assert_eq!(lines_of(text), expected, "text {:?}", text);
    }
}

#[test]
fn candidate_addresses_are_those_of_full_lines() {
    assert_eq!(candidate_addresses_of(ANSWER), vec!["evs.eltex.loc", "10.0.0.9", "gone.example"]);
    assert!(candidate_addresses_of("v=0\r\n").is_empty());
}

#[test]
fn answer_is_rewritten_with_the_resolved_ips() {
    let ips = vec![Some("10.24.88.31".to_string()), Some("10.0.0.9".to_string()), None];
    let out = rewrite_answer_candidates(ANSWER, &ips);
    assert_eq!(
        out,
        "v=0\no=- 1 1 IN IP4 0.0.0.0\na=candidate:1 1 udp 2130706431 10.24.88.31 50000 typ host\na=candidate:3 1 udp 7 10.0.0.9 50001 typ srflx\na=end-of-candidates\n"
    );
    assert_eq!(rewrite_answer_candidates("", &Vec::new()), "");
}

#[test]
fn first_candidate_gives_the_explicit_host_candidate() {
    let w = first_candidate_words(ANSWER).unwrap();
    assert_eq!(host_candidate(&w, "10.24.88.31"), "candidate:1 1 udp 2130706431 10.24.88.31 50000 typ host");
    let w = first_candidate_words("v=0\na=candidate:2 1 udp 5\na=candidate:9 1 udp 1 h 2").unwrap();
    assert_eq!(w, vec!["2", "1", "udp", "5"]);
    assert_eq!(first_candidate_words("v=0\r\n"), None);
}
