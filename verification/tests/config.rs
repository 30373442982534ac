use webrtc_archive_player::config::{AppConfig, DEFAULT_URL};

#[test]
fn default_config_points_at_the_archive_server() {
    let c = AppConfig::default();
    assert_eq!(c.webrtc_url, DEFAULT_URL);
    assert!(c.webrtc_url.starts_with("https://10.24.88.31:7200/webrtc?"));
    assert!(c.tls_insecure_skip_verify);
    assert_eq!(c.ice_servers, vec!["stun:stun.l.google.com:19302".to_string()]);
}
