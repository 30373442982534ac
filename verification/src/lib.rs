//! Archive playback over WebRTC: the control protocol spoken on the data
//! channel, the shared playback state, the decisions of the archive loop, the
//! RTP timestamp arithmetic, the RTP depacketization stage of the video
//! decoder and the integer geometry of the archive timeline.

pub mod text;
pub mod webrtc_client;
pub mod archive_protocol;
pub mod app_state;
pub mod archive_loop;
pub mod webrtc_offer;
pub mod video_decoder;
pub mod ui;
pub mod config;
pub mod answer_sdp;
