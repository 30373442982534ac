# webrtc_archive_player

A player for recorded (archive) video served by an SFU over WebRTC: the
client posts an SDP offer, receives H.264/H.265 over RTP and controls the
archive with JSON commands on a data channel (`get_ranges`,
`get_archive_fragment`, `play_stream`, `stop_stream`, `drop_buffer`).

Layout:

- `src/` – the library, verified with Verus:
  - `archive_protocol` – requests, replies and their classification;
  - `app_state` – the playback state and its wall-clock position;
  - `archive_loop` – what each command and reply does to the state and which
    requests it sends; when the next fragment is asked for;
  - `webrtc_offer` – RTP timestamp unwrapping, the RTP clock, DTLS role of the offer;
  - `webrtc_client` – host of the signalling URL, codec lines, the answer;
  - `answer_sdp` – ICE candidate lines of the answer and the answer written
    again with their addresses resolved;
  - `video_decoder` – RTP depacketization (H.264, H.265) into Annex B;
  - `ui` – frame layout for drawing, the zoom and rotation steps of the video
    view and the integer geometry of the timeline;
  - `config` – settings; `text` – character-level helpers.
- `tests/` – tests of the library.
- `app/` – the program: GTK window, WebRTC session, HTTP, FFmpeg decoding,
  JSON (de)serialization, settings file.
