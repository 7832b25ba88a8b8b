# green_vita

The core of a game-streaming client for a handheld console, verified with Verus.

- `src/` is the library: session descriptions, the control protocol, reassembly of video and
  sound, feedback to the sender, the decode queue, the choice of the frame that is shown, and the
  settings. It does no I/O and reads no clock. Every function has a contract; what holds across
  functions is stated as public proof functions at the end of a module, or in `video_laws`,
  `session_laws` and `sdp_laws`.
- `app/` is the program around it: sockets, the peer connection, threads, files, the decoder and
  the screen.
- `tests/` runs the library on concrete values.

The library calls five outside crates: `rtc` (H.264 and Opus depacketizers) with `rtc-media`
(sample builder), `h264-reader` (Annex B reader and sequence parameter sets), `crossbeam-channel`
(the queue to the decode thread) and `egui` (colours). Each call stands in a small wrapper whose
contract is trusted; its doc comment says what it claims.
