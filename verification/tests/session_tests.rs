// Scenario tests for the streaming session state machine, standing in for
// a worker process by supplying its output bytes directly.

use swift_scribe::AudioInputMode;
use swift_scribe::SessionError;
use swift_scribe::StreamingTranscriber;

fn programmatic_session() -> StreamingTranscriber {
    StreamingTranscriber::builder()
        .with_programmatic_input()
        .with_helper_path("/")
        .build()
        .expect("build should succeed with an existing path")
}

fn microphone_session() -> StreamingTranscriber {
    StreamingTranscriber::builder()
        .with_microphone()
        .with_helper_path("/")
        .build()
        .expect("build should succeed with an existing path")
}

#[test]
fn start_describes_the_worker_invocation() {
    let mut s = programmatic_session();
    let req = s.start().expect("start should succeed");
    assert_eq!(req.program, "/");
    assert!(req.pipe_stdin);
    assert_eq!(req.args, vec!["--stdin".to_string()]);
    assert!(s.is_running());

    let mut m = microphone_session();
    let req = m.start().expect("start should succeed");
    assert!(!req.pipe_stdin);
    assert!(req.args.is_empty());
}

#[test]
fn start_twice_is_refused_and_restart_works() {
    let mut s = programmatic_session();
    s.start().unwrap();
    assert_eq!(s.start().unwrap_err(), SessionError::AlreadyRunning);
    s.stop().unwrap();
    assert!(!s.is_running());
    s.start().expect("restart after stop should succeed");
    assert!(s.is_running());
}

#[test]
fn feed_echo_poll_round_trip() {
    // A programmatic session with a stand-in worker that echoes one
    // result line per chunk: feeding a 16 kHz mono chunk and handing the
    // echoed line back yields exactly one result.
    let mut s = programmatic_session();
    s.start().unwrap();
    let chunk: Vec<i16> = vec![0; 160];
    let bytes = s.feed_audio_i16(&chunk, 16000, 1).expect("feed should succeed");
    assert_eq!(bytes.len(), 320);

    let echoed = b"{\"text\":\"hello\",\"isFinal\":true,\"timestamp\":1.0}\n".to_vec();
    s.push_worker_output(&echoed).unwrap();

    let result = s.poll_result().expect("poll should succeed").expect("one result");
    assert_eq!(result.text, "hello");
    assert!(result.is_final);
    assert_eq!(result.timestamp, "1.0");

    assert_eq!(s.poll_result().unwrap(), None);
}

#[test]
fn feed_normalizes_before_writing() {
    // Stereo 32 kHz input: resampled (every other sample), then averaged,
    // then serialized little-endian.
    let mut s = programmatic_session();
    s.start().unwrap();
    let chunk: Vec<i16> = vec![10, 20, 30, 40];
    let bytes = s.feed_audio_i16(&chunk, 32000, 2).unwrap();
    assert_eq!(bytes, vec![20, 0]);
}

#[test]
fn poll_without_complete_line_returns_nothing() {
    let mut s = programmatic_session();
    s.start().unwrap();
    assert_eq!(s.poll_result().unwrap(), None);
    s.push_worker_output(&b"{\"text\":\"par".to_vec()).unwrap();
    assert_eq!(s.poll_result().unwrap(), None, "a partial line is not a result");
    s.push_worker_output(&b"tial\",\"isFinal\":false,\"timestamp\":2}\n".to_vec()).unwrap();
    let r = s.poll_result().unwrap().unwrap();
    assert_eq!(r.text, "partial");
    assert!(!r.is_final);
}

#[test]
fn malformed_line_is_a_decode_error_and_channel_stays_usable() {
    let mut s = programmatic_session();
    s.start().unwrap();
    s.push_worker_output(&b"not-json\n".to_vec()).unwrap();
    s.push_worker_output(&b"{\"text\":\"ok\",\"isFinal\":true,\"timestamp\":2}\n".to_vec())
        .unwrap();

    assert_eq!(s.poll_result().unwrap_err(), SessionError::Decode(b"not-json".to_vec()));
    let r = s.poll_result().unwrap().unwrap();
    assert_eq!(r.text, "ok");
}

#[test]
fn worker_exit_reports_channel_ended_deterministically() {
    let mut s = programmatic_session();
    s.start().unwrap();
    s.close_worker_output().unwrap();
    assert_eq!(s.poll_result().unwrap_err(), SessionError::ChannelEnded);
    assert_eq!(s.poll_result().unwrap_err(), SessionError::ChannelEnded);
    assert_eq!(s.poll_result().unwrap_err(), SessionError::ChannelEnded);
}

#[test]
fn trailing_unterminated_line_is_decoded_at_end() {
    let mut s = programmatic_session();
    s.start().unwrap();
    s.push_worker_output(&b"{\"text\":\"last\",\"isFinal\":true,\"timestamp\":9}".to_vec())
        .unwrap();
    s.close_worker_output().unwrap();
    let r = s.poll_result().unwrap().unwrap();
    assert_eq!(r.text, "last");
    assert_eq!(s.poll_result().unwrap_err(), SessionError::ChannelEnded);
}

#[test]
fn stop_resets_state_and_calls_fail_afterwards() {
    let mut s = programmatic_session();
    s.start().unwrap();
    s.stop().unwrap();
    assert!(!s.is_running());
    assert_eq!(s.poll_result().unwrap_err(), SessionError::NotStarted);
    let chunk: Vec<i16> = vec![1, 2, 3];
    assert_eq!(s.feed_audio_i16(&chunk, 16000, 1).unwrap_err(), SessionError::NotStarted);
    // stop is idempotent
    s.stop().unwrap();
    s.stop().unwrap();
}

#[test]
fn feed_in_microphone_mode_is_a_mode_violation() {
    let mut s = microphone_session();
    s.start().unwrap();
    let chunk: Vec<i16> = vec![1, 2, 3];
    assert_eq!(s.feed_audio_i16(&chunk, 16000, 1).unwrap_err(), SessionError::ModeViolation);
    // mode violation is reported even before start
    let mut fresh = microphone_session();
    assert_eq!(
        fresh.feed_audio_i16(&chunk, 16000, 1).unwrap_err(),
        SessionError::ModeViolation
    );
}

#[test]
fn feed_before_start_in_programmatic_mode_is_not_started() {
    let mut s = programmatic_session();
    let chunk: Vec<i16> = vec![1, 2, 3];
    assert_eq!(s.feed_audio_i16(&chunk, 16000, 1).unwrap_err(), SessionError::NotStarted);
}

#[test]
fn push_and_close_require_a_running_session() {
    let mut s = programmatic_session();
    assert_eq!(
        s.push_worker_output(&b"data".to_vec()).unwrap_err(),
        SessionError::NotStarted
    );
    assert_eq!(s.close_worker_output().unwrap_err(), SessionError::NotStarted);
}

#[test]
fn error_descriptions_cover_every_kind() {
    assert_eq!(
        SessionError::Configuration("x".to_string()).describe(),
        "worker executable not found"
    );
    assert_eq!(SessionError::Spawn("x".to_string()).describe(), "failed to start worker");
    assert_eq!(SessionError::NotStarted.describe(), "transcriber not started");
    assert_eq!(SessionError::AlreadyRunning.describe(), "transcriber already running");
    assert_eq!(
        SessionError::ModeViolation.describe(),
        "audio can only be fed in programmatic input mode"
    );
    assert_eq!(
        SessionError::PipeWrite("x".to_string()).describe(),
        "failed to write audio to worker"
    );
    assert_eq!(
        SessionError::Decode(b"line".to_vec()).describe(),
        "failed to parse result line"
    );
    assert_eq!(SessionError::ChannelEnded.describe(), "streaming process ended");
    assert_eq!(SessionError::Shutdown("x".to_string()).describe(), "failed to stop worker");
}

#[test]
fn input_mode_is_a_plain_enum() {
    let a = AudioInputMode::Microphone;
    let b = AudioInputMode::Programmatic;
    assert_ne!(a, b);
    assert_eq!(a, AudioInputMode::Microphone);
}
