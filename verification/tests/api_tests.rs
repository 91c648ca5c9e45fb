// Tests for the streaming session's public construction API.

use swift_scribe::StreamingTranscriber;

#[test]
fn test_with_helper_path() {
    // Use a custom path - will likely fail helper check but shouldn't crash
    let result = StreamingTranscriber::builder()
        .with_helper_path("/nonexistent/path")
        .build();
    assert!(result.is_err(), "Should error on nonexistent path");
}

#[test]
fn test_new_creates_microphone_mode() {
    let result = StreamingTranscriber::new();
    // May fail if helper not found, but shouldn't panic
    assert!(result.is_ok() || result.is_err(), "Should handle missing helper gracefully");
}

#[test]
fn test_default_builder() {
    // Test that builder creates successfully
    let result = StreamingTranscriber::builder().build();
    assert!(result.is_ok() || result.is_err(), "Builder should create a result");
}

// Audio format conversion tests (internal functions tested indirectly)

#[test]
fn test_feed_audio_requires_programmatic_mode() {
    // This test verifies the API design - feed_audio should only work in programmatic mode
    // Note: We can't fully test this without starting the transcriber (which requires helper)
    // but the error checking is verified during usage
}

#[test]
fn test_builder_explicit_existing_path() {
    // An explicit path that exists on any Unix machine: validation passes
    // and the configured path is kept.
    let transcriber = StreamingTranscriber::builder()
        .with_helper_path("/")
        .build()
        .expect("existing path should build");
    assert_eq!(transcriber.helper_path(), "/");
    assert!(!transcriber.is_running());
}

#[test]
fn test_builder_chaining_keeps_last_mode() {
    // Method chaining: the last mode call wins, and an existing explicit
    // path still builds.
    let transcriber = StreamingTranscriber::builder()
        .with_microphone()
        .with_programmatic_input()
        .with_microphone()
        .with_helper_path("/")
        .build()
        .expect("chained builder should build");
    assert!(!transcriber.is_running());
}

#[test]
fn test_transcriber_with_helper_path_missing() {
    let result = swift_scribe::Transcriber::with_helper_path("/nonexistent/path");
    assert!(result.is_err(), "Should error on nonexistent path");
}

#[test]
fn test_transcriber_with_helper_path_existing() {
    let transcriber = swift_scribe::Transcriber::with_helper_path("/")
        .expect("existing path should be accepted");
    assert_eq!(transcriber.helper_path(), "/");
}
