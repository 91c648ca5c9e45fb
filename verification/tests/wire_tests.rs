// Tests for the worker's result wire format: one JSON object per line
// with the fields text, isFinal and timestamp.

use swift_scribe::decode_result_line;
use swift_scribe::StreamingResult;

fn decode(line: &[u8]) -> Option<StreamingResult> {
    decode_result_line(&line.to_vec())
}

#[test]
fn decodes_a_plain_record() {
    let r = decode(b"{\"text\":\"hello\",\"isFinal\":true,\"timestamp\":1.0}").unwrap();
    assert_eq!(r.text, "hello");
    assert!(r.is_final);
    assert_eq!(r.timestamp, "1.0");
}

#[test]
fn decodes_any_field_order_and_whitespace() {
    let r = decode(b"  { \"timestamp\" : 12.5 , \"text\" : \"a b\" , \"isFinal\" : false }  ")
        .unwrap();
    assert_eq!(r.text, "a b");
    assert!(!r.is_final);
    assert_eq!(r.timestamp, "12.5");
}

#[test]
fn decodes_escape_sequences() {
    let r = decode(b"{\"text\":\"a\\n\\t\\\"q\\\"\\\\\",\"isFinal\":true,\"timestamp\":0}")
        .unwrap();
    assert_eq!(r.text, "a\n\t\"q\"\\");
}

#[test]
fn decodes_unicode_escapes() {
    let r = decode(b"{\"text\":\"\\u0041\\u00e9\\u20ac\",\"isFinal\":false,\"timestamp\":2}")
        .unwrap();
    assert_eq!(r.text, "A\u{e9}\u{20ac}");
}

#[test]
fn decodes_surrogate_pairs() {
    let r = decode(b"{\"text\":\"\\ud83d\\ude00\",\"isFinal\":true,\"timestamp\":3}").unwrap();
    assert_eq!(r.text, "\u{1f600}");
}

#[test]
fn decodes_utf8_text_passed_through_raw() {
    let line = "{\"text\":\"caf\u{e9}\",\"isFinal\":true,\"timestamp\":4}".as_bytes();
    let r = decode(line).unwrap();
    assert_eq!(r.text, "caf\u{e9}");
}

#[test]
fn keeps_number_tokens_verbatim() {
    let r = decode(b"{\"text\":\"x\",\"isFinal\":true,\"timestamp\":-1.25e3}").unwrap();
    assert_eq!(r.timestamp, "-1.25e3");
    let r = decode(b"{\"text\":\"x\",\"isFinal\":true,\"timestamp\":1700000000.123}").unwrap();
    assert_eq!(r.timestamp, "1700000000.123");
}

#[test]
fn decodes_empty_text() {
    let r = decode(b"{\"text\":\"\",\"isFinal\":false,\"timestamp\":0}").unwrap();
    assert_eq!(r.text, "");
}

#[test]
fn rejects_non_json() {
    assert!(decode(b"not-json").is_none());
    assert!(decode(b"").is_none());
    assert!(decode(b"   ").is_none());
    assert!(decode(b"[1,2,3]").is_none());
}

#[test]
fn rejects_incomplete_records() {
    assert!(decode(b"{\"text\":\"x\",\"isFinal\":true}").is_none());
    assert!(decode(b"{}").is_none());
    assert!(decode(b"{\"text\":\"x\",\"isFinal\":true,\"timestamp\":1.0").is_none());
}

#[test]
fn rejects_duplicate_and_unknown_fields() {
    assert!(
        decode(b"{\"text\":\"x\",\"text\":\"y\",\"isFinal\":true,\"timestamp\":1}").is_none()
    );
    assert!(
        decode(b"{\"text\":\"x\",\"isFinal\":true,\"timestamp\":1,\"extra\":1}").is_none()
    );
}

#[test]
fn rejects_wrongly_typed_fields() {
    assert!(decode(b"{\"text\":1,\"isFinal\":true,\"timestamp\":1}").is_none());
    assert!(decode(b"{\"text\":\"x\",\"isFinal\":\"yes\",\"timestamp\":1}").is_none());
    assert!(decode(b"{\"text\":\"x\",\"isFinal\":true,\"timestamp\":\"1\"}").is_none());
}

#[test]
fn rejects_malformed_numbers() {
    assert!(decode(b"{\"text\":\"x\",\"isFinal\":true,\"timestamp\":01}").is_none());
    assert!(decode(b"{\"text\":\"x\",\"isFinal\":true,\"timestamp\":1.}").is_none());
    assert!(decode(b"{\"text\":\"x\",\"isFinal\":true,\"timestamp\":.5}").is_none());
    assert!(decode(b"{\"text\":\"x\",\"isFinal\":true,\"timestamp\":1e}").is_none());
}

#[test]
fn rejects_bad_strings() {
    // lone surrogate, bad escape, raw control byte, unterminated string
    assert!(decode(b"{\"text\":\"\\ud83d\",\"isFinal\":true,\"timestamp\":1}").is_none());
    assert!(decode(b"{\"text\":\"\\x\",\"isFinal\":true,\"timestamp\":1}").is_none());
    assert!(decode(b"{\"text\":\"a\x01b\",\"isFinal\":true,\"timestamp\":1}").is_none());
    assert!(decode(b"{\"text\":\"abc,\"isFinal\":true,\"timestamp\":1}").is_none());
}

#[test]
fn rejects_invalid_utf8_in_text() {
    let mut line = b"{\"text\":\"".to_vec();
    line.push(0xff);
    line.extend_from_slice(b"\",\"isFinal\":true,\"timestamp\":1}");
    assert!(decode_result_line(&line).is_none());
}

#[test]
fn rejects_trailing_content() {
    assert!(
        decode(b"{\"text\":\"x\",\"isFinal\":true,\"timestamp\":1} extra").is_none()
    );
}
