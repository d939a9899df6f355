use termecho::error::Error;
use termecho::payload::{parse_cmd, Payload};

fn strings(tokens: &[&str]) -> Vec<String> {
    tokens.iter().map(|t| t.to_string()).collect()
}

#[test]
fn parse_cmd_newline() {
    let cmd = parse_cmd(strings(&["ls", "-al"]), false).unwrap();
    assert_eq!(cmd.as_bytes(), b"ls -al\n");
    assert_eq!(cmd.as_bytes_with_nul(), b"ls -al\n\0");
}

#[test]
fn parse_cmd_no_newline() {
    let cmd = parse_cmd(strings(&["ls", "-al"]), true).unwrap();
    assert_eq!(cmd.as_bytes(), b"ls -al");
    assert_eq!(cmd.as_bytes_with_nul(), b"ls -al\0");
}

#[test]
fn parse_cmd_invalid_cstring() {
    assert!(parse_cmd(strings(&["ls\0", "-al"]), true).is_err());
}

#[test]
fn parse_cmd_invalid_whatever_the_newline() {
    assert_eq!(parse_cmd(strings(&["ls\0", "-al"]), true), Err(Error::InvalidPayload));
    assert_eq!(parse_cmd(strings(&["ls\0", "-al"]), false), Err(Error::InvalidPayload));
}

#[test]
fn parse_cmd_nul_in_any_token() {
    assert_eq!(parse_cmd(strings(&["\0"]), false), Err(Error::InvalidPayload));
    assert_eq!(parse_cmd(strings(&["a", "b", "c\0d"]), false), Err(Error::InvalidPayload));
    assert_eq!(parse_cmd(strings(&["a", "\0", "c"]), true), Err(Error::InvalidPayload));
}

#[test]
fn parse_cmd_newline_payload_has_seven_bytes() {
    let cmd = parse_cmd(strings(&["ls", "-al"]), false).unwrap();
    assert_eq!(cmd.len(), 7);
    assert!(!cmd.is_empty());
    assert!(cmd.as_bytes().iter().all(|b| *b != 0));
}

#[test]
fn parse_cmd_single_token() {
    assert_eq!(parse_cmd(strings(&["make"]), false).unwrap().as_bytes(), b"make\n");
    assert_eq!(parse_cmd(strings(&["make"]), true).unwrap().as_bytes(), b"make");
}

#[test]
fn parse_cmd_no_tokens() {
    let with_newline = parse_cmd(Vec::new(), false).unwrap();
    assert_eq!(with_newline.as_bytes(), b"\n");
    let without = parse_cmd(Vec::new(), true).unwrap();
    assert!(without.is_empty());
    assert_eq!(without.len(), 0);
    assert_eq!(without.as_bytes_with_nul(), b"\0");
}

#[test]
fn parse_cmd_keeps_spaces_inside_tokens() {
    let cmd = parse_cmd(strings(&["echo", "a  b", ""]), true).unwrap();
    assert_eq!(cmd.as_bytes(), b"echo a  b ");
}

#[test]
fn parse_cmd_encodes_text_as_utf8() {
    let cmd = parse_cmd(strings(&["echo", "h\u{e9}", "\u{20ac}", "\u{1f600}"]), false).unwrap();
    let expected = "echo h\u{e9} \u{20ac} \u{1f600}\n";
    assert_eq!(cmd.as_bytes(), expected.as_bytes());
    assert_eq!(cmd.len(), 5 + 3 + 1 + 3 + 1 + 4 + 1);
}

#[test]
fn parse_cmd_agrees_with_join() {
    let tokens = strings(&["tail", "-f", "/var/log/syslog", "|", "grep", "-i", "error"]);
    let joined = tokens.join(" ");
    let cmd = parse_cmd(tokens.clone(), true).unwrap();
    assert_eq!(cmd.as_bytes(), joined.as_bytes());
    let cmd = parse_cmd(tokens, false).unwrap();
    assert_eq!(cmd.as_bytes(), (joined + "\n").as_bytes());
}

#[test]
fn payload_new_takes_null_free_bytes() {
    let payload = Payload::new(vec![0x6c, 0x73, 0x0a]).unwrap();
    assert_eq!(payload.as_bytes(), b"ls\n");
    assert_eq!(payload.as_bytes_with_nul(), b"ls\n\0");
    assert_eq!(payload.len(), 3);
}

#[test]
fn payload_new_refuses_a_null_byte() {
    assert_eq!(Payload::new(vec![0]), Err(Error::InvalidPayload));
    assert_eq!(Payload::new(vec![0x6c, 0, 0x73]), Err(Error::InvalidPayload));
    assert_eq!(Payload::new(vec![0x6c, 0x73, 0]), Err(Error::InvalidPayload));
}

#[test]
fn payload_new_empty() {
    let payload = Payload::new(Vec::new()).unwrap();
    assert!(payload.is_empty());
    assert_eq!(payload.get(0), None);
    assert_eq!(payload.as_bytes_with_nul(), b"\0");
}

#[test]
fn payload_get_stops_at_the_terminator() {
    let payload = parse_cmd(strings(&["ls"]), false).unwrap();
    assert_eq!(payload.get(0), Some(b'l'));
    assert_eq!(payload.get(1), Some(b's'));
    assert_eq!(payload.get(2), Some(b'\n'));
    assert_eq!(payload.get(3), None);
    assert_eq!(payload.get(4), None);
    assert_eq!(payload.get(usize::MAX), None);
}

#[test]
fn payload_first_null_byte_is_the_terminator() {
    let payload = parse_cmd(strings(&["ls", "-al"]), false).unwrap();
    let raw = payload.as_bytes_with_nul();
    assert_eq!(raw.iter().position(|b| *b == 0), Some(payload.len()));
    assert_eq!(raw.len(), payload.len() + 1);
}

#[test]
fn payload_clone_has_the_same_content() {
    let payload = parse_cmd(strings(&["ls", "-al"]), false).unwrap();
    let copy = payload.clone();
    assert_eq!(copy, payload);
    assert_eq!(copy.as_bytes(), b"ls -al\n");
    assert_eq!(copy.as_bytes_with_nul(), payload.as_bytes_with_nul());
}
