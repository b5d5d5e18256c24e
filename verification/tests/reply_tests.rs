use ftpoq::reply::{Reply, ReplyParseError};
use ftpoq::reply_code::ReplyCode;

#[test]
fn test_from_string_single_line() {
    let reply = Reply::new(ReplyCode::CommandOkay, "test");
    let message = reply.to_string();
    let parsed_reply = Reply::from_str(&message);
    match parsed_reply {
        Ok(r) => assert_eq!(reply, r),
        Err(e) => {
            panic!("Failed to parse! {:?}", e);
        }
    }
}

#[test]
fn test_from_string_multiline() {
    let lines = vec!["Hello", "mid", "Bye"];
    let reply = Reply::new_multiline(ReplyCode::CommandOkay, lines);
    let message = reply.to_string();
    let parsed_reply = Reply::from_str(&message);
    match parsed_reply {
        Ok(r) => assert_eq!(reply, r),
        Err(e) => {
            panic!("Failed to parse! {:?}", e);
        }
    }
}

#[test]
fn from_string_invalid_code_test() {
    let message = "0 Hello";
    let parsed_reply = Reply::from_str(message);
    assert!(parsed_reply.is_err());
}

#[test]
fn from_string_invalid_no_space_or_minus_test() {
    let message = "220Hello";
    let parsed_reply = Reply::from_str(message);
    assert!(parsed_reply.is_err());
}

#[test]
fn from_string_invalid_no_message_test() {
    let message = "220";
    let parsed_reply = Reply::from_str(message);
    assert!(parsed_reply.is_err());
}

#[test]
fn from_string_invalid_no_code_test() {
    let message = "abc Hello";
    let parsed_reply = Reply::from_str(message);
    assert!(parsed_reply.is_err());
}

#[test]
fn single_line_wire_text() {
    let reply = Reply::new(ReplyCode::ServiceReady, "Hello");
    assert_eq!("220 Hello\r\n", reply.to_string());
}

#[test]
fn empty_reply_wire_text() {
    let lines: Vec<&str> = Vec::new();
    let reply = Reply::new_multiline(ReplyCode::CommandOkay, lines);
    assert_eq!("200 \r\n", reply.to_string());
}

#[test]
fn two_line_wire_text() {
    let reply = Reply::new_multiline(ReplyCode::SystemStatus, vec!["a", "b"]);
    assert_eq!("211-a\r\n211 b\r\n", reply.to_string());
}

#[test]
fn parse_errors_are_distinguished() {
    assert_eq!(Err(ReplyParseError::TooShort), Reply::from_str("220").map(|_| ()));
    assert_eq!(Err(ReplyParseError::InvalidDelimiter), Reply::from_str("220Hello").map(|_| ()));
    assert_eq!(Err(ReplyParseError::InvalidCode), Reply::from_str("abc Hello").map(|_| ()));
    assert_eq!(Err(ReplyParseError::UnsupportedCode), Reply::from_str("999 Hello").map(|_| ()));
    assert_eq!(Err(ReplyParseError::CodeMismatch), Reply::from_str("211-a\r\n200 b\r\n").map(|_| ()));
    assert_eq!(Err(ReplyParseError::InvalidEndLine), Reply::from_str("211-a\r\n21\n").map(|_| ()));
    assert_eq!(Err(ReplyParseError::InvalidEndLineCode), Reply::from_str("211-a\r\nxyz b\r\n").map(|_| ()));
}

#[test]
fn parse_trims_trailing_white_space() {
    let parsed = Reply::from_str("200 OK  \r\n").unwrap();
    assert_eq!(Reply::new(ReplyCode::CommandOkay, "OK"), parsed);
}

#[test]
fn parse_reports_byte_slicing_inside_a_character() {
    assert!(Reply::parse("a0\u{e9} x").is_none());
    assert!(Reply::parse("220 x").is_some());
}

#[test]
fn parse_with_combining_mark_after_code_is_rejected() {
    // The fourth grapheme is the space together with the combining mark.
    assert_eq!(
        Some(Err(ReplyParseError::InvalidDelimiter)),
        Reply::parse("220 \u{301}x").map(|r| r.map(|_| ()))
    );
}

#[test]
fn multiline_roundtrip_keeps_middle_lines() {
    let reply = Reply::new_multiline(ReplyCode::SystemStatus, vec!["Supported features:", " MLSD", "END"]);
    let parsed = Reply::from_str(&reply.to_string()).unwrap();
    assert_eq!(reply, parsed);
    assert_eq!(3, parsed.lines().len());
}

#[test]
fn non_ascii_first_line_reads_back() {
    let reply = Reply::new(ReplyCode::FileStatus, "éclair größe");
    assert_eq!(Ok(Reply::new(ReplyCode::FileStatus, "éclair größe")), Reply::from_str(&reply.to_string()));
    let multi = Reply::new_multiline(ReplyCode::SystemStatus, vec!["ünïcode", "mid", "end"]);
    let back = Reply::from_str(&multi.to_string()).unwrap();
    assert_eq!(multi, back);
}

#[test]
fn joined_delimiter_is_an_invalid_delimiter() {
    let reply = Reply::new(ReplyCode::CommandOkay, "\u{301}accent");
    assert_eq!(Err(ReplyParseError::InvalidDelimiter), Reply::from_str(&reply.to_string()));
}
