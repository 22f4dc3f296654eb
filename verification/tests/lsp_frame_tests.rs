use sazid::json::{JsonNumber, JsonValue};
use sazid::lsp_frame::{
    check_response, check_work_done_token, frame_message, read_header_line, FrameError, HeaderStep,
    ResponseCheck, TokenCheck,
};
use sazid::session::parse_usize;
use sazid::text::trim_chars;

#[test]
fn messages_are_framed_with_their_byte_length() {
    assert_eq!(frame_message("  {\"a\":1} \n"), "Content-Length: 7\r\n\r\n{\"a\":1}");
    assert_eq!(frame_message("{\"é\":1}"), "Content-Length: 8\r\n\r\n{\"é\":1}");
    assert_eq!(frame_message(""), "Content-Length: 0\r\n\r\n");
}

#[test]
fn header_lines() {
    assert_eq!(read_header_line(None, "Content-Length: 12\r\n").unwrap(), HeaderStep::Continue(Some(12)));
    assert_eq!(read_header_line(None, "content-LENGTH: 5\r\n").unwrap(), HeaderStep::Continue(Some(5)));
    assert_eq!(
        read_header_line(Some(3), "Content-Type: application/vscode-jsonrpc\r\n").unwrap(),
        HeaderStep::Continue(Some(3))
    );
    assert_eq!(read_header_line(Some(3), "\r\n").unwrap(), HeaderStep::Body(3));
}

#[test]
fn header_errors() {
    assert!(matches!(read_header_line(None, "\r\n"), Err(FrameError::NoContentLength)));
    assert!(matches!(read_header_line(None, ""), Err(FrameError::UnexpectedEof)));
    assert!(matches!(read_header_line(None, "abc"), Err(FrameError::MalformedHeader(m)) if m == "abc"));
    assert!(matches!(read_header_line(None, "abc\n"), Err(FrameError::MalformedHeader(m)) if m == "abc\n"));
    assert!(matches!(read_header_line(None, "abc\r\n"), Err(FrameError::MalformedHeader(m)) if m == "abc"));
    assert!(matches!(read_header_line(None, "Content-Length:5\r\n"), Err(FrameError::MalformedHeader(_))));
    assert!(matches!(
        read_header_line(None, "Content-Length: x\r\n"),
        Err(FrameError::InvalidContentLength(v)) if v == "x"
    ));
}

#[test]
fn a_framed_message_reads_back() {
    let framed = frame_message("{\"id\":1}");
    let mut lines = framed.split_inclusive("\r\n");
    let first = read_header_line(None, lines.next().unwrap()).unwrap();
    let HeaderStep::Continue(size) = first else { panic!("unexpected {:?}", first) };
    assert_eq!(read_header_line(size, lines.next().unwrap()).unwrap(), HeaderStep::Body(8));
}

#[test]
fn usize_parsing_matches_std() {
    for text in ["0", "+12", "18446744073709551615", "18446744073709551616", "", "-", "1 "] {
        let chars: Vec<char> = text.chars().collect();
        assert_eq!(parse_usize(&chars), text.parse::<usize>().ok(), "text {:?}", text);
    }
}

#[test]
fn trimming_as_str_trim() {
    for text in ["  a b \t", "\u{3000}x\u{85}", "", "   ", "no"] {
        let chars: Vec<char> = text.chars().collect();
        let trimmed: String = trim_chars(&chars).into_iter().collect();
        assert_eq!(trimmed, text.trim());
    }
}

#[test]
fn responses_are_checked() {
    assert_eq!(check_response(4, Some(4), false, true), ResponseCheck::Result);
    assert_eq!(check_response(4, Some(4), true, true), ResponseCheck::Error);
    assert_eq!(check_response(4, Some(4), false, false), ResponseCheck::MissingResult);
    assert_eq!(check_response(4, Some(5), false, true), ResponseCheck::MismatchedId(5));
    assert_eq!(check_response(4, None, false, true), ResponseCheck::MissingId);
}

fn reply_with_token(token: Option<JsonValue>) -> JsonValue {
    let mut params = vec![("query".to_string(), JsonValue::String("x".to_string()))];
    if let Some(t) = token {
        params.push(("workDoneToken".to_string(), t));
    }
    JsonValue::Array(vec![JsonValue::Object(vec![("params".to_string(), JsonValue::Object(params))])])
}

fn number(n: i64) -> JsonValue {
    JsonValue::Number(JsonNumber { as_i64: Some(n), text: n.to_string() })
}

#[test]
fn progress_tokens() {
    assert_eq!(check_work_done_token(&reply_with_token(Some(number(7))), 7), TokenCheck::Matches);
    assert_eq!(check_work_done_token(&reply_with_token(Some(number(8))), 7), TokenCheck::Mismatch);
    assert_eq!(check_work_done_token(&reply_with_token(Some(JsonValue::String("7".to_string()))), 7), TokenCheck::Mismatch);
    assert_eq!(check_work_done_token(&reply_with_token(None), 7), TokenCheck::Absent);
    assert_eq!(check_work_done_token(&JsonValue::Array(vec![]), 7), TokenCheck::Absent);
    assert_eq!(check_work_done_token(&JsonValue::Null, 7), TokenCheck::Absent);
}
