use cdp_connection::cdtp::event_message;
use cdp_connection::cdtp::is_target_message_event;
use cdp_connection::cdtp::parse_raw_message;
use cdp_connection::cdtp::parse_remote_error;
use cdp_connection::cdtp::parse_target_message;
use cdp_connection::cdtp::remote_error;
use cdp_connection::cdtp::response_message;
use cdp_connection::cdtp::Event;
use cdp_connection::cdtp::EventMessage;
use cdp_connection::cdtp::Message;
use cdp_connection::cdtp::MethodCall;
use cdp_connection::cdtp::RemoteError;
use cdp_connection::cdtp::Response;
use cdp_connection::cdtp::TargetMessageEvent;
use cdp_connection::errors::CodecError;

fn response(id: u64, result: &str) -> Message {
    Message::Response(Response { id, result: Ok(result.to_string()) })
}

fn failure(id: u64, code: i64, message: &str) -> Message {
    Message::Response(Response {
        id,
        result: Err(RemoteError { code, message: message.to_string() }),
    })
}

fn event(name: &str, params: &str) -> Message {
    Message::Event(EventMessage::Other(Event {
        name: name.to_string(),
        params: params.to_string(),
    }))
}

fn target_message(params: &str, message: &str) -> Message {
    Message::Event(EventMessage::ReceivedMessageFromTarget(TargetMessageEvent {
        params: params.to_string(),
        message: message.to_string(),
    }))
}

fn malformed(frame: &str) -> Result<Message, CodecError> {
    Err(CodecError::Malformed(frame.to_string()))
}

fn unexpected(frame: &str) -> Result<Message, CodecError> {
    Err(CodecError::Unexpected(frame.to_string()))
}

#[test]
fn parses_a_response_with_a_result() {
    let frame = "{\"id\":0,\"result\":{\"browserContextId\":\"C1\"}}";
    assert_eq!(parse_raw_message(frame), Ok(response(0, "{\"browserContextId\":\"C1\"}")));
}

#[test]
fn parses_a_response_with_an_error() {
    let frame = "{\"id\":0,\"error\":{\"code\":-32601,\"message\":\"unknown\"}}";
    assert_eq!(parse_raw_message(frame), Ok(failure(0, -32601, "unknown")));
}

#[test]
fn an_error_member_decides_over_a_result() {
    let frame = "{\"id\":3,\"result\":{},\"error\":{\"code\":1,\"message\":\"m\"}}";
    assert_eq!(parse_raw_message(frame), Ok(failure(3, 1, "m")));
}

#[test]
fn keeps_the_result_as_it_was_written() {
    let frame = "{ \"result\" : [1,  2, {\"a\": null}] , \"id\" : 12 }";
    assert_eq!(parse_raw_message(frame), Ok(response(12, "[1,  2, {\"a\": null}]")));
}

#[test]
fn a_frame_with_an_id_is_a_response_whatever_else_it_holds() {
    let frame = "{\"id\":4,\"method\":\"Target.targetCreated\",\"params\":{},\"result\":true}";
    assert_eq!(parse_raw_message(frame), Ok(response(4, "true")));
}

#[test]
fn parses_the_largest_identifier() {
    let frame = "{\"id\":18446744073709551615,\"result\":{}}";
    assert_eq!(parse_raw_message(frame), Ok(response(u64::MAX, "{}")));
}

#[test]
fn the_last_of_two_members_of_one_name_stands() {
    let frame = "{\"id\":1,\"id\":2,\"result\":{}}";
    assert_eq!(parse_raw_message(frame), Ok(response(2, "{}")));
}

#[test]
fn parses_an_event_of_the_browser() {
    let frame = "{\"method\":\"Target.targetCreated\",\"params\":{\"targetInfo\":{}}}";
    assert_eq!(
        parse_raw_message(frame),
        Ok(event("Target.targetCreated", "{\"targetInfo\":{}}"))
    );
}

#[test]
fn reads_the_name_of_an_event_as_a_string() {
    let frame = "{\"method\":\"a\\\"b\\u0041\",\"params\":[]}";
    assert_eq!(parse_raw_message(frame), Ok(event("a\"bA", "[]")));
}

#[test]
fn parses_the_event_that_carries_the_message_of_a_target() {
    let params =
        "{\"sessionId\":\"S\",\"targetId\":\"T\",\"message\":\"{\\\"id\\\":7,\\\"result\\\":{\\\"ok\\\":true}}\"}";
    let frame = format!("{{\"method\":\"Target.receivedMessageFromTarget\",\"params\":{}}}", params);
    assert_eq!(
        parse_raw_message(&frame),
        Ok(target_message(params, "{\"id\":7,\"result\":{\"ok\":true}}"))
    );
}

#[test]
fn text_that_is_no_json_is_malformed() {
    for frame in ["", "hello", "{", "{\"id\":0,\"result\":{}", "{\"id\":0,\"result\":{}} x"] {
        assert_eq!(parse_raw_message(frame), malformed(frame));
    }
}

#[test]
fn json_that_is_no_object_is_malformed() {
    for frame in ["[]", "7", "\"id\"", "null", "true", "[{\"id\":0,\"result\":{}}]"] {
        assert_eq!(parse_raw_message(frame), malformed(frame));
    }
}

#[test]
fn an_identifier_that_is_no_natural_number_is_malformed() {
    for id in ["\"0\"", "-1", "1.5", "1e2", "null", "true", "[]", "{}", "18446744073709551616"] {
        let frame = format!("{{\"id\":{},\"result\":{{}}}}", id);
        assert_eq!(parse_raw_message(&frame), malformed(&frame));
    }
}

#[test]
fn a_response_without_result_and_error_is_malformed() {
    let frame = "{\"id\":5}";
    assert_eq!(parse_raw_message(frame), malformed(frame));
}

#[test]
fn an_error_of_the_wrong_shape_is_malformed() {
    for error in [
        "null",
        "\"unknown\"",
        "[]",
        "{}",
        "{\"code\":1}",
        "{\"message\":\"m\"}",
        "{\"code\":\"1\",\"message\":\"m\"}",
        "{\"code\":1,\"message\":2}",
        "{\"code\":1.5,\"message\":\"m\"}",
        "{\"code\":9223372036854775808,\"message\":\"m\"}",
    ] {
        let frame = format!("{{\"id\":5,\"result\":{{}},\"error\":{}}}", error);
        assert_eq!(parse_raw_message(&frame), malformed(&frame));
    }
}

#[test]
fn an_event_of_the_wrong_shape_is_malformed() {
    for frame in [
        "{\"method\":\"Target.targetCreated\"}",
        "{\"method\":7,\"params\":{}}",
        "{\"method\":null,\"params\":{}}",
        "{\"method\":[\"Target.targetCreated\"],\"params\":{}}",
    ] {
        assert_eq!(parse_raw_message(frame), malformed(frame));
    }
}

#[test]
fn a_target_event_without_a_message_is_malformed() {
    for params in ["{}", "[]", "\"m\"", "{\"message\":7}", "{\"message\":{}}", "{\"Message\":\"{}\"}"] {
        let frame =
            format!("{{\"method\":\"Target.receivedMessageFromTarget\",\"params\":{}}}", params);
        assert_eq!(parse_raw_message(&frame), malformed(&frame));
    }
}

#[test]
fn an_object_that_is_neither_response_nor_event_is_unexpected() {
    for frame in ["{}", "{\"result\":{}}", "{\"params\":{}}", "{\"Id\":0,\"Method\":\"m\"}", " { } "] {
        assert_eq!(parse_raw_message(frame), unexpected(frame));
    }
}

#[test]
fn other_events_need_no_message() {
    let frame = "{\"method\":\"Target.receivedMessageFromTargets\",\"params\":{}}";
    assert_eq!(
        parse_raw_message(frame),
        Ok(event("Target.receivedMessageFromTargets", "{}"))
    );
}

#[test]
fn is_target_message_event_knows_one_name() {
    assert!(is_target_message_event(&"Target.receivedMessageFromTarget".to_string()));
    assert!(!is_target_message_event(&"Target.receivedMessageFromTargets".to_string()));
    assert!(!is_target_message_event(&"target.receivedMessageFromTarget".to_string()));
    assert!(!is_target_message_event(&"Target.targetCreated".to_string()));
    assert!(!is_target_message_event(&"".to_string()));
}

#[test]
fn remote_error_needs_a_code_and_a_message() {
    assert_eq!(
        remote_error(Some(-32601), Some("unknown".to_string())),
        Some(RemoteError { code: -32601, message: "unknown".to_string() })
    );
    assert_eq!(remote_error(None, Some("unknown".to_string())), None);
    assert_eq!(remote_error(Some(1), None), None);
    assert_eq!(remote_error(None, None), None);
}

#[test]
fn remote_error_takes_codes_of_64_bits() {
    assert_eq!(
        remote_error(Some(i64::MIN as i128), Some(String::new())),
        Some(RemoteError { code: i64::MIN, message: String::new() })
    );
    assert_eq!(
        remote_error(Some(i64::MAX as i128), Some(String::new())),
        Some(RemoteError { code: i64::MAX, message: String::new() })
    );
    assert_eq!(remote_error(Some(i64::MAX as i128 + 1), Some(String::new())), None);
    assert_eq!(remote_error(Some(i64::MIN as i128 - 1), Some(String::new())), None);
}

#[test]
fn parse_remote_error_reads_code_and_message() {
    assert_eq!(
        parse_remote_error("{\"message\":\"not \\\"found\\\"\",\"code\":-32000,\"data\":[]}"),
        Some(RemoteError { code: -32000, message: "not \"found\"".to_string() })
    );
    assert_eq!(parse_remote_error("{\"code\":-32000}"), None);
    assert_eq!(parse_remote_error("-32000"), None);
}

#[test]
fn parse_target_message_reads_the_string_member() {
    assert_eq!(
        parse_target_message("{\"message\":\"{\\\"id\\\":7}\",\"sessionId\":\"S\"}"),
        Some("{\"id\":7}".to_string())
    );
    assert_eq!(parse_target_message("{\"sessionId\":\"S\"}"), None);
    assert_eq!(parse_target_message("{\"message\":{\"id\":7}}"), None);
    assert_eq!(parse_target_message("\"{}\""), None);
}

#[test]
fn response_message_builds_a_response() {
    let result = "{}".to_string();
    assert_eq!(response_message("f", Some(7), Some(&result), None), Ok(response(7, "{}")));
    assert_eq!(
        response_message(
            "f",
            Some(7),
            None,
            Some(Some(RemoteError { code: 1, message: "m".to_string() }))
        ),
        Ok(failure(7, 1, "m"))
    );
}

#[test]
fn response_message_refuses_what_is_no_response() {
    let result = "{}".to_string();
    assert_eq!(response_message("f", None, Some(&result), None), malformed("f"));
    assert_eq!(response_message("f", Some(-1), Some(&result), None), malformed("f"));
    assert_eq!(
        response_message("f", Some(u64::MAX as i128 + 1), Some(&result), None),
        malformed("f")
    );
    assert_eq!(response_message("f", Some(7), None, None), malformed("f"));
    assert_eq!(response_message("f", Some(7), Some(&result), Some(None)), malformed("f"));
}

#[test]
fn event_message_builds_an_event() {
    let params = "{}".to_string();
    assert_eq!(
        event_message("f", Some("Page.loadEventFired".to_string()), Some(&params), None),
        Ok(event("Page.loadEventFired", "{}"))
    );
    assert_eq!(
        event_message(
            "f",
            Some("Page.loadEventFired".to_string()),
            Some(&params),
            Some("ignored".to_string())
        ),
        Ok(event("Page.loadEventFired", "{}"))
    );
    assert_eq!(
        event_message(
            "f",
            Some("Target.receivedMessageFromTarget".to_string()),
            Some(&params),
            Some("{\"id\":1}".to_string())
        ),
        Ok(target_message("{}", "{\"id\":1}"))
    );
}

#[test]
fn event_message_refuses_what_is_no_event() {
    let params = "{}".to_string();
    assert_eq!(event_message("f", None, Some(&params), None), malformed("f"));
    assert_eq!(event_message("f", Some("Page.x".to_string()), None, None), malformed("f"));
    assert_eq!(
        event_message(
            "f",
            Some("Target.receivedMessageFromTarget".to_string()),
            Some(&params),
            None
        ),
        malformed("f")
    );
}

#[test]
fn a_call_is_written_as_one_object() {
    let call = MethodCall {
        id: 0,
        method: "Target.createBrowserContext".to_string(),
        params: "{}".to_string(),
    };
    assert_eq!(
        call.to_json(),
        "{\"id\":0,\"method\":\"Target.createBrowserContext\",\"params\":{}}"
    );
}

#[test]
fn a_call_keeps_its_parameters_as_they_are() {
    let call = MethodCall {
        id: 4096,
        method: "Page.navigate".to_string(),
        params: "{ \"url\": \"about:blank\" }".to_string(),
    };
    assert_eq!(
        call.to_json(),
        "{\"id\":4096,\"method\":\"Page.navigate\",\"params\":{ \"url\": \"about:blank\" }}"
    );
}

#[test]
fn the_name_of_a_method_is_written_as_a_json_string() {
    let call = MethodCall { id: 1, method: "a\"b\\c\n".to_string(), params: "null".to_string() };
    assert_eq!(call.to_json(), "{\"id\":1,\"method\":\"a\\\"b\\\\c\\n\",\"params\":null}");
}

#[test]
fn a_call_that_was_written_reads_back_as_json() {
    let call = MethodCall {
        id: u64::MAX,
        method: "Target.\u{e9}\"".to_string(),
        params: "[1,2]".to_string(),
    };
    let value: serde_json::Value = serde_json::from_str(&call.to_json()).unwrap();
    assert_eq!(value["id"].as_u64(), Some(u64::MAX));
    assert_eq!(value["method"].as_str(), Some("Target.\u{e9}\""));
    assert_eq!(value["params"][1].as_u64(), Some(2));
}

#[test]
fn white_space_around_a_frame_is_no_part_of_it() {
    let frame = " \n\t{\"id\":1,\"result\": {\"a\": 1} }\r\n";
    assert_eq!(parse_raw_message(frame), Ok(response(1, "{\"a\": 1}")));
}

#[test]
fn strings_are_read_with_their_escapes() {
    let params = "{\"message\":\"{\\\"method\\\":\\\"P.\\u00e9\\\",\\\"params\\\":\\\"\\\\n\\\"}\"}";
    let frame = format!("{{\"method\":\"Target.receivedMessageFromTarget\",\"params\":{}}}", params);
    assert_eq!(
        parse_raw_message(&frame),
        Ok(target_message(params, "{\"method\":\"P.\u{e9}\",\"params\":\"\\n\"}"))
    );
    assert_eq!(
        parse_raw_message("{\"method\":\"P.\u{e9}\",\"params\":\"\\n\"}"),
        Ok(event("P.\u{e9}", "\"\\n\""))
    );
}
