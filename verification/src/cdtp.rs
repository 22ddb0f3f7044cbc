//! The envelopes of the DevTools protocol and their wire form.
//!
//! Three shapes come in: a response, which carries the `id` of a call; the
//! event `Target.receivedMessageFromTarget`, whose `message` is itself the
//! text of an envelope; and every other event. One shape goes out: a method
//! call. Payloads (`params`, `result`) are kept as the JSON text they had on
//! the wire.

use crate::errors::CodecError;
use crate::errors::CodecErrorView;
use crate::json::decimal;
use crate::json::find_member;
use crate::json::integer_value;
use crate::json::json_integer;
use crate::json::json_object;
use crate::json::json_string;
use crate::json::json_string_literal;
use crate::json::member;
use crate::json::object_members;
use crate::json::push_decimal;
use crate::json::string_literal;
use crate::json::string_value;
use vstd::prelude::*;
use vstd::string::*;

verus! {

/// Tells a call and its response apart from all others on one connection.
pub type CallId = u64;

/// The error that a browser puts in a response in place of a result.
#[derive(Debug, PartialEq, Eq)]
pub struct RemoteError {
    pub code: i64,
    pub message: String,
}

/// What a [`RemoteError`] stands for.
pub struct RemoteErrorView {
    pub code: i64,
    pub message: Seq<char>,
}

impl View for RemoteError {
    type V = RemoteErrorView;

    open spec fn view(&self) -> RemoteErrorView {
        RemoteErrorView { code: self.code, message: self.message@ }
    }
}

/// The answer to one call: the JSON text of its result, or the browser's
/// error.
#[derive(Debug, PartialEq, Eq)]
pub struct Response {
    pub id: CallId,
    pub result: Result<String, RemoteError>,
}

/// What a [`Response`] stands for.
pub struct ResponseView {
    pub id: CallId,
    pub result: Result<Seq<char>, RemoteErrorView>,
}

impl View for Response {
    type V = ResponseView;

    open spec fn view(&self) -> ResponseView {
        ResponseView {
            id: self.id,
            result: match self.result {
                Ok(text) => Ok(text@),
                Err(error) => Err(error@),
            },
        }
    }
}

/// An event that a target sent through the browser: `message` is the text
/// of the envelope that the target wrote, `params` the JSON text around it.
#[derive(Debug, PartialEq, Eq)]
pub struct TargetMessageEvent {
    pub params: String,
    pub message: String,
}

/// An event of the browser itself.
#[derive(Debug, PartialEq, Eq)]
pub struct Event {
    pub name: String,
    pub params: String,
}

/// A notification that nobody called for.
#[derive(Debug, PartialEq, Eq)]
pub enum EventMessage {
    ReceivedMessageFromTarget(TargetMessageEvent),
    Other(Event),
}

/// What an [`EventMessage`] stands for.
pub enum EventMessageView {
    ReceivedMessageFromTarget { params: Seq<char>, message: Seq<char> },
    Other { name: Seq<char>, params: Seq<char> },
}

impl View for EventMessage {
    type V = EventMessageView;

    open spec fn view(&self) -> EventMessageView {
        match self {
            EventMessage::ReceivedMessageFromTarget(event) => {
                EventMessageView::ReceivedMessageFromTarget {
                    params: event.params@,
                    message: event.message@,
                }
            },
            EventMessage::Other(event) => EventMessageView::Other {
                name: event.name@,
                params: event.params@,
            },
        }
    }
}

/// One inbound envelope.
#[derive(Debug, PartialEq, Eq)]
pub enum Message {
    Response(Response),
    Event(EventMessage),
}

/// What a [`Message`] stands for.
pub enum MessageView {
    Response(ResponseView),
    Event(EventMessageView),
}

impl View for Message {
    type V = MessageView;

    open spec fn view(&self) -> MessageView {
        match self {
            Message::Response(response) => MessageView::Response(response@),
            Message::Event(event) => MessageView::Event(event@),
        }
    }
}

/// The name of the event that carries a target's message.
pub open spec fn target_message_event() -> Seq<char> {
    "Target.receivedMessageFromTarget"@
}

/// The identifier that an integer names: the integer itself where it is
/// one, none otherwise.
pub open spec fn call_id_of(value: Option<i128>) -> Option<CallId> {
    match value {
        Some(v) => if 0 <= v <= CallId::MAX {
            Some(v as CallId)
        } else {
            None
        },
        None => None,
    }
}

/// The error code that an integer names.
pub open spec fn error_code_of(value: Option<i128>) -> Option<i64> {
    match value {
        Some(v) => if i64::MIN <= v <= i64::MAX {
            Some(v as i64)
        } else {
            None
        },
        None => None,
    }
}

/// The error that the members `code` and `message` of an object make.
pub open spec fn remote_error_of(code: Option<i128>, message: Option<Seq<char>>) -> Option<
    RemoteErrorView,
> {
    match (error_code_of(code), message) {
        (Some(code), Some(message)) => Some(RemoteErrorView { code, message }),
        _ => None,
    }
}

/// The error that the JSON text of an `error` member holds: an object with
/// an integer `code` and a string `message`.
pub open spec fn remote_error_in(text: Seq<char>) -> Option<RemoteErrorView> {
    match json_object(text) {
        Some(members) => remote_error_of(
            match member(members, "code"@) {
                Some(code) => json_integer(code),
                None => None,
            },
            match member(members, "message"@) {
                Some(message) => json_string(message),
                None => None,
            },
        ),
        None => None,
    }
}

/// The target's message that the JSON text of a `params` member holds: the
/// string member `message` of an object.
pub open spec fn target_message_in(params: Seq<char>) -> Option<Seq<char>> {
    match json_object(params) {
        Some(members) => match member(members, "message"@) {
            Some(message) => json_string(message),
            None => None,
        },
        None => None,
    }
}

/// The response that a frame with an `id` member is. `id` is what the
/// member holds as an integer, `result` the text of the member `result`,
/// `error` what the member `error` holds, each `None` where the member is
/// missing. An `error` member decides; without one there must be a
/// `result`.
pub open spec fn response_envelope(
    frame: Seq<char>,
    id: Option<i128>,
    result: Option<Seq<char>>,
    error: Option<Option<RemoteErrorView>>,
) -> Result<MessageView, CodecErrorView> {
    match (call_id_of(id), error, result) {
        (Some(id), Some(Some(error)), _) => Ok(
            MessageView::Response(ResponseView { id, result: Err(error) }),
        ),
        (Some(id), None, Some(result)) => Ok(
            MessageView::Response(ResponseView { id, result: Ok(result) }),
        ),
        _ => Err(CodecErrorView::Malformed(frame)),
    }
}

/// The event that a frame with a `method` member and no `id` is. `name` is
/// what the member holds as a string, `params` the text of the member
/// `params`, `message` the target's message in it.
pub open spec fn event_envelope(
    frame: Seq<char>,
    name: Option<Seq<char>>,
    params: Option<Seq<char>>,
    message: Option<Seq<char>>,
) -> Result<MessageView, CodecErrorView> {
    match (name, params) {
        (Some(name), Some(params)) => if name == target_message_event() {
            match message {
                Some(message) => Ok(
                    MessageView::Event(
                        EventMessageView::ReceivedMessageFromTarget { params, message },
                    ),
                ),
                None => Err(CodecErrorView::Malformed(frame)),
            }
        } else {
            Ok(MessageView::Event(EventMessageView::Other { name, params }))
        },
        _ => Err(CodecErrorView::Malformed(frame)),
    }
}

/// The envelope that the members of a frame make: a response where there is
/// an `id`, else an event where there is a `method`, else neither.
pub open spec fn envelope(frame: Seq<char>, members: Seq<(Seq<char>, Seq<char>)>) -> Result<
    MessageView,
    CodecErrorView,
> {
    match member(members, "id"@) {
        Some(id) => response_envelope(
            frame,
            json_integer(id),
            member(members, "result"@),
            match member(members, "error"@) {
                Some(error) => Some(remote_error_in(error)),
                None => None,
            },
        ),
        None => match member(members, "method"@) {
            Some(name) => event_envelope(
                frame,
                json_string(name),
                member(members, "params"@),
                match member(members, "params"@) {
                    Some(params) => target_message_in(params),
                    None => None,
                },
            ),
            None => Err(CodecErrorView::Unexpected(frame)),
        },
    }
}

/// The envelope that a text frame holds.
pub open spec fn parse(frame: Seq<char>) -> Result<MessageView, CodecErrorView> {
    match json_object(frame) {
        Some(members) => envelope(frame, members),
        None => Err(CodecErrorView::Malformed(frame)),
    }
}

/// What the outcome of reading a frame stands for.
pub open spec fn parsed_view(parsed: Result<Message, CodecError>) -> Result<
    MessageView,
    CodecErrorView,
> {
    match parsed {
        Ok(message) => Ok(message@),
        Err(error) => Err(error@),
    }
}

/// The text that an optional string holds.
pub open spec fn text_of(text: Option<String>) -> Option<Seq<char>> {
    match text {
        Some(t) => Some(t@),
        None => None,
    }
}

/// The text that an optional borrowed string holds.
pub open spec fn borrowed_text_of(text: Option<&String>) -> Option<Seq<char>> {
    match text {
        Some(t) => Some(t@),
        None => None,
    }
}

/// What an optional error stands for.
pub open spec fn error_of(error: Option<RemoteError>) -> Option<RemoteErrorView> {
    match error {
        Some(e) => Some(e@),
        None => None,
    }
}

/// What the member `error` of a response stands for: `None` where there is
/// no such member, `Some(None)` where it holds no error.
pub open spec fn error_member_of(error: Option<Option<RemoteError>>) -> Option<
    Option<RemoteErrorView>,
> {
    match error {
        Some(e) => Some(error_of(e)),
        None => None,
    }
}

/// Builds the error of a response from what its members `code` and
/// `message` hold.
pub fn remote_error(code: Option<i128>, message: Option<String>) -> (error: Option<RemoteError>)
    ensures
        error_of(error) == remote_error_of(code, text_of(message)),
{
    match (code, message) {
        (Some(code), Some(message)) => {
            if -0x8000_0000_0000_0000 <= code && code <= 0x7fff_ffff_ffff_ffff {
                Some(RemoteError { code: code as i64, message })
            } else {
                None
            }
        },
        _ => None,
    }
}

/// Builds the response that a frame with an `id` member is, from what its
/// members hold.
pub fn response_message(
    frame: &str,
    id: Option<i128>,
    result: Option<&String>,
    error: Option<Option<RemoteError>>,
) -> (parsed: Result<Message, CodecError>)
    ensures
        parsed_view(parsed) == response_envelope(
            frame@,
            id,
            borrowed_text_of(result),
            error_member_of(error),
        ),
{
    let id = match id {
        Some(v) => {
            if 0 <= v && v <= 0xffff_ffff_ffff_ffff {
                v as CallId
            } else {
                return Err(CodecError::Malformed(frame.to_owned()));
            }
        },
        None => {
            return Err(CodecError::Malformed(frame.to_owned()));
        },
    };
    match error {
        Some(Some(error)) => Ok(Message::Response(Response { id, result: Err(error) })),
        Some(None) => Err(CodecError::Malformed(frame.to_owned())),
        None => match result {
            Some(result) => Ok(Message::Response(Response { id, result: Ok(result.clone()) })),
            None => Err(CodecError::Malformed(frame.to_owned())),
        },
    }
}

/// Whether `name` is the name of the event that carries a target's message.
pub fn is_target_message_event(name: &String) -> (yes: bool)
    ensures
        yes == (name@ == target_message_event()),
{
    let wanted = "Target.receivedMessageFromTarget".to_owned();
    *name == wanted
}

/// Builds the event that a frame with a `method` member and no `id` is,
/// from what its members hold. `message` is read only for the event that
/// carries a target's message.
pub fn event_message(
    frame: &str,
    name: Option<String>,
    params: Option<&String>,
    message: Option<String>,
) -> (parsed: Result<Message, CodecError>)
    ensures
        parsed_view(parsed) == event_envelope(
            frame@,
            text_of(name),
            borrowed_text_of(params),
            text_of(message),
        ),
{
    match (name, params) {
        (Some(name), Some(params)) => {
            if is_target_message_event(&name) {
                match message {
                    Some(message) => Ok(
                        Message::Event(
                            EventMessage::ReceivedMessageFromTarget(
                                TargetMessageEvent { params: params.clone(), message },
                            ),
                        ),
                    ),
                    None => Err(CodecError::Malformed(frame.to_owned())),
                }
            } else {
                Ok(Message::Event(EventMessage::Other(Event { name, params: params.clone() })))
            }
        },
        _ => Err(CodecError::Malformed(frame.to_owned())),
    }
}

/// Reads the error that the JSON text of an `error` member holds.
pub fn parse_remote_error(text: &str) -> (error: Option<RemoteError>)
    ensures
        error_of(error) == remote_error_in(text@),
{
    match object_members(text) {
        Some(members) => {
            let code = match find_member(&members, "code") {
                Some(code) => integer_value(code.as_str()),
                None => None,
            };
            let message = match find_member(&members, "message") {
                Some(message) => string_value(message.as_str()),
                None => None,
            };
            remote_error(code, message)
        },
        None => None,
    }
}

/// Reads the target's message that the JSON text of a `params` member
/// holds.
pub fn parse_target_message(params: &str) -> (message: Option<String>)
    ensures
        text_of(message) == target_message_in(params@),
{
    match object_members(params) {
        Some(members) => match find_member(&members, "message") {
            Some(message) => string_value(message.as_str()),
            None => None,
        },
        None => None,
    }
}

/// Reads one text frame as an envelope.
///
/// A frame with an `id` member is a response, whatever else it holds. A
/// frame without one and with a `method` member is an event. The result is
/// [`parse`] of the frame: an error exactly where that is one.
pub fn parse_raw_message(frame: &str) -> (parsed: Result<Message, CodecError>)
    ensures
        parsed_view(parsed) == parse(frame@),
{
    let members = match object_members(frame) {
        Some(members) => members,
        None => {
            return Err(CodecError::Malformed(frame.to_owned()));
        },
    };
    match find_member(&members, "id") {
        Some(id) => {
            let error = match find_member(&members, "error") {
                Some(error) => Some(parse_remote_error(error.as_str())),
                None => None,
            };
            response_message(
                frame,
                integer_value(id.as_str()),
                find_member(&members, "result"),
                error,
            )
        },
        None => match find_member(&members, "method") {
            Some(name) => {
                let name = string_value(name.as_str());
                let params = find_member(&members, "params");
                let message = match (&name, params) {
                    (Some(name), Some(params)) => {
                        if is_target_message_event(name) {
                            parse_target_message(params.as_str())
                        } else {
                            None
                        }
                    },
                    _ => None,
                };
                event_message(frame, name, params, message)
            },
            None => Err(CodecError::Unexpected(frame.to_owned())),
        },
    }
}

/// A method call as it goes out: the identifier that its response will
/// carry, the method's name, and the JSON text of its parameters.
#[derive(Debug, PartialEq, Eq)]
pub struct MethodCall {
    pub id: CallId,
    pub method: String,
    pub params: String,
}

/// The wire form of a call: a JSON object with the members `id`, `method`
/// and `params`, in that order and without spaces.
pub open spec fn call_text(id: CallId, method: Seq<char>, params: Seq<char>) -> Seq<char> {
    "{\"id\":"@ + decimal(id as nat) + ",\"method\":"@ + json_string_literal(method)
        + ",\"params\":"@ + params + "}"@
}

impl MethodCall {
    /// Writes the call as the text frame to send.
    pub fn to_json(&self) -> (frame: String)
        ensures
            frame@ == call_text(self.id, self.method@, self.params@),
    {
        let mut frame = "{\"id\":".to_owned();
        push_decimal(&mut frame, self.id);
        frame.append(",\"method\":");
        let method = string_literal(self.method.as_str());
        frame.append(method.as_str());
        frame.append(",\"params\":");
        frame.append(self.params.as_str());
        frame.append("}");
        frame
    }
}

/// A method of the protocol with the shape of what it returns: how it is
/// named, how its parameters are written, and how its result is read.
pub trait Method {
    /// What the method returns.
    type ReturnObject;

    /// The method's name on the wire, such as `Target.createBrowserContext`.
    fn name(&self) -> String;

    /// The JSON text of the parameters of this call.
    fn params(&self) -> String;

    /// Reads the JSON text of a result; `None` where it is not of the
    /// method's shape.
    fn parse_result(result: &str) -> Option<Self::ReturnObject>;
}

} // verus!
