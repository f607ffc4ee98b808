//! Requests to Herdr and the answers to them.

use vstd::prelude::*;

use crate::direction::{ctrl_key, ctrl_key_of};
use crate::json::{Json, JsonNumber, JsonView};
use crate::panes::opt_text;
use crate::text::{blank, concat3, decimal, decimal_text, is_blank, normalize, normalized};
use crate::wire::{
    params_object, parse_json, parsed, request_document, request_text, serialized, Param,
};

verus! {

/// A request: a method and its parameters.
#[derive(Debug)]
pub struct Request {
    pub method: String,
    pub params: Vec<(String, Param)>,
}

/// What a request asks.
#[verifier::ext_equal]
pub struct RequestView {
    pub method: Seq<char>,
    pub params: Map<Seq<char>, JsonView>,
}

impl View for Request {
    type V = RequestView;

    open spec fn view(&self) -> RequestView {
        RequestView { method: self.method@, params: params_object(self.params@) }
    }
}

/// The id of a request that is made at a time in nanoseconds.
pub open spec fn request_id(now: u128) -> Seq<char> {
    "herdr.nvim:"@ + decimal(now as nat)
}

/// The line that carries a request, or why there is none.
pub open spec fn line_of(request: RequestView, now: u128) -> Result<Seq<u8>, Seq<char>> {
    match serialized(request_document(request_id(now), request.method, request.params)) {
        Ok(text) => Ok(text.push(10u8)),
        Err(message) => Err(message),
    }
}

/// The line that carries a request made at a time in nanoseconds. It is one
/// line: it ends with a line feed and has no other.
pub fn request_line(request: &Request, now: u128) -> (r: Result<Vec<u8>, String>)
    ensures
        r matches Ok(line) ==> line@.len() > 0 && line@.last() == 10u8
            && !line@.drop_last().contains(10u8),
        match r {
            Ok(line) => line_of(request@, now) == Ok::<Seq<u8>, Seq<char>>(line@),
            Err(message) => line_of(request@, now) == Err::<Seq<u8>, Seq<char>>(message@),
        },
{
    let mut id: String = "herdr.nvim:".to_owned();
    let time = decimal_text(now);
    id.append(time.as_str());
    match request_text(id, request.method.as_str(), &request.params) {
        Ok(text) => {
            let mut line = text;
            line.push(10);
            proof {
                assert(line@.drop_last() =~= text@);
            }
            Ok(line)
        },
        Err(message) => Err(message),
    }
}

/// The document in a line that Herdr answered, or what is wrong with it. A
/// blank line stands for an empty object.
pub open spec fn response_document(line: Seq<char>) -> Result<JsonView, Seq<char>> {
    if is_blank(line) {
        Ok(JsonView::Object(Map::empty()))
    } else {
        match parsed(line) {
            Ok(json) => Ok(json),
            Err(message) => Err("invalid Herdr response: "@ + message),
        }
    }
}

/// The document in a line that Herdr answered.
pub fn read_response(line: &str) -> (r: Result<Json, String>)
    ensures
        match r {
            Ok(json) => response_document(line@) == Ok::<JsonView, Seq<char>>(json@),
            Err(message) => response_document(line@) == Err::<JsonView, Seq<char>>(message@),
        },
{
    if blank(line) {
        return Ok(empty_object());
    }
    match parse_json(line) {
        Ok(json) => Ok(json),
        Err(error) => {
            let mut message: String = "invalid Herdr response: ".to_owned();
            message.append(error.as_str());
            Err(message)
        },
    }
}

fn empty_object() -> (r: Json)
    ensures
        r@ == JsonView::Object(Map::empty()),
{
    let r = Json::Object(Vec::new());
    proof {
        assert(r@->Object_0 =~= Map::<Seq<char>, JsonView>::empty());
    }
    r
}

/// The result in a response, or the message of the error that it reports. A
/// response without a result stands for an empty object.
pub open spec fn response_result(response: JsonView) -> Result<JsonView, Seq<char>> {
    match response.get("error"@) {
        Some(error) => match error.text_at("message"@) {
            Some(message) => Err(message),
            None => Err("Herdr request failed"@),
        },
        None => match response.get("result"@) {
            Some(result) => Ok(result),
            None => Ok(JsonView::Object(Map::empty())),
        },
    }
}

/// The result in a response.
pub fn read_result(response: &Json) -> (r: Result<Json, String>)
    ensures
        match r {
            Ok(json) => response_result(response@) == Ok::<JsonView, Seq<char>>(json@),
            Err(message) => response_result(response@) == Err::<JsonView, Seq<char>>(message@),
        },
{
    if let Some(error) = response.get("error") {
        return match error.text_at("message") {
            Some(message) => Err(message.clone()),
            None => Err("Herdr request failed".to_owned()),
        };
    }
    match response.get("result") {
        Some(result) => Ok(result.duplicate()),
        None => Ok(empty_object()),
    }
}

/// What a request came to: the line that was answered, or why none was.
pub open spec fn reply_view(reply: Result<String, String>) -> Result<Seq<char>, Seq<char>> {
    match reply {
        Ok(line) => Ok(line@),
        Err(message) => Err(message@),
    }
}

/// The result of a request, or the message of what went wrong: with the
/// exchange, with the response, or with the request.
pub open spec fn result_of(reply: Result<Seq<char>, Seq<char>>) -> Result<JsonView, Seq<char>> {
    match reply {
        Ok(line) => match response_document(line) {
            Ok(response) => response_result(response),
            Err(message) => Err(message),
        },
        Err(message) => Err(message),
    }
}

/// The result of a request.
pub fn result(reply: Result<String, String>) -> (r: Result<Json, String>)
    ensures
        match r {
            Ok(json) => result_of(reply_view(reply)) == Ok::<JsonView, Seq<char>>(json@),
            Err(message) => result_of(reply_view(reply)) == Err::<JsonView, Seq<char>>(message@),
        },
{
    match reply {
        Ok(line) => match read_response(line.as_str()) {
            Ok(response) => read_result(&response),
            Err(message) => Err(message),
        },
        Err(message) => Err(message),
    }
}

fn text_param(params: &mut Vec<(String, Param)>, name: &str, value: &str)
    ensures
        params_object(final(params)@) == params_object(old(params)@).insert(
            name@,
            JsonView::Text(value@),
        ),
{
    put_param(params, name, Param::Text(value.to_owned()));
}

fn put_param(params: &mut Vec<(String, Param)>, name: &str, value: Param)
    ensures
        params_object(final(params)@) == params_object(old(params)@).insert(name@, value@),
{
    params.push((name.to_owned(), value));
    proof {
        assert(params@.drop_last() =~= old(params)@);
    }
}

/// The request for the list of panes.
pub open spec fn list_request() -> RequestView {
    RequestView { method: "pane.list"@, params: Map::empty() }
}

/// The request for the list of panes.
pub fn pane_list_request() -> (r: Request)
    ensures
        r@ == list_request(),
{
    Request { method: "pane.list".to_owned(), params: Vec::new() }
}

/// The request to move the focus from a pane in a direction.
pub open spec fn direction_request(pane_id: Seq<char>, direction: Seq<char>) -> RequestView {
    RequestView {
        method: "pane.focus_direction"@,
        params: Map::<Seq<char>, JsonView>::empty().insert(
            "pane_id"@,
            JsonView::Text(pane_id),
        ).insert("direction"@, JsonView::Text(direction)),
    }
}

/// The request to move the focus from a pane in a direction.
pub fn focus_pane_direction(pane_id: &str, direction: &str) -> (r: Request)
    ensures
        r@ == direction_request(pane_id@, direction@),
{
    let mut params: Vec<(String, Param)> = Vec::new();
    text_param(&mut params, "pane_id", pane_id);
    text_param(&mut params, "direction", direction);
    Request { method: "pane.focus_direction".to_owned(), params }
}

/// Who reports the agents that carry the focus to a pane.
pub open spec fn focus_source() -> Seq<char> {
    "herdr.nvim:navigator"@
}

/// The name of the agent that carries the focus to a pane.
pub open spec fn focus_label(pane_id: Seq<char>, seq: u128) -> Seq<char> {
    "herdr.nvim.focus."@ + normalized(pane_id) + "."@ + decimal(seq as nat)
}

/// The request that reports an idle agent in a pane.
pub open spec fn report_request(pane_id: Seq<char>, label: Seq<char>, seq: u64) -> RequestView {
    RequestView {
        method: "pane.report_agent"@,
        params: Map::<Seq<char>, JsonView>::empty().insert(
            "pane_id"@,
            JsonView::Text(pane_id),
        ).insert("source"@, JsonView::Text(focus_source())).insert(
            "agent"@,
            JsonView::Text(label),
        ).insert("state"@, JsonView::Text("idle"@)).insert("seq"@, count(seq)),
    }
}

/// A count in a document.
pub open spec fn count(n: u64) -> JsonView {
    JsonView::Number(JsonNumber::PosInt(n))
}

/// The request that moves the focus to an agent.
pub open spec fn agent_request(label: Seq<char>) -> RequestView {
    RequestView {
        method: "agent.focus"@,
        params: Map::<Seq<char>, JsonView>::empty().insert("target"@, JsonView::Text(label)),
    }
}

/// The request that takes an agent in a pane back.
pub open spec fn release_request(pane_id: Seq<char>, label: Seq<char>, seq: u64) -> RequestView {
    RequestView {
        method: "pane.release_agent"@,
        params: Map::<Seq<char>, JsonView>::empty().insert(
            "pane_id"@,
            JsonView::Text(pane_id),
        ).insert("source"@, JsonView::Text(focus_source())).insert(
            "agent"@,
            JsonView::Text(label),
        ).insert("seq"@, count(seq)),
    }
}

/// The name of the agent that carries the focus to a pane.
pub fn focus_agent(pane_id: &str, seq: u64) -> (r: String)
    ensures
        r@ == focus_label(pane_id@, seq as u128),
{
    let name = normalize(pane_id);
    let mut out = concat3("herdr.nvim.focus.", name.as_str(), ".");
    let number = decimal_text(seq as u128);
    out.append(number.as_str());
    out
}

/// The request that reports an idle agent in a pane.
pub fn report_agent(pane_id: &str, label: &str, seq: u64) -> (r: Request)
    ensures
        r@ == report_request(pane_id@, label@, seq),
{
    let mut params: Vec<(String, Param)> = Vec::new();
    text_param(&mut params, "pane_id", pane_id);
    text_param(&mut params, "source", "herdr.nvim:navigator");
    text_param(&mut params, "agent", label);
    text_param(&mut params, "state", "idle");
    put_param(&mut params, "seq", Param::Count(seq));
    Request { method: "pane.report_agent".to_owned(), params }
}

/// The request that moves the focus to an agent.
pub fn focus_on_agent(label: &str) -> (r: Request)
    ensures
        r@ == agent_request(label@),
{
    let mut params: Vec<(String, Param)> = Vec::new();
    text_param(&mut params, "target", label);
    Request { method: "agent.focus".to_owned(), params }
}

/// The request that takes an agent in a pane back.
pub fn release_agent(pane_id: &str, label: &str, seq: u64) -> (r: Request)
    ensures
        r@ == release_request(pane_id@, label@, seq),
{
    let mut params: Vec<(String, Param)> = Vec::new();
    text_param(&mut params, "pane_id", pane_id);
    text_param(&mut params, "source", "herdr.nvim:navigator");
    text_param(&mut params, "agent", label);
    put_param(&mut params, "seq", Param::Count(seq));
    Request { method: "pane.release_agent".to_owned(), params }
}

/// The request that sends a control key to a pane. It goes through Herdr's raw
/// `pane.send_text`: a bracketed paste would make Neovim insert text.
pub open spec fn key_request(pane_id: Seq<char>, key: Seq<char>) -> RequestView {
    RequestView {
        method: "pane.send_text"@,
        params: Map::<Seq<char>, JsonView>::empty().insert(
            "pane_id"@,
            JsonView::Text(pane_id),
        ).insert("keys"@, JsonView::Array(seq![JsonView::Text(key)])),
    }
}

/// The request that sends the control key of a direction to a pane.
pub fn send_ctrl_to_pane(pane_id: &str, direction: &str) -> (r: Result<Request, String>)
    ensures
        match r {
            Ok(request) => ctrl_key_of(direction@) matches Some(key) && request@ == key_request(
                pane_id@,
                key,
            ),
            Err(message) => ctrl_key_of(direction@) is None && message@ == "unsupported direction "@
                + direction@,
        },
{
    let key = match ctrl_key(direction) {
        Some(key) => key,
        None => {
            let mut message: String = "unsupported direction ".to_owned();
            message.append(direction);
            return Err(message);
        },
    };
    let mut params: Vec<(String, Param)> = Vec::new();
    text_param(&mut params, "pane_id", pane_id);
    let mut keys: Vec<String> = Vec::new();
    keys.push(key.to_owned());
    let list = Param::Texts(keys);
    proof {
        assert(list@->Array_0 =~= seq![JsonView::Text(key@)]);
    }
    put_param(&mut params, "keys", list);
    Ok(Request { method: "pane.send_text".to_owned(), params })
}

/// The request to split a pane in a direction and focus the new one, in the
/// given working directory where there is one.
pub open spec fn split_request(
    target: Seq<char>,
    direction: Seq<char>,
    cwd: Option<Seq<char>>,
) -> RequestView {
    RequestView {
        method: "pane.split"@,
        params: Map::<Seq<char>, JsonView>::empty().insert(
            "target_pane_id"@,
            JsonView::Text(target),
        ).insert("direction"@, JsonView::Text(direction)).insert(
            "cwd"@,
            match cwd {
                Some(path) => JsonView::Text(path),
                None => JsonView::Null,
            },
        ).insert("focus"@, JsonView::Bool(true)),
    }
}

/// The request to split a pane in a direction and focus the new one.
pub fn split_pane_request(target: &str, direction: &str, cwd: Option<String>) -> (r: Request)
    ensures
        r@ == split_request(target@, direction@, opt_text(cwd)),
{
    let mut params: Vec<(String, Param)> = Vec::new();
    text_param(&mut params, "target_pane_id", target);
    text_param(&mut params, "direction", direction);
    match cwd {
        Some(path) => put_param(&mut params, "cwd", Param::Text(path)),
        None => put_param(&mut params, "cwd", Param::Null),
    }
    put_param(&mut params, "focus", Param::Flag(true));
    Request { method: "pane.split".to_owned(), params }
}

/// The public id of the new pane in the result of a split.
pub open spec fn new_pane(split_result: JsonView) -> Option<Seq<char>> {
    match split_result.get("pane"@) {
        Some(pane) => pane.text_at("pane_id"@),
        None => None,
    }
}

/// The public id of the new pane in the result of a split.
pub fn new_pane_id(split_result: &Json) -> (r: Option<String>)
    ensures
        opt_text(r) == new_pane(split_result@),
{
    match split_result.get("pane") {
        Some(pane) => match pane.text_at("pane_id") {
            Some(id) => Some(id.clone()),
            None => None,
        },
        None => None,
    }
}

} // verus!
