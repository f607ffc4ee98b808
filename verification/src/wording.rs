//! What the helper is told and what it says: its arguments, its environment, its
//! requests to Herdr, Herdr's replies, and what it prints. The laws are stated
//! over the members of documents and the texts themselves.

use vstd::prelude::*;

use crate::direction::{ctrl_key_of, direction_named, Direction};
use crate::json::{JsonNumber, JsonView};
use crate::navigator::command_of;
use crate::panes::{given_pane, unless_empty};
use crate::paths::Environment;
use crate::requests::{
    agent_request, direction_request, focus_label, key_request, line_of, list_request, new_pane,
    release_request, report_request, request_id, response_document, response_result, result_of,
    split_request, RequestView,
};
use crate::steps::{outcome_of, CommandView, Step};
use crate::text::{
    decimal, decimal_reads_back, digits_value, is_blank, is_digit, is_white_space, normalized,
};
use crate::wire::{parsed, request_document, serialized};

verus! {

/// Whether a document is an object with a member.
pub open spec fn holds(json: JsonView, key: Seq<char>, value: JsonView) -> bool {
    json matches JsonView::Object(members) && members.contains_key(key) && members[key] == value
}

/// Whether a document is no object with a member under a key.
pub open spec fn lacks(json: JsonView, key: Seq<char>) -> bool {
    json matches JsonView::Object(members) ==> !members.contains_key(key)
}

/// Whether a text is the name of one of the four directions.
pub open spec fn names_direction(text: Seq<char>) -> bool {
    text == "left"@ || text == "down"@ || text == "up"@ || text == "right"@
}

proof fn direction_texts_differ()
    ensures
        "left"@ != "down"@,
        "left"@ != "up"@,
        "left"@ != "right"@,
        "down"@ != "up"@,
        "down"@ != "right"@,
        "up"@ != "right"@,
{
    reveal_strlit("left");
    reveal_strlit("down");
    reveal_strlit("up");
    reveal_strlit("right");
    assert("left"@[0] == 'l');
    assert("down"@[0] == 'd');
    assert("up"@[0] == 'u');
    assert("right"@[0] == 'r');
}

/// Just four texts name directions, each its own, and each direction has the
/// control key of its letter.
pub proof fn directions_are_named(text: Seq<char>)
    ensures
        direction_named(text) == Some(Direction::Left) <==> text == "left"@,
        direction_named(text) == Some(Direction::Down) <==> text == "down"@,
        direction_named(text) == Some(Direction::Up) <==> text == "up"@,
        direction_named(text) == Some(Direction::Right) <==> text == "right"@,
        direction_named(text) is None <==> !names_direction(text),
        text == "left"@ ==> ctrl_key_of(text) == Some("ctrl+h"@),
        text == "down"@ ==> ctrl_key_of(text) == Some("ctrl+j"@),
        text == "up"@ ==> ctrl_key_of(text) == Some("ctrl+k"@),
        text == "right"@ ==> ctrl_key_of(text) == Some("ctrl+l"@),
        ctrl_key_of(text) is None <==> !names_direction(text),
{
    direction_texts_differ();
}

proof fn command_texts_differ()
    ensures
        "register"@ != "release"@,
        "register"@ != "focus"@,
        "register"@ != "split"@,
        "register"@ != "dispatch"@,
        "release"@ != "focus"@,
        "release"@ != "split"@,
        "release"@ != "dispatch"@,
        "focus"@ != "split"@,
        "focus"@ != "dispatch"@,
        "split"@ != "dispatch"@,
{
    reveal_strlit("register");
    reveal_strlit("release");
    reveal_strlit("focus");
    reveal_strlit("split");
    reveal_strlit("dispatch");
    assert("register"@[2] == 'g');
    assert("release"@[2] == 'l');
    assert("focus"@[0] == 'f');
    assert("split"@[0] == 's');
    assert("dispatch"@[0] == 'd');
}

/// Which arguments name which command: the first one behind the program's name is
/// the command's, and the next one the direction's where the command has one.
pub proof fn arguments_name_commands(args: Seq<Seq<char>>, d: Seq<char>)
    ensures
        command_of(args) == Some(CommandView::Register) <==> args.len() >= 2 && args[1]
            == "register"@,
        command_of(args) == Some(CommandView::Release) <==> args.len() >= 2 && args[1]
            == "release"@,
        command_of(args) == Some(CommandView::Focus(d)) <==> args.len() >= 3 && args[1] == "focus"@
            && args[2] == d && names_direction(d),
        command_of(args) == Some(CommandView::Dispatch(d)) <==> args.len() >= 3 && args[1]
            == "dispatch"@ && args[2] == d && names_direction(d),
        command_of(args) == Some(CommandView::Split(d)) <==> args.len() >= 3 && args[1] == "split"@
            && args[2] == d && (d == "right"@ || d == "down"@),
{
    command_texts_differ();
    direction_texts_differ();
    directions_are_named(d);
    if args.len() >= 3 {
        directions_are_named(args[2]);
    }
}

/// Whether a variable is set to a text that is not empty.
pub open spec fn is_set(variable: Option<String>, text: Seq<char>) -> bool {
    variable matches Some(value) && value@ == text && text.len() > 0
}

/// Whether a variable is not set, or to an empty text.
pub open spec fn is_unset(variable: Option<String>) -> bool {
    variable matches Some(value) ==> value@.len() == 0
}

/// `HERDR_ACTIVE_PANE_ID` names the active pane; where it does not, `HERDR_PANE_ID`
/// does; where neither does, none is named.
pub proof fn environment_names_the_pane(env: Environment, pane: Seq<char>)
    ensures
        is_set(env.active_pane_id, pane) ==> given_pane(env) == Some(pane),
        is_unset(env.active_pane_id) && is_set(env.pane_id, pane) ==> given_pane(env) == Some(pane),
        is_unset(env.active_pane_id) && is_unset(env.pane_id) ==> given_pane(env) is None,
{
}

/// A variable counts where it is set to a text that is not empty.
pub proof fn empty_variables_do_not_count(variable: Option<String>, text: Seq<char>)
    ensures
        is_set(variable, text) ==> unless_empty(variable) == Some(text),
        is_unset(variable) ==> unless_empty(variable) is None,
{
}

proof fn parameter_texts_differ()
    ensures
        "pane_id"@ != "direction"@,
        "pane_id"@ != "source"@,
        "pane_id"@ != "agent"@,
        "pane_id"@ != "state"@,
        "pane_id"@ != "seq"@,
        "pane_id"@ != "keys"@,
        "source"@ != "agent"@,
        "source"@ != "state"@,
        "source"@ != "seq"@,
        "agent"@ != "state"@,
        "agent"@ != "seq"@,
        "state"@ != "seq"@,
        "target_pane_id"@ != "direction"@,
        "target_pane_id"@ != "cwd"@,
        "target_pane_id"@ != "focus"@,
        "direction"@ != "cwd"@,
        "direction"@ != "focus"@,
        "cwd"@ != "focus"@,
        "id"@ != "method"@,
        "id"@ != "params"@,
        "method"@ != "params"@,
        "error"@ != "result"@,
{
    reveal_strlit("pane_id");
    reveal_strlit("direction");
    reveal_strlit("source");
    reveal_strlit("agent");
    reveal_strlit("state");
    reveal_strlit("seq");
    reveal_strlit("keys");
    reveal_strlit("target_pane_id");
    reveal_strlit("cwd");
    reveal_strlit("focus");
    reveal_strlit("id");
    reveal_strlit("method");
    reveal_strlit("params");
    reveal_strlit("error");
    reveal_strlit("result");
    assert("pane_id"@.len() == 7);
    assert("direction"@.len() == 9);
    assert("source"@.len() == 6);
    assert("agent"@.len() == 5);
    assert("state"@.len() == 5);
    assert("seq"@.len() == 3);
    assert("keys"@.len() == 4);
    assert("target_pane_id"@.len() == 14);
    assert("cwd"@.len() == 3);
    assert("focus"@.len() == 5);
    assert("id"@.len() == 2);
    assert("method"@.len() == 6);
    assert("params"@.len() == 6);
    assert("error"@.len() == 5);
    assert("result"@.len() == 6);
    assert("agent"@[0] == 'a');
    assert("state"@[0] == 's');
    assert("seq"@[0] == 's');
    assert("cwd"@[0] == 'c');
    assert("method"@[0] == 'm');
    assert("params"@[0] == 'p');
}

/// `pane.list` takes no parameters.
pub proof fn list_request_says()
    ensures
        list_request().method == "pane.list"@,
        list_request().params.dom() == Set::<Seq<char>>::empty(),
{
    assert(list_request().params.dom() =~= Set::<Seq<char>>::empty());
}

/// `pane.focus_direction` names the pane and the direction.
pub proof fn direction_request_says(pane: Seq<char>, direction: Seq<char>)
    ensures
        direction_request(pane, direction).method == "pane.focus_direction"@,
        direction_request(pane, direction).params.dom() == set!["pane_id"@, "direction"@],
        direction_request(pane, direction).params["pane_id"@] == JsonView::Text(pane),
        direction_request(pane, direction).params["direction"@] == JsonView::Text(direction),
{
    parameter_texts_differ();
    assert(direction_request(pane, direction).params.dom() =~= set!["pane_id"@, "direction"@]);
}

/// Whether a request sends one key to a pane.
pub open spec fn sends_key(request: RequestView, pane: Seq<char>, key: Seq<char>) -> bool {
    &&& request.method == "pane.send_text"@
    &&& request.params.dom() == set!["pane_id"@, "keys"@]
    &&& request.params["pane_id"@] == JsonView::Text(pane)
    &&& request.params["keys"@] == JsonView::Array(seq![JsonView::Text(key)])
}

/// `pane.send_text` names the pane and just the one key.
pub proof fn key_request_says(pane: Seq<char>, key: Seq<char>)
    ensures
        sends_key(key_request(pane, key), pane, key),
{
    parameter_texts_differ();
    assert(key_request(pane, key).params.dom() =~= set!["pane_id"@, "keys"@]);
}

/// The agent that carries the focus is reported as idle in the pane, by the
/// helper, under its label and number.
pub proof fn report_request_says(pane: Seq<char>, label: Seq<char>, seq: u64)
    ensures
        ({
            let request = report_request(pane, label, seq);
            &&& request.method == "pane.report_agent"@
            &&& request.params.dom() == set!["pane_id"@, "source"@, "agent"@, "state"@, "seq"@]
            &&& request.params["pane_id"@] == JsonView::Text(pane)
            &&& request.params["source"@] == JsonView::Text("herdr.nvim:navigator"@)
            &&& request.params["agent"@] == JsonView::Text(label)
            &&& request.params["state"@] == JsonView::Text("idle"@)
            &&& request.params["seq"@] == JsonView::Number(JsonNumber::PosInt(seq))
        }),
{
    parameter_texts_differ();
    assert(report_request(pane, label, seq).params.dom() =~= set![
        "pane_id"@,
        "source"@,
        "agent"@,
        "state"@,
        "seq"@,
    ]);
}

/// `agent.focus` names the agent.
pub proof fn agent_request_says(label: Seq<char>)
    ensures
        agent_request(label).method == "agent.focus"@,
        agent_request(label).params.dom() == set!["target"@],
        agent_request(label).params["target"@] == JsonView::Text(label),
{
    assert(agent_request(label).params.dom() =~= set!["target"@]);
}

/// The agent is taken back from the pane by the one who reported it.
pub proof fn release_request_says(pane: Seq<char>, label: Seq<char>, seq: u64)
    ensures
        ({
            let request = release_request(pane, label, seq);
            &&& request.method == "pane.release_agent"@
            &&& request.params.dom() == set!["pane_id"@, "source"@, "agent"@, "seq"@]
            &&& request.params["pane_id"@] == JsonView::Text(pane)
            &&& request.params["source"@] == JsonView::Text("herdr.nvim:navigator"@)
            &&& request.params["agent"@] == JsonView::Text(label)
            &&& request.params["seq"@] == JsonView::Number(JsonNumber::PosInt(seq))
        }),
{
    parameter_texts_differ();
    assert(release_request(pane, label, seq).params.dom() =~= set![
        "pane_id"@,
        "source"@,
        "agent"@,
        "seq"@,
    ]);
}

/// `pane.split` names the pane, the direction and the working directory where
/// there is one, and asks for the focus.
pub proof fn split_request_says(target: Seq<char>, direction: Seq<char>, cwd: Option<Seq<char>>)
    ensures
        ({
            let request = split_request(target, direction, cwd);
            &&& request.method == "pane.split"@
            &&& request.params.dom() == set!["target_pane_id"@, "direction"@, "cwd"@, "focus"@]
            &&& request.params["target_pane_id"@] == JsonView::Text(target)
            &&& request.params["direction"@] == JsonView::Text(direction)
            &&& cwd matches Some(path) ==> request.params["cwd"@] == JsonView::Text(path)
            &&& cwd is None ==> request.params["cwd"@] == JsonView::Null
            &&& request.params["focus"@] == JsonView::Bool(true)
        }),
{
    parameter_texts_differ();
    assert(split_request(target, direction, cwd).params.dom() =~= set![
        "target_pane_id"@,
        "direction"@,
        "cwd"@,
        "focus"@,
    ]);
}

/// The label of an agent that carries the focus: the helper's mark, the pane's id
/// with every `-` and `:` turned into `_`, and the number in decimal digits.
pub proof fn focus_label_says(pane: Seq<char>, seq: u128)
    ensures
        ({
            let mark = "herdr.nvim.focus."@;
            let label = focus_label(pane, seq);
            let digits = label.skip((mark.len() + pane.len() + 1) as int);
            &&& label.len() > mark.len() + pane.len() + 1
            &&& label.take(mark.len() as int) == mark
            &&& forall|i: int|
                0 <= i < pane.len() ==> #[trigger] label[mark.len() + i] == (if pane[i] == '-'
                    || pane[i] == ':' {
                    '_'
                } else {
                    pane[i]
                })
            &&& label[(mark.len() + pane.len()) as int] == '.'
            &&& forall|i: int| 0 <= i < digits.len() ==> is_digit(#[trigger] digits[i])
            &&& digits_value(digits) == seq
        }),
{
    let mark = "herdr.nvim.focus."@;
    let label = focus_label(pane, seq);
    reveal_strlit(".");
    decimal_reads_back(seq as nat);
    assert(label.take(mark.len() as int) =~= mark);
    assert(label.skip((mark.len() + pane.len() + 1) as int) =~= decimal(seq as nat));
    assert forall|i: int| 0 <= i < pane.len() implies #[trigger] label[mark.len() + i] == (
    if pane[i] == '-' || pane[i] == ':' {
        '_'
    } else {
        pane[i]
    }) by {
        assert(label[mark.len() + i] == normalized(pane)[i]);
    }
}

/// A request is sent as the text of an object with just three members: an id that
/// holds the time, the method, and the parameters. A line feed ends it.
pub proof fn request_line_says(request: RequestView, now: u128, document: JsonView)
    requires
        document matches JsonView::Object(members) && members.dom() == set![
            "id"@,
            "method"@,
            "params"@,
        ],
        holds(document, "id"@, JsonView::Text("herdr.nvim:"@ + decimal(now as nat))),
        holds(document, "method"@, JsonView::Text(request.method)),
        holds(document, "params"@, JsonView::Object(request.params)),
    ensures
        match serialized(document) {
            Ok(text) => line_of(request, now) == Ok::<Seq<u8>, Seq<char>>(text.push(10u8)),
            Err(message) => line_of(request, now) == Err::<Seq<u8>, Seq<char>>(message),
        },
{
    parameter_texts_differ();
    let mine = request_document(request_id(now), request.method, request.params);
    assert(mine->Object_0 =~= document->Object_0);
}

/// Whether a reply is a line that is not blank, with a document.
pub open spec fn replies(reply: Result<Seq<char>, Seq<char>>, response: JsonView) -> bool {
    &&& reply matches Ok(line)
    &&& exists|i: int| 0 <= i < line.len() && #[trigger] line[i] == '{'
    &&& parsed(line) == Ok::<JsonView, Seq<char>>(response)
}

/// Whether a reply carries a result.
pub open spec fn replies_with(reply: Result<Seq<char>, Seq<char>>, result: JsonView) -> bool {
    exists|response: JsonView| #[trigger]
        replies(reply, response) && lacks(response, "error"@) && holds(response, "result"@, result)
}

/// Whether a reply reports an error with a message.
pub open spec fn refuses_with(reply: Result<Seq<char>, Seq<char>>, message: Seq<char>) -> bool {
    ||| reply == Err::<Seq<char>, Seq<char>>(message)
    ||| exists|response: JsonView, error: JsonView| #[trigger]
        replies(reply, response) && #[trigger] holds(response, "error"@, error) && holds(
            error,
            "message"@,
            JsonView::Text(message),
        )
}

/// A reply with a result and no error comes to that result; one with an error, or
/// none at all, to its message.
pub proof fn replies_are_read(
    reply: Result<Seq<char>, Seq<char>>,
    response: JsonView,
    result: JsonView,
    message: Seq<char>,
)
    ensures
        replies_with(reply, result) ==> result_of(reply) == Ok::<JsonView, Seq<char>>(result),
        refuses_with(reply, message) ==> result_of(reply) == Err::<JsonView, Seq<char>>(message),
        replies(reply, response) && lacks(response, "error"@) && lacks(response, "result"@)
            ==> result_of(reply) == Ok::<JsonView, Seq<char>>(JsonView::Object(Map::empty())),
        replies(reply, response) && !lacks(response, "error"@) ==> result_of(reply) is Err,
{
}

/// A blank line stands for an empty object, and a line that is no document is
/// refused with the reason.
pub proof fn lines_are_read(line: Seq<char>, message: Seq<char>)
    ensures
        line.len() == 0 ==> response_document(line) == Ok::<JsonView, Seq<char>>(
            JsonView::Object(Map::empty()),
        ),
        (forall|i: int|
            0 <= i < line.len() ==> line[i] == ' ' || line[i] == '\n' || line[i] == '\r' || line[i]
                == '\t') ==> response_document(line) == Ok::<JsonView, Seq<char>>(
            JsonView::Object(Map::empty()),
        ),
        (exists|i: int| 0 <= i < line.len() && !is_white_space(#[trigger] line[i])) && parsed(line)
            == Err::<JsonView, Seq<char>>(message) ==> response_document(line) == Err::<
            JsonView,
            Seq<char>,
        >("invalid Herdr response: "@ + message),
{
}

/// Blank are the lines without any character but these: the tab, the line feed and
/// the three behind it, the space, and Unicode's other spaces and line ends.
pub proof fn blank_lines_have_spaces_alone(line: Seq<char>)
    ensures
        is_blank(line) <==> forall|i: int|
            0 <= i < line.len() ==> {
                let c = #[trigger] line[i] as int;
                ||| c == 0x9 || c == 0xA || c == 0xB || c == 0xC || c == 0xD || c == 0x20
                ||| c == 0x85 || c == 0xA0 || c == 0x1680
                ||| c == 0x2000 || c == 0x2001 || c == 0x2002 || c == 0x2003 || c == 0x2004
                ||| c == 0x2005 || c == 0x2006 || c == 0x2007 || c == 0x2008 || c == 0x2009
                ||| c == 0x200A || c == 0x2028 || c == 0x2029 || c == 0x202F || c == 0x205F
                ||| c == 0x3000
            },
{
    if is_blank(line) {
        assert forall|i: int| 0 <= i < line.len() implies ({
            let c = #[trigger] line[i] as int;
            ||| c == 0x9 || c == 0xA || c == 0xB || c == 0xC || c == 0xD || c == 0x20
            ||| c == 0x85 || c == 0xA0 || c == 0x1680
            ||| c == 0x2000 || c == 0x2001 || c == 0x2002 || c == 0x2003 || c == 0x2004
            ||| c == 0x2005 || c == 0x2006 || c == 0x2007 || c == 0x2008 || c == 0x2009
            ||| c == 0x200A || c == 0x2028 || c == 0x2029 || c == 0x202F || c == 0x205F
            ||| c == 0x3000
        }) by {
            assert(is_white_space(line[i]));
        }
    }
}

/// An error without a message is told in general words.
pub proof fn silent_errors_are_told(response: JsonView, error: JsonView)
    requires
        holds(response, "error"@, error),
        forall|text: Seq<char>| !#[trigger] holds(error, "message"@, JsonView::Text(text)),
    ensures
        response_result(response) == Err::<JsonView, Seq<char>>("Herdr request failed"@),
{
    if let Some(text) = error.text_at("message"@) {
        assert(holds(error, "message"@, JsonView::Text(text)));
    }
}

/// The new pane of a split is the one whose id stands in the result's pane.
pub proof fn new_pane_is_read(split_result: JsonView, id: Seq<char>)
    ensures
        new_pane(split_result) == Some(id) <==> exists|pane: JsonView| #[trigger]
            holds(split_result, "pane"@, pane) && holds(pane, "pane_id"@, JsonView::Text(id)),
{
    if new_pane(split_result) == Some(id) {
        let pane = split_result.get("pane"@)->0;
        assert(holds(split_result, "pane"@, pane) && holds(pane, "pane_id"@, JsonView::Text(id)));
    }
}

/// What is printed at the end, and the exit code: a message with the program's name
/// before it and code 1, the usage and code 2, or the code alone.
pub proof fn outcomes_are_told(message: String, code: i32)
    ensures
        outcome_of(Step::Fail(message)) == Some((Some("herdr-navigator: "@ + message@), 1i32)),
        outcome_of(Step::Exit(code)) == Some((None::<Seq<char>>, code)),
        outcome_of(Step::Usage) == Some(
            (
                Some(
                    "usage: herdr-navigator dispatch|focus|register|release|split [left|down|up|right]"@,
                ),
                2i32,
            ),
        ),
{
}

} // verus!
