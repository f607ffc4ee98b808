use herdr_navigator::json::{Json, JsonNumber};
use herdr_navigator::requests::{
    focus_agent, focus_on_agent, focus_pane_direction, new_pane_id, pane_list_request,
    read_response, read_result, release_agent, report_agent, request_line, result,
    send_ctrl_to_pane, split_pane_request,
};
use herdr_navigator::wire::{parse_json, request_text, Param};

fn text_of_line(line: Result<Vec<u8>, String>) -> String {
    String::from_utf8(line.unwrap()).unwrap()
}

#[test]
fn documents_keep_their_scalars() {
    assert!(matches!(parse_json("null"), Ok(Json::Null)));
    assert!(matches!(parse_json("true"), Ok(Json::Bool(true))));
    assert!(matches!(parse_json("false"), Ok(Json::Bool(false))));
    assert!(matches!(parse_json("7"), Ok(Json::Number(JsonNumber::PosInt(7)))));
    assert!(matches!(parse_json("-7"), Ok(Json::Number(JsonNumber::NegInt(-7)))));
    match parse_json("0.25") {
        Ok(Json::Number(JsonNumber::Float(bits))) => assert_eq!(f64::from_bits(bits), 0.25),
        _ => panic!("not a double"),
    }
    match parse_json("18446744073709551616") {
        Ok(Json::Number(JsonNumber::Float(bits))) => {
            assert_eq!(f64::from_bits(bits), 18446744073709551616.0)
        }
        _ => panic!("not a double"),
    }
    match parse_json("\"a\\u00e9\"") {
        Ok(Json::Text(text)) => assert_eq!(text, "a\u{e9}"),
        _ => panic!("not a text"),
    }
}

#[test]
fn documents_keep_their_items_and_members() {
    let json = parse_json(r#"{"b":[1,"x",{}],"a":{"k":true},"b2":18446744073709551615}"#).unwrap();
    assert_eq!(json.u64_at("b2"), Some(u64::MAX));
    assert_eq!(json.get("b2").unwrap().as_i64(), None);
    assert_eq!(json.get("a").unwrap().get("k").unwrap().as_bool(), Some(true));
    let items = json.array_at("b").unwrap();
    assert_eq!(items.len(), 3);
    assert_eq!(items[0].as_i64(), Some(1));
    assert_eq!(items[1].as_text().unwrap(), "x");
    assert_eq!(items[2].keys().unwrap().len(), 0);
    let mut keys = json.keys().unwrap();
    keys.sort();
    assert_eq!(keys, vec!["a".to_string(), "b".to_string(), "b2".to_string()]);
    assert!(json.get("c").is_none());
    assert!(items[0].get("a").is_none());
    assert!(json.text_at("a").is_none());
    assert!(items[1].keys().is_none());
}

#[test]
fn a_repeated_member_counts_once() {
    let json = parse_json(r#"{"a":1,"a":2}"#).unwrap();
    assert_eq!(json.u64_at("a"), Some(2));
    assert_eq!(json.keys().unwrap().len(), 1);
}

#[test]
fn what_is_no_document_is_refused() {
    assert_eq!(
        parse_json("{").unwrap_err(),
        "EOF while parsing an object at line 1 column 1"
    );
    assert_eq!(parse_json("{} x").unwrap_err(), "trailing characters at line 1 column 4");
}

#[test]
fn duplicates_hold_the_same() {
    let json = parse_json(r#"{"a":[null,{"b":"c"}]}"#).unwrap();
    let copy = json.duplicate();
    assert_eq!(format!("{copy:?}"), format!("{json:?}"));
}

#[test]
fn requests_are_written_on_one_line() {
    assert_eq!(
        text_of_line(request_line(&pane_list_request(), 7)),
        "{\"id\":\"herdr.nvim:7\",\"method\":\"pane.list\",\"params\":{}}\n"
    );
    assert_eq!(
        text_of_line(request_line(&focus_pane_direction("w:p1", "left"), 1)),
        "{\"id\":\"herdr.nvim:1\",\"method\":\"pane.focus_direction\",\"params\":{\"direction\":\"left\",\"pane_id\":\"w:p1\"}}\n"
    );
}

#[test]
fn every_kind_of_parameter_is_written() {
    let params = vec![
        ("n".to_string(), Param::Null),
        ("f".to_string(), Param::Flag(false)),
        ("c".to_string(), Param::Count(u64::MAX)),
        ("t".to_string(), Param::Text("a\"b\n".to_string())),
        ("l".to_string(), Param::Texts(vec!["x".to_string(), "y".to_string()])),
        ("t".to_string(), Param::Text("last".to_string())),
    ];
    let text = request_text("i".to_string(), "m", &params).unwrap();
    assert_eq!(
        String::from_utf8(text).unwrap(),
        "{\"id\":\"i\",\"method\":\"m\",\"params\":{\"c\":18446744073709551615,\"f\":false,\"l\":[\"x\",\"y\"],\"n\":null,\"t\":\"last\"}}"
    );
}

#[test]
fn a_written_request_reads_back() {
    let line = text_of_line(request_line(&split_pane_request("w:p1", "down", Some("/tmp".to_string())), 12));
    let json = parse_json(&line).unwrap();
    assert_eq!(json.text_at("id").unwrap(), "herdr.nvim:12");
    assert_eq!(json.text_at("method").unwrap(), "pane.split");
    let params = json.get("params").unwrap();
    assert_eq!(params.text_at("target_pane_id").unwrap(), "w:p1");
    assert_eq!(params.text_at("direction").unwrap(), "down");
    assert_eq!(params.text_at("cwd").unwrap(), "/tmp");
    assert_eq!(params.get("focus").unwrap().as_bool(), Some(true));
}

#[test]
fn a_split_without_a_directory_has_none() {
    let line = text_of_line(request_line(&split_pane_request("w:p1", "right", None), 12));
    assert_eq!(
        line,
        "{\"id\":\"herdr.nvim:12\",\"method\":\"pane.split\",\"params\":{\"cwd\":null,\"direction\":\"right\",\"focus\":true,\"target_pane_id\":\"w:p1\"}}\n"
    );
}

#[test]
fn keys_are_sent_as_raw_text() {
    let request = send_ctrl_to_pane("w:p1", "down").unwrap();
    assert_eq!(
        text_of_line(request_line(&request, 3)),
        "{\"id\":\"herdr.nvim:3\",\"method\":\"pane.send_text\",\"params\":{\"keys\":[\"ctrl+j\"],\"pane_id\":\"w:p1\"}}\n"
    );
    assert_eq!(
        send_ctrl_to_pane("w:p1", "sideways").unwrap_err(),
        "unsupported direction sideways"
    );
}

#[test]
fn focus_requests_name_the_same_agent() {
    let label = focus_agent("ws-1:p2", 1234);
    assert_eq!(label, "herdr.nvim.focus.ws_1_p2.1234");
    assert_eq!(
        text_of_line(request_line(&report_agent("ws-1:p2", &label, 1234), 5)),
        "{\"id\":\"herdr.nvim:5\",\"method\":\"pane.report_agent\",\"params\":{\"agent\":\"herdr.nvim.focus.ws_1_p2.1234\",\"pane_id\":\"ws-1:p2\",\"seq\":1234,\"source\":\"herdr.nvim:navigator\",\"state\":\"idle\"}}\n"
    );
    assert_eq!(
        text_of_line(request_line(&focus_on_agent(&label), 5)),
        "{\"id\":\"herdr.nvim:5\",\"method\":\"agent.focus\",\"params\":{\"target\":\"herdr.nvim.focus.ws_1_p2.1234\"}}\n"
    );
    assert_eq!(
        text_of_line(request_line(&release_agent("ws-1:p2", &label, 1235), 5)),
        "{\"id\":\"herdr.nvim:5\",\"method\":\"pane.release_agent\",\"params\":{\"agent\":\"herdr.nvim.focus.ws_1_p2.1234\",\"pane_id\":\"ws-1:p2\",\"seq\":1235,\"source\":\"herdr.nvim:navigator\"}}\n"
    );
}

#[test]
fn responses_are_read() {
    assert!(read_response(" \n").unwrap().keys().unwrap().is_empty());
    assert_eq!(
        read_response("{\"result\":{\"n\":1}}\n").unwrap().get("result").unwrap().u64_at("n"),
        Some(1)
    );
    assert_eq!(
        read_response("nonsense").unwrap_err(),
        "invalid Herdr response: expected ident at line 1 column 2"
    );
}

#[test]
fn results_are_read() {
    let ok = parse_json("{\"result\":{\"n\":1}}").unwrap();
    assert_eq!(read_result(&ok).unwrap().u64_at("n"), Some(1));
    let none = parse_json("{}").unwrap();
    assert!(read_result(&none).unwrap().keys().unwrap().is_empty());
    let error = parse_json("{\"error\":{\"message\":\"no such pane\"},\"result\":1}").unwrap();
    assert_eq!(read_result(&error).unwrap_err(), "no such pane");
    let silent = parse_json("{\"error\":null}").unwrap();
    assert_eq!(read_result(&silent).unwrap_err(), "Herdr request failed");
}

#[test]
fn the_result_of_a_request_reports_what_went_wrong() {
    assert_eq!(result(Err("no socket".to_string())).unwrap_err(), "no socket");
    assert_eq!(
        result(Ok("{\"error\":{}}".to_string())).unwrap_err(),
        "Herdr request failed"
    );
    assert_eq!(result(Ok("{\"result\":[3]}".to_string())).unwrap().as_array().unwrap().len(), 1);
    assert!(result(Ok("\n".to_string())).unwrap().keys().unwrap().is_empty());
}

#[test]
fn the_new_pane_of_a_split_is_read() {
    let done = parse_json("{\"pane\":{\"pane_id\":\"w:p9\"}}").unwrap();
    assert_eq!(new_pane_id(&done), Some("w:p9".to_string()));
    assert_eq!(new_pane_id(&parse_json("{\"pane\":{}}").unwrap()), None);
    assert_eq!(new_pane_id(&parse_json("{}").unwrap()), None);
}

#[test]
fn a_request_stays_on_one_line_whatever_it_says() {
    let line = request_line(&focus_pane_direction("a\nb\r\n", "left\n"), 1).unwrap();
    assert_eq!(line.iter().filter(|byte| **byte == b'\n').count(), 1);
    assert_eq!(line.last(), Some(&b'\n'));
}
