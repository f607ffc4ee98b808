use herdr_navigator::adjacent::Measure;
use herdr_navigator::answers::{
    focus_pane, on_cache, on_check, on_cuts, on_markers, on_measures, on_middle, on_removed,
    on_reply, on_saved, on_session, on_written, SessionText,
};
use herdr_navigator::cache::{CachedTab, LayoutCache};
use herdr_navigator::layout::Rect;
use herdr_navigator::navigator::{dispatch, focus_adjacent, register, release, run, split_pane};
use herdr_navigator::paths::Environment;
use herdr_navigator::requests::{request_line, Request};
use herdr_navigator::seed::find_rect;
use herdr_navigator::steps::{outcome, Step};
use herdr_navigator::tables::TextMap;

const DIR: &str = "/home/u/.cache/herdr.nvim/sessions/0002b606";

const SESSION: &str = r#"{"workspaces":[{"id":"w","public_pane_numbers":{"1":1,"2":2},
    "tabs":[{"tab_id":"t1","panes":{"1":{},"2":{}},
    "layout":{"Split":{"direction":"Horizontal","ratio":0.5,"first":{"Pane":1},"second":{"Pane":2}}}}]}]}"#;

fn environment(pane: Option<&str>) -> Environment {
    Environment {
        home: Some(b"/home/u".to_vec()),
        socket_path: Some(b"a".to_vec()),
        session: None,
        cache_home: None,
        active_pane_id: pane.map(str::to_string),
        pane_id: None,
        active_tab_id: None,
        active_pane_cwd: None,
    }
}

fn args(items: &[&str]) -> Vec<String> {
    items.iter().map(|s| s.to_string()).collect()
}

fn params_of(request: &Request) -> String {
    let line = String::from_utf8(request_line(request, 0).unwrap()).unwrap();
    let start = line.find("\"method\"").unwrap();
    line[start..line.len() - 2].to_string()
}

fn ok(result: &str) -> Result<String, String> {
    Ok(format!("{{\"result\":{result}}}\n"))
}

fn refused(message: &str) -> Result<String, String> {
    Ok(format!("{{\"error\":{{\"message\":\"{message}\"}}}}\n"))
}

fn session() -> Result<SessionText, String> {
    Ok(SessionText { file: "session.json".to_string(), content: SESSION.to_string() })
}

fn two_panes() -> LayoutCache {
    let bits = |x: f64| x.to_bits();
    let mut panes: TextMap<Rect> = TextMap::new();
    panes.insert(
        "w:p1".to_string(),
        Rect { x0: bits(0.0), y0: bits(0.0), x1: bits(0.5), y1: bits(1.0) },
    );
    panes.insert(
        "w:p2".to_string(),
        Rect { x0: bits(0.5), y0: bits(0.0), x1: bits(1.0), y1: bits(1.0) },
    );
    let mut cache = LayoutCache::default();
    cache.tabs.insert("t1".to_string(), CachedTab { panes, updated_ns: 1 });
    cache.max_internal = 2;
    cache
}

/// The measure of a pane right beside the current one.
fn beside() -> Measure {
    Measure {
        limit: 0.499999_f64.to_bits(),
        gap: 0.0_f64.to_bits(),
        negative_overlap: (-1.0_f64).to_bits(),
    }
}

fn exit_code(step: &Step) -> i32 {
    match step {
        Step::Exit(code) => *code,
        _ => panic!("not done"),
    }
}

fn failure(step: &Step) -> String {
    match step {
        Step::Fail(message) => message.clone(),
        _ => panic!("not failed"),
    }
}

fn sent(step: &Step) -> String {
    match step {
        Step::Send(request, _) => params_of(request),
        _ => panic!("nothing sent"),
    }
}

fn reply(env: &Environment, step: Step, reply: Result<String, String>) -> Step {
    match step {
        Step::Send(_, after) => on_reply(env, after, reply),
        _ => panic!("nothing sent"),
    }
}

fn loaded(env: &Environment, step: Step, cache: LayoutCache) -> Step {
    match step {
        Step::LoadCache(Some(path), after) => {
            assert_eq!(String::from_utf8(path).unwrap(), format!("{DIR}/layout-cache.json"));
            on_cache(env, after, cache)
        }
        _ => panic!("no cache loaded"),
    }
}

fn checked(env: &Environment, step: Step, marker: &str, exists: bool) -> Step {
    match step {
        Step::CheckMarker(path, after) => {
            assert_eq!(String::from_utf8(path.clone()).unwrap(), format!("{DIR}/panes/{marker}"));
            on_check(env, path, after, exists)
        }
        _ => panic!("no marker looked for"),
    }
}

/// Lists the live panes and the markers, and has the stale ones removed.
fn pruned(env: &Environment, step: Step, listing: &str, names: &[&str], stale: &[&str]) -> Step {
    assert_eq!(sent(&step), "\"method\":\"pane.list\",\"params\":{}");
    let step = match reply(env, step, ok(listing)) {
        Step::ListMarkers(dir, after) => {
            assert_eq!(String::from_utf8(dir.clone()).unwrap(), format!("{DIR}/panes"));
            on_markers(&dir, after, &args(names))
        }
        _ => panic!("no markers listed"),
    };
    match step {
        Step::RemoveMarkers(paths, after) => {
            let expected: Vec<Vec<u8>> =
                stale.iter().map(|name| format!("{DIR}/panes/{name}").into_bytes()).collect();
            assert_eq!(paths, expected);
            on_removed(env, after)
        }
        _ => panic!("nothing removed"),
    }
}

fn session_read(env: &Environment, step: Step, text: Result<SessionText, String>) -> Step {
    match step {
        Step::ReadSession(socket, after) => {
            assert_eq!(socket, b"a");
            on_session(env, after, text)
        }
        _ => panic!("no session read"),
    }
}

fn cut_in_half(env: &Environment, step: Step) -> Step {
    match step {
        Step::ComputeCuts(after) => {
            assert_eq!(after.plan().cuts.len(), 1);
            on_cuts(env, after, &vec![0.5_f64.to_bits()], 55)
        }
        _ => panic!("nothing to compute"),
    }
}

fn saved(step: Step) -> LayoutCache {
    match step {
        Step::SaveCache { dir, path, cache } => {
            assert_eq!(String::from_utf8(dir).unwrap(), DIR);
            assert_eq!(String::from_utf8(path).unwrap(), format!("{DIR}/layout-cache.json"));
            cache
        }
        _ => panic!("nothing saved"),
    }
}

#[test]
fn unknown_arguments_get_the_usage() {
    let env = environment(Some("w:p1"));
    for given in [
        args(&["nav"]), args(&[]), args(&["nav", "jump"]), args(&["nav", "focus"]),
        args(&["nav", "focus", "sideways"]), args(&["nav", "split", "left"]),
        args(&["nav", "split"]), args(&["nav", "dispatch", ""]), args(&["nav", "Register"]),
    ] {
        let step = run(&given, &env);
        assert!(matches!(step, Step::Usage));
        let (line, code) = outcome(&step).unwrap();
        assert_eq!(code, 2);
        assert_eq!(
            line.unwrap(),
            "usage: herdr-navigator dispatch|focus|register|release|split [left|down|up|right]"
        );
    }
}

#[test]
fn outcomes_are_told() {
    assert!(matches!(outcome(&Step::Exit(0)), Some((None, 0))));
    assert!(matches!(outcome(&Step::Exit(1)), Some((None, 1))));
    let (line, code) = outcome(&Step::Fail("no socket".to_string())).unwrap();
    assert_eq!(line.unwrap(), "herdr-navigator: no socket");
    assert_eq!(code, 1);
    assert!(outcome(&Step::Focus("w:p1".to_string())).is_none());
}

#[test]
fn commands_without_an_active_pane_fail() {
    let env = environment(None);
    for given in [
        args(&["nav", "register"]), args(&["nav", "release", "extra"]),
        args(&["nav", "focus", "left"]), args(&["nav", "split", "right"]),
        args(&["nav", "dispatch", "up"]),
    ] {
        let step = run(&given, &env);
        assert_eq!(sent(&step), "\"method\":\"pane.list\",\"params\":{}");
        assert_eq!(exit_code(&reply(&env, step, ok("{\"panes\":[]}"))), 1);
        let step = run(&given, &env);
        assert_eq!(failure(&reply(&env, step, refused("busy"))), "busy");
        let step = run(&given, &env);
        assert_eq!(
            failure(&reply(&env, step, ok("{}"))),
            "Herdr pane.list returned no panes array"
        );
        let step = run(&given, &env);
        assert_eq!(failure(&reply(&env, step, Err("no socket".to_string()))), "no socket");
    }
}

#[test]
fn the_active_pane_is_asked_for() {
    let env = environment(None);
    let step = run(&args(&["nav", "focus", "left"]), &env);
    let step = reply(&env, step, ok("{\"panes\":[{\"pane_id\":\"w:p1\",\"focused\":true}]}"));
    assert_eq!(
        sent(&step),
        "\"method\":\"pane.focus_direction\",\"params\":{\"direction\":\"left\",\"pane_id\":\"w:p1\"}"
    );
}

#[test]
fn a_pane_is_registered() {
    let env = environment(Some("w:p1"));
    let step = run(&args(&["nav", "register"]), &env);
    let step = loaded(&env, step, LayoutCache::default());
    match step {
        Step::WriteMarker { dir, path, pane, cache } => {
            assert_eq!(String::from_utf8(dir).unwrap(), format!("{DIR}/panes"));
            assert_eq!(String::from_utf8(path).unwrap(), format!("{DIR}/panes/w:p1"));
            assert_eq!(pane, "w:p1");
            let failed = on_written(&env, LayoutCache::default(), Err("full".to_string()));
            assert_eq!(failure(&failed), "full");
            let cache = saved(on_written(&env, cache, Ok(())));
            assert_eq!(cache.tabs.len(), 0);
        }
        _ => panic!("no marker written"),
    }
    assert_eq!(exit_code(&on_saved(Ok(()))), 0);
    assert_eq!(failure(&on_saved(Err("full".to_string()))), "full");
}

#[test]
fn an_internal_id_is_resolved_from_the_session() {
    let env = environment(Some("p_2"));
    let step = run(&args(&["nav", "register"]), &env);
    let step = loaded(&env, step, LayoutCache::default());
    let step = session_read(&env, step, session());
    let step = cut_in_half(&env, step);
    match step {
        Step::WriteMarker { path, pane, cache, .. } => {
            assert_eq!(String::from_utf8(path).unwrap(), format!("{DIR}/panes/w:p2"));
            assert_eq!(pane, "w:p2");
            assert_eq!(cache.tabs.get("t1").unwrap().updated_ns, 55);
        }
        _ => panic!("no marker written"),
    }
}

#[test]
fn an_internal_id_may_be_unknown() {
    let env = environment(Some("p_7"));
    for name in ["register", "release"] {
        let step = loaded(&env, run(&args(&["nav", name]), &env), LayoutCache::default());
        let step = cut_in_half(&env, session_read(&env, step, session()));
        assert_eq!(exit_code(&step), 1);
        let step = loaded(&env, run(&args(&["nav", name]), &env), LayoutCache::default());
        let step = session_read(&env, step, Err("failed to read it".to_string()));
        assert_eq!(failure(&step), "failed to read it");
    }
    let step = loaded(&env, run(&args(&["nav", "dispatch", "up"]), &env), LayoutCache::default());
    let step = cut_in_half(&env, session_read(&env, step, session()));
    let step = pruned(&env, step, "{\"panes\":[{\"pane_id\":\"w:p1\"}]}", &["w:p1", "old"], &["old"]);
    assert_eq!(
        sent(&step),
        "\"method\":\"pane.focus_direction\",\"params\":{\"direction\":\"up\",\"pane_id\":\"p_7\"}"
    );
}

#[test]
fn a_pane_is_released() {
    let env = environment(Some("p_2"));
    let mut cache = LayoutCache::default();
    cache.internal_aliases.insert("p_2".to_string(), "w:p2".to_string());
    let step = loaded(&env, run(&args(&["nav", "release"]), &env), cache);
    match checked(&env, step, "w:p2", true) {
        Step::RemoveMarkers(paths, after) => {
            assert_eq!(paths, vec![format!("{DIR}/panes/w:p2").into_bytes()]);
            assert_eq!(exit_code(&on_removed(&env, after)), 0);
        }
        _ => panic!("nothing removed"),
    }
    let step = release(&env, Some("w:p1".to_string()));
    let step = loaded(&env, step, LayoutCache::default());
    assert_eq!(exit_code(&checked(&env, step, "w:p1", false)), 0);
}

#[test]
fn a_marked_pane_gets_the_key() {
    let env = environment(Some("w:p1"));
    let step = run(&args(&["nav", "dispatch", "left"]), &env);
    let step = loaded(&env, step, LayoutCache::default());
    let step = checked(&env, step, "w:p1", true);
    let listing = "{\"panes\":[{\"pane_id\":\"w:p1\"},{\"pane_id\":\"w:p3\"}]}";
    let step = pruned(&env, step, listing, &["w:p1", "w:p2", "w:p3"], &["w:p2"]);
    let step = checked(&env, step, "w:p1", true);
    assert_eq!(
        sent(&step),
        "\"method\":\"pane.send_text\",\"params\":{\"keys\":[\"ctrl+h\"],\"pane_id\":\"w:p1\"}"
    );
    assert_eq!(exit_code(&reply(&env, step, ok("{}"))), 0);
}

#[test]
fn a_stale_marker_gets_no_key() {
    let env = environment(Some("w:p1"));
    let step = dispatch(&env, "left".to_string(), Some("w:p1".to_string()));
    let step = checked(&env, loaded(&env, step, LayoutCache::default()), "w:p1", true);
    let step = pruned(&env, step, "{}", &["w:p1"], &["w:p1"]);
    let step = checked(&env, step, "w:p1", false);
    assert_eq!(
        sent(&step),
        "\"method\":\"pane.focus_direction\",\"params\":{\"direction\":\"left\",\"pane_id\":\"w:p1\"}"
    );
}

#[test]
fn a_dispatch_in_an_unmarked_pane_removes_stale_markers() {
    let env = environment(Some("w:p1"));
    let step = run(&args(&["nav", "dispatch", "left"]), &env);
    let step = checked(&env, loaded(&env, step, LayoutCache::default()), "w:p1", false);
    let listing = "{\"panes\":[{\"pane_id\":\"w:p1\"},{\"pane_id\":\"w:p3\"}]}";
    let step = pruned(&env, step, listing, &["gone", "w:p3", "older"], &["gone", "older"]);
    let step = checked(&env, step, "w:p1", false);
    assert_eq!(
        sent(&step),
        "\"method\":\"pane.focus_direction\",\"params\":{\"direction\":\"left\",\"pane_id\":\"w:p1\"}"
    );
}

#[test]
fn navigation_does_not_depend_on_pruning() {
    let env = environment(Some("w:p1"));
    let step = dispatch(&env, "left".to_string(), Some("w:p1".to_string()));
    let step = checked(&env, loaded(&env, step, LayoutCache::default()), "w:p1", false);
    let step = reply(&env, step, refused("busy"));
    assert_eq!(
        sent(&step),
        "\"method\":\"pane.focus_direction\",\"params\":{\"direction\":\"left\",\"pane_id\":\"w:p1\"}"
    );
    let step = dispatch(&env, "left".to_string(), Some("w:p1".to_string()));
    let step = checked(&env, loaded(&env, step, LayoutCache::default()), "w:p1", true);
    assert_eq!(failure(&reply(&env, step, refused("busy"))), "busy");
}

#[test]
fn an_unmarked_pane_moves_the_focus() {
    let env = environment(None);
    let step = dispatch(&env, "down".to_string(), Some("w:p1".to_string()));
    let step = checked(&env, loaded(&env, step, LayoutCache::default()), "w:p1", false);
    let step = pruned(&env, step, "{\"panes\":[]}", &[], &[]);
    let step = checked(&env, step, "w:p1", false);
    assert_eq!(sent(&step), "\"method\":\"pane.list\",\"params\":{}");
    let step = reply(&env, step, ok("{\"panes\":[]}"));
    assert_eq!(
        sent(&step),
        "\"method\":\"pane.focus_direction\",\"params\":{\"direction\":\"down\",\"pane_id\":\"w:p1\"}"
    );
    assert_eq!(exit_code(&reply(&env, step, ok("{}"))), 0);
}

#[test]
fn the_second_look_for_the_active_pane_may_fail() {
    let env = environment(None);
    let step = dispatch(&env, "down".to_string(), Some("w:p1".to_string()));
    let step = checked(&env, loaded(&env, step, LayoutCache::default()), "w:p1", false);
    let step = pruned(&env, step, "{}", &[], &[]);
    let step = checked(&env, step, "w:p1", false);
    assert_eq!(failure(&reply(&env, step, refused("busy"))), "busy");
}

#[test]
fn the_focus_moves_by_the_cache() {
    let env = environment(Some("w:p1"));
    let step = run(&args(&["nav", "focus", "right"]), &env);
    let step = reply(&env, step, refused("unknown method"));
    let step = loaded(&env, step, two_panes());
    assert_eq!(sent(&step), "\"method\":\"pane.list\",\"params\":{}");
    let listing = "{\"panes\":[{\"pane_id\":\"w:p1\",\"tab_id\":\"t1\"},{\"pane_id\":\"w:p2\",\"tab_id\":\"t1\"}]}";
    let step = reply(&env, step, ok(listing));
    let step = match step {
        Step::Measure(after) => {
            assert_eq!(after.probes().len(), 1);
            assert!(!after.probes()[0].before);
            assert_eq!(after.probes()[0].near, 0.5_f64.to_bits());
            on_measures(&env, after, &vec![beside()])
        }
        _ => panic!("nothing measured"),
    };
    match step {
        Step::Focus(pane) => assert_eq!(pane, "w:p2"),
        _ => panic!("nothing focused"),
    }
}

#[test]
fn the_focus_moves_by_the_session() {
    let env = environment(Some("w:p1"));
    let step = focus_adjacent("right".to_string(), Some("w:p1".to_string()));
    let step = reply(&env, step, Err("no socket".to_string()));
    let step = loaded(&env, step, LayoutCache::default());
    let step = reply(&env, step, ok("{\"panes\":[]}"));
    let step = cut_in_half(&env, session_read(&env, step, session()));
    let step = match step {
        Step::Measure(after) => on_measures(&env, after, &vec![beside()]),
        _ => panic!("nothing measured"),
    };
    match step {
        Step::Focus(pane) => assert_eq!(pane, "w:p2"),
        _ => panic!("nothing focused"),
    }
}

#[test]
fn an_unknown_internal_id_skips_the_cache() {
    let env = environment(Some("p_2"));
    let step = focus_adjacent("left".to_string(), Some("p_2".to_string()));
    let step = loaded(&env, reply(&env, step, refused("?")), two_panes());
    let step = cut_in_half(&env, session_read(&env, step, session()));
    let step = match step {
        Step::Measure(after) => {
            let mut far = beside();
            far.negative_overlap = 0.0_f64.to_bits();
            on_measures(&env, after, &vec![far])
        }
        _ => panic!("nothing measured"),
    };
    assert_eq!(exit_code(&step), 1);
}

#[test]
fn a_pane_that_the_session_does_not_know_has_no_neighbour() {
    let env = environment(Some("w:p9"));
    let step = focus_adjacent("left".to_string(), Some("w:p9".to_string()));
    let step = loaded(&env, reply(&env, step, refused("?")), LayoutCache::default());
    let step = reply(&env, step, ok("{}"));
    assert_eq!(exit_code(&session_read(&env, step, session())), 1);
    assert_eq!(exit_code(&focus_adjacent("left".to_string(), None)), 1);
}

#[test]
fn no_neighbour_in_the_cache_leads_to_the_session() {
    let env = environment(Some("w:p2"));
    let step = focus_adjacent("right".to_string(), Some("w:p2".to_string()));
    let step = loaded(&env, reply(&env, step, refused("?")), two_panes());
    let listing = "{\"panes\":[{\"pane_id\":\"w:p1\",\"tab_id\":\"t1\"},{\"pane_id\":\"w:p2\",\"tab_id\":\"t1\"}]}";
    let step = match reply(&env, step, ok(listing)) {
        Step::Measure(after) => {
            let mut behind = beside();
            behind.limit = 0.999999_f64.to_bits();
            on_measures(&env, after, &vec![behind])
        }
        _ => panic!("nothing measured"),
    };
    let step = session_read(&env, step, Err("failed to read it".to_string()));
    assert_eq!(failure(&step), "failed to read it");
}

#[test]
fn a_focused_pane_has_its_agent_taken_back() {
    let env = environment(Some("w:p1"));
    let step = focus_pane("w:p2".to_string(), 41);
    assert_eq!(
        sent(&step),
        "\"method\":\"pane.report_agent\",\"params\":{\"agent\":\"herdr.nvim.focus.w_p2.41\",\"pane_id\":\"w:p2\",\"seq\":41,\"source\":\"herdr.nvim:navigator\",\"state\":\"idle\"}"
    );
    let step = reply(&env, step, ok("{}"));
    assert_eq!(
        sent(&step),
        "\"method\":\"agent.focus\",\"params\":{\"target\":\"herdr.nvim.focus.w_p2.41\"}"
    );
    let step = reply(&env, step, ok("{}"));
    assert_eq!(
        sent(&step),
        "\"method\":\"pane.release_agent\",\"params\":{\"agent\":\"herdr.nvim.focus.w_p2.41\",\"pane_id\":\"w:p2\",\"seq\":42,\"source\":\"herdr.nvim:navigator\"}"
    );
    assert_eq!(exit_code(&reply(&env, step, ok("{}"))), 0);
    let step = focus_pane("w:p2".to_string(), 41);
    assert_eq!(failure(&reply(&env, step, refused("no"))), "no");
}

#[test]
fn a_split_is_saved_with_both_panes() {
    let mut env = environment(Some("w:p2"));
    env.active_tab_id = Some("t1".to_string());
    env.active_pane_cwd = Some("/src".to_string());
    let step = run(&args(&["nav", "split", "down"]), &env);
    let step = loaded(&env, step, two_panes());
    assert_eq!(
        sent(&step),
        "\"method\":\"pane.split\",\"params\":{\"cwd\":\"/src\",\"direction\":\"down\",\"focus\":true,\"target_pane_id\":\"w:p2\"}"
    );
    let step = reply(&env, step, ok("{\"pane\":{\"pane_id\":\"w:p3\"}}"));
    let step = match step {
        Step::ComputeMiddle(low, high, after) => {
            assert_eq!(f64::from_bits(low), 0.0);
            assert_eq!(f64::from_bits(high), 1.0);
            on_middle(&env, after, 0.5_f64.to_bits(), 88)
        }
        _ => panic!("nothing to compute"),
    };
    let cache = saved(step);
    assert_eq!(find_rect(&cache, "t1", "w:p2").unwrap().y1, 0.5_f64.to_bits());
    assert_eq!(find_rect(&cache, "t1", "w:p3").unwrap().y0, 0.5_f64.to_bits());
    assert_eq!(cache.internal_aliases.get("p_3").unwrap(), "w:p3");
    assert_eq!(cache.tabs.get("t1").unwrap().updated_ns, 88);
}

#[test]
fn a_split_finds_its_tab_in_the_session() {
    let env = environment(Some("w:p1"));
    let step = split_pane(&env, "right".to_string(), Some("w:p1".to_string()));
    let step = loaded(&env, step, LayoutCache::default());
    let step = cut_in_half(&env, session_read(&env, step, session()));
    assert_eq!(
        sent(&step),
        "\"method\":\"pane.split\",\"params\":{\"cwd\":null,\"direction\":\"right\",\"focus\":true,\"target_pane_id\":\"w:p1\"}"
    );
    match reply(&env, step, ok("{\"pane\":{\"pane_id\":\"w:p3\"}}")) {
        Step::ComputeMiddle(low, high, after) => {
            assert_eq!((f64::from_bits(low), f64::from_bits(high)), (0.0, 0.5));
            assert_eq!(after.tab_id, "t1");
        }
        _ => panic!("nothing to compute"),
    }
}

#[test]
fn a_split_without_a_tab_is_refused() {
    let env = environment(Some("w:p1"));
    let step = split_pane(&env, "right".to_string(), Some("w:p1".to_string()));
    let step = loaded(&env, step, LayoutCache::default());
    let step = session_read(&env, step, Err("failed to read it".to_string()));
    assert_eq!(failure(&step), "active Herdr tab id is unavailable");
}

#[test]
fn a_split_of_a_named_tab_needs_the_session_where_the_cache_lacks_it() {
    let mut env = environment(Some("w:p1"));
    env.active_tab_id = Some("t5".to_string());
    let step = split_pane(&env, "right".to_string(), Some("w:p1".to_string()));
    let step = loaded(&env, step, two_panes());
    let step = session_read(&env, step, Err("failed to read it".to_string()));
    assert_eq!(failure(&step), "failed to read it");
    let step = split_pane(&env, "right".to_string(), Some("w:p1".to_string()));
    let step = loaded(&env, step, two_panes());
    let step = cut_in_half(&env, session_read(&env, step, session()));
    match reply(&env, step, ok("{\"pane\":{\"pane_id\":\"w:p3\"}}")) {
        Step::ComputeMiddle(_, _, after) => assert_eq!(after.tab_id, "t5"),
        _ => panic!("nothing to compute"),
    }
}

#[test]
fn a_split_of_a_pane_without_a_rectangle_is_saved_as_well() {
    let mut env = environment(Some("w:p9"));
    env.active_tab_id = Some("t1".to_string());
    let step = split_pane(&env, "right".to_string(), Some("w:p9".to_string()));
    let step = loaded(&env, step, two_panes());
    let cache = saved(reply(&env, step, ok("{\"pane\":{\"pane_id\":\"w:p3\"}}")));
    assert_eq!(cache.internal_aliases.get("p_3").unwrap(), "w:p3");
    assert_eq!(cache.tabs.get("t1").unwrap().panes.len(), 2);
}

#[test]
fn a_split_may_fail() {
    let mut env = environment(Some("w:p1"));
    let step = split_pane(&env, "right".to_string(), Some("p_1".to_string()));
    assert_eq!(failure(&step), "split requires Herdr's active public pane id");
    assert_eq!(exit_code(&split_pane(&env, "right".to_string(), None)), 1);
    env.active_tab_id = Some("t1".to_string());
    let step = split_pane(&env, "right".to_string(), Some("w:p1".to_string()));
    let step = loaded(&env, step, two_panes());
    assert_eq!(failure(&reply(&env, step, refused("no room"))), "no room");
    let step = split_pane(&env, "right".to_string(), Some("w:p1".to_string()));
    let step = loaded(&env, step, two_panes());
    assert_eq!(exit_code(&reply(&env, step, ok("{}"))), 1);
}

#[test]
fn without_a_home_nothing_is_kept() {
    let mut env = environment(Some("w:p1"));
    env.home = None;
    let step = register(&env, Some("w:p1".to_string()));
    match step {
        Step::LoadCache(None, after) => {
            assert_eq!(
                failure(&on_cache(&env, after, LayoutCache::default())),
                "HOME is not set"
            );
        }
        _ => panic!("no cache loaded"),
    }
}

#[test]
fn a_release_undoes_a_registration() {
    let env = environment(Some("w:p1"));
    let other = format!("{DIR}/panes/w:p2").into_bytes();
    let mut files: Vec<Vec<u8>> = vec![other.clone()];
    match loaded(&env, run(&args(&["nav", "register"]), &env), LayoutCache::default()) {
        Step::WriteMarker { path, .. } => files.push(path),
        _ => panic!("no marker written"),
    }
    assert_eq!(files.len(), 2);
    let step = loaded(&env, run(&args(&["nav", "release"]), &env), LayoutCache::default());
    let found = matches!(&step, Step::CheckMarker(path, _) if files.contains(path));
    match checked(&env, step, "w:p1", found) {
        Step::RemoveMarkers(paths, after) => {
            files.retain(|file| !paths.contains(file));
            assert_eq!(exit_code(&on_removed(&env, after)), 0);
        }
        _ => panic!("nothing removed"),
    }
    assert_eq!(files, vec![other]);
    let step = loaded(&env, run(&args(&["nav", "release"]), &env), LayoutCache::default());
    let found = matches!(&step, Step::CheckMarker(path, _) if files.contains(path));
    assert_eq!(exit_code(&checked(&env, step, "w:p1", found)), 0);
}
