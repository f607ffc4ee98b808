use herdr_navigator::cache::{
    alias_text, lookup_public_pane_id, public_id_from_cache, record_session_aliases, CachedTab,
    LayoutCache,
};
use herdr_navigator::json::Json;
use herdr_navigator::layout::Rect;
use herdr_navigator::panes::{
    active_pane_in, cache_tab_is_live, cached_adjacent, given_pane_id, live_pane_ids,
    live_tab_pane_ids, non_empty, pane_list, prune_nvim_markers, tab_key_for_public_pane,
};
use herdr_navigator::paths::Environment;
use herdr_navigator::seed::{
    find_rect, prepare_seed, record_new_pane, record_split, seed_active_tab_cache,
};
use herdr_navigator::session::{
    active_workspace_and_tab, internal_id_from_pane_id, pane_public_mapping, seed_tab_id,
    select_active,
};
use herdr_navigator::tables::{NumberMap, TextMap};
use herdr_navigator::wire::parse_json;

fn doc(text: &str) -> Json {
    parse_json(text).unwrap()
}

fn strings(items: &[&str]) -> Vec<String> {
    items.iter().map(|s| s.to_string()).collect()
}

fn cell(x0: f64, y0: f64, x1: f64, y1: f64) -> Rect {
    Rect { x0: x0.to_bits(), y0: y0.to_bits(), x1: x1.to_bits(), y1: y1.to_bits() }
}

fn selection_error(text: &str) -> String {
    match select_active(&doc(text)) {
        Ok(_) => panic!("selected"),
        Err(message) => message,
    }
}

#[test]
fn the_active_workspace_and_tab_are_selected() {
    let data = doc(
        r#"{"active":1,"workspaces":[{"id":"a"},{"id":"b","active_tab":1,"tabs":[{"tab_id":"x"},{"tab_id":"y"}]}]}"#,
    );
    let (workspace, tab) = select_active(&data).unwrap();
    assert_eq!(workspace.text_at("id").unwrap(), "b");
    assert_eq!(tab.text_at("tab_id").unwrap(), "y");
}

#[test]
fn the_first_workspace_and_tab_count_without_a_choice() {
    let data = doc(r#"{"active":"?","workspaces":[{"tabs":[{"tab_id":"x"}]}]}"#);
    let (_, tab) = select_active(&data).unwrap();
    assert_eq!(tab.text_at("tab_id").unwrap(), "x");
}

#[test]
fn what_a_session_lacks_is_told() {
    assert_eq!(selection_error("{}"), "session.json has no workspaces array");
    assert_eq!(
        selection_error(r#"{"workspaces":[]}"#),
        "active Herdr workspace not found"
    );
    assert_eq!(
        selection_error(r#"{"workspaces":[{}]}"#),
        "active Herdr workspace has no tabs array"
    );
    assert_eq!(
        selection_error(r#"{"workspaces":[{"tabs":[{}],"active_tab":1}]}"#),
        "active Herdr tab not found"
    );
    assert_eq!(
        active_workspace_and_tab("/run/session.json", "").unwrap_err(),
        "failed to parse /run/session.json: EOF while parsing a value at line 1 column 0"
    );
    assert!(active_workspace_and_tab("f", r#"{"workspaces":[{"tabs":[{}]}]}"#).is_ok());
}

#[test]
fn panes_are_mapped_to_public_ids() {
    let workspace = doc(r#"{"id":"ws","public_pane_numbers":{"3":7,"-2":4,"10":"x"}}"#);
    let tab = doc(r#"{"panes":{"3":{},"10":{},"-2":{},"x":{},"+5":{},"-9":{}}}"#);
    let mapping = pane_public_mapping(&workspace, &tab).unwrap();
    assert_eq!(mapping.keys(), vec![-9, -2, 3, 5, 10]);
    assert_eq!(mapping.get(3).unwrap(), "ws:p7");
    assert_eq!(mapping.get(-2).unwrap(), "ws:p4");
    assert_eq!(mapping.get(10).unwrap(), "ws:p11");
    assert_eq!(mapping.get(5).unwrap(), "ws:p6");
    assert_eq!(mapping.get(-9).unwrap(), "ws:p18446744073709551608");
}

#[test]
fn the_default_number_of_pane_minus_one_wraps_to_zero() {
    let workspace = doc(r#"{"id":"ws","public_pane_numbers":{}}"#);
    let mapping = pane_public_mapping(&workspace, &doc(r#"{"panes":{"-1":{}}}"#)).unwrap();
    assert_eq!(mapping.get(-1).unwrap(), "ws:p0");
}

#[test]
fn what_a_mapping_lacks_is_told() {
    let tab = doc(r#"{"panes":{}}"#);
    let error = |w: &str, t: &Json| match pane_public_mapping(&doc(w), t) {
        Ok(_) => panic!("mapped"),
        Err(message) => message,
    };
    assert_eq!(error("{}", &tab), "active Herdr workspace has no id");
    assert_eq!(
        error(r#"{"id":"w"}"#, &doc(r#"{"panes":[]}"#)),
        "active Herdr tab has no panes object"
    );
    assert_eq!(error(r#"{"id":"w"}"#, &doc("{}")), "active Herdr tab has no panes object");
    assert_eq!(
        error(r#"{"id":"w"}"#, &tab),
        "active Herdr workspace has no public_pane_numbers"
    );
}

#[test]
fn tabs_have_ids() {
    let workspace = doc(r#"{"id":"ws","active_tab":2}"#);
    let named = doc(r#"{"tab_id":"t9"}"#);
    let plain = doc("{}");
    assert_eq!(seed_tab_id(Some("env".to_string()), &workspace, &named).unwrap(), "env");
    assert_eq!(seed_tab_id(None, &workspace, &named).unwrap(), "t9");
    assert_eq!(seed_tab_id(None, &workspace, &plain).unwrap(), "ws:3");
    assert_eq!(seed_tab_id(None, &doc(r#"{"id":"ws"}"#), &plain).unwrap(), "ws:1");
    assert_eq!(
        seed_tab_id(None, &doc("{}"), &plain).unwrap_err(),
        "active Herdr tab has no id"
    );
}

fn sample_mapping() -> NumberMap<String> {
    let mut mapping: NumberMap<String> = NumberMap::new();
    mapping.insert(4, "ws:p1".to_string());
    mapping.insert(2, "ws:p2".to_string());
    mapping.insert(9, "ws:p1".to_string());
    mapping
}

#[test]
fn ids_name_panes() {
    let mapping = sample_mapping();
    assert_eq!(internal_id_from_pane_id("ws:p1", &mapping), Some(4));
    assert_eq!(internal_id_from_pane_id("ws:p2", &mapping), Some(2));
    assert_eq!(internal_id_from_pane_id("p_9", &mapping), Some(9));
    assert_eq!(internal_id_from_pane_id("9", &mapping), Some(9));
    assert_eq!(internal_id_from_pane_id("p_3", &mapping), None);
    assert_eq!(internal_id_from_pane_id("p_", &mapping), None);
    assert_eq!(internal_id_from_pane_id("p_p_9", &mapping), None);
    assert_eq!(internal_id_from_pane_id("", &mapping), None);
}

#[test]
fn aliases_are_recorded() {
    let mut cache = LayoutCache::default();
    cache.max_internal = 5;
    cache.internal_aliases.insert("p_2".to_string(), "old".to_string());
    cache.internal_aliases.insert("p_7".to_string(), "kept".to_string());
    record_session_aliases(&mut cache, &sample_mapping());
    assert_eq!(cache.max_internal, 9);
    assert_eq!(cache.internal_aliases.get("p_2").unwrap(), "ws:p2");
    assert_eq!(cache.internal_aliases.get("p_4").unwrap(), "ws:p1");
    assert_eq!(cache.internal_aliases.get("p_7").unwrap(), "kept");
    assert_eq!(cache.internal_aliases.len(), 4);
    record_session_aliases(&mut cache, &sample_mapping());
    assert_eq!(cache.max_internal, 9);
    assert_eq!(cache.internal_aliases.len(), 4);
    assert_eq!(alias_text(-3), "p_-3");
}

#[test]
fn public_ids_are_looked_up() {
    let mut cache = LayoutCache::default();
    cache.internal_aliases.insert("p_2".to_string(), "ws:p5".to_string());
    cache.internal_aliases.insert("ws:p1".to_string(), "never".to_string());
    assert_eq!(public_id_from_cache("p_2", &cache), "ws:p5");
    assert_eq!(public_id_from_cache("p_3", &cache), "p_3");
    assert_eq!(public_id_from_cache("ws:p1", &cache), "ws:p1");
    assert_eq!(lookup_public_pane_id("p_2", &cache), Some("ws:p5".to_string()));
    assert_eq!(lookup_public_pane_id("p_3", &cache), None);
    assert_eq!(lookup_public_pane_id("ws:p1", &cache), Some("ws:p1".to_string()));
}

const LISTING: &str = r#"{"panes":[
    {"pane_id":"w:p2","tab_id":"t1","focused":false},
    {"tab_id":"t1","focused":true},
    {"pane_id":"w:p1","tab_id":"t1","focused":true},
    {"pane_id":"w:p3","tab_id":"t2","focused":true},
    {"pane_id":"w:p4"}]}"#;

#[test]
fn the_focused_pane_is_found() {
    assert_eq!(active_pane_in(&doc(LISTING)).unwrap(), Some("w:p1".to_string()));
    assert_eq!(active_pane_in(&doc(r#"{"panes":[{"pane_id":"x","focused":1}]}"#)).unwrap(), None);
    assert_eq!(
        active_pane_in(&doc("{}")).unwrap_err(),
        "Herdr pane.list returned no panes array"
    );
}

#[test]
fn the_environment_names_the_active_pane() {
    let mut env = Environment {
        home: None,
        socket_path: None,
        session: None,
        cache_home: None,
        active_pane_id: Some(String::new()),
        pane_id: None,
        active_tab_id: None,
        active_pane_cwd: None,
    };
    assert_eq!(given_pane_id(&env), None);
    env.pane_id = Some("p_1".to_string());
    assert_eq!(given_pane_id(&env), Some("p_1".to_string()));
    env.active_pane_id = Some("w:p1".to_string());
    assert_eq!(given_pane_id(&env), Some("w:p1".to_string()));
    assert_eq!(non_empty(&Some(String::new())), None);
    assert_eq!(non_empty(&None), None);
    assert_eq!(non_empty(&Some("x".to_string())), Some("x".to_string()));
}

#[test]
fn live_panes_are_listed() {
    let panes = pane_list(&doc(LISTING));
    assert_eq!(panes.len(), 5);
    assert!(pane_list(&doc("{}")).is_empty());
    assert_eq!(tab_key_for_public_pane("w:p3", &panes), Some("t2".to_string()));
    assert_eq!(tab_key_for_public_pane("w:p4", &panes), None);
    assert_eq!(tab_key_for_public_pane("w:p9", &panes), None);
    assert_eq!(live_tab_pane_ids("t1", &panes), strings(&["w:p1", "w:p2"]));
    assert_eq!(live_pane_ids(&panes), strings(&["w:p2", "w:p1", "w:p3", "w:p4"]));
}

#[test]
fn stale_markers_are_those_of_no_live_pane() {
    let names = strings(&["w:p1", "gone", "w:p3", "gone2"]);
    let live = strings(&["w:p3", "w:p1"]);
    assert_eq!(prune_nvim_markers(&names, &live), strings(&["gone", "gone2"]));
    assert!(prune_nvim_markers(&live, &live).is_empty());
}

fn sample_tab() -> CachedTab {
    let mut panes: TextMap<Rect> = TextMap::new();
    panes.insert("w:p2".to_string(), cell(0.5, 0.0, 1.0, 1.0));
    panes.insert("w:p1".to_string(), cell(0.0, 0.0, 0.5, 1.0));
    CachedTab { panes, updated_ns: 1 }
}

#[test]
fn a_cached_tab_is_live_with_just_the_live_panes() {
    let panes = pane_list(&doc(LISTING));
    let mut tab = sample_tab();
    assert!(cache_tab_is_live(&tab, "t1", &panes));
    assert!(!cache_tab_is_live(&tab, "t2", &panes));
    tab.panes.insert("w:p7".to_string(), cell(0.0, 0.0, 0.0, 0.0));
    assert!(!cache_tab_is_live(&tab, "t1", &panes));
    let doubled = pane_list(&doc(
        r#"{"panes":[{"pane_id":"w:p1","tab_id":"t1"},{"pane_id":"w:p2","tab_id":"t1"},{"pane_id":"w:p2","tab_id":"t1"}]}"#,
    ));
    assert!(!cache_tab_is_live(&sample_tab(), "t1", &doubled));
}

#[test]
fn the_cache_is_searched_where_it_is_live() {
    let panes = pane_list(&doc(LISTING));
    let mut cache = LayoutCache::default();
    assert!(cached_adjacent("right", "w:p1", &cache, &panes).is_none());
    cache.tabs.insert("t1".to_string(), sample_tab());
    let search = cached_adjacent("right", "w:p1", &cache, &panes).unwrap();
    assert_eq!(search.panes, strings(&["w:p2"]));
    assert!(cached_adjacent("right", "w:p9", &cache, &panes).is_none());
    assert!(cached_adjacent("right", "p_1", &cache, &panes).is_none());
    cache.internal_aliases.insert("p_1".to_string(), "w:p1".to_string());
    assert!(cached_adjacent("right", "p_1", &cache, &panes).is_some());
}

#[test]
fn the_cache_is_seeded_from_a_session() {
    let workspace = doc(r#"{"id":"w","public_pane_numbers":{"1":1,"2":2}}"#);
    let tab = doc(
        r#"{"tab_id":"t1","panes":{"1":{},"2":{},"8":{}},
        "layout":{"Split":{"direction":"Horizontal","first":{"Pane":1},
        "second":{"Split":{"first":{"Pane":2},"second":{"Pane":3}}}}}}"#,
    );
    let seed = prepare_seed(None, &workspace, &tab).unwrap();
    assert_eq!(seed.tab_id, "t1");
    assert_eq!(seed.plan.cuts.len(), 2);
    let mut cache = LayoutCache::default();
    let values = vec![0.5_f64.to_bits(), 0.25_f64.to_bits()];
    assert_eq!(
        seed_active_tab_cache(&mut cache, &seed, &values, 77),
        Some("t1".to_string())
    );
    assert_eq!(cache.max_internal, 8);
    assert_eq!(cache.internal_aliases.get("p_8").unwrap(), "w:p9");
    let cached = cache.tabs.get("t1").unwrap();
    assert_eq!(cached.updated_ns, 77);
    assert_eq!(cached.panes.len(), 2);
    assert_eq!(cached.panes.get("w:p1"), Some(&cell(0.0, 0.0, 0.5, 1.0)));
    assert_eq!(cached.panes.get("w:p2"), Some(&cell(0.5, 0.0, 1.0, 0.25)));
}

#[test]
fn a_session_without_rectangles_seeds_no_tab() {
    let workspace = doc(r#"{"id":"w","public_pane_numbers":{}}"#);
    let tab = doc(r#"{"tab_id":"t1","panes":{"1":{}},"layout":{"Pane":5}}"#);
    let seed = prepare_seed(Some("t7".to_string()), &workspace, &tab).unwrap();
    assert_eq!(seed.tab_id, "t7");
    let mut cache = LayoutCache::default();
    assert_eq!(seed_active_tab_cache(&mut cache, &seed, &Vec::new(), 77), None);
    assert_eq!(cache.tabs.len(), 0);
    assert_eq!(cache.internal_aliases.get("p_1").unwrap(), "w:p2");
    assert!(prepare_seed(None, &doc("{}"), &tab).is_err());
}

#[test]
fn splits_are_recorded() {
    let mut cache = LayoutCache::default();
    cache.max_internal = 4;
    cache.tabs.insert("t1".to_string(), sample_tab());
    record_new_pane(&mut cache, "w:p5");
    assert_eq!(cache.max_internal, 5);
    assert_eq!(public_id_from_cache("p_5", &cache), "w:p5");
    record_split(&mut cache, "t1", "w:p2", "w:p5", "down", 0.5_f64.to_bits(), 99);
    assert_eq!(find_rect(&cache, "t1", "w:p2"), Some(cell(0.5, 0.0, 1.0, 0.5)));
    assert_eq!(find_rect(&cache, "t1", "w:p5"), Some(cell(0.5, 0.5, 1.0, 1.0)));
    assert_eq!(find_rect(&cache, "t1", "w:p1"), Some(cell(0.0, 0.0, 0.5, 1.0)));
    assert_eq!(cache.tabs.get("t1").unwrap().updated_ns, 99);
}

#[test]
fn a_split_of_an_unknown_pane_changes_no_tab() {
    let mut cache = LayoutCache::default();
    cache.tabs.insert("t1".to_string(), sample_tab());
    record_split(&mut cache, "t1", "w:p8", "w:p9", "right", 0.5_f64.to_bits(), 99);
    record_split(&mut cache, "t8", "w:p1", "w:p9", "right", 0.5_f64.to_bits(), 99);
    assert_eq!(cache.tabs.len(), 1);
    assert_eq!(cache.tabs.get("t1").unwrap().panes.len(), 2);
    assert_eq!(cache.tabs.get("t1").unwrap().updated_ns, 1);
    assert_eq!(find_rect(&cache, "t8", "w:p1"), None);
}

#[test]
fn the_number_after_the_largest_wraps() {
    let mut cache = LayoutCache::default();
    cache.max_internal = i64::MAX;
    record_new_pane(&mut cache, "w:p5");
    assert_eq!(cache.max_internal, i64::MAX);
    assert_eq!(cache.internal_aliases.get("p_-9223372036854775808").unwrap(), "w:p5");
}

#[test]
fn a_seeded_tab_leaves_the_others_alone() {
    let workspace = doc(r#"{"id":"w","public_pane_numbers":{}}"#);
    let tab = doc(r#"{"tab_id":"t2","panes":{"4":{}},"layout":{"Pane":4}}"#);
    let seed = prepare_seed(None, &workspace, &tab).unwrap();
    let mut cache = LayoutCache::default();
    cache.tabs.insert("t1".to_string(), sample_tab());
    assert_eq!(
        seed_active_tab_cache(&mut cache, &seed, &Vec::new(), 9),
        Some("t2".to_string())
    );
    assert_eq!(cache.tabs.len(), 2);
    assert_eq!(find_rect(&cache, "t1", "w:p2"), Some(cell(0.5, 0.0, 1.0, 1.0)));
    assert_eq!(find_rect(&cache, "t2", "w:p5"), Some(cell(0.0, 0.0, 1.0, 1.0)));
    assert_eq!(lookup_public_pane_id("p_4", &cache), Some("w:p5".to_string()));
}

#[test]
fn a_split_keeps_a_cached_tab_live() {
    let mut cache = LayoutCache::default();
    cache.tabs.insert("t1".to_string(), sample_tab());
    let before = pane_list(&doc(
        r#"{"panes":[{"pane_id":"w:p1","tab_id":"t1"},{"pane_id":"w:p2","tab_id":"t1"}]}"#,
    ));
    let after = pane_list(&doc(
        r#"{"panes":[{"pane_id":"w:p3","tab_id":"t1"},{"pane_id":"w:p1","tab_id":"t1"},{"pane_id":"w:p2","tab_id":"t1"}]}"#,
    ));
    assert!(cache_tab_is_live(cache.tabs.get("t1").unwrap(), "t1", &before));
    assert!(!cache_tab_is_live(cache.tabs.get("t1").unwrap(), "t1", &after));
    record_split(&mut cache, "t1", "w:p1", "w:p3", "right", 0.25_f64.to_bits(), 2);
    assert!(cache_tab_is_live(cache.tabs.get("t1").unwrap(), "t1", &after));
}

#[test]
fn a_new_pane_takes_no_other_id() {
    let mut cache = LayoutCache::default();
    record_session_aliases(&mut cache, &sample_mapping());
    record_new_pane(&mut cache, "ws:p8");
    assert_eq!(cache.internal_aliases.len(), 4);
    assert_eq!(cache.internal_aliases.get("p_10").unwrap(), "ws:p8");
    assert_eq!(cache.internal_aliases.get("p_9").unwrap(), "ws:p1");
    assert_eq!(cache.max_internal, 10);
}
