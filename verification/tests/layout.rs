use herdr_navigator::adjacent::{
    adjacent_internal, adjacent_public, search_internal, search_public, Measure, Probe,
};
use herdr_navigator::json::JsonNumber;
use herdr_navigator::layout::{
    next_cut, place_panes, plan_layout, split_rect, split_side, Plan, Rect,
};
use herdr_navigator::tables::{NumberMap, TextMap};
use herdr_navigator::wire::parse_json;

fn rect(x0: f64, y0: f64, x1: f64, y1: f64) -> Rect {
    Rect { x0: x0.to_bits(), y0: y0.to_bits(), x1: x1.to_bits(), y1: y1.to_bits() }
}

fn ratio_value(ratio: JsonNumber) -> f64 {
    match ratio {
        JsonNumber::PosInt(n) => n as f64,
        JsonNumber::NegInt(n) => n as f64,
        JsonNumber::Float(bits) => f64::from_bits(bits),
    }
}

fn cut_values(plan: &Plan) -> Vec<u64> {
    let mut values: Vec<u64> = Vec::new();
    while let Some((low, high, ratio)) = next_cut(plan, &values) {
        let low = f64::from_bits(low);
        let high = f64::from_bits(high);
        values.push((low + (high - low) * ratio_value(ratio)).to_bits());
    }
    values
}

fn rects_in(tab: &str) -> NumberMap<Rect> {
    let plan = plan_layout(&parse_json(tab).unwrap());
    let values = cut_values(&plan);
    place_panes(&plan, &values)
}

fn measure(probe: &Probe) -> Measure {
    let near = f64::from_bits(probe.near);
    let far = f64::from_bits(probe.far);
    let limit = if probe.before { near + 0.000001 } else { near - 0.000001 };
    let gap = if probe.before { near - far } else { far - near };
    let low = f64::max(f64::from_bits(probe.low), f64::from_bits(probe.other_low));
    let high = f64::min(f64::from_bits(probe.high), f64::from_bits(probe.other_high));
    let overlap = f64::max(0.0, high - low);
    Measure { limit: limit.to_bits(), gap: gap.to_bits(), negative_overlap: (-overlap).to_bits() }
}

fn neighbour(direction: &str, current: i64, rects: &NumberMap<Rect>) -> Option<i64> {
    let search = search_internal(direction, current, rects);
    let measures: Vec<Measure> = search.probes.iter().map(measure).collect();
    adjacent_internal(&search, &measures)
}

fn public_neighbour(direction: &str, current: &str, rects: &TextMap<Rect>) -> Option<String> {
    let search = search_public(direction, current, rects);
    let measures: Vec<Measure> = search.probes.iter().map(measure).collect();
    adjacent_public(&search, &measures)
}

const THREE: &str = r#"{"layout":{"Split":{"direction":"Horizontal","ratio":0.25,
    "first":{"Pane":1},
    "second":{"Split":{"direction":"Vertical","first":{"Pane":2},"second":{"Pane":3}}}}}}"#;

#[test]
fn layouts_give_rectangles() {
    let rects = rects_in(THREE);
    assert_eq!(rects.keys(), vec![1, 2, 3]);
    assert_eq!(rects.get(1), Some(&rect(0.0, 0.0, 0.25, 1.0)));
    assert_eq!(rects.get(2), Some(&rect(0.25, 0.0, 1.0, 0.5)));
    assert_eq!(rects.get(3), Some(&rect(0.25, 0.5, 1.0, 1.0)));
}

#[test]
fn a_single_pane_fills_the_tab() {
    let rects = rects_in(r#"{"layout":{"Pane":-4}}"#);
    assert_eq!(rects.get(-4), Some(&rect(0.0, 0.0, 1.0, 1.0)));
}

#[test]
fn odd_layouts_give_what_they_can() {
    assert!(rects_in("{}").keys().is_empty());
    assert!(rects_in(r#"{"layout":null}"#).keys().is_empty());
    assert!(rects_in(r#"{"layout":{"Pane":"1"}}"#).keys().is_empty());
    assert!(rects_in(r#"{"layout":{"Split":{"first":{"Pane":1}}}}"#).keys().is_empty());
    assert!(rects_in(r#"{"layout":{"Split":[]}}"#).keys().is_empty());
    // A leaf counts before a split, and the last occurrence of a pane counts.
    let both = rects_in(
        r#"{"layout":{"Pane":7,"Split":{"first":{"Pane":1},"second":{"Pane":2}}}}"#,
    );
    assert_eq!(both.keys(), vec![7]);
    let twice = rects_in(r#"{"layout":{"Split":{"first":{"Pane":1},"second":{"Pane":1}}}}"#);
    assert_eq!(twice.get(1), Some(&rect(0.0, 0.5, 1.0, 1.0)));
}

#[test]
fn ratios_may_be_integers_or_missing() {
    let whole = rects_in(
        r#"{"layout":{"Split":{"direction":"Horizontal","ratio":1,"first":{"Pane":1},"second":{"Pane":2}}}}"#,
    );
    assert_eq!(whole.get(1), Some(&rect(0.0, 0.0, 1.0, 1.0)));
    assert_eq!(whole.get(2), Some(&rect(1.0, 0.0, 1.0, 1.0)));
    let half = rects_in(
        r#"{"layout":{"Split":{"direction":"Horizontal","ratio":"x","first":{"Pane":1},"second":{"Pane":2}}}}"#,
    );
    assert_eq!(half.get(1), Some(&rect(0.0, 0.0, 0.5, 1.0)));
}

#[test]
fn neighbours_are_found_in_each_direction() {
    let rects = rects_in(THREE);
    assert_eq!(neighbour("right", 1, &rects), Some(2));
    assert_eq!(neighbour("left", 2, &rects), Some(1));
    assert_eq!(neighbour("left", 3, &rects), Some(1));
    assert_eq!(neighbour("down", 2, &rects), Some(3));
    assert_eq!(neighbour("up", 3, &rects), Some(2));
    assert_eq!(neighbour("up", 2, &rects), None);
    assert_eq!(neighbour("left", 1, &rects), None);
    assert_eq!(neighbour("sideways", 1, &rects), None);
    assert_eq!(neighbour("left", 9, &rects), None);
}

#[test]
fn the_longest_overlap_wins_among_equal_gaps() {
    let rects = rects_in(
        r#"{"layout":{"Split":{"direction":"Horizontal","ratio":0.5,"first":{"Pane":1},
        "second":{"Split":{"direction":"Vertical","ratio":0.25,"first":{"Pane":2},"second":{"Pane":3}}}}}}"#,
    );
    assert_eq!(neighbour("right", 1, &rects), Some(3));
}

#[test]
fn the_smallest_gap_wins_before_the_overlap() {
    let mut rects: NumberMap<Rect> = NumberMap::new();
    rects.insert(1, rect(0.0, 0.0, 0.2, 1.0));
    rects.insert(2, rect(0.2, 0.0, 0.5, 0.1));
    rects.insert(3, rect(0.5, 0.0, 1.0, 1.0));
    assert_eq!(neighbour("right", 1, &rects), Some(2));
    assert_eq!(neighbour("left", 3, &rects), Some(2));
}

#[test]
fn a_small_gap_is_tolerated_and_no_overlap_is_not() {
    let mut rects: NumberMap<Rect> = NumberMap::new();
    rects.insert(1, rect(0.0, 0.0, 0.5000005, 0.5));
    rects.insert(2, rect(0.5, 0.0, 1.0, 0.5));
    assert_eq!(neighbour("right", 1, &rects), Some(2));
    rects.insert(2, rect(0.49, 0.0, 1.0, 0.5));
    assert_eq!(neighbour("right", 1, &rects), None);
    rects.insert(2, rect(0.6, 0.5, 1.0, 1.0));
    assert_eq!(neighbour("right", 1, &rects), None);
}

#[test]
fn the_smallest_id_wins_among_equals() {
    let mut rects: TextMap<Rect> = TextMap::new();
    rects.insert("w:p1".to_string(), rect(0.0, 0.0, 0.5, 1.0));
    rects.insert("w:p3".to_string(), rect(0.5, 0.5, 1.0, 1.0));
    rects.insert("w:p2".to_string(), rect(0.5, 0.0, 1.0, 0.5));
    assert_eq!(public_neighbour("right", "w:p1", &rects), Some("w:p2".to_string()));
    assert_eq!(public_neighbour("left", "w:p3", &rects), Some("w:p1".to_string()));
    assert_eq!(public_neighbour("left", "w:p1", &rects), None);
    assert_eq!(public_neighbour("left", "w:p9", &rects), None);
}

#[test]
fn what_is_no_number_is_no_neighbour() {
    let mut rects: NumberMap<Rect> = NumberMap::new();
    rects.insert(1, rect(0.0, 0.0, 0.5, 1.0));
    rects.insert(2, rect(f64::NAN, 0.0, 1.0, 1.0));
    rects.insert(3, rect(-0.0, 0.0, 0.0, 1.0));
    assert_eq!(neighbour("right", 1, &rects), None);
    assert_eq!(neighbour("left", 1, &rects), Some(3));
}

#[test]
fn splits_cut_a_rectangle_in_two() {
    let whole = rect(0.0, 0.25, 1.0, 0.75);
    assert_eq!(split_side(whole, "right"), (0.0_f64.to_bits(), 1.0_f64.to_bits()));
    assert_eq!(split_side(whole, "down"), (0.25_f64.to_bits(), 0.75_f64.to_bits()));
    assert_eq!(
        split_rect(whole, "right", 0.5_f64.to_bits()),
        (rect(0.0, 0.25, 0.5, 0.75), rect(0.5, 0.25, 1.0, 0.75))
    );
    assert_eq!(
        split_rect(whole, "down", 0.5_f64.to_bits()),
        (rect(0.0, 0.25, 1.0, 0.5), rect(0.0, 0.5, 1.0, 0.75))
    );
}

fn f(bits: u64) -> f64 {
    f64::from_bits(bits)
}

#[test]
fn the_panes_of_a_layout_do_not_overlap() {
    let rects = rects_in(
        r#"{"layout":{"Split":{"direction":"Horizontal","ratio":0.3,
        "first":{"Split":{"direction":"Vertical","ratio":0.7,"first":{"Pane":1},"second":{"Pane":2}}},
        "second":{"Split":{"direction":"Vertical","ratio":0.2,"first":{"Pane":3},
        "second":{"Split":{"direction":"Horizontal","ratio":0.9,"first":{"Pane":4},"second":{"Pane":5}}}}}}}}"#,
    );
    for a in rects.keys() {
        let p = rects.get(a).unwrap();
        assert!(0.0 <= f(p.x0) && f(p.x0) <= f(p.x1) && f(p.x1) <= 1.0);
        assert!(0.0 <= f(p.y0) && f(p.y0) <= f(p.y1) && f(p.y1) <= 1.0);
        for b in rects.keys() {
            let q = rects.get(b).unwrap();
            assert!(
                a == b
                    || f(p.x1) <= f(q.x0)
                    || f(q.x1) <= f(p.x0)
                    || f(p.y1) <= f(q.y0)
                    || f(q.y1) <= f(p.y0)
            );
        }
    }
}

fn changed(rects: &NumberMap<Rect>, change: fn(&Rect) -> Rect) -> NumberMap<Rect> {
    let mut out: NumberMap<Rect> = NumberMap::new();
    for pane in rects.keys() {
        out.insert(pane, change(rects.get(pane).unwrap()));
    }
    out
}

#[test]
fn the_search_prefers_no_axis_and_no_side() {
    let rects = rects_in(THREE);
    let turned = changed(&rects, |r| Rect { x0: r.y0, y0: r.x0, x1: r.y1, y1: r.x1 });
    let mirror = changed(&rects, |r| rect(-f(r.x1), f(r.y0), -f(r.x0), f(r.y1)));
    for pane in rects.keys() {
        assert_eq!(neighbour("up", pane, &rects), neighbour("left", pane, &turned));
        assert_eq!(neighbour("down", pane, &rects), neighbour("right", pane, &turned));
        assert_eq!(neighbour("left", pane, &rects), neighbour("up", pane, &turned));
        assert_eq!(neighbour("right", pane, &rects), neighbour("down", pane, &turned));
        assert_eq!(neighbour("left", pane, &rects), neighbour("right", pane, &mirror));
        assert_eq!(neighbour("right", pane, &rects), neighbour("left", pane, &mirror));
    }
}

#[test]
fn the_halves_of_a_split_are_neighbours() {
    let rects = rects_in(THREE);
    for (direction, back) in [("right", "left"), ("down", "up")] {
        for target in rects.keys() {
            let whole = *rects.get(target).unwrap();
            let (low, high) = split_side(whole, direction);
            let middle = f(low) + (f(high) - f(low)) * 0.5;
            let (first, second) = split_rect(whole, direction, middle.to_bits());
            let mut after = changed(&rects, |r| *r);
            after.insert(target, first);
            after.insert(9, second);
            assert_eq!(neighbour(direction, target, &after), Some(9));
            assert_eq!(neighbour(back, 9, &after), Some(target));
        }
    }
}

#[test]
fn a_recorded_split_agrees_with_the_layout() {
    for (name, direction) in [("Horizontal", "right"), ("Vertical", "down")] {
        let rects = rects_in(&format!(
            r#"{{"layout":{{"Split":{{"direction":"{name}","ratio":0.5,"first":{{"Pane":1}},"second":{{"Pane":2}}}}}}}}"#
        ));
        let whole = rect(0.0, 0.0, 1.0, 1.0);
        let (first, second) = split_rect(whole, direction, 0.5_f64.to_bits());
        assert_eq!(rects.get(1), Some(&first));
        assert_eq!(rects.get(2), Some(&second));
    }
}

#[test]
fn both_searches_agree() {
    let rects = rects_in(THREE);
    let mut named: TextMap<Rect> = TextMap::new();
    for pane in rects.keys() {
        named.insert(format!("w:p{pane}"), *rects.get(pane).unwrap());
    }
    for direction in ["left", "down", "up", "right", "sideways"] {
        for pane in [1, 2, 3, 4] {
            assert_eq!(
                public_neighbour(direction, &format!("w:p{pane}"), &named),
                neighbour(direction, pane, &rects).map(|found| format!("w:p{found}"))
            );
        }
    }
}
