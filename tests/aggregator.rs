use statusbar::aggregator::{Aggregator, Outcome, FAILED, SENTINEL};
use statusbar::config::{PREFIX, SEPARATOR, SUFFIX};
use statusbar::status::{infer_status, join_status};

fn some(s: &str) -> Option<String> {
    Some(s.to_string())
}

fn published(o: Outcome) -> Option<String> {
    match o {
        Outcome::Publish(s) => Some(s),
        _ => None,
    }
}

#[test]
fn infer_status_joins_nonempty_in_order() {
    let outputs = vec!["a".to_string(), String::new(), "b".to_string()];
    assert_eq!(infer_status(&outputs), " a  b ");
    assert_eq!(SEPARATOR, "  ");
    assert_eq!(PREFIX, " ");
    assert_eq!(SUFFIX, " ");
}

#[test]
fn infer_status_all_empty_is_prefix_and_suffix() {
    let outputs = vec![String::new(), String::new()];
    assert_eq!(infer_status(&outputs), "  ");
    assert_eq!(infer_status(&[]), "  ");
}

#[test]
fn join_status_uses_given_layout() {
    let outputs = vec!["x".to_string(), "y".to_string(), String::new(), "z".to_string()];
    assert_eq!(join_status(&outputs, "[", ", ", "]"), "[x, y, z]");
    assert_eq!(join_status(&outputs, "", "", ""), "xyz");
}

#[test]
fn three_units_initial_status() {
    let mut agg = Aggregator::new(3, " ", " | ", " ");
    assert_eq!(published(agg.handle(0, some("A"))).unwrap(), " A ");
    assert_eq!(published(agg.handle(1, some("B"))).unwrap(), " A | B ");
    assert_eq!(published(agg.handle(2, some("C"))).unwrap(), " A | B | C ");
    assert_eq!(agg.status(), " A | B | C ");
}

#[test]
fn display_order_is_declaration_order() {
    let mut agg = Aggregator::new(3, " ", " | ", " ");
    agg.handle(2, some("C"));
    agg.handle(0, some("A"));
    assert_eq!(published(agg.handle(1, some("B"))).unwrap(), " A | B | C ");
}

#[test]
fn repeated_fragment_is_published_once() {
    let mut agg = Aggregator::new(2, " ", " | ", " ");
    assert!(published(agg.handle(0, some("A"))).is_some());
    assert!(matches!(agg.handle(0, some("A")), Outcome::Unchanged));
    let events = vec![(1, some("B")), (1, some("B")), (1, some("B"))];
    let (out, taken) = agg.feed(&events);
    assert_eq!(taken, 3);
    assert_eq!(out, vec![" A | B ".to_string()]);
}

#[test]
fn failure_marker_then_recovery() {
    let mut agg = Aggregator::new(2, " ", " | ", " ");
    assert_eq!(published(agg.handle(1, None)).unwrap(), " failed ");
    assert_eq!(agg.slot(1), FAILED);
    assert!(matches!(agg.handle(1, None), Outcome::Unchanged));
    assert_eq!(published(agg.handle(1, some("ok"))).unwrap(), " ok ");
    assert_eq!(agg.slot(1), "ok");
}

#[test]
fn table_holds_last_event_per_unit() {
    let mut agg = Aggregator::new(3, "<", "|", ">");
    let events = vec![
        (0, some("a1")),
        (1, some("b1")),
        (0, some("a2")),
        (2, None),
        (1, some("")),
        (0, some("a2")),
    ];
    let (out, taken) = agg.feed(&events);
    assert_eq!(taken, 6);
    assert_eq!(agg.slot(0), "a2");
    assert_eq!(agg.slot(1), "");
    assert_eq!(agg.slot(2), "failed");
    assert_eq!(
        out,
        vec!["<a1>", "<a1|b1>", "<a2|b1>", "<a2|b1|failed>", "<a2|failed>"]
    );
}

#[test]
fn sentinel_stops_without_draining() {
    let mut agg = Aggregator::new(2, " ", " | ", " ");
    let events = vec![(0, some("A")), (SENTINEL, None), (1, some("B")), (SENTINEL, None)];
    let (out, taken) = agg.feed(&events);
    assert_eq!(taken, 1);
    assert_eq!(out, vec![" A ".to_string()]);
    assert_eq!(agg.slot(1), "");
    assert!(matches!(agg.handle(SENTINEL, None), Outcome::Stop));
    assert_eq!(agg.status(), " A ");
}

#[test]
fn new_aggregator_is_empty() {
    let agg = Aggregator::new(4, " ", " | ", " ");
    assert_eq!(agg.len(), 4);
    assert_eq!(agg.slot(3), "");
    assert_eq!(agg.status(), "  ");
}
