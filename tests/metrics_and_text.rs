use aderyn_core::detector::IssueSeverity;
use aderyn_core::metrics::MetricsDatabase;
use aderyn_core::text::{contains_str, str_eq, str_lt};

#[test]
fn registering_starts_counters_at_the_level_count() {
    let mut db = MetricsDatabase::new("metrics.json".to_string());
    db.register_new_detector("centralization-risk".to_string(), IssueSeverity::Medium);
    let m = db.get_metrics("centralization-risk".to_string());
    assert_eq!((m.true_positives, m.false_positives, m.trigger_count, m.experience), (5, 0, 5, 5));
    assert_eq!(m.current_severity, IssueSeverity::Medium);
    assert!(db.contains("centralization-risk"));
    assert!(!db.contains("delegate-call-in-loop"));
}

#[test]
fn counters_move_one_at_a_time() {
    let mut db = MetricsDatabase::new("metrics.json".to_string());
    db.register_new_detector("a".to_string(), IssueSeverity::Low);
    db.register_new_detector("b".to_string(), IssueSeverity::High);
    db.increase_true_positive_with_trigger_count("a".to_string());
    db.increase_false_positive_with_trigger_count("a".to_string());
    db.increase_trigger_count("a".to_string());
    db.increase_experience("a".to_string());
    let a = db.get_metrics("a".to_string());
    assert_eq!((a.true_positives, a.false_positives, a.trigger_count, a.experience), (6, 1, 8, 6));
    let b = db.get_metrics("b".to_string());
    assert_eq!((b.true_positives, b.false_positives, b.trigger_count, b.experience), (5, 0, 5, 5));
    assert_eq!(db.get_all_detectors_names(), vec!["a".to_string(), "b".to_string()]);
}

#[test]
fn text_order_and_search() {
    assert!(str_lt("a.sol", "b.sol"));
    assert!(str_lt("a", "ab"));
    assert!(!str_lt("ab", "ab"));
    assert!(!str_lt("b", "a"));
    assert!(contains_str("onlyRoleAdmin", "onlyRole"));
    assert!(!contains_str("onlyRol", "onlyRole"));
    assert!(contains_str("x", ""));
    assert!(str_eq("same", "same"));
    assert!(!str_eq("same", "Same"));
}
