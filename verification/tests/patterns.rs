use sdi_desktop::json::{parse_json, Json};
use sdi_desktop::patterns::{parse_pattern_value, ActivePattern, PatternBadge, PatternMonitor};

fn row(id: &str, kind: &str, plan_id: &str, lifecycle: &str) -> ActivePattern {
    ActivePattern {
        id: id.into(),
        kind: kind.into(),
        plan_id: plan_id.into(),
        lifecycle: lifecycle.into(),
    }
}

fn badge(active_count: Option<usize>, has_direct: bool) -> PatternBadge {
    PatternBadge { active_count, has_direct }
}

fn ok(body: &str) -> Vec<u8> {
    format!("HTTP/1.1 200 OK\r\n\r\n{body}").into_bytes()
}

#[test]
fn badge_default_renders_empty_suffix() {
    let b = PatternBadge::default();
    assert_eq!(b.tooltip_suffix(), "");
    assert_eq!(b.title_suffix(), "");
}

#[test]
fn badge_zero_renders_no_title_suffix() {
    let b = PatternBadge {
        active_count: Some(0),
        has_direct: false,
    };
    assert_eq!(b.tooltip_suffix(), " | active patterns: 0");
    assert_eq!(b.title_suffix(), "");
}

#[test]
fn badge_with_direct_renders_red_marker() {
    let b = PatternBadge {
        active_count: Some(2),
        has_direct: true,
    };
    let tt = b.tooltip_suffix();
    assert!(tt.contains("active patterns: 2"));
    assert!(tt.contains('\u{1F534}'), "missing red-circle marker: {tt}");
    let title = b.title_suffix();
    assert!(title.contains("CP:2"));
    assert!(title.contains('\u{26A0}'), "missing warning marker: {title}");
}

#[test]
fn badge_without_direct_omits_marker() {
    let b = PatternBadge {
        active_count: Some(1),
        has_direct: false,
    };
    assert_eq!(b.tooltip_suffix(), " | active patterns: 1");
    assert_eq!(b.title_suffix(), " • CP:1");
}

#[test]
fn parse_pattern_row_extracts_required_fields() {
    let v = parse_json(
        r#"{"id": "CP-01", "kind": "direct", "plan_id": "PLAN-01", "lifecycle": "active"}"#,
    )
    .expect("must be JSON");
    let p = parse_pattern_value(&v).expect("must parse");
    assert_eq!(p.id, "CP-01");
    assert_eq!(p.kind, "direct");
    assert_eq!(p.plan_id, "PLAN-01");
    assert_eq!(p.lifecycle, "active");
    assert!(p.is_active());
    assert!(p.is_direct());
}

#[test]
fn parse_pattern_row_rejects_missing_kind() {
    let v = parse_json(r#"{ "id": "CP-01" }"#).expect("must be JSON");
    assert!(parse_pattern_value(&v).is_none());
}

#[test]
fn snapshot_starts_unknown_until_bootstrap() {
    let mon = PatternMonitor::new();
    let snap = mon.snapshot();
    assert_eq!(snap.active_count, None);
    assert!(!snap.has_direct);
}

#[test]
fn apply_event_inserts_active_pattern() {
    let mut mon = PatternMonitor::new();
    mon.seed(vec![]);
    let payload = r#"{
        "kind": "pattern_created",
        "payload": {
            "id": "CP-A",
            "kind": "workflow",
            "plan_id": "PLAN-1",
            "lifecycle": "active"
        }
    }"#;
    mon.apply_event("pattern_created", payload);
    let snap = mon.snapshot();
    assert_eq!(snap.active_count, Some(1));
    assert!(!snap.has_direct);
}

#[test]
fn apply_event_marks_direct_when_present() {
    let mut mon = PatternMonitor::new();
    mon.seed(vec![]);
    let direct = r#"{
        "payload": {
            "id": "CP-D",
            "kind": "direct",
            "plan_id": "PLAN-1",
            "lifecycle": "active"
        }
    }"#;
    mon.apply_event("pattern_created", direct);
    let snap = mon.snapshot();
    assert_eq!(snap.active_count, Some(1));
    assert!(snap.has_direct);
}

#[test]
fn apply_event_removes_on_terminal_lifecycle() {
    let mut mon = PatternMonitor::new();
    mon.seed(vec![]);
    let create = r#"{
        "payload": {
            "id": "CP-X",
            "kind": "swarm",
            "plan_id": "PLAN-1",
            "lifecycle": "active"
        }
    }"#;
    mon.apply_event("pattern_created", create);
    let converge = r#"{
        "payload": {
            "id": "CP-X",
            "kind": "swarm",
            "plan_id": "PLAN-1",
            "lifecycle": "converged"
        }
    }"#;
    mon.apply_event("pattern_lifecycle", converge);
    let snap = mon.snapshot();
    assert_eq!(snap.active_count, Some(0));
    assert!(!snap.has_direct);
}

#[test]
fn active_plan_ids_dedups_and_skips_blanks() {
    let mut mon = PatternMonitor::new();
    mon.seed(vec![
        row("CP-1", "workflow", "PLAN-A", "active"),
        row("CP-2", "graph", "PLAN-A", "active"),
        row("CP-3", "swarm", "PLAN-B", "active"),
        row("CP-4", "direct", "", "active"),
        row("CP-5", "swarm", "PLAN-C", "pending"),
    ]);
    let plans = mon.active_plan_ids();
    assert_eq!(plans, vec!["PLAN-A".to_string(), "PLAN-B".to_string()]);
}

#[test]
fn apply_event_removes_on_aborted_kind() {
    let mut mon = PatternMonitor::new();
    mon.seed(vec![row("CP-Y", "graph", "PLAN-1", "active")]);
    let abort = r#"{
        "kind": "pattern_aborted",
        "entity_id": "CP-Y",
        "payload": { "id": "CP-Y" }
    }"#;
    mon.apply_event("pattern_aborted", abort);
    let snap = mon.snapshot();
    assert_eq!(snap.active_count, Some(0));
}

#[test]
fn badge_texts_are_exact() {
    assert_eq!(badge(Some(2), true).tooltip_suffix(), " | active patterns: 2 \u{1F534}");
    assert_eq!(badge(Some(2), true).title_suffix(), " • CP:2 \u{26A0}");
    assert_eq!(badge(Some(0), true).tooltip_suffix(), " | active patterns: 0");
    assert_eq!(badge(Some(0), true).title_suffix(), "");
    assert_eq!(badge(None, true).tooltip_suffix(), "");
    assert_eq!(badge(Some(1207), false).tooltip_suffix(), " | active patterns: 1207");
    assert_eq!(
        badge(Some(usize::MAX), false).title_suffix(),
        format!(" • CP:{}", usize::MAX)
    );
}

#[test]
fn row_defaults_fill_what_is_missing() {
    let v = parse_json(r#"{"id":"CP","kind":"swarm","plan_id":4,"lifecycle":null}"#).unwrap();
    let p = parse_pattern_value(&v).unwrap();
    assert_eq!(p.plan_id, "");
    assert_eq!(p.lifecycle, "pending");
    assert!(!p.is_active());
    assert!(!p.is_direct());
}

#[test]
fn row_needs_a_text_id_and_a_text_kind() {
    for text in [
        r#"{"kind":"swarm"}"#,
        r#"{"id":1,"kind":"swarm"}"#,
        r#"{"id":"CP","kind":1}"#,
        "[]",
        "\"CP\"",
        "null",
    ] {
        assert!(parse_pattern_value(&parse_json(text).unwrap()).is_none(), "{text}");
    }
}

#[test]
fn bootstrap_takes_a_list_or_its_wrapping() {
    let mut mon = PatternMonitor::new();
    mon.bootstrap(Some(&ok(
        r#"[{"id":"a","kind":"direct","lifecycle":"active"},{"id":"b","kind":"swarm"}]"#,
    )));
    assert_eq!(mon.snapshot(), badge(Some(1), true));
    mon.bootstrap(Some(&ok(
        r#"{"patterns":[{"id":"c","kind":"swarm","lifecycle":"active"}]}"#,
    )));
    assert_eq!(mon.snapshot(), badge(Some(1), false));
    mon.bootstrap(Some(&ok("{}")));
    assert_eq!(mon.snapshot(), badge(Some(0), false));
    mon.bootstrap(Some(&ok("7")));
    assert_eq!(mon.snapshot(), badge(Some(0), false));
}

#[test]
fn bootstrap_drops_what_is_no_row_and_keeps_the_later() {
    let mut mon = PatternMonitor::new();
    mon.bootstrap(Some(&ok(
        r#"[1,{"id":"a","kind":"direct","lifecycle":"active"},{"id":"a","kind":"swarm","lifecycle":"active"}]"#,
    )));
    assert_eq!(mon.snapshot(), badge(Some(1), false));
}

#[test]
fn bootstrap_failures_leave_the_cache() {
    let mut mon = PatternMonitor::new();
    mon.bootstrap(None);
    mon.bootstrap(Some(b"HTTP/1.1 404 Not Found\r\n\r\n[]"));
    mon.bootstrap(Some(b"garbage"));
    mon.bootstrap(Some(&ok("no json")));
    assert_eq!(mon.snapshot(), badge(None, false));
    mon.seed(vec![row("a", "direct", "p", "active")]);
    mon.bootstrap(Some(b"HTTP/1.1 500 x\r\n\r\n[]"));
    assert_eq!(mon.snapshot(), badge(Some(1), true));
}

#[test]
fn seed_replaces_what_was_held() {
    let mut mon = PatternMonitor::default();
    mon.seed(vec![
        row("a", "direct", "p", "active"),
        row("a", "swarm", "p", "active"),
    ]);
    assert_eq!(mon.snapshot(), badge(Some(1), false));
    mon.seed(vec![]);
    assert_eq!(mon.snapshot(), badge(Some(0), false));
}

#[test]
fn row_event_makes_an_unknown_cache_known() {
    let mut mon = PatternMonitor::new();
    mon.apply_event("pattern_aborted", r#"{"id":"a"}"#);
    mon.apply_event("pattern_created", r#"{"id":"a"}"#);
    mon.apply_event("pattern_created", "no json");
    mon.apply_event("plan_created", r#"{"id":"a","kind":"swarm"}"#);
    assert_eq!(mon.snapshot(), badge(None, false));
    mon.apply_event("pattern_created", r#"{"id":"a","kind":"swarm"}"#);
    assert_eq!(mon.snapshot(), badge(Some(0), false));
}

#[test]
fn terminal_row_makes_an_unknown_cache_known_and_empty() {
    let mut mon = PatternMonitor::new();
    mon.apply_event(
        "pattern_lifecycle",
        r#"{"id":"a","kind":"swarm","lifecycle":"aborted"}"#,
    );
    assert_eq!(mon.snapshot(), badge(Some(0), false));
}

#[test]
fn pending_row_becomes_active() {
    let mut mon = PatternMonitor::new();
    mon.apply_event("pattern_created", r#"{"id":"a","kind":"direct"}"#);
    assert_eq!(mon.snapshot(), badge(Some(0), false));
    let active = r#"{"id":"a","kind":"direct","lifecycle":"active"}"#;
    mon.apply_event("pattern_lifecycle", active);
    assert_eq!(mon.snapshot(), badge(Some(1), true));
    mon.apply_event("pattern_lifecycle", active);
    assert_eq!(mon.snapshot(), badge(Some(1), true));
    mon.apply_event(
        "pattern_lifecycle",
        r#"{"id":"a","kind":"direct","lifecycle":"pending"}"#,
    );
    assert_eq!(mon.snapshot(), badge(Some(0), false));
}

#[test]
fn every_terminal_lifecycle_removes() {
    for lifecycle in ["converged", "dissensus", "aborted"] {
        let mut mon = PatternMonitor::new();
        mon.seed(vec![row("a", "direct", "p", "active"), row("b", "swarm", "q", "active")]);
        mon.apply_event(
            "pattern_lifecycle",
            &format!(r#"{{"payload":{{"id":"a","kind":"direct","lifecycle":"{lifecycle}"}}}}"#),
        );
        assert_eq!(mon.snapshot(), badge(Some(1), false));
        assert_eq!(mon.active_plan_ids(), vec!["q".to_string()]);
    }
}

#[test]
fn every_end_event_removes() {
    for kind in ["pattern_aborted", "pattern_converged", "pattern_dissensus"] {
        let mut mon = PatternMonitor::new();
        mon.seed(vec![row("a", "direct", "p", "active"), row("b", "swarm", "q", "active")]);
        mon.apply_event(kind, r#"{"payload":{},"entity_id":"a"}"#);
        assert_eq!(mon.snapshot(), badge(Some(1), false));
        mon.apply_event(kind, r#"{"id":"b"}"#);
        assert_eq!(mon.snapshot(), badge(Some(0), false));
        mon.apply_event(kind, r#"{"id":"b"}"#);
        mon.apply_event(kind, r#"{"name":"b"}"#);
        assert_eq!(mon.snapshot(), badge(Some(0), false));
    }
}

#[test]
fn end_event_prefers_the_id_of_its_payload() {
    let mut mon = PatternMonitor::new();
    mon.seed(vec![row("a", "direct", "p", "active"), row("b", "swarm", "q", "active")]);
    mon.apply_event("pattern_aborted", r#"{"payload":{"id":"b"},"entity_id":"a"}"#);
    assert_eq!(mon.active_plan_ids(), vec!["p".to_string()]);
}

#[test]
fn created_and_ended_leaves_no_trace() {
    let mut mon = PatternMonitor::new();
    mon.seed(vec![row("b", "swarm", "q", "active")]);
    mon.apply_event("pattern_created", r#"{"id":"a","kind":"direct","lifecycle":"active"}"#);
    assert_eq!(mon.snapshot(), badge(Some(2), true));
    mon.apply_event("pattern_dissensus", r#"{"id":"a"}"#);
    assert_eq!(mon.snapshot(), badge(Some(1), false));
}

#[test]
fn apply_document_takes_a_read_event() {
    let mut mon = PatternMonitor::new();
    let event = Json::Object(vec![
        ("id".to_string(), Json::Text("a".to_string())),
        ("kind".to_string(), Json::Text("direct".to_string())),
        ("lifecycle".to_string(), Json::Text("active".to_string())),
    ]);
    mon.apply_document("pattern_created", &event);
    assert_eq!(mon.snapshot(), badge(Some(1), true));
}

#[test]
fn plans_are_sorted_by_their_bytes() {
    let mut mon = PatternMonitor::new();
    assert!(mon.active_plan_ids().is_empty());
    mon.seed(vec![
        row("1", "swarm", "b", "active"),
        row("2", "swarm", "\u{e9}", "active"),
        row("3", "swarm", "Z", "active"),
        row("4", "swarm", "a", "active"),
        row("5", "swarm", "ab", "active"),
        row("6", "swarm", "b", "active"),
        row("7", "swarm", "\u{1F534}", "active"),
    ]);
    let mut wanted: Vec<String> = ["b", "\u{e9}", "Z", "a", "ab", "\u{1F534}"]
        .iter()
        .map(|s| s.to_string())
        .collect();
    wanted.sort();
    assert_eq!(mon.active_plan_ids(), wanted);
}

#[test]
fn events_about_different_patterns_commute() {
    let created = r#"{"id":"a","kind":"direct","lifecycle":"active"}"#;
    let ended = r#"{"id":"b"}"#;
    let mut one = PatternMonitor::new();
    one.seed(vec![row("b", "swarm", "q", "active")]);
    one.apply_event("pattern_created", created);
    one.apply_event("pattern_converged", ended);
    let mut other = PatternMonitor::new();
    other.seed(vec![row("b", "swarm", "q", "active")]);
    other.apply_event("pattern_converged", ended);
    other.apply_event("pattern_created", created);
    assert_eq!(one.snapshot(), badge(Some(1), true));
    assert_eq!(one.snapshot(), other.snapshot());
    assert_eq!(one.active_plan_ids(), other.active_plan_ids());
}
