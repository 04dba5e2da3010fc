use sdi_desktop::autonomy::AutonomyMode;
use sdi_desktop::daemon_url::PollStep;
use sdi_desktop::patterns::PatternBadge;
use sdi_desktop::startup::{Outcome, Startup, Work};
use sdi_desktop::surface::{
    breaker_shortcut_label, compose_title, compose_tooltip, fire_circuit_breaker, menu_action,
    menu_item_breaker, menu_item_mode, menu_item_quit, menu_label, publish_pattern,
    render_surface, shortcut_reason, wait_for_project, AutonomyPoll, AutonomyTarget, MenuAction,
    SurfaceState,
};

fn badge(active_count: Option<usize>, has_direct: bool) -> PatternBadge {
    PatternBadge { active_count, has_direct }
}

#[test]
fn title_and_tooltip_are_composed() {
    assert_eq!(compose_title(AutonomyMode::L3, badge(None, false)), "SDI · L3");
    assert_eq!(compose_title(AutonomyMode::L4, badge(Some(3), false)), "SDI · L4 • CP:3");
    assert_eq!(
        compose_title(AutonomyMode::Unknown, badge(Some(1), true)),
        "SDI · — • CP:1 \u{26A0}"
    );
    assert_eq!(
        compose_tooltip(AutonomyMode::L5, badge(Some(0), false)),
        "SDI — autonomy: L5 | active patterns: 0"
    );
    assert_eq!(
        compose_tooltip(AutonomyMode::L3, badge(Some(2), true)),
        "SDI — autonomy: L3 | active patterns: 2 \u{1F534}"
    );
    assert_eq!(compose_tooltip(AutonomyMode::L3, badge(None, false)), "SDI — autonomy: L3");
    assert_eq!(menu_label(AutonomyMode::Unknown), "Autonomy: —");
}

#[test]
fn surface_starts_unknown() {
    let surface = SurfaceState::new();
    assert_eq!(surface.snapshot(), (AutonomyMode::Unknown, badge(None, false)));
    let shown = render_surface(&surface);
    assert_eq!(shown.title, "SDI · —");
    assert_eq!(shown.tooltip, "SDI — autonomy: —");
}

#[test]
fn each_monitor_leaves_the_other_alone() {
    let mut surface = SurfaceState::new();
    surface.set_autonomy(AutonomyMode::L4);
    surface.set_pattern(badge(Some(1), false));
    surface.set_autonomy(AutonomyMode::L5);
    assert_eq!(surface.snapshot(), (AutonomyMode::L5, badge(Some(1), false)));
    let shown = publish_pattern(&mut surface, badge(Some(2), true));
    assert_eq!(shown.title, "SDI · L5 • CP:2 \u{26A0}");
    assert_eq!(surface.snapshot().0, AutonomyMode::L5);
}

#[test]
fn only_a_change_of_mode_is_published() {
    let mut surface = SurfaceState::new();
    let mut poll = AutonomyPoll::new();
    let update = poll.observe(&mut surface, AutonomyMode::Unknown).unwrap();
    assert_eq!(update.menu_label, "Autonomy: —");
    assert!(poll.observe(&mut surface, AutonomyMode::Unknown).is_none());
    let update = poll.observe(&mut surface, AutonomyMode::L3).unwrap();
    assert_eq!(update.menu_label, "Autonomy: L3");
    assert_eq!(update.rendered.title, "SDI · L3");
    assert!(poll.observe(&mut surface, AutonomyMode::L3).is_none());
    assert_eq!(surface.snapshot().0, AutonomyMode::L3);
}

#[test]
fn wait_for_project_ends_with_its_budget() {
    assert_eq!(
        wait_for_project(Some("P".to_string()), 20_000),
        PollStep::Found("P".to_string())
    );
    assert_eq!(wait_for_project(None, 14_999), PollStep::Pause(500));
    assert_eq!(wait_for_project(None, 15_000), PollStep::GiveUp);
}

#[test]
fn breaker_needs_a_target() {
    assert!(fire_circuit_breaker(None, "r").is_none());
    let target = AutonomyTarget { port: 4711, project_id: "P1".to_string() };
    let call = fire_circuit_breaker(Some(&target), "why").unwrap();
    assert_eq!(call.port, 4711);
    let request = call.request.unwrap();
    assert!(request.starts_with("POST /autonomy_policies/circuit_breaker HTTP/1.1\r\n"));
    assert!(request.ends_with(
        "\r\n\r\n{\"actor\":\"sdi-desktop\",\"project_id\":\"P1\",\"reason\":\"why\"}"
    ));
}

#[test]
fn shortcut_fires_when_it_is_pressed() {
    assert_eq!(shortcut_reason(true, true), Some("sdi-desktop · global shortcut"));
    assert_eq!(shortcut_reason(false, true), None);
    assert_eq!(shortcut_reason(true, false), None);
    assert_eq!(breaker_shortcut_label(true), "Cmd+Shift+L");
    assert_eq!(breaker_shortcut_label(false), "Ctrl+Shift+L");
}

#[test]
fn menu_items_do_what_they_say() {
    assert_eq!(
        menu_action(menu_item_breaker()),
        MenuAction::Breaker("sdi-desktop · tray menu")
    );
    assert_eq!(menu_action(menu_item_quit()), MenuAction::Quit);
    assert_eq!(menu_action(menu_item_mode()), MenuAction::Ignore);
    assert_eq!(menu_action(""), MenuAction::Ignore);
    assert_eq!(menu_item_mode(), "sdi-mode");
    assert_eq!(menu_item_breaker(), "sdi-breaker");
    assert_eq!(menu_item_quit(), "sdi-quit");
}

#[test]
fn start_goes_through_its_steps() {
    let mut state = Startup::begin();
    assert!(matches!(state.work(), Work::WaitForPort));
    state = state.next(Outcome::Port(Some(8080)));
    match state.work() {
        Work::CheckHealth { port, probe } => {
            assert_eq!(port, 8080);
            assert!(probe.starts_with("GET /health HTTP/1.1\r\n"));
        }
        other => panic!("{other:?}"),
    }
    state = state.next(Outcome::Done(true));
    match state.work() {
        Work::Navigate { origin } => assert_eq!(origin, "http://127.0.0.1:8080/"),
        other => panic!("{other:?}"),
    }
    state = state.next(Outcome::Done(false));
    match state.work() {
        Work::FetchPatterns { port, request } => {
            assert_eq!(port, 8080);
            assert!(request.starts_with("GET /patterns/active HTTP/1.1\r\n"));
        }
        other => panic!("{other:?}"),
    }
    state = state.next(Outcome::Done(true));
    assert_eq!(state, Startup::Running(8080));
    assert!(matches!(state.work(), Work::StartMonitors { port: 8080 }));
    assert_eq!(state.next(Outcome::Done(false)), state);
}

#[test]
fn start_without_a_port_is_disconnected() {
    let state = Startup::begin().next(Outcome::Port(None));
    assert_eq!(state, Startup::Disconnected);
    assert!(matches!(state.work(), Work::Nothing));
    assert_eq!(state.next(Outcome::Port(Some(1))), Startup::Disconnected);
    assert_eq!(Startup::begin().next(Outcome::Done(true)), Startup::WaitingForPort);
}

#[test]
fn start_without_health_is_disconnected() {
    let state = Startup::begin().next(Outcome::Port(Some(8080))).next(Outcome::Done(false));
    assert_eq!(state, Startup::Disconnected);
    assert!(matches!(state.work(), Work::Nothing));
    assert_eq!(state.next(Outcome::Done(true)), Startup::Disconnected);
}

#[test]
fn failed_fetch_does_not_end_the_start() {
    let state = Startup::Navigating(8080).next(Outcome::Done(false));
    assert_eq!(state, Startup::FetchingPatterns(8080));
    assert_eq!(state.next(Outcome::Done(false)), Startup::Running(8080));
}

#[test]
fn unknown_count_is_not_shown_as_zero() {
    for mode in [AutonomyMode::L3, AutonomyMode::L4, AutonomyMode::L5, AutonomyMode::Unknown] {
        assert_ne!(
            compose_tooltip(mode, badge(None, false)),
            compose_tooltip(mode, badge(Some(0), false))
        );
    }
}
