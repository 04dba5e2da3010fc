use std::path::PathBuf;

use sdi_desktop::daemon::{
    candidate_paths, daemon_bin_name, resolve_daemon_bin, spawn, DaemonBin, Location, SpawnError,
};
use sdi_desktop::daemon_url::{
    health_request, origin, ping_health, poll, port_file_path, read_port, wait_for_port,
    HealthError, PollStep,
};

fn path_of(place: &Location<&str>) -> PathBuf {
    let mut path = PathBuf::from(place.root.unwrap_or(""));
    for part in &place.parts {
        path = path.join(part);
    }
    path
}

#[test]
fn resolve_returns_some_fallback_when_nothing_exists() {
    let resolved = resolve_daemon_bin(None, false, &[false, false, false]);
    assert!(resolved.is_some());
    assert_eq!(resolved, Some(DaemonBin::OnPath));
    assert_eq!(resolve_daemon_bin(None, false, &[]), Some(DaemonBin::OnPath));
    assert_eq!(daemon_bin_name(), "sdid");
}

#[test]
fn port_file_respects_sdi_home() {
    let p = path_of(&port_file_path(Some("/tmp/sdi-test"), None, None));
    assert!(p.ends_with("sdi-test/.cache/sdi/sdid.port"), "got: {}", p.display());
}

#[test]
fn origin_formats_localhost() {
    assert_eq!(origin(52234), "http://127.0.0.1:52234/");
}

#[test]
fn override_wins_where_it_is_set_and_exists() {
    assert_eq!(resolve_daemon_bin(Some("/x"), true, &[true]), Some(DaemonBin::Override));
    assert_eq!(resolve_daemon_bin(Some("/x"), false, &[true]), Some(DaemonBin::Candidate(0)));
    assert_eq!(resolve_daemon_bin(Some(""), true, &[true]), Some(DaemonBin::Candidate(0)));
    assert_eq!(resolve_daemon_bin(None, true, &[]), Some(DaemonBin::OnPath));
}

#[test]
fn first_candidate_that_exists_is_taken() {
    assert_eq!(
        resolve_daemon_bin(None, false, &[false, true, true]),
        Some(DaemonBin::Candidate(1))
    );
}

#[test]
fn candidates_come_in_order() {
    let all: Vec<PathBuf> = candidate_paths(Some("/opt/a/bin"), Some("/opt/a"), None, Some("/home/u"))
        .iter()
        .map(path_of)
        .collect();
    assert_eq!(
        all,
        vec![
            PathBuf::from("/opt/a/bin/sdid"),
            PathBuf::from("/opt/a/daemon/bin/sdid"),
            PathBuf::from("/home/u/.local/share/sdi/bin/sdid"),
        ]
    );
    let all: Vec<PathBuf> = candidate_paths(Some("/"), None, Some("/data"), Some("/home/u"))
        .iter()
        .map(path_of)
        .collect();
    assert_eq!(all, vec![PathBuf::from("/sdid"), PathBuf::from("/data/sdi/bin/sdid")]);
    let all: Vec<PathBuf> = candidate_paths(None, Some("/opt"), None, None)
        .iter()
        .map(path_of)
        .collect();
    assert_eq!(all, vec![PathBuf::from(".local/share/sdi/bin/sdid")]);
}

#[test]
fn spawn_is_off_where_autospawn_is() {
    let bin = Some(DaemonBin::OnPath);
    assert_eq!(spawn(Some("1"), bin), Err(SpawnError::AutospawnOff));
    assert_eq!(spawn(Some("0"), None), Err(SpawnError::AutospawnOff));
    assert_eq!(spawn(Some(""), bin), Ok(DaemonBin::OnPath));
    assert_eq!(spawn(None, Some(DaemonBin::Candidate(2))), Ok(DaemonBin::Candidate(2)));
    assert_eq!(spawn(None, None), Err(SpawnError::NoCandidate));
    assert_eq!(SpawnError::AutospawnOff.message(), "SDI_NO_AUTOSPAWN is set");
    assert_eq!(SpawnError::NoCandidate.message(), "no sdid candidate");
}

#[test]
fn port_file_falls_back_to_the_cache_and_to_home() {
    assert_eq!(
        path_of(&port_file_path(None, Some("/cache"), Some("/home/u"))),
        PathBuf::from("/cache/sdi/sdid.port")
    );
    assert_eq!(
        path_of(&port_file_path(None, None, Some("/home/u"))),
        PathBuf::from("/home/u/.cache/sdi/sdid.port")
    );
    assert_eq!(
        path_of(&port_file_path(None, None, None)),
        PathBuf::from(".cache/sdi/sdid.port")
    );
}

#[test]
fn port_is_read_with_white_space_round_it() {
    assert_eq!(read_port(Some("52234")), Some(52234));
    assert_eq!(read_port(Some("\u{a0} 52234\r\n")), Some(52234));
    assert_eq!(read_port(Some("+1")), Some(1));
    assert_eq!(read_port(Some("65535\n")), Some(65535));
    assert_eq!(read_port(Some("65536")), None);
    assert_eq!(read_port(Some("5 2")), None);
    assert_eq!(read_port(Some("-1")), None);
    assert_eq!(read_port(Some("+")), None);
    assert_eq!(read_port(Some("  ")), None);
    assert_eq!(read_port(None), None);
}

#[test]
fn every_port_reads_back() {
    for port in 0..=u16::MAX {
        assert_eq!(read_port(Some(&format!("{port}\n"))), Some(port));
        assert_eq!(origin(port), format!("http://127.0.0.1:{port}/"));
    }
}

#[test]
fn wait_for_port_ends_with_its_budget() {
    assert_eq!(wait_for_port(Some("80"), 0), PollStep::Found(80));
    assert_eq!(wait_for_port(Some("80"), 5_000), PollStep::Found(80));
    assert_eq!(wait_for_port(Some("x"), 4_999), PollStep::Pause(150));
    assert_eq!(wait_for_port(None, 0), PollStep::Pause(150));
    assert_eq!(wait_for_port(None, 5_000), PollStep::GiveUp);
    assert_eq!(poll::<u8>(None, 3, 4, 1), PollStep::Pause(1));
}

#[test]
fn health_is_the_second_word() {
    assert_eq!(
        health_request(),
        "GET /health HTTP/1.1\r\nHost: localhost\r\nConnection: close\r\n\r\n"
    );
    assert_eq!(ping_health(b"HTTP/1.1 200 OK\r\n"), Ok(200));
    assert_eq!(ping_health(b"HTTP/1.1\r\n503 x"), Ok(503));
    assert_eq!(ping_health(b"HTTP/1.1"), Err(HealthError::NoStatus));
    assert_eq!(ping_health(b""), Err(HealthError::NoStatus));
    assert_eq!(ping_health(b"HTTP/1.1 200 \xff"), Err(HealthError::NonUtf8));
    assert_eq!(HealthError::NonUtf8.message(), "non-utf8");
    assert_eq!(HealthError::NoStatus.message(), "no status");
}
