use sdi_desktop::events::{
    after_stream, events_request, Backoff, EventStream, LineOutcome, StreamEnd,
};
use sdi_desktop::patterns::{PatternBadge, PatternMonitor};

fn badge(active_count: Option<usize>, has_direct: bool) -> PatternBadge {
    PatternBadge { active_count, has_direct }
}

fn feed(mon: &mut PatternMonitor, stream: &mut EventStream, lines: &[&str]) -> Vec<LineOutcome> {
    lines.iter().map(|line| mon.on_line(stream, line)).collect()
}

const HEAD: [&str; 3] = ["HTTP/1.1 200 OK\r\n", "Content-Type: text/event-stream\r\n", "\r\n"];

#[test]
fn events_are_requested_as_a_stream() {
    assert_eq!(
        events_request(),
        "GET /events HTTP/1.1\r\nHost: localhost\r\nAccept: text/event-stream\r\nCache-Control: no-cache\r\nConnection: keep-alive\r\n\r\n"
    );
}

#[test]
fn blocks_change_the_badge() {
    let mut mon = PatternMonitor::new();
    let mut stream = EventStream::new(mon.snapshot());
    feed(&mut mon, &mut stream, &HEAD);
    let out = feed(
        &mut mon,
        &mut stream,
        &[
            "event: pattern_created\n",
            "data: {\"id\":\"a\",\"kind\":\"direct\",\"lifecycle\":\"active\"}\n",
            "\n",
        ],
    );
    assert_eq!(
        out,
        vec![
            LineOutcome::Quiet,
            LineOutcome::Quiet,
            LineOutcome::Changed(badge(Some(1), true)),
        ]
    );
    assert_eq!(mon.snapshot(), badge(Some(1), true));
}

#[test]
fn badge_that_stays_is_not_published_again() {
    let mut mon = PatternMonitor::new();
    mon.seed(vec![]);
    let mut stream = EventStream::new(mon.snapshot());
    feed(&mut mon, &mut stream, &HEAD);
    let out = feed(
        &mut mon,
        &mut stream,
        &["event:pattern_created\r\n", "data:{\"id\":\"a\",\"kind\":\"swarm\"}\r\n", "\r\n"],
    );
    assert_eq!(out, vec![LineOutcome::Quiet; 3]);
    let block = [
        "event:pattern_lifecycle\r\n",
        "data:{\"id\":\"a\",\"kind\":\"swarm\",\"lifecycle\":\"active\"}\r\n",
        "\r\n",
    ];
    let out = feed(&mut mon, &mut stream, &block);
    assert_eq!(out[2], LineOutcome::Changed(badge(Some(1), false)));
    let out = feed(&mut mon, &mut stream, &block);
    assert_eq!(out[2], LineOutcome::Quiet);
}

#[test]
fn data_lines_are_joined_by_line_feeds() {
    let mut mon = PatternMonitor::new();
    let mut stream = EventStream::new(mon.snapshot());
    feed(&mut mon, &mut stream, &HEAD);
    let out = feed(
        &mut mon,
        &mut stream,
        &[
            "data: {\"id\":\"a\",\n",
            "1f\r\n",
            "data:   \"kind\":\"swarm\",\"lifecycle\":\"active\"}\n",
            ": comment\n",
            "id: 7\n",
            "retry: 100\n",
            "event:   pattern_created  \n",
            "\n",
        ],
    );
    assert_eq!(out[7], LineOutcome::Changed(badge(Some(1), false)));
    let mut stream = EventStream::new(mon.snapshot());
    feed(&mut mon, &mut stream, &HEAD);
    let out = feed(
        &mut mon,
        &mut stream,
        &[
            "event: pattern_created\n",
            "data: {\"id\":\"b\",\"kind\":\"dir\n",
            "data: ect\",\"lifecycle\":\"active\"}\n",
            "\n",
        ],
    );
    assert_eq!(out[3], LineOutcome::Quiet);
    assert_eq!(mon.snapshot(), badge(Some(1), false));
}

#[test]
fn data_without_a_kind_are_dropped() {
    let mut mon = PatternMonitor::new();
    let mut stream = EventStream::new(mon.snapshot());
    feed(&mut mon, &mut stream, &HEAD);
    let out = feed(
        &mut mon,
        &mut stream,
        &[
            "data: {\"id\":\"a\",\"kind\":\"swarm\"}\n",
            "\n",
            "event: pattern_created\n",
            "\n",
        ],
    );
    assert_eq!(out, vec![LineOutcome::Quiet; 4]);
    assert_eq!(mon.snapshot(), badge(None, false));
}

#[test]
fn headers_are_no_events() {
    let mut mon = PatternMonitor::new();
    let mut stream = EventStream::new(mon.snapshot());
    feed(
        &mut mon,
        &mut stream,
        &[
            "HTTP/1.1 200 OK\r\n",
            "event: pattern_created\r\n",
            "data: {\"id\":\"a\",\"kind\":\"swarm\"}\r\n",
            "\r\n",
            "\n",
        ],
    );
    assert_eq!(mon.snapshot(), badge(None, false));
}

#[test]
fn refused_stream_says_its_status() {
    let mut mon = PatternMonitor::new();
    let mut stream = EventStream::new(mon.snapshot());
    let out = feed(&mut mon, &mut stream, &["HTTP/1.1 404 Not Found\r\n", "\r\n"]);
    assert_eq!(out, vec![LineOutcome::Quiet, LineOutcome::Refused(404)]);
    let mut stream = EventStream::new(mon.snapshot());
    let out = feed(&mut mon, &mut stream, &["HTTP/1.1 400 x\n", "A: 200\n", "\n"]);
    assert_eq!(out[2], LineOutcome::Refused(400));
    let mut stream = EventStream::new(mon.snapshot());
    let out = feed(&mut mon, &mut stream, &["HTTP/1.1 399 x\n", "A 500 b\n", "\n"]);
    assert_eq!(out[2], LineOutcome::Quiet);
    let mut stream = EventStream::new(mon.snapshot());
    assert_eq!(feed(&mut mon, &mut stream, &["\r\n"]), vec![LineOutcome::Quiet]);
}

#[test]
fn unreadable_status_line_opens_the_stream() {
    let mut mon = PatternMonitor::new();
    let mut stream = EventStream::new(mon.snapshot());
    let out = feed(
        &mut mon,
        &mut stream,
        &[
            "hello\r\n",
            "\r\n",
            "event: pattern_created\n",
            "data: {\"id\":\"a\",\"kind\":\"swarm\"}\n",
            "\n",
        ],
    );
    assert_eq!(out[4], LineOutcome::Changed(badge(Some(0), false)));
}

#[test]
fn pauses_double_up_to_their_limit() {
    let mut backoff = Backoff::new();
    let pauses: Vec<u64> = (0..8).map(|_| backoff.after(StreamEnd::Failed)).collect();
    assert_eq!(pauses, vec![500, 1000, 2000, 4000, 8000, 16000, 30000, 30000]);
}

#[test]
fn pauses_begin_anew_when_the_daemon_closes() {
    let mut backoff = Backoff::new();
    for _ in 0..5 {
        backoff.after(StreamEnd::Failed);
    }
    assert_eq!(backoff.after(StreamEnd::Closed), 500);
    assert_eq!(backoff.after(StreamEnd::Failed), 1000);
    assert_eq!(backoff.after(StreamEnd::Closed), 500);
    assert_eq!(backoff.after(StreamEnd::Closed), 500);
}

#[test]
fn only_changes_are_published() {
    let mut mon = PatternMonitor::new();
    mon.seed(vec![]);
    let shown = mon.snapshot();
    let mut stream = EventStream::new(shown);
    feed(&mut mon, &mut stream, &HEAD);
    let mut published = vec![shown];
    for line in [
        "event: pattern_created\n",
        "data: {\"id\":\"a\",\"kind\":\"swarm\",\"lifecycle\":\"active\"}\n",
        "\n",
        "event: pattern_created\n",
        "data: {\"id\":\"a\",\"kind\":\"graph\",\"lifecycle\":\"active\"}\n",
        "\n",
        "event: pattern_created\n",
        "data: {\"id\":\"b\",\"kind\":\"direct\",\"lifecycle\":\"active\"}\n",
        "\n",
        "event: ping\n",
        "\n",
        "event: pattern_converged\n",
        "data: {\"id\":\"b\"}\n",
        "\n",
    ] {
        if let LineOutcome::Changed(now) = mon.on_line(&mut stream, line) {
            published.push(now);
        }
        assert_eq!(published.last(), Some(&mon.snapshot()));
    }
    assert_eq!(
        published,
        vec![
            badge(Some(0), false),
            badge(Some(1), false),
            badge(Some(2), true),
            badge(Some(1), false),
        ]
    );
}

#[test]
fn patterns_are_polled_while_the_stream_is_down() {
    let mut mon = PatternMonitor::new();
    let mut backoff = Backoff::new();
    let mut shown = mon.snapshot();
    let answers: [Option<&[u8]>; 4] = [
        None,
        Some(b"HTTP/1.1 404 Not Found\r\n\r\n"),
        Some(b"HTTP/1.1 200 OK\r\n\r\n[{\"id\":\"a\",\"kind\":\"direct\",\"lifecycle\":\"active\"}]"),
        Some(b"HTTP/1.1 200 OK\r\n\r\n[{\"id\":\"b\",\"kind\":\"direct\",\"lifecycle\":\"active\"}]"),
    ];
    let mut seen = vec![];
    let mut pauses = vec![];
    for answer in answers {
        let due = after_stream(&mut backoff, StreamEnd::Failed);
        assert!(due.request.starts_with("GET /patterns/active HTTP/1.1\r\n"));
        pauses.push(due.pause_ms);
        let change = mon.refresh(shown, answer);
        if let Some(now) = change {
            shown = now;
        }
        seen.push(change);
    }
    assert_eq!(pauses, vec![500, 1000, 2000, 4000]);
    assert_eq!(seen, vec![None, None, Some(badge(Some(1), true)), None]);
    let due = after_stream(&mut backoff, StreamEnd::Closed);
    assert!(due.request.starts_with("GET /patterns/active HTTP/1.1\r\n"));
    assert_eq!(due.pause_ms, 500);
}
