//! The course of the shell's start, once its window and its tray stand.
//!
//! The shell waits for the daemon's port and confirms by a health check that the daemon is
//! up. Once both have succeeded, it points the window at the daemon, fetches the active
//! patterns, and starts its two monitors. Without a port, or without a daemon that answers
//! the check, none of that happens. A navigation or a fetch that fails does not end the start.

use vstd::prelude::*;
use vstd::string::*;

use crate::daemon_url::{health_request, health_text, origin, origin_text};
use crate::http::get_text;
use crate::patterns::patterns_request;

verus! {

/// Where the start stands.
#[derive(Clone, Copy, Debug, PartialEq, Eq, Structural)]
pub enum Startup {
    WaitingForPort,
    CheckingHealth(u16),
    Navigating(u16),
    FetchingPatterns(u16),
    Running(u16),
    /// There is no daemon, or none that is up; the window shows that it is disconnected.
    Disconnected,
}

/// How a piece of outside work ended.
#[derive(Clone, Copy, Debug, PartialEq, Eq, Structural)]
pub enum Outcome {
    /// The wait for the port ended, with a port or without.
    Port(Option<u16>),
    /// The work of any other step ended, in success or not.
    Done(bool),
}

/// The outside work that is due.
#[derive(Debug)]
pub enum Work {
    WaitForPort,
    /// Send the health check.
    CheckHealth { port: u16, probe: &'static str },
    /// Point the window at this origin.
    Navigate { origin: String },
    /// Fetch the active patterns, seed the monitor with the answer, publish its badge.
    FetchPatterns { port: u16, request: String },
    /// Follow the events and the autonomy mode.
    StartMonitors { port: u16 },
    Nothing,
}

/// Where the start stands after a piece of work. An outcome that the step does not wait for
/// leaves it where it is.
pub open spec fn next_startup(state: Startup, outcome: Outcome) -> Startup {
    match (state, outcome) {
        (Startup::WaitingForPort, Outcome::Port(Some(port))) => Startup::CheckingHealth(port),
        (Startup::WaitingForPort, Outcome::Port(None)) => Startup::Disconnected,
        (Startup::CheckingHealth(port), Outcome::Done(true)) => Startup::Navigating(port),
        (Startup::CheckingHealth(_), Outcome::Done(false)) => Startup::Disconnected,
        (Startup::Navigating(port), Outcome::Done(_)) => Startup::FetchingPatterns(port),
        (Startup::FetchingPatterns(port), Outcome::Done(_)) => Startup::Running(port),
        _ => state,
    }
}

impl Startup {
    /// Where the start begins.
    pub fn begin() -> (r: Self)
        ensures
            r == Startup::WaitingForPort,
    {
        Startup::WaitingForPort
    }

    /// Where the start stands after a piece of work.
    pub fn next(self, outcome: Outcome) -> (r: Self)
        ensures
            r == next_startup(self, outcome),
    {
        match (self, outcome) {
            (Startup::WaitingForPort, Outcome::Port(Some(port))) => Startup::CheckingHealth(port),
            (Startup::WaitingForPort, Outcome::Port(None)) => Startup::Disconnected,
            (Startup::CheckingHealth(port), Outcome::Done(true)) => Startup::Navigating(port),
            (Startup::CheckingHealth(_), Outcome::Done(false)) => Startup::Disconnected,
            (Startup::Navigating(port), Outcome::Done(_)) => Startup::FetchingPatterns(port),
            (Startup::FetchingPatterns(port), Outcome::Done(_)) => Startup::Running(port),
            _ => self,
        }
    }

    /// The work that is due.
    pub fn work(self) -> (r: Work)
        ensures
            match self {
                Startup::WaitingForPort => r is WaitForPort,
                Startup::CheckingHealth(p) => r matches Work::CheckHealth { port, probe } && port
                    == p && probe@ == health_text() && probe@
                    == "GET /health HTTP/1.1\r\nHost: localhost\r\nConnection: close\r\n\r\n"@,
                Startup::Navigating(p) => r matches Work::Navigate { origin } && origin@
                    == origin_text(p),
                Startup::FetchingPatterns(p) => r matches Work::FetchPatterns { port, request }
                    && port == p && request@ == get_text("/patterns/active"@),
                Startup::Running(p) => r matches Work::StartMonitors { port } && port == p,
                Startup::Disconnected => r is Nothing,
            },
    {
        match self {
            Startup::WaitingForPort => Work::WaitForPort,
            Startup::CheckingHealth(port) => Work::CheckHealth { port, probe: health_request() },
            Startup::Navigating(port) => Work::Navigate { origin: origin(port) },
            Startup::FetchingPatterns(port) => Work::FetchPatterns {
                port,
                request: patterns_request(),
            },
            Startup::Running(port) => Work::StartMonitors { port },
            Startup::Disconnected => Work::Nothing,
        }
    }
}

/// A start that has found a port and a daemon that is up comes to run on that port, whatever
/// becomes of the navigation and the fetch.
pub proof fn law_port_suffices(port: u16, health: bool, navigation: bool, fetch: bool)
    requires
        health,
    ensures
        next_startup(
            next_startup(
                next_startup(
                    next_startup(Startup::WaitingForPort, Outcome::Port(Some(port))),
                    Outcome::Done(health),
                ),
                Outcome::Done(navigation),
            ),
            Outcome::Done(fetch),
        ) == Startup::Running(port),
{
}

/// A daemon that fails its health check is not used: the start is disconnected, and so it
/// stays.
pub proof fn law_failed_check_disconnects(port: u16, outcome: Outcome)
    ensures
        next_startup(Startup::CheckingHealth(port), Outcome::Done(false)) == Startup::Disconnected,
        next_startup(
            next_startup(Startup::CheckingHealth(port), Outcome::Done(false)),
            outcome,
        ) == Startup::Disconnected,
{
}

/// The window is pointed at the daemon only after a health check that succeeded.
pub proof fn law_navigation_needs_health(state: Startup, outcome: Outcome, port: u16)
    requires
        next_startup(state, outcome) == Startup::Navigating(port),
        state != Startup::Navigating(port),
    ensures
        state == Startup::CheckingHealth(port),
        outcome == Outcome::Done(true),
{
}

/// A start that runs, or that has found no daemon, is over: nothing moves it any more.
pub proof fn law_start_ends(state: Startup, outcome: Outcome)
    requires
        state is Running || state is Disconnected,
    ensures
        next_startup(state, outcome) == state,
{
}

/// Without a port the start is disconnected, and with one the daemon on that port is checked.
pub proof fn law_port_decides(port: u16)
    ensures
        next_startup(Startup::WaitingForPort, Outcome::Port(None)) == Startup::Disconnected,
        next_startup(Startup::WaitingForPort, Outcome::Port(Some(port))) == Startup::CheckingHealth(
            port,
        ),
        next_startup(Startup::CheckingHealth(port), Outcome::Done(true)) == Startup::Navigating(port),
{
}

/// The navigation and the fetch take the start on, in success or not, on the same port.
pub proof fn law_navigation_and_fetch_go_on(port: u16, success: bool)
    ensures
        next_startup(Startup::Navigating(port), Outcome::Done(success)) == Startup::FetchingPatterns(
            port,
        ),
        next_startup(Startup::FetchingPatterns(port), Outcome::Done(success)) == Startup::Running(
            port,
        ),
{
}

/// An outcome that a step does not wait for moves nothing.
pub proof fn law_other_outcomes_ignored(state: Startup, port: Option<u16>, success: bool)
    ensures
        state != Startup::WaitingForPort ==> next_startup(state, Outcome::Port(port)) == state,
        next_startup(Startup::WaitingForPort, Outcome::Done(success)) == Startup::WaitingForPort,
{
}

} // verus!
