//! The SDI desktop shell's logic, apart from its window, its tray and its sockets.
//!
//! The shell shows the dashboard of the local daemon `sdid` in a window. It mirrors two
//! things of the daemon into the window title and the tray: the resolved autonomy mode, and
//! the active collaboration patterns, with a marker where one of them is direct. It also
//! offers the circuit breaker, which demotes every policy of a project.
//!
//! A function of this crate writes what is to be sent, reads what came back, or decides what
//! comes next. Sending, waiting and showing are left to its callers.

pub mod text;

pub mod json;

pub mod http;

pub mod daemon;

pub mod daemon_url;

pub mod autonomy;

pub mod patterns;

pub mod pattern_laws;

pub mod events;

pub mod surface;

pub mod startup;
