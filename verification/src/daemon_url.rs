//! Where the daemon listens: its port file, its health check, its HTTP origin.
//!
//! The daemon binds a port of 127.0.0.1 and writes its number to
//! `$SDI_HOME/.cache/sdi/sdid.port` (or `$XDG_CACHE_HOME/sdi/sdid.port`).

use vstd::prelude::*;
use vstd::string::*;
use vstd::utf8::*;

use crate::daemon::{Location, Place};
use crate::text::{
    chars_of, decimal, is_digit, law_decimal_injective, law_decimal_reads_back,
    law_decimal_value, law_no_number, law_trim, law_trim_white, number_u16, push_decimal,
    read_second_number, read_trimmed_number, second_number, trim, utf8_text, white_space,
};

verus! {

/// The pause between two looks at the port file, in milliseconds.
pub const PORT_POLL_INTERVAL_MS: u64 = 150;

/// How long the port file is waited for, in milliseconds.
pub const PORT_POLL_BUDGET_MS: u64 = 5_000;

/// The place of the port file.
pub open spec fn port_file_place<P>(
    sdi_home: Option<P>,
    xdg_cache_home: Option<P>,
    home: Option<P>,
) -> Place<P> {
    match sdi_home {
        Some(_) => Place { root: sdi_home, parts: seq![".cache"@, "sdi"@, "sdid.port"@] },
        None => match xdg_cache_home {
            Some(_) => Place { root: xdg_cache_home, parts: seq!["sdi"@, "sdid.port"@] },
            None => Place { root: home, parts: seq![".cache"@, "sdi"@, "sdid.port"@] },
        },
    }
}

/// The place of the port file, from the values of `SDI_HOME`, `XDG_CACHE_HOME` and `HOME`.
pub fn port_file_path<P>(
    sdi_home: Option<P>,
    xdg_cache_home: Option<P>,
    home: Option<P>,
) -> (r: Location<P>)
    ensures
        r@ == port_file_place(sdi_home, xdg_cache_home, home),
        sdi_home is Some ==> r.root == sdi_home && r@.parts == seq![
            ".cache"@,
            "sdi"@,
            "sdid.port"@,
        ],
        sdi_home is None && xdg_cache_home is Some ==> r.root == xdg_cache_home && r@.parts == seq![
            "sdi"@,
            "sdid.port"@,
        ],
        sdi_home is None && xdg_cache_home is None ==> r.root == home && r@.parts == seq![
            ".cache"@,
            "sdi"@,
            "sdid.port"@,
        ],
{
    let mut parts: Vec<&'static str> = Vec::new();
    let root = match sdi_home {
        Some(sdi) => {
            parts.push(".cache");
            Some(sdi)
        },
        None => match xdg_cache_home {
            Some(cache) => Some(cache),
            None => {
                parts.push(".cache");
                home
            },
        },
    };
    parts.push("sdi");
    parts.push("sdid.port");
    let r = Location { root, parts };
    assert(r@.parts =~= port_file_place(sdi_home, xdg_cache_home, home).parts);
    r
}

/// The port that a port file holds: a number, with white space round it or not.
pub open spec fn port_in(content: Option<Seq<char>>) -> Option<u16> {
    match content {
        Some(text) => number_u16(trim(text)),
        None => None,
    }
}

/// The text of a file, where it could be read.
pub open spec fn content_text(content: Option<&str>) -> Option<Seq<char>> {
    match content {
        Some(text) => Some(text@),
        None => None,
    }
}

/// The port that a port file holds, where it could be read.
pub fn read_port(content: Option<&str>) -> (r: Option<u16>)
    ensures
        r == port_in(content_text(content)),
        r == match content {
            Some(text) => number_u16(trim(text@)),
            None => None,
        },
{
    match content {
        Some(text) => read_trimmed_number(text),
        None => None,
    }
}

/// What a poll does next.
#[derive(Debug, PartialEq, Eq)]
pub enum PollStep<T> {
    /// It has found what it waits for.
    Found(T),
    /// Its time is over.
    GiveUp,
    /// It pauses for these milliseconds and looks again.
    Pause(u64),
}

/// What a poll does after a look.
pub open spec fn poll_step<T>(
    found: Option<T>,
    elapsed_ms: u64,
    budget_ms: u64,
    interval_ms: u64,
) -> PollStep<T> {
    match found {
        Some(x) => PollStep::Found(x),
        None => if elapsed_ms >= budget_ms {
            PollStep::GiveUp
        } else {
            PollStep::Pause(interval_ms)
        },
    }
}

/// Decides what a poll does after a look. What was found counts, however late it is.
pub fn poll<T>(found: Option<T>, elapsed_ms: u64, budget_ms: u64, interval_ms: u64) -> (r: PollStep<
    T,
>)
    ensures
        r == poll_step(found, elapsed_ms, budget_ms, interval_ms),
        found matches Some(x) ==> r == PollStep::Found(x),
        found is None && elapsed_ms >= budget_ms ==> r == PollStep::<T>::GiveUp,
        found is None && elapsed_ms < budget_ms ==> r == PollStep::<T>::Pause(interval_ms),
{
    match found {
        Some(x) => PollStep::Found(x),
        None => if elapsed_ms >= budget_ms {
            PollStep::GiveUp
        } else {
            PollStep::Pause(interval_ms)
        },
    }
}

/// What the wait for the daemon's port does after a look at the port file.
pub fn wait_for_port(content: Option<&str>, elapsed_ms: u64) -> (r: PollStep<u16>)
    ensures
        r == poll_step(
            port_in(content_text(content)),
            elapsed_ms,
            PORT_POLL_BUDGET_MS,
            PORT_POLL_INTERVAL_MS,
        ),
        r == match (content, elapsed_ms < 5_000) {
            (Some(text), true) => match number_u16(trim(text@)) {
                Some(port) => PollStep::Found(port),
                None => PollStep::Pause(150),
            },
            (Some(text), false) => match number_u16(trim(text@)) {
                Some(port) => PollStep::Found(port),
                None => PollStep::GiveUp,
            },
            (None, true) => PollStep::Pause(150),
            (None, false) => PollStep::GiveUp,
        },
{
    poll(read_port(content), elapsed_ms, PORT_POLL_BUDGET_MS, PORT_POLL_INTERVAL_MS)
}

/// The text of the health check.
pub open spec fn health_text() -> Seq<char> {
    "GET /health HTTP/1.1\r\nHost: localhost\r\nConnection: close\r\n\r\n"@
}

/// The request of the health check.
pub fn health_request() -> (r: &'static str)
    ensures
        r@ == health_text(),
        r@ == "GET /health HTTP/1.1\r\nHost: localhost\r\nConnection: close\r\n\r\n"@,
{
    "GET /health HTTP/1.1\r\nHost: localhost\r\nConnection: close\r\n\r\n"
}

/// Why the answer to the health check cannot be read.
#[derive(Clone, Copy, Debug, PartialEq, Eq, Structural)]
pub enum HealthError {
    /// It is not valid UTF-8.
    NonUtf8,
    /// It holds no status code.
    NoStatus,
}

impl HealthError {
    /// What the message says.
    pub open spec fn text(self) -> Seq<char> {
        match self {
            HealthError::NonUtf8 => "non-utf8"@,
            HealthError::NoStatus => "no status"@,
        }
    }

    /// The message of the error.
    pub fn message(self) -> (r: &'static str)
        ensures
            r@ == self.text(),
            r@ == match self {
                HealthError::NonUtf8 => "non-utf8"@,
                HealthError::NoStatus => "no status"@,
            },
    {
        match self {
            HealthError::NonUtf8 => "non-utf8",
            HealthError::NoStatus => "no status",
        }
    }
}

/// What the first bytes of an answer say of the daemon's health: the second word is the
/// status code.
pub open spec fn health_of(head: Seq<u8>) -> Result<u16, HealthError> {
    if !valid_utf8(head) {
        Err(HealthError::NonUtf8)
    } else {
        match second_number(decode_utf8(head)) {
            Some(code) => Ok(code),
            None => Err(HealthError::NoStatus),
        }
    }
}

/// The status code in the first bytes of the answer to the health check.
pub fn ping_health(head: &[u8]) -> (r: Result<u16, HealthError>)
    ensures
        r == health_of(head@),
        !valid_utf8(head@) ==> r == Err::<u16, HealthError>(HealthError::NonUtf8),
        valid_utf8(head@) ==> r == match second_number(decode_utf8(head@)) {
            Some(code) => Ok::<u16, HealthError>(code),
            None => Err::<u16, HealthError>(HealthError::NoStatus),
        },
{
    match utf8_text(head) {
        Some(text) => {
            let chars = chars_of(text);
            assert(chars@.take(chars@.len() as int) =~= text@);
            match read_second_number(&chars, chars.len()) {
                Some(code) => Ok(code),
                None => Err(HealthError::NoStatus),
            }
        },
        None => Err(HealthError::NonUtf8),
    }
}

/// The origin of a daemon that listens on this port.
pub open spec fn origin_text(port: u16) -> Seq<char> {
    "http://127.0.0.1:"@ + decimal(port as nat) + "/"@
}

/// The daemon's HTTP origin.
pub fn origin(port: u16) -> (r: String)
    ensures
        r@ == origin_text(port),
        r@ == "http://127.0.0.1:"@ + decimal(port as nat) + "/"@,
{
    let mut out = "http://127.0.0.1:".to_owned();
    push_decimal(&mut out, port as usize);
    out.append("/");
    out
}

/// A port reads back from a port file that holds its decimal numeral, with white space
/// round it or not.
pub proof fn law_port_file_reads_back(before: Seq<char>, port: u16, after: Seq<char>)
    requires
        forall|i: int| 0 <= i < before.len() ==> white_space(#[trigger] before[i]),
        forall|i: int| 0 <= i < after.len() ==> white_space(#[trigger] after[i]),
    ensures
        port_in(Some(before + decimal(port as nat) + after)) == Some(port),
{
    let core = decimal(port as nat);
    law_decimal_value(port as nat);
    assert(is_digit(core[0]));
    assert(is_digit(core[core.len() - 1]));
    law_trim(before, core, after);
    law_decimal_reads_back(port);
}

/// Daemons on different ports have different origins.
pub proof fn law_origin_injective(a: u16, b: u16)
    requires
        origin_text(a) == origin_text(b),
    ensures
        a == b,
{
    let prefix = "http://127.0.0.1:"@;
    let suffix = "/"@;
    let x = decimal(a as nat);
    let y = decimal(b as nat);
    assert(origin_text(a).len() == prefix.len() + x.len() + suffix.len());
    assert(origin_text(b).len() == prefix.len() + y.len() + suffix.len());
    assert(x =~= origin_text(a).subrange(prefix.len() as int, (prefix.len() + x.len()) as int));
    assert(y =~= origin_text(b).subrange(prefix.len() as int, (prefix.len() + y.len()) as int));
    law_decimal_injective(a as nat, b as nat);
}

/// `SDI_HOME`, where it is set, decides where the port file lies, whatever the other two are.
pub proof fn law_sdi_home_decides<P>(sdi_home: P, xdg_cache_home: Option<P>, home: Option<P>)
    ensures
        port_file_place(Some(sdi_home), xdg_cache_home, home) == (Place {
            root: Some(sdi_home),
            parts: seq![".cache"@, "sdi"@, "sdid.port"@],
        }),
{
}

/// Without `SDI_HOME`, `XDG_CACHE_HOME` decides where it is set, whatever `HOME` is.
pub proof fn law_cache_home_comes_next<P>(xdg_cache_home: P, home: Option<P>)
    ensures
        port_file_place(None, Some(xdg_cache_home), home) == (Place {
            root: Some(xdg_cache_home),
            parts: seq!["sdi"@, "sdid.port"@],
        }),
{
}

/// Without either, the port file lies under `HOME`.
pub proof fn law_home_comes_last<P>(home: Option<P>)
    ensures
        port_file_place(None, None, home) == (Place {
            root: home,
            parts: seq![".cache"@, "sdi"@, "sdid.port"@],
        }),
{
}

/// A port file holds the number that stands in it between white space, and no port where
/// there is no file, or nothing but white space in it.
pub proof fn law_port_is_the_trimmed_number(before: Seq<char>, core: Seq<char>, after: Seq<char>)
    requires
        forall|i: int| 0 <= i < before.len() ==> white_space(#[trigger] before[i]),
        forall|i: int| 0 <= i < after.len() ==> white_space(#[trigger] after[i]),
        core.len() > 0,
        !white_space(core[0]),
        !white_space(core.last()),
    ensures
        port_in(Some(before + core + after)) == number_u16(core),
        port_in(Some(before)) is None,
        port_in(None) is None,
{
    law_trim(before, core, after);
    law_trim_white(before);
    law_no_number(trim(before), 0);
}

/// A poll ends with what it waits for, however late that is found; it gives up only when its
/// budget is used up, and else pauses for its interval.
pub proof fn law_poll_ends<T>(x: T, elapsed_ms: u64, budget_ms: u64, interval_ms: u64)
    ensures
        poll_step(Some(x), elapsed_ms, budget_ms, interval_ms) == PollStep::Found(x),
        poll_step(None::<T>, elapsed_ms, budget_ms, interval_ms) is GiveUp <==> elapsed_ms
            >= budget_ms,
        elapsed_ms < budget_ms ==> poll_step(None::<T>, elapsed_ms, budget_ms, interval_ms)
            == PollStep::<T>::Pause(interval_ms),
{
}

/// The health of a daemon is the number in the second word of its answer, whatever that is;
/// an answer that is no text, or has no such number, says so.
pub proof fn law_health_is_the_second_number(head: Seq<u8>)
    ensures
        !valid_utf8(head) ==> health_of(head) == Err::<u16, HealthError>(HealthError::NonUtf8),
        valid_utf8(head) ==> (second_number(decode_utf8(head)) matches Some(code) ==> health_of(head)
            == Ok::<u16, HealthError>(code)),
        valid_utf8(head) && second_number(decode_utf8(head)) is None ==> health_of(head) == Err::<
            u16,
            HealthError,
        >(HealthError::NoStatus),
{
}

/// The origin is that of the daemon's own port on the local host, for every port.
pub proof fn law_origin_is_local(port: u16)
    ensures
        origin_text(port) == "http://127.0.0.1:"@ + decimal(port as nat) + "/"@,
{
}

} // verus!
