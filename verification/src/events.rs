//! The daemon's `/events` stream: the framing of its lines, the cache behind the frames, and
//! the pauses between connections.
//!
//! The stream is server-sent events over HTTP. Lines `event: <kind>` and `data: <json>` make
//! a block, and a blank line ends it. Any other line, such as `id:`, `retry:` or a chunk
//! length, is ignored. While the stream is down, the active patterns are polled.

use vstd::arithmetic::power2::{lemma2_to64, lemma_pow2_unfold, pow2};
use vstd::prelude::*;
use vstd::string::*;

use crate::http::get_text;
use crate::patterns::{
    after_event_text, badge_of, patterns_request, PatternBadge, PatternMonitor, Rows,
};
use crate::text::{
    chars_of, has_prefix, law_line_end, law_no_second_word, line_break, line_len,
    read_second_number, same_text, second_number, trim, trim_of, trim_start, trim_start_of,
    without_line_end,
};

verus! {

/// The first pause between two connections, in milliseconds.
pub const RECONNECT_MIN_MS: u64 = 500;

/// The longest pause between two connections, in milliseconds.
pub const RECONNECT_MAX_MS: u64 = 30_000;

/// The text of the request that opens the stream.
pub open spec fn events_text() -> Seq<char> {
    "GET /events HTTP/1.1\r\nHost: localhost\r\nAccept: text/event-stream\r\nCache-Control: no-cache\r\nConnection: keep-alive\r\n\r\n"@
}

/// The request that opens the stream.
pub fn events_request() -> (r: &'static str)
    ensures
        r@ == events_text(),
        r@
            == "GET /events HTTP/1.1\r\nHost: localhost\r\nAccept: text/event-stream\r\nCache-Control: no-cache\r\nConnection: keep-alive\r\n\r\n"@,
{
    "GET /events HTTP/1.1\r\nHost: localhost\r\nAccept: text/event-stream\r\nCache-Control: no-cache\r\nConnection: keep-alive\r\n\r\n"
}

/// Which part of the response the stream is in.
pub enum Phase {
    /// In the headers; the first line, where it has been read, is the status line.
    Head(Option<Seq<char>>),
    /// In the events.
    Body,
}

/// What a stream has read so far.
pub struct StreamState {
    pub phase: Phase,
    /// The kind of the block that is being read.
    pub event: Option<Seq<char>>,
    /// The data of the block that is being read.
    pub data: Seq<char>,
    /// The badge that was published last.
    pub published: PatternBadge,
}

/// What a line completes.
pub enum Frame {
    /// Nothing yet.
    Pending,
    /// The headers, with a status code that refuses the stream.
    Refused(u16),
    /// A block of this kind with these data.
    Block(Seq<char>, Seq<char>),
}

/// The line ends the headers.
pub open spec fn blank_header(line: Seq<char>) -> bool {
    line == "\r\n"@ || line == "\n"@
}

/// A line of the headers. The last one is blank; a status code from 400 on then refuses the
/// stream, and anything else, a status line that cannot be read too, opens it.
pub open spec fn head_step(first: Option<Seq<char>>, line: Seq<char>) -> (Phase, Frame) {
    let status_line = match first {
        Some(l) => l,
        None => line,
    };
    if !blank_header(line) {
        (Phase::Head(Some(status_line)), Frame::Pending)
    } else {
        match second_number(status_line) {
            Some(code) => if code >= 400 {
                (Phase::Head(Some(status_line)), Frame::Refused(code))
            } else {
                (Phase::Body, Frame::Pending)
            },
            None => (Phase::Body, Frame::Pending),
        }
    }
}

/// The data of a block, with one more line.
pub open spec fn with_data(data: Seq<char>, line: Seq<char>) -> Seq<char> {
    if data.len() == 0 {
        line
    } else {
        data.push('\n') + line
    }
}

/// A line of the events.
pub open spec fn body_step(state: StreamState, line: Seq<char>) -> (StreamState, Frame) {
    let content = without_line_end(line);
    if content.len() == 0 {
        (
            StreamState { event: None, data: seq![], ..state },
            match state.event {
                Some(kind) => Frame::Block(kind, state.data),
                None => Frame::Pending,
            },
        )
    } else if "event:"@.is_prefix_of(content) {
        (StreamState { event: Some(trim(content.skip(6))), ..state }, Frame::Pending)
    } else if "data:"@.is_prefix_of(content) {
        (
            StreamState { data: with_data(state.data, trim_start(content.skip(5))), ..state },
            Frame::Pending,
        )
    } else {
        (state, Frame::Pending)
    }
}

/// A line of the stream.
pub open spec fn line_step(state: StreamState, line: Seq<char>) -> (StreamState, Frame) {
    match state.phase {
        Phase::Head(first) => {
            let (phase, frame) = head_step(first, line);
            (StreamState { phase, ..state }, frame)
        },
        Phase::Body => body_step(state, line),
    }
}

/// What a line of the stream does to the surface.
#[derive(Clone, Copy, Debug, PartialEq, Eq, Structural)]
pub enum LineOutcome {
    /// Nothing.
    Quiet,
    /// The badge has changed to this one.
    Changed(PatternBadge),
    /// The daemon refuses the stream with this status code.
    Refused(u16),
}

/// A connection to the stream.
pub struct EventStream {
    in_head: bool,
    status_line: Option<String>,
    event: Option<String>,
    data: String,
    published: PatternBadge,
}

/// What one line completed.
enum Completed {
    Nothing,
    Refused(u16),
    Block(String, String),
}

spec fn text_of(s: Option<String>) -> Option<Seq<char>> {
    match s {
        Some(s) => Some(s@),
        None => None,
    }
}

impl Completed {
    spec fn frame(self) -> Frame {
        match self {
            Completed::Nothing => Frame::Pending,
            Completed::Refused(code) => Frame::Refused(code),
            Completed::Block(kind, data) => Frame::Block(kind@, data@),
        }
    }
}

impl View for EventStream {
    type V = StreamState;

    closed spec fn view(&self) -> StreamState {
        StreamState {
            phase: if self.in_head {
                Phase::Head(text_of(self.status_line))
            } else {
                Phase::Body
            },
            event: text_of(self.event),
            data: self.data@,
            published: self.published,
        }
    }
}

impl EventStream {
    /// A connection on which nothing has been read; `published` is the badge that the
    /// surface shows.
    pub fn new(published: PatternBadge) -> (r: Self)
        ensures
            r@ == (StreamState {
                phase: Phase::Head(None),
                event: None,
                data: seq![],
                published,
            }),
    {
        let r = EventStream {
            in_head: true,
            status_line: None,
            event: None,
            data: String::new(),
            published,
        };
        assert(r@.data =~= seq![]);
        r
    }

    fn head_line(&mut self, line: &str) -> (r: Completed)
        requires
            old(self)@.phase is Head,
        ensures
            (final(self)@, r.frame()) == line_step(old(self)@, line@),
    {
        if self.status_line.is_none() {
            self.status_line = Some(line.to_owned());
        }
        if !same_text(line, "\r\n") && !same_text(line, "\n") {
            return Completed::Nothing;
        }
        let code = match &self.status_line {
            Some(s) => {
                let chars = chars_of(s.as_str());
                assert(chars@.take(chars@.len() as int) =~= s@);
                read_second_number(&chars, chars.len())
            },
            None => None,
        };
        match code {
            Some(code) => {
                if code >= 400 {
                    return Completed::Refused(code);
                }
            },
            None => {},
        }
        self.in_head = false;
        Completed::Nothing
    }

    fn body_line(&mut self, line: &str) -> (r: Completed)
        requires
            old(self)@.phase is Body,
        ensures
            (final(self)@, r.frame()) == line_step(old(self)@, line@),
    {
        let chars = chars_of(line);
        let n = line_len(&chars);
        let ghost content = without_line_end(line@);
        assert(content == chars@.take(n as int));
        if n == 0 {
            let mut event: Option<String> = None;
            std::mem::swap(&mut event, &mut self.event);
            let mut data = String::new();
            std::mem::swap(&mut data, &mut self.data);
            assert(self@.data =~= seq![]);
            return match event {
                Some(kind) => Completed::Block(kind, data),
                None => Completed::Nothing,
            };
        }
        proof {
            reveal_strlit("event:");
            reveal_strlit("data:");
        }
        if has_prefix(&chars, n, "event:") {
            assert(chars@.subrange(6, n as int) =~= content.skip(6));
            self.event = Some(trim_of(&chars, 6, n));
        } else if has_prefix(&chars, n, "data:") {
            assert(chars@.subrange(5, n as int) =~= content.skip(5));
            let ghost before = self.data@;
            let rest = trim_start_of(&chars, 5, n);
            if !self.data.as_str().is_empty() {
                self.data.push('\n');
            }
            self.data.append(rest.as_str());
            assert(self.data@ =~= with_data(before, rest@));
        }
        Completed::Nothing
    }

    fn read_line(&mut self, line: &str) -> (r: Completed)
        ensures
            (final(self)@, r.frame()) == line_step(old(self)@, line@),
    {
        if self.in_head {
            self.head_line(line)
        } else {
            self.body_line(line)
        }
    }
}

/// The cache and the connection that feeds it.
pub struct Watch {
    pub cache: Option<Rows>,
    pub stream: StreamState,
}

/// What a line of the stream does. A block that it completes is applied to the cache; the
/// outcome is the new badge where it is another than was published last.
pub open spec fn after_line(watch: Watch, line: Seq<char>) -> (Watch, LineOutcome) {
    let (state, frame) = line_step(watch.stream, line);
    match frame {
        Frame::Pending => (Watch { stream: state, ..watch }, LineOutcome::Quiet),
        Frame::Refused(code) => (Watch { stream: state, ..watch }, LineOutcome::Refused(code)),
        Frame::Block(kind, data) => {
            let cache = after_event_text(watch.cache, kind, data);
            let now = badge_of(cache);
            (
                Watch { cache, stream: StreamState { published: now, ..state } },
                if now != state.published {
                    LineOutcome::Changed(now)
                } else {
                    LineOutcome::Quiet
                },
            )
        },
    }
}

impl PatternMonitor {
    /// Reads a line of the stream. A block that the line completes is applied to the cache;
    /// the outcome is the new badge where it is another than was published last. So what was
    /// published last is always the badge of the cache.
    pub fn on_line(&mut self, stream: &mut EventStream, line: &str) -> (r: LineOutcome)
        ensures
            (Watch { cache: final(self)@, stream: final(stream)@ }, r) == after_line(
                Watch { cache: old(self)@, stream: old(stream)@ },
                line@,
            ),
            old(stream)@.published == badge_of(old(self)@) ==> final(stream)@.published == badge_of(
                final(self)@,
            ),
    {
        match stream.read_line(line) {
            Completed::Nothing => LineOutcome::Quiet,
            Completed::Refused(code) => LineOutcome::Refused(code),
            Completed::Block(kind, data) => {
                self.apply_event(kind.as_str(), data.as_str());
                let now = self.snapshot();
                if now != stream.published {
                    stream.published = now;
                    LineOutcome::Changed(now)
                } else {
                    LineOutcome::Quiet
                }
            },
        }
    }
}

/// How a connection to the stream ended.
#[derive(Clone, Copy, Debug, PartialEq, Eq, Structural)]
pub enum StreamEnd {
    /// The daemon closed it, as it does when it restarts.
    Closed,
    /// It could not be opened, was refused, or broke.
    Failed,
}

/// The pause that comes after a pause of `ms` milliseconds.
pub open spec fn doubled(ms: nat) -> nat {
    if 2 * ms <= RECONNECT_MAX_MS {
        2 * ms
    } else {
        RECONNECT_MAX_MS as nat
    }
}

/// The pause before the next connection: it doubles from connection to connection, up to a
/// limit, and begins anew when the daemon has closed one.
pub struct Backoff {
    ms: u64,
}

impl View for Backoff {
    type V = nat;

    closed spec fn view(&self) -> nat {
        self.ms as nat
    }
}

impl Backoff {
    #[verifier::type_invariant]
    spec fn wf(self) -> bool {
        RECONNECT_MIN_MS <= self.ms <= RECONNECT_MAX_MS
    }

    pub fn new() -> (r: Self)
        ensures
            r@ == RECONNECT_MIN_MS,
            r@ == 500,
    {
        Backoff { ms: RECONNECT_MIN_MS }
    }

    /// The milliseconds to wait after a connection has ended.
    pub fn after(&mut self, end: StreamEnd) -> (r: u64)
        ensures
            r == match end {
                StreamEnd::Closed => RECONNECT_MIN_MS as nat,
                StreamEnd::Failed => old(self)@,
            },
            final(self)@ == doubled(r as nat),
            RECONNECT_MIN_MS <= r <= RECONNECT_MAX_MS,
            end is Closed ==> r == 500,
            end is Failed ==> r == old(self)@,
            2 * r <= 30_000 ==> final(self)@ == 2 * r,
            2 * r > 30_000 ==> final(self)@ == 30_000,
    {
        proof {
            use_type_invariant(&*self);
        }
        let wait: u64 = match end {
            StreamEnd::Closed => RECONNECT_MIN_MS,
            StreamEnd::Failed => self.ms,
        };
        let next: u64 = if wait * 2 <= RECONNECT_MAX_MS { wait * 2 } else { RECONNECT_MAX_MS };
        self.ms = next;
        wait
    }
}

/// What is due when a connection has ended.
#[derive(Debug)]
pub struct AfterStream {
    /// The request for the active patterns, whose answer refreshes the cache.
    pub request: String,
    /// The milliseconds to wait before the next connection.
    pub pause_ms: u64,
}

/// What is due when a connection has ended: while the stream is down, the active patterns are
/// polled, once for every pause.
pub fn after_stream(backoff: &mut Backoff, end: StreamEnd) -> (r: AfterStream)
    ensures
        r.request@ == get_text("/patterns/active"@),
        r.pause_ms == match end {
            StreamEnd::Closed => RECONNECT_MIN_MS as nat,
            StreamEnd::Failed => old(backoff)@,
        },
        final(backoff)@ == doubled(r.pause_ms as nat),
        RECONNECT_MIN_MS <= r.pause_ms <= RECONNECT_MAX_MS,
        end is Closed ==> r.pause_ms == 500,
        end is Failed ==> r.pause_ms == old(backoff)@,
        2 * r.pause_ms <= 30_000 ==> final(backoff)@ == 2 * r.pause_ms,
        2 * r.pause_ms > 30_000 ==> final(backoff)@ == 30_000,
{
    AfterStream { request: patterns_request(), pause_ms: backoff.after(end) }
}

/// Taking the line end off gives back a text that ends in no line break.
proof fn lemma_line(content: Seq<char>, end: Seq<char>)
    requires
        content.len() > 0 ==> !line_break(content.last()),
        forall|i: int| 0 <= i < end.len() ==> line_break(#[trigger] end[i]),
    ensures
        without_line_end(content + end) == content,
    decreases end.len(),
{
    let s = content + end;
    if end.len() == 0 {
        assert(s =~= content);
    } else {
        assert(s.last() == end[end.len() - 1]);
        assert(s.drop_last() =~= content + end.drop_last());
        assert forall|i: int| 0 <= i < end.drop_last().len() implies line_break(
            #[trigger] end.drop_last()[i],
        ) by {
            assert(end.drop_last()[i] == end[i]);
        }
        lemma_line(content, end.drop_last());
    }
}

/// How a line ends makes no difference: by a line feed, or by a carriage return and a line
/// feed.
pub proof fn law_line_ends_alike(state: StreamState, content: Seq<char>)
    requires
        content.len() > 0 ==> !line_break(content.last()),
    ensures
        body_step(state, content + seq!['\r', '\n']) == body_step(state, content + seq!['\n']),
{
    lemma_line(content, seq!['\r', '\n']);
    lemma_line(content, seq!['\n']);
}

/// Lines that are no part of a block are ignored: `id:`, `retry:`, comments, chunk lengths.
pub proof fn law_other_lines_ignored(state: StreamState, line: Seq<char>)
    requires
        without_line_end(line).len() > 0,
        !"event:"@.is_prefix_of(without_line_end(line)),
        !"data:"@.is_prefix_of(without_line_end(line)),
    ensures
        body_step(state, line) == (state, Frame::Pending),
{
}

/// A blank line ends a block: the block is handed on if it has a kind, and in any case
/// nothing of it is left. Data without a kind are dropped.
pub proof fn law_blank_line_ends_block(state: StreamState, line: Seq<char>)
    requires
        without_line_end(line).len() == 0,
    ensures
        body_step(state, line).0 == (StreamState { event: None, data: seq![], ..state }),
        body_step(state, line).1 == match state.event {
            Some(kind) => Frame::Block(kind, state.data),
            None => Frame::Pending,
        },
{
}

/// What a block writes is read back: a line with a kind, a line with data and a blank line
/// hand on that kind, without the white space round it, and those data, without the white
/// space before them.
pub proof fn law_block_is_read(state: StreamState, kind: Seq<char>, data: Seq<char>)
    requires
        state.phase is Body,
        state.event is None,
        state.data.len() == 0,
        kind.len() > 0 ==> !line_break(kind.last()),
        data.len() > 0 ==> !line_break(data.last()),
    ensures
        ({
            let (s1, f1) = line_step(state, "event:"@ + kind + seq!['\n']);
            let (s2, f2) = line_step(s1, "data:"@ + data + seq!['\n']);
            let (s3, f3) = line_step(s2, seq!['\n']);
            &&& f1 is Pending
            &&& f2 is Pending
            &&& f3 == Frame::Block(trim(kind), trim_start(data))
            &&& s3 == state
        }),
{
    reveal_strlit("event:");
    reveal_strlit("data:");
    let e = "event:"@ + kind;
    let d = "data:"@ + data;
    assert(e.last() == if kind.len() > 0 { kind.last() } else { ':' });
    assert(d.last() == if data.len() > 0 { data.last() } else { ':' });
    lemma_line(e, seq!['\n']);
    lemma_line(d, seq!['\n']);
    lemma_line(seq![], seq!['\n']);
    assert(Seq::<char>::empty() + seq!['\n'] =~= seq!['\n']);
    assert("event:"@ =~= e.subrange(0, 6));
    assert("data:"@ =~= d.subrange(0, 5));
    assert(e.skip(6) =~= kind);
    assert(d.skip(5) =~= data);
    assert(d[0] == 'd' && "event:"@[0] == 'e');
    let (s1, f1) = line_step(state, "event:"@ + kind + seq!['\n']);
    let (s2, f2) = line_step(s1, "data:"@ + data + seq!['\n']);
    let (s3, f3) = line_step(s2, seq!['\n']);
    assert(!"event:"@.is_prefix_of(d)) by {
        if "event:"@.is_prefix_of(d) {
            assert(d.subrange(0, 6)[0] == d[0]);
        }
    }
    assert(s2.data =~= trim_start(data));
    assert(s3.data =~= state.data);
}

/// The headers are over at the first blank line, and a stream that is refused hands nothing
/// on.
pub proof fn law_head_hands_nothing_on(state: StreamState, line: Seq<char>)
    requires
        state.phase is Head,
    ensures
        !(line_step(state, line).1 is Block),
        line_step(state, line).0.phase is Body ==> blank_header(line),
        line_step(state, line).1 is Refused ==> line_step(state, line).0.phase is Head,
{
}

/// The cache and the connection after a list of lines.
pub open spec fn after_lines(watch: Watch, lines: Seq<Seq<char>>) -> Watch
    decreases lines.len(),
{
    if lines.len() == 0 {
        watch
    } else {
        after_line(after_lines(watch, lines.drop_last()), lines.last()).0
    }
}

/// The badges that a list of lines publishes, in order.
pub open spec fn published(watch: Watch, lines: Seq<Seq<char>>) -> Seq<PatternBadge>
    decreases lines.len(),
{
    if lines.len() == 0 {
        seq![]
    } else {
        let before = published(watch, lines.drop_last());
        match after_line(after_lines(watch, lines.drop_last()), lines.last()).1 {
            LineOutcome::Changed(badge) => before.push(badge),
            _ => before,
        }
    }
}

/// The line at the place `k` completes a block.
pub open spec fn block_at(watch: Watch, lines: Seq<Seq<char>>, k: int) -> bool {
    &&& 0 <= k < lines.len()
    &&& line_step(after_lines(watch, lines.take(k)).stream, lines[k]).1 is Block
}

/// Only changes are published: over any list of lines, no two badges in a row are equal, and
/// the first is another than the surface showed before. What was published last is what the
/// connection remembers.
pub proof fn law_only_changes_are_published(watch: Watch, lines: Seq<Seq<char>>)
    ensures
        forall|i: int, j: int|
            0 <= i && j == i + 1 && j < published(watch, lines).len() ==> #[trigger] published(
                watch,
                lines,
            )[i] != #[trigger] published(watch, lines)[j],
        published(watch, lines).len() > 0 ==> published(watch, lines)[0] != watch.stream.published,
        after_lines(watch, lines).stream.published == if published(watch, lines).len() > 0 {
            published(watch, lines).last()
        } else {
            watch.stream.published
        },
    decreases lines.len(),
{
    if lines.len() > 0 {
        law_only_changes_are_published(watch, lines.drop_last());
    }
}

/// Nothing is kept back: after any block, and whatever lines follow it, the badge that was
/// published last is the badge of the cache. It is the one that the surface showed before
/// where the lines have published none.
pub proof fn law_published_is_current(watch: Watch, lines: Seq<Seq<char>>, k: int)
    requires
        block_at(watch, lines, k),
    ensures
        badge_of(after_lines(watch, lines).cache) == if published(watch, lines).len() > 0 {
            published(watch, lines).last()
        } else {
            watch.stream.published
        },
    decreases lines.len(),
{
    law_only_changes_are_published(watch, lines);
    let front = lines.drop_last();
    if k < lines.len() - 1 {
        assert(front.take(k) =~= lines.take(k));
        assert(block_at(watch, front, k));
        law_only_changes_are_published(watch, front);
        law_published_is_current(watch, front, k);
    } else {
        assert(lines.take(k) =~= front);
    }
}

/// A surface that shows the badge of the cache when a connection begins goes on showing it,
/// line by line.
pub proof fn law_surface_follows_cache(watch: Watch, lines: Seq<Seq<char>>)
    requires
        watch.stream.published == badge_of(watch.cache),
    ensures
        after_lines(watch, lines).stream.published == badge_of(after_lines(watch, lines).cache),
    decreases lines.len(),
{
    if lines.len() > 0 {
        law_surface_follows_cache(watch, lines.drop_last());
    }
}

/// The pause after a failed connection, where this many pauses came before it since the
/// backoff began or began anew.
pub open spec fn pause_after(pauses: nat) -> nat
    decreases pauses,
{
    if pauses == 0 {
        RECONNECT_MIN_MS as nat
    } else {
        doubled(pause_after((pauses - 1) as nat))
    }
}

/// The pauses grow exponentially, up to the limit.
pub proof fn law_backoff_is_exponential(pauses: nat)
    ensures
        pause_after(pauses) == if RECONNECT_MIN_MS * pow2(pauses) <= RECONNECT_MAX_MS {
            RECONNECT_MIN_MS * pow2(pauses)
        } else {
            RECONNECT_MAX_MS as int
        },
    decreases pauses,
{
    if pauses == 0 {
        lemma2_to64();
    } else {
        law_backoff_is_exponential((pauses - 1) as nat);
        lemma_pow2_unfold(pauses);
    }
}

/// A header line that is not blank is passed over, and changes nothing but that the first one
/// is kept as the status line, whichever header it is and however many there are.
pub proof fn law_header_line_is_passed(state: StreamState, line: Seq<char>)
    requires
        state.phase is Head,
        line != "\r\n"@,
        line != "\n"@,
    ensures
        line_step(state, line).1 is Pending,
        line_step(state, line).0 == (StreamState {
            phase: Phase::Head(
                match state.phase->Head_0 {
                    Some(first) => Some(first),
                    None => Some(line),
                },
            ),
            ..state
        }),
{
}

/// The first blank line ends the headers: the stream is refused exactly where the status
/// line has a status code from 400 on, with that code, and is open else. Nothing of a block
/// has been read then.
pub proof fn law_blank_line_ends_headers(state: StreamState, status_line: Seq<char>, line: Seq<char>)
    requires
        state.phase == Phase::Head(Some(status_line)),
        line == "\r\n"@ || line == "\n"@,
    ensures
        second_number(status_line) matches Some(code) ==> {
            &&& code >= 400 ==> line_step(state, line) == (state, Frame::Refused(code))
            &&& code < 400 ==> line_step(state, line) == (
                StreamState { phase: Phase::Body, ..state },
                Frame::Pending,
            )
        },
        second_number(status_line) is None ==> line_step(state, line) == (
            StreamState { phase: Phase::Body, ..state },
            Frame::Pending,
        ),
{
}

/// A stream that begins with a blank line has no status code, and is open.
pub proof fn law_blank_status_line_opens(state: StreamState)
    requires
        state.phase == Phase::Head(None),
    ensures
        line_step(state, "\r\n"@) == (
            StreamState { phase: Phase::Body, ..state },
            Frame::Pending,
        ),
        line_step(state, "\n"@) == (StreamState { phase: Phase::Body, ..state }, Frame::Pending),
{
    reveal_strlit("\r\n");
    reveal_strlit("\n");
    let e = Seq::<char>::empty();
    law_no_second_word("\r\n"@, e, e);
    law_no_second_word("\n"@, e, e);
    assert("\r\n"@ + e + e =~= "\r\n"@);
    assert("\n"@ + e + e =~= "\n"@);
}

/// A line with a kind sets the kind of the block, without the white space round it, in place
/// of one that was set before; its data stay.
pub proof fn law_kind_line(state: StreamState, kind: Seq<char>, end: Seq<char>)
    requires
        state.phase is Body,
        kind.len() > 0 ==> kind.last() != '\r' && kind.last() != '\n',
        forall|i: int| 0 <= i < end.len() ==> (#[trigger] end[i] == '\r' || end[i] == '\n'),
    ensures
        line_step(state, "event:"@ + kind + end) == (
            StreamState { event: Some(trim(kind)), ..state },
            Frame::Pending,
        ),
{
    reveal_strlit("event:");
    let content = "event:"@ + kind;
    assert(content.last() == if kind.len() > 0 {
        kind.last()
    } else {
        ':'
    });
    law_line_end(content, end);
    assert("event:"@ =~= content.subrange(0, 6));
    assert(content.skip(6) =~= kind);
}

/// A line with data adds them to those of the block, without the white space before them,
/// behind a line feed where there are any; the kind stays.
pub proof fn law_data_line(state: StreamState, data: Seq<char>, end: Seq<char>)
    requires
        state.phase is Body,
        data.len() > 0 ==> data.last() != '\r' && data.last() != '\n',
        forall|i: int| 0 <= i < end.len() ==> (#[trigger] end[i] == '\r' || end[i] == '\n'),
    ensures
        line_step(state, "data:"@ + data + end).1 is Pending,
        line_step(state, "data:"@ + data + end).0 == (StreamState {
            data: if state.data.len() == 0 {
                trim_start(data)
            } else {
                state.data + seq!['\n'] + trim_start(data)
            },
            ..state
        }),
{
    reveal_strlit("event:");
    reveal_strlit("data:");
    let content = "data:"@ + data;
    assert(content.last() == if data.len() > 0 {
        data.last()
    } else {
        ':'
    });
    law_line_end(content, end);
    assert("data:"@ =~= content.subrange(0, 5));
    assert(content.skip(5) =~= data);
    assert(!"event:"@.is_prefix_of(content)) by {
        if "event:"@.is_prefix_of(content) {
            assert(content.subrange(0, 6)[0] == content[0]);
        }
    }
    assert(state.data.push('\n') + trim_start(data) =~= state.data + seq!['\n'] + trim_start(data));
}

/// A line of line breaks alone hands the block on, with its kind and all its data, where it
/// has a kind, and leaves nothing of it.
pub proof fn law_block_ends(state: StreamState, end: Seq<char>)
    requires
        state.phase is Body,
        forall|i: int| 0 <= i < end.len() ==> (#[trigger] end[i] == '\r' || end[i] == '\n'),
    ensures
        line_step(state, end).0 == (StreamState { event: None, data: Seq::empty(), ..state }),
        state.event matches Some(kind) ==> line_step(state, end).1 == Frame::Block(kind, state.data),
        state.event is None ==> line_step(state, end).1 is Pending,
{
    let e = Seq::<char>::empty();
    law_line_end(e, end);
    assert(e + end =~= end);
    assert(line_step(state, end).0.data =~= e);
}

/// Any other line of the events is ignored.
pub proof fn law_junk_line(state: StreamState, content: Seq<char>, end: Seq<char>)
    requires
        state.phase is Body,
        content.len() > 0,
        content.last() != '\r' && content.last() != '\n',
        !"event:"@.is_prefix_of(content),
        !"data:"@.is_prefix_of(content),
        forall|i: int| 0 <= i < end.len() ==> (#[trigger] end[i] == '\r' || end[i] == '\n'),
    ensures
        line_step(state, content + end) == (state, Frame::Pending),
{
    law_line_end(content, end);
}

/// A block that a line completes is applied to the cache as the event that it is, whatever
/// its kind; the badge of the cache is then what the surface shows, and it is published
/// exactly where the surface showed another.
pub proof fn law_completed_block_is_applied(watch: Watch, line: Seq<char>, kind: Seq<char>, data: Seq<char>)
    requires
        line_step(watch.stream, line).1 == Frame::Block(kind, data),
    ensures
        after_line(watch, line).0.cache == after_event_text(watch.cache, kind, data),
        after_line(watch, line).0.stream == (StreamState {
            published: badge_of(after_event_text(watch.cache, kind, data)),
            ..line_step(watch.stream, line).0
        }),
        after_line(watch, line).1 == if badge_of(after_event_text(watch.cache, kind, data))
            != line_step(watch.stream, line).0.published {
            LineOutcome::Changed(badge_of(after_event_text(watch.cache, kind, data)))
        } else {
            LineOutcome::Quiet
        },
{
}

/// A line that completes no block leaves the cache as it was and publishes nothing; a refusal
/// is handed on with its code.
pub proof fn law_other_line_leaves_cache(watch: Watch, line: Seq<char>)
    requires
        !(line_step(watch.stream, line).1 is Block),
    ensures
        after_line(watch, line).0.cache == watch.cache,
        after_line(watch, line).0.stream == line_step(watch.stream, line).0,
        line_step(watch.stream, line).1 is Pending ==> after_line(watch, line).1
            == LineOutcome::Quiet,
        line_step(watch.stream, line).1 matches Frame::Refused(code) ==> after_line(watch, line).1
            == LineOutcome::Refused(code),
{
}

/// No line changes what was published last by itself: only a block does.
pub proof fn law_line_keeps_published(state: StreamState, line: Seq<char>)
    ensures
        line_step(state, line).0.published == state.published,
{
}

} // verus!
