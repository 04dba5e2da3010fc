//! The surface of the shell: the window title, the tray tooltip and the tray menu, composed
//! of the autonomy mode and the pattern badge.

use vstd::prelude::*;
use vstd::string::*;

use crate::autonomy::{breaker_body, circuit_breaker_request, AutonomyMode, BreakerError};
use crate::daemon_url::{poll, poll_step, PollStep};
use crate::http::post_text;
use crate::json::{json_document, JsonTree};
use crate::pattern_laws::{law_direct_is_counted, law_suffixes_show_the_count};
use crate::patterns::{active_ids, any_direct, badge_of, valid_rows, PatternBadge, Rows};
use crate::text::{decimal, is_digit, law_decimal_injective, law_decimal_value, same_text};

verus! {

/// The pause between two looks at the autonomy mode, in milliseconds.
pub const POLL_INTERVAL_MS: u64 = 3_000;

/// How long a first project is waited for, in milliseconds.
pub const PROJECT_POLL_BUDGET_MS: u64 = 15_000;

/// The pause between two looks for a first project, in milliseconds.
pub const PROJECT_POLL_INTERVAL_MS: u64 = 500;

/// The window title.
pub open spec fn title_of(mode: AutonomyMode, badge: PatternBadge) -> Seq<char> {
    "SDI · "@ + mode.text() + badge.title_text()
}

/// The tray tooltip.
pub open spec fn tooltip_of(mode: AutonomyMode, badge: PatternBadge) -> Seq<char> {
    "SDI — autonomy: "@ + mode.text() + badge.tooltip_text()
}

/// Composes the window title.
pub fn compose_title(mode: AutonomyMode, badge: PatternBadge) -> (r: String)
    ensures
        r@ == title_of(mode, badge),
        r@ == "SDI · "@ + mode.text() + badge.title_text(),
{
    let mut out = "SDI · ".to_owned();
    out.append(mode.label());
    out.append(badge.title_suffix().as_str());
    out
}

/// Composes the tray tooltip.
pub fn compose_tooltip(mode: AutonomyMode, badge: PatternBadge) -> (r: String)
    ensures
        r@ == tooltip_of(mode, badge),
        r@ == "SDI — autonomy: "@ + mode.text() + badge.tooltip_text(),
{
    let mut out = "SDI — autonomy: ".to_owned();
    out.append(mode.label());
    out.append(badge.tooltip_suffix().as_str());
    out
}

/// The text of the mode's menu item.
pub open spec fn menu_label_of(mode: AutonomyMode) -> Seq<char> {
    "Autonomy: "@ + mode.text()
}

/// Composes the text of the mode's menu item.
pub fn menu_label(mode: AutonomyMode) -> (r: String)
    ensures
        r@ == menu_label_of(mode),
        r@ == "Autonomy: "@ + mode.text(),
{
    let mut out = "Autonomy: ".to_owned();
    out.append(mode.label());
    out
}

/// What the surface shows: the last autonomy mode and the last badge, each published by a
/// monitor of its own.
#[derive(Clone, Copy, Debug, PartialEq, Eq, Structural)]
pub struct SurfaceState {
    autonomy: AutonomyMode,
    pattern: PatternBadge,
}

impl View for SurfaceState {
    type V = (AutonomyMode, PatternBadge);

    closed spec fn view(&self) -> (AutonomyMode, PatternBadge) {
        (self.autonomy, self.pattern)
    }
}

/// The texts of the surface.
#[derive(Debug)]
pub struct Rendered {
    pub title: String,
    pub tooltip: String,
}

impl Rendered {
    /// The texts show this state.
    pub open spec fn shows(self, state: (AutonomyMode, PatternBadge)) -> bool {
        &&& self.title@ == title_of(state.0, state.1)
        &&& self.tooltip@ == tooltip_of(state.0, state.1)
    }
}

impl SurfaceState {
    /// The surface of a shell that has heard nothing of the daemon.
    pub fn new() -> (r: Self)
        ensures
            r@ == (AutonomyMode::Unknown, badge_of(None)),
            r@.1 == (PatternBadge { active_count: None, has_direct: false }),
    {
        SurfaceState {
            autonomy: AutonomyMode::Unknown,
            pattern: PatternBadge { active_count: None, has_direct: false },
        }
    }

    pub fn set_autonomy(&mut self, mode: AutonomyMode)
        ensures
            final(self)@ == (mode, old(self)@.1),
    {
        self.autonomy = mode;
    }

    pub fn set_pattern(&mut self, badge: PatternBadge)
        ensures
            final(self)@ == (old(self)@.0, badge),
    {
        self.pattern = badge;
    }

    pub fn snapshot(&self) -> (r: (AutonomyMode, PatternBadge))
        ensures
            r == self@,
    {
        (self.autonomy, self.pattern)
    }
}

/// Renders the surface.
pub fn render_surface(surface: &SurfaceState) -> (r: Rendered)
    ensures
        r.shows(surface@),
        r.title@ == title_of(surface@.0, surface@.1),
        r.tooltip@ == tooltip_of(surface@.0, surface@.1),
{
    let (mode, badge) = surface.snapshot();
    Rendered { title: compose_title(mode, badge), tooltip: compose_tooltip(mode, badge) }
}

/// A change of the autonomy mode, as the surface shows it.
#[derive(Debug)]
pub struct ModeUpdate {
    pub menu_label: String,
    pub rendered: Rendered,
}

/// The last autonomy mode that a poll has published.
#[derive(Clone, Copy, Debug, PartialEq, Eq, Structural)]
pub struct AutonomyPoll {
    last: Option<AutonomyMode>,
}

impl View for AutonomyPoll {
    type V = Option<AutonomyMode>;

    closed spec fn view(&self) -> Option<AutonomyMode> {
        self.last
    }
}

impl AutonomyPoll {
    /// A poll that has published nothing.
    pub fn new() -> (r: Self)
        ensures
            r@ is None,
    {
        AutonomyPoll { last: None }
    }

    /// Takes the mode of a look. A mode that was published last changes nothing; another
    /// one is published.
    pub fn observe(&mut self, surface: &mut SurfaceState, mode: AutonomyMode) -> (r: Option<
        ModeUpdate,
    >)
        ensures
            final(self)@ == Some(mode),
            old(self)@ == Some(mode) ==> r is None && final(surface)@ == old(surface)@,
            old(self)@ != Some(mode) ==> {
                &&& final(surface)@ == (mode, old(surface)@.1)
                &&& r matches Some(update)
                &&& update.menu_label@ == menu_label_of(mode)
                &&& update.rendered.shows(final(surface)@)
                &&& update.rendered.title@ == title_of(mode, old(surface)@.1)
                &&& update.rendered.tooltip@ == tooltip_of(mode, old(surface)@.1)
            },
    {
        if let Some(last) = self.last {
            if last == mode {
                return None;
            }
        }
        self.last = Some(mode);
        surface.set_autonomy(mode);
        Some(ModeUpdate { menu_label: menu_label(mode), rendered: render_surface(surface) })
    }
}

/// Takes a badge of the pattern monitor.
pub fn publish_pattern(surface: &mut SurfaceState, badge: PatternBadge) -> (r: Rendered)
    ensures
        final(surface)@ == (old(surface)@.0, badge),
        r.shows(final(surface)@),
        r.title@ == title_of(old(surface)@.0, badge),
        r.tooltip@ == tooltip_of(old(surface)@.0, badge),
{
    surface.set_pattern(badge);
    render_surface(surface)
}

/// What the wait for a first project does after a look.
pub fn wait_for_project(project_id: Option<String>, elapsed_ms: u64) -> (r: PollStep<String>)
    ensures
        r == poll_step(project_id, elapsed_ms, PROJECT_POLL_BUDGET_MS, PROJECT_POLL_INTERVAL_MS),
        project_id matches Some(id) ==> r == PollStep::Found(id),
        project_id is None && elapsed_ms < 15_000 ==> r == PollStep::<String>::Pause(500),
        project_id is None && elapsed_ms >= 15_000 ==> r == PollStep::<String>::GiveUp,
{
    poll(project_id, elapsed_ms, PROJECT_POLL_BUDGET_MS, PROJECT_POLL_INTERVAL_MS)
}

/// Where the circuit breaker is sent: known once the daemon is up and a project exists.
#[derive(Debug, Clone)]
pub struct AutonomyTarget {
    pub port: u16,
    pub project_id: String,
}

/// The circuit breaker, ready to be sent.
#[derive(Debug)]
pub struct BreakerCall {
    pub port: u16,
    pub request: Result<String, BreakerError>,
}

/// Fires the circuit breaker. Without a target there is nothing to send.
pub fn fire_circuit_breaker(target: Option<&AutonomyTarget>, reason: &str) -> (r: Option<
    BreakerCall,
>)
    ensures
        target is None ==> r is None,
        target matches Some(t) ==> {
            &&& r matches Some(call)
            &&& call.port == t.port
            &&& call.request matches Ok(request)
            &&& request@ == post_text(
                "/autonomy_policies/circuit_breaker"@,
                breaker_body(t.project_id@, reason@),
            )
            &&& json_document(breaker_body(t.project_id@, reason@)) matches Ok(document)
            &&& document.field("project_id"@) == Some(JsonTree::Text(t.project_id@))
            &&& document.field("actor"@) == Some(JsonTree::Text("sdi-desktop"@))
            &&& document.field("reason"@) == Some(JsonTree::Text(reason@))
        },
{
    match target {
        Some(t) => Some(
            BreakerCall {
                port: t.port,
                request: circuit_breaker_request(t.project_id.as_str(), reason),
            },
        ),
        None => None,
    }
}

/// The label of the circuit breaker's shortcut: the command key on macOS, the control key
/// elsewhere.
pub fn breaker_shortcut_label(macos: bool) -> (r: &'static str)
    ensures
        r@ == if macos {
            "Cmd+Shift+L"@
        } else {
            "Ctrl+Shift+L"@
        },
{
    if macos {
        "Cmd+Shift+L"
    } else {
        "Ctrl+Shift+L"
    }
}

/// The reason that the global shortcut gives for the circuit breaker, where it fires it:
/// when it is pressed, not when it is released, and when it is the breaker's.
pub fn shortcut_reason(pressed: bool, is_breaker: bool) -> (r: Option<&'static str>)
    ensures
        r is Some <==> pressed && is_breaker,
        r matches Some(reason) ==> reason@ == "sdi-desktop · global shortcut"@,
{
    if pressed && is_breaker {
        Some("sdi-desktop · global shortcut")
    } else {
        None
    }
}

/// What an item of the tray menu does.
#[derive(Debug, PartialEq, Eq)]
pub enum MenuAction {
    /// Fires the circuit breaker for this reason.
    Breaker(&'static str),
    /// Ends the shell.
    Quit,
    /// Nothing.
    Ignore,
}

/// The id of the menu item that shows the autonomy mode.
pub fn menu_item_mode() -> (r: &'static str)
    ensures
        r@ == "sdi-mode"@,
{
    "sdi-mode"
}

/// The id of the menu item that fires the circuit breaker.
pub fn menu_item_breaker() -> (r: &'static str)
    ensures
        r@ == "sdi-breaker"@,
{
    "sdi-breaker"
}

/// The id of the menu item that ends the shell.
pub fn menu_item_quit() -> (r: &'static str)
    ensures
        r@ == "sdi-quit"@,
{
    "sdi-quit"
}

/// What the menu item with this id does.
pub fn menu_action(id: &str) -> (r: MenuAction)
    ensures
        r is Breaker <==> id@ == "sdi-breaker"@,
        r matches MenuAction::Breaker(reason) ==> reason@ == "sdi-desktop · tray menu"@,
        r is Quit <==> id@ == "sdi-quit"@,
{
    proof {
        reveal_strlit("sdi-breaker");
        reveal_strlit("sdi-quit");
        assert("sdi-breaker"@.len() != "sdi-quit"@.len());
    }
    if same_text(id, menu_item_breaker()) {
        MenuAction::Breaker("sdi-desktop · tray menu")
    } else if same_text(id, menu_item_quit()) {
        MenuAction::Quit
    } else {
        MenuAction::Ignore
    }
}

/// While nothing is known of the patterns, the surface shows the autonomy mode alone.
pub proof fn law_unknown_shows_mode_alone(mode: AutonomyMode)
    ensures
        title_of(mode, badge_of(None)) == "SDI · "@ + mode.text(),
        tooltip_of(mode, badge_of(None)) == "SDI — autonomy: "@ + mode.text(),
{
    let badge = badge_of(None);
    assert("SDI · "@ + mode.text() + badge.title_text() =~= "SDI · "@ + mode.text());
    assert("SDI — autonomy: "@ + mode.text() + badge.tooltip_text() =~= "SDI — autonomy: "@
        + mode.text());
}

/// A count that nobody has verified is never shown as a known one, zero or another: whatever
/// the modes are, the tooltips differ.
pub proof fn law_unknown_is_not_zero(
    mode1: AutonomyMode,
    unknown: PatternBadge,
    mode2: AutonomyMode,
    known: PatternBadge,
)
    requires
        unknown.active_count is None,
        known.active_count is Some,
    ensures
        tooltip_of(mode1, unknown) != tooltip_of(mode2, known),
{
    reveal_strlit("L3");
    reveal_strlit("L4");
    reveal_strlit("L5");
    reveal_strlit("—");
    reveal_strlit(" | active patterns: ");
    assert(mode1.text().len() <= 2);
    assert(known.tooltip_text().len() >= 19);
    assert(tooltip_of(mode1, unknown).len() < tooltip_of(mode2, known).len());
}

/// When any active pattern is direct, the title and the tooltip end in their markers,
/// whatever the mode is.
pub proof fn law_direct_pattern_is_marked(mode: AutonomyMode, rows: Rows)
    requires
        valid_rows(rows),
        active_ids(rows).len() <= usize::MAX,
        any_direct(rows),
    ensures
        " \u{26A0}"@.is_suffix_of(title_of(mode, badge_of(Some(rows)))),
        " \u{1F534}"@.is_suffix_of(tooltip_of(mode, badge_of(Some(rows)))),
{
    law_direct_is_counted(rows);
    let badge = badge_of(Some(rows));
    let title = title_of(mode, badge);
    let tooltip = tooltip_of(mode, badge);
    let a = " \u{26A0}"@;
    let b = " \u{1F534}"@;
    assert(a =~= title.subrange(title.len() - a.len(), title.len() as int));
    assert(b =~= tooltip.subrange(tooltip.len() - b.len(), tooltip.len() as int));
}

/// A text that has neither marker in it.
spec fn unmarked(s: Seq<char>) -> bool {
    forall|i: int| 0 <= i < s.len() ==> #[trigger] s[i] != '\u{26A0}' && s[i] != '\u{1F534}'
}

proof fn lemma_unmarked_concat(a: Seq<char>, b: Seq<char>)
    requires
        unmarked(a),
        unmarked(b),
    ensures
        unmarked(a + b),
{
    let s = a + b;
    assert forall|i: int| 0 <= i < s.len() implies #[trigger] s[i] != '\u{26A0}' && s[i]
        != '\u{1F534}' by {
        if i < a.len() {
            assert(s[i] == a[i]);
        } else {
            assert(s[i] == b[i - a.len()]);
        }
    }
}

proof fn lemma_unmarked_mode(mode: AutonomyMode)
    ensures
        unmarked(mode.text()),
{
    reveal_strlit("L3");
    reveal_strlit("L4");
    reveal_strlit("L5");
    reveal_strlit("—");
}

proof fn lemma_unmarked_decimal(n: nat)
    ensures
        unmarked(decimal(n)),
{
    law_decimal_value(n);
    let s = decimal(n);
    assert forall|i: int| 0 <= i < s.len() implies #[trigger] s[i] != '\u{26A0}' && s[i]
        != '\u{1F534}' by {
        assert(is_digit(s[i]));
    }
}

/// When no active pattern is direct, no marker shows, wherever in the title or the tooltip.
pub proof fn law_no_direct_no_marker(mode: AutonomyMode, state: Option<Rows>)
    requires
        state matches Some(rows) ==> !any_direct(rows),
    ensures
        !title_of(mode, badge_of(state)).contains('\u{26A0}'),
        !tooltip_of(mode, badge_of(state)).contains('\u{1F534}'),
{
    reveal_strlit("SDI · ");
    reveal_strlit("SDI — autonomy: ");
    reveal_strlit(" • CP:");
    reveal_strlit(" | active patterns: ");
    let badge = badge_of(state);
    lemma_unmarked_mode(mode);
    lemma_unmarked_concat("SDI · "@, mode.text());
    lemma_unmarked_concat("SDI — autonomy: "@, mode.text());
    match badge.active_count {
        Some(n) => {
            let shown = decimal(n as nat);
            lemma_unmarked_decimal(n as nat);
            lemma_unmarked_concat(" • CP:"@, shown);
            lemma_unmarked_concat(" | active patterns: "@, shown);
            assert(" • CP:"@ + shown + seq![] =~= " • CP:"@ + shown);
            assert(" | active patterns: "@ + shown + seq![] =~= " | active patterns: "@ + shown);
        },
        None => {},
    }
    assert(unmarked(badge.title_text()));
    assert(unmarked(badge.tooltip_text()));
    lemma_unmarked_concat("SDI · "@ + mode.text(), badge.title_text());
    lemma_unmarked_concat("SDI — autonomy: "@ + mode.text(), badge.tooltip_text());
}

/// The title and the tooltip hold the mode's label and the badge's own text, whatever the mode
/// and the badge are, and the texts of the surface are these two.
pub proof fn law_surface_shows_mode_and_badge(mode: AutonomyMode, badge: PatternBadge, shown: Rendered)
    ensures
        title_of(mode, badge) == "SDI · "@ + mode.text() + badge.title_text(),
        tooltip_of(mode, badge) == "SDI — autonomy: "@ + mode.text() + badge.tooltip_text(),
        menu_label_of(mode) == "Autonomy: "@ + mode.text(),
        shown.shows((mode, badge)) <==> shown.title@ == title_of(mode, badge) && shown.tooltip@
            == tooltip_of(mode, badge),
{
}

/// The count of a known badge can be read back from the tooltip: badges with different counts
/// give different tooltips under every mode.
pub proof fn law_tooltip_tells_counts_apart(mode: AutonomyMode, a: usize, b: usize)
    requires
        tooltip_of(mode, PatternBadge { active_count: Some(a), has_direct: false }) == tooltip_of(
            mode,
            PatternBadge { active_count: Some(b), has_direct: false },
        ),
    ensures
        a == b,
{
    let x = PatternBadge { active_count: Some(a), has_direct: false };
    let y = PatternBadge { active_count: Some(b), has_direct: false };
    law_suffixes_show_the_count(a);
    law_suffixes_show_the_count(b);
    let front = "SDI — autonomy: "@ + mode.text() + " | active patterns: "@;
    let n = front.len() as int;
    assert(tooltip_of(mode, x) =~= front + decimal(a as nat));
    assert(tooltip_of(mode, y) =~= front + decimal(b as nat));
    assert(decimal(a as nat) =~= tooltip_of(mode, x).skip(n));
    assert(decimal(b as nat) =~= tooltip_of(mode, y).skip(n));
    law_decimal_injective(a as nat, b as nat);
}

/// The mode is looked at every three seconds. A first project is waited for as long as fifteen
/// seconds, with a look every half second.
pub proof fn law_surface_timing()
    ensures
        POLL_INTERVAL_MS == 3_000,
        PROJECT_POLL_BUDGET_MS == 15_000,
        PROJECT_POLL_INTERVAL_MS == 500,
{
}

} // verus!
