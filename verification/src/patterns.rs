//! Active CollaborationPattern mirror for the tray badge.
//!
//! A [`PatternMonitor`] is a cache of the daemon's pattern rows. It is seeded once from the
//! answer to `GET /patterns/active`; from then on the events of the daemon drive it. While
//! the stream of events is down, it is refreshed from the same answer instead. Until the
//! daemon has answered, nothing is known, which is not the same as no pattern at all.

use vstd::prelude::*;
use vstd::string::*;

use crate::http::{answer_bytes, get_request, get_text, http_body, parse_http_body};
use crate::json::{item_trees, json_document, parse_json, Json, JsonTree};
use crate::text::{
    decimal, is_text_less, lemma_text_less_total, lemma_text_less_transitive, push_decimal,
    same_text, text_less,
};

verus! {

/// A pattern row of the daemon.
#[derive(Debug, Clone)]
pub struct ActivePattern {
    pub id: String,
    pub kind: String,
    /// The plan that owns the pattern; empty where the daemon named none.
    pub plan_id: String,
    /// The last observed lifecycle. Only `active` rows are surfaced.
    pub lifecycle: String,
}

/// The mathematical value of an [`ActivePattern`].
pub struct PatternRow {
    pub id: Seq<char>,
    pub kind: Seq<char>,
    pub plan_id: Seq<char>,
    pub lifecycle: Seq<char>,
}

impl PatternRow {
    /// The row is in force.
    pub open spec fn active(self) -> bool {
        self.lifecycle == "active"@
    }

    /// The row is of the kind that the surface marks.
    pub open spec fn direct(self) -> bool {
        self.kind == "direct"@
    }
}

impl View for ActivePattern {
    type V = PatternRow;

    open spec fn view(&self) -> PatternRow {
        PatternRow {
            id: self.id@,
            kind: self.kind@,
            plan_id: self.plan_id@,
            lifecycle: self.lifecycle@,
        }
    }
}

impl ActivePattern {
    /// Whether the pattern is in force.
    pub fn is_active(&self) -> (r: bool)
        ensures
            r == self@.active(),
            r == (self.lifecycle@ == "active"@),
    {
        same_text(self.lifecycle.as_str(), "active")
    }

    /// Whether the pattern is of the kind that the surface marks.
    pub fn is_direct(&self) -> (r: bool)
        ensures
            r == self@.direct(),
            r == (self.kind@ == "direct"@),
    {
        same_text(self.kind.as_str(), "direct")
    }
}

/// Pattern rows by their ids.
pub type Rows = Map<Seq<char>, PatternRow>;

/// Finitely many rows, each under its own id.
pub open spec fn valid_rows(rows: Rows) -> bool {
    &&& rows.dom().finite()
    &&& forall|id: Seq<char>| rows.contains_key(id) ==> (#[trigger] rows[id]).id == id
}

/// The ids of the active rows.
pub open spec fn active_ids(rows: Rows) -> Set<Seq<char>> {
    Set::new(|id: Seq<char>| rows.contains_key(id) && rows[id].active())
}

/// Some active row is a direct pattern.
pub open spec fn any_direct(rows: Rows) -> bool {
    exists|id: Seq<char>| #[trigger] active_ids(rows).contains(id) && rows[id].direct()
}

/// The plans, named by a text that is not empty, that host an active row.
pub open spec fn active_plans(rows: Rows) -> Set<Seq<char>> {
    Set::new(
        |plan: Seq<char>|
            plan.len() > 0 && exists|id: Seq<char>| #[trigger]
                active_ids(rows).contains(id) && rows[id].plan_id == plan,
    )
}

/// A snapshot of the cache, as the surface shows it.
#[derive(Clone, Copy, Debug, PartialEq, Eq, Structural)]
pub struct PatternBadge {
    /// `None` until the daemon has answered.
    pub active_count: Option<usize>,
    pub has_direct: bool,
}

/// The badge of a state of the cache.
pub open spec fn badge_of(state: Option<Rows>) -> PatternBadge {
    match state {
        None => PatternBadge { active_count: None, has_direct: false },
        Some(rows) => PatternBadge {
            active_count: Some(active_ids(rows).len() as usize),
            has_direct: any_direct(rows),
        },
    }
}

impl Default for PatternBadge {
    fn default() -> (r: Self)
        ensures
            r == badge_of(None),
    {
        PatternBadge { active_count: None, has_direct: false }
    }
}

impl PatternBadge {
    /// What the end of the tray tooltip says.
    pub open spec fn tooltip_text(self) -> Seq<char> {
        match self.active_count {
            None => seq![],
            Some(n) => " | active patterns: "@ + decimal(n as nat) + if n > 0 && self.has_direct {
                " \u{1F534}"@
            } else {
                seq![]
            },
        }
    }

    /// What the end of the window title says.
    pub open spec fn title_text(self) -> Seq<char> {
        match self.active_count {
            None => seq![],
            Some(n) => if n == 0 {
                seq![]
            } else {
                " • CP:"@ + decimal(n as nat) + if self.has_direct {
                    " \u{26A0}"@
                } else {
                    seq![]
                }
            },
        }
    }

    /// The end of the tray tooltip: the number of active patterns, and a red dot where one
    /// of them is direct. Empty while the number is unknown.
    pub fn tooltip_suffix(self) -> (r: String)
        ensures
            r@ == self.tooltip_text(),
            self.active_count is None ==> r@.len() == 0,
            self.active_count matches Some(n) ==> r@ == if n > 0 && self.has_direct {
                " | active patterns: "@ + decimal(n as nat) + " \u{1F534}"@
            } else {
                " | active patterns: "@ + decimal(n as nat)
            },
    {
        let n = match self.active_count {
            Some(n) => n,
            None => {
                return String::new();
            },
        };
        let mut out = " | active patterns: ".to_owned();
        push_decimal(&mut out, n);
        if n > 0 && self.has_direct {
            out.append(" \u{1F534}");
        }
        assert(out@ =~= self.tooltip_text());
        assert(" | active patterns: "@ + decimal(n as nat) + seq![] =~= " | active patterns: "@
            + decimal(n as nat));
        out
    }

    /// The end of the window title: as the tooltip's, but shorter, with a warning sign for a
    /// direct pattern, and empty where no pattern is active.
    pub fn title_suffix(self) -> (r: String)
        ensures
            r@ == self.title_text(),
            self.active_count is None ==> r@.len() == 0,
            self.active_count == Some(0usize) ==> r@.len() == 0,
            self.active_count matches Some(n) ==> n > 0 ==> r@ == if self.has_direct {
                " • CP:"@ + decimal(n as nat) + " \u{26A0}"@
            } else {
                " • CP:"@ + decimal(n as nat)
            },
    {
        let n = match self.active_count {
            Some(n) => n,
            None => {
                return String::new();
            },
        };
        if n == 0 {
            return String::new();
        }
        let mut out = " • CP:".to_owned();
        push_decimal(&mut out, n);
        if self.has_direct {
            out.append(" \u{26A0}");
        }
        assert(out@ =~= self.title_text());
        assert(" • CP:"@ + decimal(n as nat) + seq![] =~= " • CP:"@ + decimal(n as nat));
        out
    }
}

/// The pattern row that a document describes: a text `id` and a text `kind` make a row; a
/// plan that is not named is empty, a lifecycle that is not named is `pending`.
pub open spec fn pattern_of(v: JsonTree) -> Option<PatternRow> {
    match (v.text_field("id"@), v.text_field("kind"@)) {
        (Some(id), Some(kind)) => Some(
            PatternRow {
                id,
                kind,
                plan_id: match v.text_field("plan_id"@) {
                    Some(plan) => plan,
                    None => seq![],
                },
                lifecycle: match v.text_field("lifecycle"@) {
                    Some(lifecycle) => lifecycle,
                    None => "pending"@,
                },
            },
        ),
        _ => None,
    }
}

/// Reads a pattern row.
pub fn parse_pattern_value(v: &Json) -> (r: Option<ActivePattern>)
    ensures
        match r {
            Some(p) => pattern_of(v@) == Some(p@),
            None => pattern_of(v@) is None,
        },
{
    let id = match v.text_field("id") {
        Some(s) => s.to_owned(),
        None => {
            return None;
        },
    };
    let kind = match v.text_field("kind") {
        Some(s) => s.to_owned(),
        None => {
            return None;
        },
    };
    let plan_id = match v.text_field("plan_id") {
        Some(s) => s.to_owned(),
        None => String::new(),
    };
    let lifecycle = match v.text_field("lifecycle") {
        Some(s) => s.to_owned(),
        None => "pending".to_owned(),
    };
    let p = ActivePattern { id, kind, plan_id, lifecycle };
    assert(pattern_of(v@)->0.plan_id =~= p@.plan_id);
    Some(p)
}

/// No two rows have the same id.
spec fn distinct_ids(rows: Seq<ActivePattern>) -> bool {
    forall|i: int, j: int|
        0 <= i < j < rows.len() ==> (#[trigger] rows[i]).id@ != (#[trigger] rows[j]).id@
}

spec fn id_at(rows: Seq<ActivePattern>, id: Seq<char>, i: int) -> bool {
    0 <= i < rows.len() && rows[i].id@ == id
}

/// Before the place `end`, the row at `i` has this id and is active.
spec fn active_at(rows: Seq<ActivePattern>, end: int, i: int, id: Seq<char>) -> bool {
    0 <= i < end && rows[i].id@ == id && rows[i]@.active()
}

/// Before the place `end`, some row has this id and is active.
spec fn active_before(rows: Seq<ActivePattern>, end: int, id: Seq<char>) -> bool {
    exists|i: int| active_at(rows, end, i, id)
}

/// The rows by their ids.
spec fn row_map(rows: Seq<ActivePattern>) -> Rows {
    Map::new(
        |id: Seq<char>| exists|i: int| id_at(rows, id, i),
        |id: Seq<char>| rows[choose|i: int| id_at(rows, id, i)]@,
    )
}

/// A row stands in the map under its id.
proof fn lemma_row_map_at(rows: Seq<ActivePattern>, i: int)
    requires
        distinct_ids(rows),
        0 <= i < rows.len(),
    ensures
        row_map(rows).contains_key(rows[i].id@),
        row_map(rows)[rows[i].id@] == rows[i]@,
{
    let id = rows[i].id@;
    assert(id_at(rows, id, i));
    let k = choose|k: int| id_at(rows, id, k);
    assert(id_at(rows, id, k));
    if k < i {
        assert(rows[k].id@ != rows[i].id@);
    } else if i < k {
        assert(rows[i].id@ != rows[k].id@);
    }
}

/// Where the row with this id stands.
fn find_row(rows: &Vec<ActivePattern>, id: &str) -> (r: Option<usize>)
    ensures
        match r {
            Some(i) => id_at(rows@, id@, i as int),
            None => forall|i: int| !#[trigger] id_at(rows@, id@, i),
        },
{
    let mut i: usize = 0;
    while i < rows.len()
        invariant
            i <= rows@.len(),
            forall|j: int| 0 <= j < i ==> !#[trigger] id_at(rows@, id@, j),
        decreases rows@.len() - i,
    {
        if same_text(rows[i].id.as_str(), id) {
            return Some(i);
        }
        i += 1;
    }
    None
}

/// Sets the row under its id.
fn put_row(rows: &mut Vec<ActivePattern>, p: ActivePattern)
    requires
        distinct_ids(old(rows)@),
    ensures
        distinct_ids(final(rows)@),
        row_map(final(rows)@) == row_map(old(rows)@).insert(p.id@, p@),
{
    let ghost before = rows@;
    match find_row(rows, p.id.as_str()) {
        Some(i) => {
            rows.set(i, p);
            proof {
                let after = rows@;
                assert(after == before.update(i as int, p));
                assert(distinct_ids(after)) by {
                    assert forall|a: int, b: int| 0 <= a < b < after.len() implies (
                    #[trigger] after[a]).id@ != (#[trigger] after[b]).id@ by {
                        assert(after[a].id@ == before[a].id@);
                        assert(after[b].id@ == before[b].id@);
                    }
                }
                lemma_maps_agree(before, after, p, i as int);
            }
        },
        None => {
            rows.push(p);
            proof {
                let after = rows@;
                assert(distinct_ids(after)) by {
                    assert forall|a: int, b: int| 0 <= a < b < after.len() implies (
                    #[trigger] after[a]).id@ != (#[trigger] after[b]).id@ by {
                        if b == before.len() {
                            assert(!id_at(before, p.id@, a));
                        } else {
                            assert(before[a].id@ != before[b].id@);
                        }
                    }
                }
                lemma_maps_agree(before, after, p, before.len() as int);
            }
        },
    }
}

/// `after` holds `p` at the place `at`, and else the rows of `before` with other ids.
proof fn lemma_maps_agree(
    before: Seq<ActivePattern>,
    after: Seq<ActivePattern>,
    p: ActivePattern,
    at: int,
)
    requires
        distinct_ids(before),
        distinct_ids(after),
        0 <= at < after.len(),
        after[at] == p,
        before.len() <= after.len(),
        after.len() <= before.len() + 1,
        forall|j: int| 0 <= j < before.len() && j != at ==> after[j] == before[j],
        at < before.len() ==> before[at].id@ == p.id@,
        after.len() > before.len() ==> at == before.len(),
    ensures
        row_map(after) == row_map(before).insert(p.id@, p@),
{
    let m1 = row_map(after);
    let m2 = row_map(before).insert(p.id@, p@);
    assert forall|id: Seq<char>| m1.contains_key(id) <==> m2.contains_key(id) by {
        if m1.contains_key(id) {
            let i = choose|i: int| id_at(after, id, i);
            assert(id_at(after, id, i));
            if i != at {
                assert(id_at(before, id, i));
            }
        }
        if m2.contains_key(id) {
            if id == p.id@ {
                assert(id_at(after, id, at));
            } else {
                let i = choose|i: int| id_at(before, id, i);
                assert(id_at(before, id, i));
                assert(id_at(after, id, i));
            }
        }
    }
    assert forall|id: Seq<char>| m1.contains_key(id) implies m1[id] == m2[id] by {
        let i = choose|i: int| id_at(after, id, i);
        assert(id_at(after, id, i));
        lemma_row_map_at(after, i);
        if i != at {
            if id == p.id@ {
                if i < at {
                    assert(after[i].id@ != after[at].id@);
                } else {
                    assert(after[at].id@ != after[i].id@);
                }
            }
            lemma_row_map_at(before, i);
        }
    }
    assert(m1 =~= m2);
}

/// Drops the row with this id, where there is one.
fn drop_row(rows: &mut Vec<ActivePattern>, id: &str)
    requires
        distinct_ids(old(rows)@),
    ensures
        distinct_ids(final(rows)@),
        row_map(final(rows)@) == row_map(old(rows)@).remove(id@),
{
    let ghost before = rows@;
    match find_row(rows, id) {
        Some(i) => {
            let _ = rows.remove(i);
            proof {
                let after = rows@;
                let at = i as int;
                assert(after == before.remove(at));
                assert forall|a: int, b: int| 0 <= a < b < after.len() implies (
                #[trigger] after[a]).id@ != (#[trigger] after[b]).id@ by {
                    let a0 = if a < at { a } else { a + 1 };
                    let b0 = if b < at { b } else { b + 1 };
                    assert(after[a] == before[a0] && after[b] == before[b0]);
                    assert(before[a0].id@ != before[b0].id@);
                }
                let m1 = row_map(after);
                let m2 = row_map(before).remove(id@);
                assert forall|k: Seq<char>| m1.contains_key(k) <==> m2.contains_key(k) by {
                    if m1.contains_key(k) {
                        let j = choose|j: int| id_at(after, k, j);
                        assert(id_at(after, k, j));
                        let j0 = if j < at { j } else { j + 1 };
                        assert(after[j] == before[j0]);
                        assert(id_at(before, k, j0));
                        if j0 < at {
                            assert(before[j0].id@ != before[at].id@);
                        } else {
                            assert(before[at].id@ != before[j0].id@);
                        }
                    }
                    if m2.contains_key(k) {
                        let j0 = choose|j: int| id_at(before, k, j);
                        assert(id_at(before, k, j0));
                        let j = if j0 < at { j0 } else { j0 - 1 };
                        assert(after[j] == before[j0]);
                        assert(id_at(after, k, j));
                    }
                }
                assert forall|k: Seq<char>| m1.contains_key(k) implies m1[k] == m2[k] by {
                    let j = choose|j: int| id_at(after, k, j);
                    assert(id_at(after, k, j));
                    let j0 = if j < at { j } else { j + 1 };
                    assert(after[j] == before[j0]);
                    lemma_row_map_at(after, j);
                    lemma_row_map_at(before, j0);
                }
                assert(m1 =~= m2);
            }
        },
        None => {
            proof {
                let m = row_map(before);
                assert forall|k: Seq<char>| m.contains_key(k) implies k != id@ by {
                    let j = choose|j: int| id_at(before, k, j);
                    assert(id_at(before, k, j));
                }
                assert(m.remove(id@) =~= m);
            }
        },
    }
}

/// A cache of the daemon's pattern rows.
pub struct PatternMonitor {
    /// `None` until the daemon has answered. No id occurs twice.
    rows: Option<Vec<ActivePattern>>,
}

impl View for PatternMonitor {
    type V = Option<Rows>;

    closed spec fn view(&self) -> Option<Rows> {
        match self.rows {
            None => None,
            Some(rows) => Some(row_map(rows@)),
        }
    }
}

/// The lifecycles in which a pattern has left the active set for good.
pub open spec fn terminal(lifecycle: Seq<char>) -> bool {
    lifecycle == "converged"@ || lifecycle == "dissensus"@ || lifecycle == "aborted"@
}

/// The events that carry a row.
pub open spec fn row_event(kind: Seq<char>) -> bool {
    kind == "pattern_created"@ || kind == "pattern_lifecycle"@
}

/// The events that end a pattern.
pub open spec fn end_event(kind: Seq<char>) -> bool {
    kind == "pattern_aborted"@ || kind == "pattern_converged"@ || kind == "pattern_dissensus"@
}

/// What an event is about: its payload, or the event itself where it has none.
pub open spec fn payload_of(event: JsonTree) -> JsonTree {
    match event.field("payload"@) {
        Some(payload) => payload,
        None => event,
    }
}

/// The pattern that an event ends: the `id` of its payload, or else its `entity_id`.
pub open spec fn ended_id(event: JsonTree) -> Option<Seq<char>> {
    match payload_of(event).text_field("id"@) {
        Some(id) => Some(id),
        None => event.text_field("entity_id"@),
    }
}

/// The cache after a row has arrived.
pub open spec fn after_row(state: Option<Rows>, row: PatternRow) -> Option<Rows> {
    let rows = match state {
        Some(rows) => rows,
        None => Map::empty(),
    };
    if terminal(row.lifecycle) {
        Some(rows.remove(row.id))
    } else {
        Some(rows.insert(row.id, row))
    }
}

/// The cache after an event.
pub open spec fn after_event(state: Option<Rows>, kind: Seq<char>, event: JsonTree) -> Option<
    Rows,
> {
    if row_event(kind) {
        match pattern_of(payload_of(event)) {
            Some(row) => after_row(state, row),
            None => state,
        }
    } else if end_event(kind) {
        match (state, ended_id(event)) {
            (Some(rows), Some(id)) => Some(rows.remove(id)),
            _ => state,
        }
    } else {
        state
    }
}

/// The cache after an event whose data are a text; a text that is no JSON changes nothing.
pub open spec fn after_event_text(state: Option<Rows>, kind: Seq<char>, data: Seq<char>) -> Option<
    Rows,
> {
    match json_document(data) {
        Ok(event) => after_event(state, kind, event),
        Err(_) => state,
    }
}

/// The rows that the daemon lists: an array, or an object with an array under `patterns`.
pub open spec fn listed(answer: JsonTree) -> Seq<JsonTree> {
    match answer.items() {
        Some(items) => items,
        None => match answer.field("patterns"@) {
            Some(patterns) => match patterns.items() {
                Some(items) => items,
                None => seq![],
            },
            None => seq![],
        },
    }
}

/// The documents that are pattern rows, by their ids; of two with the same id, the later.
pub open spec fn rows_from(items: Seq<JsonTree>) -> Rows
    decreases items.len(),
{
    if items.len() == 0 {
        Map::empty()
    } else {
        let earlier = rows_from(items.drop_last());
        match pattern_of(items.last()) {
            Some(row) => earlier.insert(row.id, row),
            None => earlier,
        }
    }
}

/// The rows by their ids; of two with the same id, the later.
pub open spec fn rows_by_id(rows: Seq<ActivePattern>) -> Rows
    decreases rows.len(),
{
    if rows.len() == 0 {
        Map::empty()
    } else {
        rows_by_id(rows.drop_last()).insert(rows.last().id@, rows.last()@)
    }
}

/// The cache after the answer to `GET /patterns/active`, where there was one: an answer
/// that is no success or no JSON changes nothing.
pub open spec fn after_answer(state: Option<Rows>, answer: Option<Seq<u8>>) -> Option<Rows> {
    match answer {
        None => state,
        Some(raw) => match http_body(raw) {
            Err(_) => state,
            Ok(body) => match json_document(body) {
                Err(_) => state,
                Ok(document) => Some(rows_from(listed(document))),
            },
        },
    }
}

/// The request for the active patterns.
pub fn patterns_request() -> (r: String)
    ensures
        r@ == get_text("/patterns/active"@),
{
    get_request("/patterns/active")
}

/// The texts of a list.
pub open spec fn texts(list: Seq<String>) -> Seq<Seq<char>> {
    list.map_values(|s: String| s@)
}

/// Strictly ascending: sorted, and nothing occurs twice.
pub open spec fn ascending(list: Seq<Seq<char>>) -> bool {
    forall|i: int, j: int| 0 <= i < j < list.len() ==> text_less(#[trigger] list[i], #[trigger] list[j])
}

impl PatternMonitor {
    #[verifier::type_invariant]
    spec fn wf(self) -> bool {
        match self.rows {
            None => true,
            Some(rows) => distinct_ids(rows@),
        }
    }

    /// A monitor that knows nothing yet.
    pub fn new() -> (r: Self)
        ensures
            r@ is None,
    {
        PatternMonitor { rows: None }
    }

    /// The badge of the cache as it is now.
    pub fn snapshot(&self) -> (r: PatternBadge)
        ensures
            r == badge_of(self@),
            self@ matches Some(rows) ==> valid_rows(rows) && active_ids(rows).len() <= usize::MAX,
            self@ is None ==> r.active_count is None && !r.has_direct,
            self@ matches Some(rows) ==> r.active_count is Some && r.active_count->0
                == rows.dom().filter(|id: Seq<char>| rows[id].lifecycle == "active"@).len(),
            self@ matches Some(rows) ==> (r.has_direct <==> exists|id: Seq<char>| #[trigger]
                rows.contains_key(id) && rows[id].lifecycle == "active"@ && rows[id].kind
                    == "direct"@),
    {
        proof {
            use_type_invariant(self);
        }
        let rows = match &self.rows {
            Some(rows) => rows,
            None => {
                return PatternBadge { active_count: None, has_direct: false };
            },
        };
        let ghost map = row_map(rows@);
        let ghost mut ids: Seq<Seq<char>> = seq![];
        let mut count: usize = 0;
        let mut direct: bool = false;
        let mut i: usize = 0;
        while i < rows.len()
            invariant
                i <= rows@.len(),
                distinct_ids(rows@),
                map == row_map(rows@),
                count <= i,
                ids.len() == count,
                ids.no_duplicates(),
                forall|k: int|
                    0 <= k < ids.len() ==> active_before(rows@, i as int, #[trigger] ids[k]),
                forall|j: int|
                    0 <= j < i && (#[trigger] rows@[j])@.active() ==> ids.contains(rows@[j].id@),
                direct == exists|j: int|
                    0 <= j < i && (#[trigger] rows@[j])@.active() && rows@[j]@.direct(),
            decreases rows@.len() - i,
        {
            if rows[i].is_active() {
                proof {
                    let id = rows@[i as int].id@;
                    if ids.contains(id) {
                        let k = choose|k: int| 0 <= k < ids.len() && ids[k] == id;
                        assert(active_before(rows@, i as int, ids[k]));
                        let j = choose|j: int| active_at(rows@, i as int, j, ids[k]);
                        assert(rows@[j].id@ != rows@[i as int].id@);
                    }
                    let more = ids.push(id);
                    let next = i + 1;
                    assert forall|k: int| 0 <= k < more.len() implies active_before(
                        rows@,
                        next,
                        #[trigger] more[k],
                    ) by {
                        if k < ids.len() {
                            assert(active_before(rows@, i as int, ids[k]));
                            let j = choose|j: int| active_at(rows@, i as int, j, ids[k]);
                            assert(active_at(rows@, next, j, more[k]));
                        } else {
                            assert(active_at(rows@, next, i as int, more[k]));
                        }
                    }
                    assert forall|j: int| 0 <= j < i + 1 && (#[trigger] rows@[j])@.active() implies more.contains(
                        rows@[j].id@,
                    ) by {
                        if j < i {
                            let k = choose|k: int| 0 <= k < ids.len() && ids[k] == rows@[j].id@;
                            assert(more[k] == rows@[j].id@);
                        } else {
                            assert(more[ids.len() as int] == id);
                        }
                    }
                    ids = more;
                }
                count += 1;
                if rows[i].is_direct() {
                    direct = true;
                    assert(rows@[i as int]@.active() && rows@[i as int]@.direct());
                }
            } else {
                proof {
                    let next = i + 1;
                    assert forall|k: int| 0 <= k < ids.len() implies active_before(
                        rows@,
                        next,
                        #[trigger] ids[k],
                    ) by {
                        assert(active_before(rows@, i as int, ids[k]));
                        let j = choose|j: int| active_at(rows@, i as int, j, ids[k]);
                        assert(active_at(rows@, next, j, ids[k]));
                    }
                }
            }
            i += 1;
        }
        proof {
            lemma_valid_row_map(rows@);
            let active = active_ids(map);
            assert(active =~= ids.to_set()) by {
                assert forall|id: Seq<char>| active.contains(id) <==> ids.to_set().contains(id) by {
                    if active.contains(id) {
                        let j = choose|j: int| id_at(rows@, id, j);
                        assert(id_at(rows@, id, j));
                        lemma_row_map_at(rows@, j);
                        assert(rows@[j]@.active());
                    }
                    if ids.to_set().contains(id) {
                        let k = choose|k: int| 0 <= k < ids.len() && ids[k] == id;
                        assert(active_before(rows@, i as int, ids[k]));
                        let j = choose|j: int| active_at(rows@, i as int, j, ids[k]);
                        lemma_row_map_at(rows@, j);
                    }
                }
            }
            ids.unique_seq_to_set();
            assert(active =~= map.dom().filter(|id: Seq<char>| map[id].lifecycle == "active"@));
            if direct {
                let j = choose|j: int|
                    0 <= j < i && (#[trigger] rows@[j])@.active() && rows@[j]@.direct();
                lemma_row_map_at(rows@, j);
                assert(active.contains(rows@[j].id@));
            }
            if any_direct(map) {
                let id = choose|id: Seq<char>| #[trigger] active_ids(map).contains(id) && map[id].direct();
                let j = choose|j: int| id_at(rows@, id, j);
                assert(id_at(rows@, id, j));
                lemma_row_map_at(rows@, j);
                assert(rows@[j]@.active() && rows@[j]@.direct());
            }
        }
        PatternBadge { active_count: Some(count), has_direct: direct }
    }

    /// The plans that host an active pattern, sorted, each once.
    pub fn active_plan_ids(&self) -> (r: Vec<String>)
        ensures
            ascending(texts(r@)),
            self@ is None ==> r@.len() == 0,
            self@ matches Some(rows) ==> texts(r@).to_set() == active_plans(rows),
            forall|i: int, j: int|
                0 <= i < j < r@.len() ==> text_less((#[trigger] r@[i])@, (#[trigger] r@[j])@),
            self@ matches Some(rows) ==> forall|id: Seq<char>| #[trigger]
                rows.contains_key(id) && rows[id].lifecycle == "active"@ && rows[id].plan_id.len()
                    > 0 ==> exists|i: int|
                    0 <= i < r@.len() && (#[trigger] r@[i])@ == rows[id].plan_id,
            self@ matches Some(rows) ==> forall|i: int|
                0 <= i < r@.len() ==> active_plans(rows).contains((#[trigger] r@[i])@),
    {
        proof {
            use_type_invariant(self);
        }
        let mut out: Vec<String> = Vec::new();
        let rows = match &self.rows {
            Some(rows) => rows,
            None => {
                return out;
            },
        };
        let ghost map = row_map(rows@);
        let mut i: usize = 0;
        while i < rows.len()
            invariant
                i <= rows@.len(),
                ascending(texts(out@)),
                forall|plan: Seq<char>|
                    #[trigger] texts(out@).contains(plan) <==> exists|j: int|
                        0 <= j < i && (#[trigger] rows@[j])@.active() && rows@[j].plan_id@ == plan
                            && plan.len() > 0,
            decreases rows@.len() - i,
        {
            let ghost before = texts(out@);
            if rows[i].is_active() && !rows[i].plan_id.as_str().is_empty() {
                insert_text(&mut out, &rows[i].plan_id);
            }
            proof {
                let after = texts(out@);
                assert forall|plan: Seq<char>|
                    #[trigger] after.contains(plan) <==> exists|j: int|
                        0 <= j < i + 1 && (#[trigger] rows@[j])@.active() && rows@[j].plan_id@ == plan
                            && plan.len() > 0 by {
                    if after.contains(plan) {
                        if before.contains(plan) {
                            let j = choose|j: int|
                                0 <= j < i && (#[trigger] rows@[j])@.active() && rows@[j].plan_id@ == plan
                                    && plan.len() > 0;
                            assert(rows@[j]@.active());
                        } else {
                            assert(rows@[i as int]@.active());
                        }
                    }
                    if exists|j: int|
                        0 <= j < i + 1 && (#[trigger] rows@[j])@.active() && rows@[j].plan_id@ == plan
                            && plan.len() > 0 {
                        let j = choose|j: int|
                            0 <= j < i + 1 && (#[trigger] rows@[j])@.active() && rows@[j].plan_id@ == plan
                                && plan.len() > 0;
                        if j < i {
                            assert(before.contains(plan));
                        }
                    }
                }
            }
            i += 1;
        }
        proof {
            let plans = active_plans(map);
            let found = texts(out@);
            assert forall|plan: Seq<char>| found.to_set().contains(plan) <==> plans.contains(plan) by {
                if found.to_set().contains(plan) {
                    assert(found.contains(plan));
                    let j = choose|j: int|
                        0 <= j < i && (#[trigger] rows@[j])@.active() && rows@[j].plan_id@ == plan
                            && plan.len() > 0;
                    lemma_row_map_at(rows@, j);
                    assert(active_ids(map).contains(rows@[j].id@));
                }
                if plans.contains(plan) {
                    let id = choose|id: Seq<char>| #[trigger]
                        active_ids(map).contains(id) && map[id].plan_id == plan;
                    let j = choose|j: int| id_at(rows@, id, j);
                    assert(id_at(rows@, id, j));
                    lemma_row_map_at(rows@, j);
                    assert(rows@[j]@.active());
                    assert(found.contains(plan));
                }
            }
            assert(found.to_set() =~= plans);
            assert forall|a: int, b: int| 0 <= a < b < out@.len() implies text_less(
                (#[trigger] out@[a])@,
                (#[trigger] out@[b])@,
            ) by {
                assert(found[a] == out@[a]@ && found[b] == out@[b]@);
            }
            assert forall|id: Seq<char>| #[trigger]
                map.contains_key(id) && map[id].lifecycle == "active"@ && map[id].plan_id.len()
                    > 0 implies exists|k: int|
                0 <= k < out@.len() && (#[trigger] out@[k])@ == map[id].plan_id by {
                assert(active_ids(map).contains(id));
                assert(plans.contains(map[id].plan_id));
                assert(found.contains(map[id].plan_id));
                let k = choose|k: int| 0 <= k < found.len() && found[k] == map[id].plan_id;
                assert(out@[k]@ == found[k]);
            }
            assert forall|k: int| 0 <= k < out@.len() implies plans.contains(
                (#[trigger] out@[k])@,
            ) by {
                assert(found[k] == out@[k]@);
                assert(found.to_set().contains(found[k]));
            }
        }
        out
    }

    /// Fills the cache with these rows in place of what it held.
    pub fn seed(&mut self, rows: Vec<ActivePattern>)
        ensures
            final(self)@ == Some(rows_by_id(rows@)),
    {
        let ghost all = rows@;
        let mut kept: Vec<ActivePattern> = Vec::new();
        assert(row_map(kept@) =~= Map::empty());
        assert(all.take(0) =~= seq![]);
        for row in it: rows
            invariant
                it.seq() == all,
                distinct_ids(kept@),
                row_map(kept@) == rows_by_id(all.take(it.index() as int)),
        {
            proof {
                let k = it.index() as int;
                assert(all.take(k + 1).drop_last() =~= all.take(k));
                assert(all.take(k + 1).last() == row);
            }
            put_row(&mut kept, row);
        }
        assert(all.take(all.len() as int) =~= all);
        self.rows = Some(kept);
    }

    /// Seeds the cache from the document that lists the active patterns.
    pub fn seed_from(&mut self, answer: &Json)
        ensures
            final(self)@ == Some(rows_from(listed(answer@))),
    {
        let mut kept: Vec<ActivePattern> = Vec::new();
        assert(row_map(kept@) =~= Map::empty());
        let items: Option<&Vec<Json>> = match answer.as_array() {
            Some(items) => Some(items),
            None => match answer.get("patterns") {
                Some(patterns) => patterns.as_array(),
                None => None,
            },
        };
        let ghost trees = listed(answer@);
        match items {
            Some(items) => {
                assert(trees == item_trees(items@));
                let mut i: usize = 0;
                assert(trees.take(0) =~= seq![]);
                while i < items.len()
                    invariant
                        i <= items@.len(),
                        trees == item_trees(items@),
                        distinct_ids(kept@),
                        row_map(kept@) == rows_from(trees.take(i as int)),
                    decreases items@.len() - i,
                {
                    proof {
                        assert(trees.take(i + 1).drop_last() =~= trees.take(i as int));
                        assert(trees.take(i + 1).last() == items@[i as int]@);
                    }
                    match parse_pattern_value(&items[i]) {
                        Some(row) => put_row(&mut kept, row),
                        None => {},
                    }
                    i += 1;
                }
                assert(trees.take(i as int) =~= trees);
            },
            None => {
                assert(trees =~= seq![]);
            },
        }
        self.rows = Some(kept);
    }

    /// Seeds the cache from the answer to [`patterns_request`], where there was one. A
    /// refusal or an answer that cannot be read leaves the cache as it is.
    pub fn bootstrap(&mut self, answer: Option<&[u8]>)
        ensures
            final(self)@ == after_answer(old(self)@, answer_bytes(answer)),
            answer matches Some(raw) ==> final(self)@ == after_answer(old(self)@, Some(raw@)),
            answer is None ==> final(self)@ == old(self)@,
    {
        let raw = match answer {
            Some(raw) => raw,
            None => {
                return;
            },
        };
        let body = match parse_http_body(raw) {
            Ok(body) => body,
            Err(_) => {
                return;
            },
        };
        match parse_json(body.as_str()) {
            Ok(document) => self.seed_from(&document),
            Err(_) => {},
        }
    }

    /// Refreshes the cache while the stream of events is down, from the answer to
    /// [`patterns_request`], where there was one. The result is the new badge where it is
    /// another than `published`, the one that the surface shows.
    pub fn refresh(&mut self, published: PatternBadge, answer: Option<&[u8]>) -> (r: Option<
        PatternBadge,
    >)
        ensures
            final(self)@ == after_answer(old(self)@, answer_bytes(answer)),
            answer matches Some(raw) ==> final(self)@ == after_answer(old(self)@, Some(raw@)),
            answer is None ==> final(self)@ == old(self)@,
            r == if badge_of(final(self)@) != published {
                Some(badge_of(final(self)@))
            } else {
                None
            },
    {
        self.bootstrap(answer);
        let now = self.snapshot();
        if now != published {
            Some(now)
        } else {
            None
        }
    }

    /// Applies an event of the daemon.
    pub fn apply_document(&mut self, kind: &str, event: &Json)
        ensures
            final(self)@ == after_event(old(self)@, kind@, event@),
    {
        proof {
            use_type_invariant(&*self);
        }
        let payload: &Json = match event.get("payload") {
            Some(payload) => payload,
            None => event,
        };
        if same_text(kind, "pattern_created") || same_text(kind, "pattern_lifecycle") {
            match parse_pattern_value(payload) {
                Some(row) => {
                    let mut held: Option<Vec<ActivePattern>> = None;
                    std::mem::swap(&mut held, &mut self.rows);
                    let mut rows = match held {
                        Some(rows) => rows,
                        None => {
                            let none: Vec<ActivePattern> = Vec::new();
                            assert(row_map(none@) =~= Map::empty());
                            none
                        },
                    };
                    if same_text(row.lifecycle.as_str(), "converged") || same_text(
                        row.lifecycle.as_str(),
                        "dissensus",
                    ) || same_text(row.lifecycle.as_str(), "aborted") {
                        drop_row(&mut rows, row.id.as_str());
                    } else {
                        put_row(&mut rows, row);
                    }
                    self.rows = Some(rows);
                },
                None => {},
            }
        } else if same_text(kind, "pattern_aborted") || same_text(kind, "pattern_converged")
            || same_text(kind, "pattern_dissensus") {
            let id: Option<&str> = match payload.text_field("id") {
                Some(id) => Some(id),
                None => event.text_field("entity_id"),
            };
            match id {
                Some(id) => {
                    let mut held: Option<Vec<ActivePattern>> = None;
                    std::mem::swap(&mut held, &mut self.rows);
                    match held {
                        Some(rows) => {
                            let mut rows = rows;
                            drop_row(&mut rows, id);
                            self.rows = Some(rows);
                        },
                        None => {},
                    }
                },
                None => {},
            }
        }
    }

    /// Applies an event of the daemon whose data are a text. Data that are no JSON are
    /// dropped.
    pub fn apply_event(&mut self, kind: &str, data: &str)
        ensures
            final(self)@ == after_event_text(old(self)@, kind@, data@),
    {
        match parse_json(data) {
            Ok(event) => self.apply_document(kind, &event),
            Err(_) => {},
        }
    }
}

impl Default for PatternMonitor {
    fn default() -> (r: Self)
        ensures
            r@ is None,
    {
        PatternMonitor::new()
    }
}

/// Rows with distinct ids make a valid map.
proof fn lemma_valid_row_map(rows: Seq<ActivePattern>)
    requires
        distinct_ids(rows),
    ensures
        valid_rows(row_map(rows)),
{
    let map = row_map(rows);
    let ids = rows.map_values(|p: ActivePattern| p.id@);
    assert(map.dom() =~= ids.to_set()) by {
        assert forall|id: Seq<char>| map.dom().contains(id) <==> ids.to_set().contains(id) by {
            if map.dom().contains(id) {
                let j = choose|j: int| id_at(rows, id, j);
                assert(id_at(rows, id, j));
                assert(ids[j] == id);
            }
            if ids.to_set().contains(id) {
                let j = choose|j: int| 0 <= j < ids.len() && ids[j] == id;
                assert(id_at(rows, id, j));
            }
        }
    }
    assert forall|id: Seq<char>| map.contains_key(id) implies (#[trigger] map[id]).id == id by {
        let j = choose|j: int| id_at(rows, id, j);
        assert(id_at(rows, id, j));
        lemma_row_map_at(rows, j);
    }
}

/// Puts a text in its place in an ascending list, unless it is there.
fn insert_text(list: &mut Vec<String>, text: &String)
    requires
        ascending(texts(old(list)@)),
    ensures
        ascending(texts(final(list)@)),
        forall|t: Seq<char>|
            #[trigger] texts(final(list)@).contains(t) <==> (texts(old(list)@).contains(t) || t == text@),
{
    let ghost before = texts(list@);
    let mut i: usize = 0;
    while i < list.len() && is_text_less(list[i].as_str(), text.as_str())
        invariant
            i <= list@.len(),
            before == texts(list@),
            forall|j: int| 0 <= j < i ==> text_less(#[trigger] before[j], text@),
        decreases list@.len() - i,
    {
        assert(before[i as int] == list@[i as int]@);
        i += 1;
    }
    if i < list.len() && same_text(list[i].as_str(), text.as_str()) {
        assert(before[i as int] == text@);
        return;
    }
    list.insert(i, text.clone());
    proof {
        let after = texts(list@);
        assert(after =~= before.insert(i as int, text@));
        let at = i as int;
        assert forall|j: int| at <= j < before.len() implies text_less(text@, #[trigger] before[j]) by {
            lemma_text_less_total(before[at], text@);
            if at < j {
                lemma_text_less_transitive(text@, before[at], before[j]);
            }
        }
        assert forall|a: int, b: int| 0 <= a < b < after.len() implies text_less(
            #[trigger] after[a],
            #[trigger] after[b],
        ) by {
            let a0 = if a < at { a } else { a - 1 };
            let b0 = if b < at { b } else { b - 1 };
            if a != at {
                assert(after[a] == before[a0]);
            }
            if b != at {
                assert(after[b] == before[b0]);
            }
        }
        assert forall|t: Seq<char>| #[trigger] after.contains(t) <==> (before.contains(t) || t == text@) by {
            if after.contains(t) {
                let k = choose|k: int| 0 <= k < after.len() && after[k] == t;
                if k < at {
                    assert(before[k] == t);
                } else if k > at {
                    assert(before[k - 1] == t);
                }
            }
            if before.contains(t) {
                let k = choose|k: int| 0 <= k < before.len() && before[k] == t;
                if k < at {
                    assert(after[k] == t);
                } else {
                    assert(after[k + 1] == t);
                }
            }
            if t == text@ {
                assert(after[at] == t);
            }
        }
    }
}

} // verus!
