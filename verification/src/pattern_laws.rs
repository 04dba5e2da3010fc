//! What holds of the pattern cache under every event, answer and order of them.

use vstd::prelude::*;
use vstd::string::*;

use crate::http::{http_body, HttpError};
use crate::json::{json_document, JsonTree};
use crate::patterns::{
    active_ids, active_plans, after_answer, after_event, after_event_text, after_row, any_direct,
    ascending, badge_of, end_event, ended_id, listed, pattern_of, payload_of, row_event,
    rows_by_id, rows_from, terminal, valid_rows, ActivePattern, PatternBadge, PatternRow, Rows,
};
use crate::text::{
    decimal, lemma_text_less_irreflexive, lemma_text_less_transitive, text_less,
};

verus! {

/// A cache that is known stays valid under every event.
pub proof fn law_event_keeps_valid(rows: Rows, kind: Seq<char>, event: JsonTree)
    requires
        valid_rows(rows),
    ensures
        after_event(Some(rows), kind, event) matches Some(after) && valid_rows(after),
{
}

/// What has become known stays known.
pub proof fn law_known_stays_known(state: Option<Rows>, kind: Seq<char>, event: JsonTree)
    requires
        state is Some,
    ensures
        after_event(state, kind, event) is Some,
{
}

/// An unknown cache becomes known by a row, and by nothing else that happens.
pub proof fn law_unknown_until_row(kind: Seq<char>, event: JsonTree)
    ensures
        after_event(None, kind, event) is Some <==> row_event(kind) && pattern_of(
            payload_of(event),
        ) is Some,
{
    lemma_event_kinds();
}

/// An event that carries a row is never one that ends a pattern.
proof fn lemma_event_kinds()
    ensures
        forall|kind: Seq<char>| row_event(kind) ==> !#[trigger] end_event(kind),
{
    reveal_strlit("pattern_created");
    reveal_strlit("pattern_lifecycle");
    reveal_strlit("pattern_aborted");
    reveal_strlit("pattern_converged");
    reveal_strlit("pattern_dissensus");
    assert("pattern_created"@.len() == 15 && "pattern_aborted"@.len() == 15);
    assert("pattern_created"@[8] == 'c' && "pattern_aborted"@[8] == 'a');
    assert("pattern_lifecycle"@.len() == 17 && "pattern_converged"@.len() == 17
        && "pattern_dissensus"@.len() == 17);
    assert("pattern_lifecycle"@[8] == 'l' && "pattern_converged"@[8] == 'c'
        && "pattern_dissensus"@[8] == 'd');
}

/// An event changes at most the row that it is about.
pub proof fn law_event_is_local(rows: Rows, kind: Seq<char>, event: JsonTree, other: Seq<char>)
    requires
        row_event(kind) ==> payload_of(event).text_field("id"@) != Some(other),
        end_event(kind) ==> ended_id(event) != Some(other),
    ensures
        after_event(Some(rows), kind, event) matches Some(after) && after.contains_key(other)
            == rows.contains_key(other) && (rows.contains_key(other) ==> after[other]
            == rows[other]),
{
    lemma_event_kinds();
}

/// An event that is none of the pattern events is ignored.
pub proof fn law_other_events_ignored(state: Option<Rows>, kind: Seq<char>, event: JsonTree)
    requires
        !row_event(kind),
        !end_event(kind),
    ensures
        after_event(state, kind, event) == state,
{
}

/// The same event twice does what it does once.
pub proof fn law_event_idempotent(state: Option<Rows>, kind: Seq<char>, event: JsonTree)
    ensures
        after_event(after_event(state, kind, event), kind, event) == after_event(
            state,
            kind,
            event,
        ),
{
    lemma_event_kinds();
    let once = after_event(state, kind, event);
    let twice = after_event(once, kind, event);
    if once is Some {
        assert(twice->0 =~= once->0);
    }
}

/// A row in any lifecycle but a terminal one is held, under its id, as it came.
pub proof fn law_row_is_held(state: Option<Rows>, row: PatternRow)
    requires
        !terminal(row.lifecycle),
    ensures
        after_row(state, row) matches Some(after) && after.contains_key(row.id) && after[row.id]
            == row && (active_ids(after).contains(row.id) <==> row.active()),
{
}

/// A pattern in a terminal lifecycle is gone: converged, dissensus and aborted all leave the
/// active set.
pub proof fn law_terminal_row_is_gone(state: Option<Rows>, row: PatternRow)
    requires
        terminal(row.lifecycle),
    ensures
        after_row(state, row) matches Some(after) && !after.contains_key(row.id)
            && !active_ids(after).contains(row.id),
{
}

/// A pattern that an event ends is gone.
pub proof fn law_ended_pattern_is_gone(rows: Rows, kind: Seq<char>, event: JsonTree, id: Seq<char>)
    requires
        end_event(kind),
        ended_id(event) == Some(id),
    ensures
        after_event(Some(rows), kind, event) == Some(rows.remove(id)),
        !active_ids(rows.remove(id)).contains(id),
{
    lemma_event_kinds();
}

/// A pattern that comes and is ended leaves the cache as it would be without it.
pub proof fn law_created_and_ended(
    rows: Rows,
    created: JsonTree,
    row: PatternRow,
    kind: Seq<char>,
    ended: JsonTree,
)
    requires
        pattern_of(payload_of(created)) == Some(row),
        !rows.contains_key(row.id),
        end_event(kind),
        ended_id(ended) == Some(row.id),
    ensures
        after_event(
            after_event(Some(rows), "pattern_created"@, created),
            kind,
            ended,
        ) == Some(rows),
{
    lemma_event_kinds();
    let mid = after_event(Some(rows), "pattern_created"@, created);
    let last = after_event(mid, kind, ended);
    assert(last->0 =~= rows);
}

/// A row may come as it is or wrapped in an event: both do the same.
pub proof fn law_wrapped_row(
    state: Option<Rows>,
    kind: Seq<char>,
    event: JsonTree,
    payload: JsonTree,
)
    requires
        row_event(kind),
        event.field("payload"@) == Some(payload),
        payload.field("payload"@) is None,
    ensures
        after_event(state, kind, event) == after_event(state, kind, payload),
{
}

/// The id that ends a pattern may come as it is or wrapped in an event: both do the same.
pub proof fn law_wrapped_end(
    state: Option<Rows>,
    kind: Seq<char>,
    event: JsonTree,
    payload: JsonTree,
)
    requires
        end_event(kind),
        event.field("payload"@) == Some(payload),
        payload.field("payload"@) is None,
        payload.text_field("id"@) is Some,
    ensures
        after_event(state, kind, event) == after_event(state, kind, payload),
{
    lemma_event_kinds();
}

/// The ids of the active rows are finitely many.
proof fn lemma_active_ids_finite(rows: Rows)
    requires
        valid_rows(rows),
    ensures
        active_ids(rows).finite(),
{
    assert(active_ids(rows) =~= rows.dom().filter(|id: Seq<char>| rows[id].active()));
    rows.dom().lemma_len_filter(|id: Seq<char>| rows[id].active());
}

/// A direct pattern is one of the patterns that are counted.
pub proof fn law_direct_is_counted(rows: Rows)
    requires
        valid_rows(rows),
        any_direct(rows),
    ensures
        active_ids(rows).len() > 0,
{
    lemma_active_ids_finite(rows);
    let id = choose|id: Seq<char>| #[trigger] active_ids(rows).contains(id) && rows[id].direct();
    if active_ids(rows).len() == 0 {
        assert(active_ids(rows) =~= Set::empty());
    }
}

/// Only active rows show: two caches with the same active rows have the same badge and the
/// same plans, whatever other rows they hold.
pub proof fn law_only_active_rows_show(a: Rows, b: Rows)
    requires
        active_ids(a) == active_ids(b),
        forall|id: Seq<char>| #[trigger] active_ids(a).contains(id) ==> a[id] == b[id],
    ensures
        badge_of(Some(a)) == badge_of(Some(b)),
        active_plans(a) == active_plans(b),
{
    if any_direct(a) {
        let id = choose|id: Seq<char>| #[trigger] active_ids(a).contains(id) && a[id].direct();
        assert(active_ids(b).contains(id) && b[id].direct());
    }
    if any_direct(b) {
        let id = choose|id: Seq<char>| #[trigger] active_ids(b).contains(id) && b[id].direct();
        assert(active_ids(a).contains(id) && a[id].direct());
    }
    assert forall|plan: Seq<char>| active_plans(a).contains(plan) <==> active_plans(b).contains(
        plan,
    ) by {
        if active_plans(a).contains(plan) {
            let id = choose|id: Seq<char>| #[trigger]
                active_ids(a).contains(id) && a[id].plan_id == plan;
            assert(active_ids(b).contains(id) && b[id].plan_id == plan);
        }
        if active_plans(b).contains(plan) {
            let id = choose|id: Seq<char>| #[trigger]
                active_ids(b).contains(id) && b[id].plan_id == plan;
            assert(active_ids(a).contains(id) && a[id].plan_id == plan);
        }
    }
    assert(active_plans(a) =~= active_plans(b));
}

/// A new active row is counted once, and a row that was active before is not counted again.
pub proof fn law_active_row_counts_once(rows: Rows, row: PatternRow)
    requires
        valid_rows(rows),
        row.active(),
    ensures
        active_ids(rows.insert(row.id, row)).len() == active_ids(rows).len() + if active_ids(
            rows,
        ).contains(row.id) {
            0int
        } else {
            1
        },
{
    lemma_active_ids_finite(rows);
    assert(active_ids(rows.insert(row.id, row)) =~= active_ids(rows).insert(row.id));
}

/// A row that goes is counted no more.
pub proof fn law_removed_row_uncounted(rows: Rows, id: Seq<char>)
    requires
        valid_rows(rows),
    ensures
        active_ids(rows.remove(id)).len() == active_ids(rows).len() - if active_ids(rows).contains(
            id,
        ) {
            1int
        } else {
            0
        },
{
    lemma_active_ids_finite(rows);
    assert(active_ids(rows.remove(id)) =~= active_ids(rows).remove(id));
}

/// A terminal lifecycle is none of an active row.
pub proof fn law_terminal_is_not_active(row: PatternRow)
    requires
        row.active(),
    ensures
        !terminal(row.lifecycle),
{
    reveal_strlit("active");
    reveal_strlit("converged");
    reveal_strlit("dissensus");
    reveal_strlit("aborted");
    assert("active"@.len() == 6 && "converged"@.len() == 9 && "dissensus"@.len() == 9
        && "aborted"@.len() == 7);
}

/// The rows that an answer of the daemon seeds are valid, whatever it lists.
pub proof fn law_seeded_rows_are_valid(items: Seq<JsonTree>)
    ensures
        valid_rows(rows_from(items)),
    decreases items.len(),
{
    if items.len() > 0 {
        law_seeded_rows_are_valid(items.drop_last());
    }
}

/// A list of plans is determined by which plans it holds: two ascending lists with the same
/// members are the same list.
pub proof fn law_ascending_unique(a: Seq<Seq<char>>, b: Seq<Seq<char>>)
    requires
        ascending(a),
        ascending(b),
        a.to_set() == b.to_set(),
    ensures
        a == b,
    decreases a.len(),
{
    if a.len() == 0 {
        if b.len() > 0 {
            assert(b.to_set().contains(b[0]));
            assert(a.contains(b[0]));
        }
        assert(a =~= b);
    } else {
        assert(a.to_set().contains(a.last()));
        assert(b.contains(a.last()));
        let j = choose|j: int| 0 <= j < b.len() && b[j] == a.last();
        assert(b.to_set().contains(b.last()));
        assert(a.contains(b.last()));
        let i = choose|i: int| 0 <= i < a.len() && a[i] == b.last();
        if a.last() != b.last() {
            assert(text_less(b[j], b.last()));
            assert(text_less(a[i], a.last()));
            lemma_text_less_transitive(a.last(), b.last(), a.last());
            lemma_text_less_irreflexive(a.last());
        }
        let a1 = a.drop_last();
        let b1 = b.drop_last();
        assert(a1.to_set() =~= b1.to_set()) by {
            lemma_ascending_front(a);
            lemma_ascending_front(b);
            assert(a.to_set().remove(a.last()) == b.to_set().remove(b.last()));
        }
        law_ascending_unique(a1, b1);
        assert(a =~= a1.push(a.last()));
        assert(b =~= b1.push(b.last()));
    }
}

proof fn lemma_ascending_front(a: Seq<Seq<char>>)
    requires
        ascending(a),
        a.len() > 0,
    ensures
        ascending(a.drop_last()),
        a.drop_last().to_set() == a.to_set().remove(a.last()),
{
    let front = a.drop_last();
    assert forall|i: int, j: int| 0 <= i < j < front.len() implies text_less(
        #[trigger] front[i],
        #[trigger] front[j],
    ) by {
        assert(front[i] == a[i] && front[j] == a[j]);
    }
    assert forall|t: Seq<char>| front.to_set().contains(t) <==> a.to_set().remove(
        a.last(),
    ).contains(t) by {
        if front.to_set().contains(t) {
            let k = choose|k: int| 0 <= k < front.len() && front[k] == t;
            assert(a[k] == t);
            assert(text_less(a[k], a[a.len() - 1]));
            lemma_text_less_irreflexive(t);
        }
        if a.to_set().remove(a.last()).contains(t) {
            let k = choose|k: int| 0 <= k < a.len() && a[k] == t;
            assert(front[k] == t);
        }
    }
    assert(front.to_set() =~= a.to_set().remove(a.last()));
}

/// An answer that is no success leaves the cache as it was, unknown or not.
pub proof fn law_refusal_changes_nothing(state: Option<Rows>, raw: Seq<u8>)
    requires
        http_body(raw) is Err,
    ensures
        after_answer(state, Some(raw)) == state,
{
}

/// A listed row is held after the seed, under its id, unless a later row has the same id.
pub proof fn law_listed_row_is_held(items: Seq<JsonTree>, i: int, row: PatternRow)
    requires
        0 <= i < items.len(),
        pattern_of(items[i]) == Some(row),
        forall|j: int|
            i < j < items.len() ==> (pattern_of(#[trigger] items[j]) matches Some(later) ==> later.id
                != row.id),
    ensures
        rows_from(items).contains_key(row.id),
        rows_from(items)[row.id] == row,
    decreases items.len(),
{
    let front = items.drop_last();
    if i < items.len() - 1 {
        assert forall|j: int| i < j < front.len() implies (pattern_of(
            #[trigger] front[j],
        ) matches Some(later) ==> later.id != row.id) by {
            assert(front[j] == items[j]);
        }
        law_listed_row_is_held(front, i, row);
        assert(items.last() == items[items.len() - 1]);
    }
}

/// The pattern that an event may change.
pub open spec fn about(kind: Seq<char>, event: JsonTree) -> Option<Seq<char>> {
    if row_event(kind) {
        match pattern_of(payload_of(event)) {
            Some(row) => Some(row.id),
            None => None,
        }
    } else if end_event(kind) {
        ended_id(event)
    } else {
        None
    }
}

/// Events about different patterns may come in either order.
pub proof fn law_events_commute(
    state: Option<Rows>,
    kind1: Seq<char>,
    event1: JsonTree,
    kind2: Seq<char>,
    event2: JsonTree,
)
    requires
        about(kind1, event1) is None || about(kind1, event1) != about(kind2, event2),
    ensures
        after_event(after_event(state, kind1, event1), kind2, event2) == after_event(
            after_event(state, kind2, event2),
            kind1,
            event1,
        ),
{
    lemma_event_kinds();
    let a = after_event(after_event(state, kind1, event1), kind2, event2);
    let b = after_event(after_event(state, kind2, event2), kind1, event1);
    if a is Some && b is Some {
        assert(a->0 =~= b->0);
    }
}

/// The value of a pattern is made of its own four texts.
pub proof fn law_row_of_a_pattern(p: ActivePattern)
    ensures
        p@.id == p.id@,
        p@.kind == p.kind@,
        p@.plan_id == p.plan_id@,
        p@.lifecycle == p.lifecycle@,
{
}

/// A document is a pattern row exactly where it has a text `id` and a text `kind`, whatever
/// else it has. Each field of the row is the text of the field with that name; a plan that is
/// not named is empty, a lifecycle that is not named is pending.
pub proof fn law_row_of_a_document(v: JsonTree)
    ensures
        pattern_of(v) is Some <==> v.text_field("id"@) is Some && v.text_field("kind"@) is Some,
        pattern_of(v) matches Some(row) ==> {
            &&& v.text_field("id"@) == Some(row.id)
            &&& v.text_field("kind"@) == Some(row.kind)
            &&& v.text_field("plan_id"@) is Some ==> v.text_field("plan_id"@) == Some(row.plan_id)
            &&& v.text_field("plan_id"@) is None ==> row.plan_id.len() == 0
            &&& v.text_field("lifecycle"@) is Some ==> v.text_field("lifecycle"@) == Some(
                row.lifecycle,
            )
            &&& v.text_field("lifecycle"@) is None ==> row.lifecycle == "pending"@
        },
{
}

/// Every id under `a` and `b` but this one holds the same.
pub open spec fn alike_but(a: Rows, b: Rows, id: Seq<char>) -> bool {
    forall|other: Seq<char>|
        other != id ==> (#[trigger] a.contains_key(other) <==> b.contains_key(other)) && (
        b.contains_key(other) ==> a[other] == b[other])
}

/// What an event is about is its payload, and the event itself where it has none.
pub proof fn law_payload_of_an_event(event: JsonTree)
    ensures
        event.field("payload"@) matches Some(payload) ==> payload_of(event) == payload,
        event.field("payload"@) is None ==> payload_of(event) == event,
{
}

/// Created or changed, a row that is in no terminal lifecycle is held afterwards under its
/// id exactly as the event carries it, in every state, whether or not the id was held before;
/// every other row stays as it was.
pub proof fn law_row_event_holds_its_row(
    state: Option<Rows>,
    kind: Seq<char>,
    event: JsonTree,
    payload: JsonTree,
    row: PatternRow,
)
    requires
        kind == "pattern_created"@ || kind == "pattern_lifecycle"@,
        event.field("payload"@) == Some(payload) || (event.field("payload"@) is None && payload
            == event),
        pattern_of(payload) == Some(row),
        row.lifecycle != "converged"@,
        row.lifecycle != "dissensus"@,
        row.lifecycle != "aborted"@,
    ensures
        after_event(state, kind, event) matches Some(after) && {
            &&& after.contains_key(row.id)
            &&& after[row.id] == row
            &&& state matches Some(rows) ==> alike_but(after, rows, row.id)
            &&& state is None ==> alike_but(after, Map::empty(), row.id)
        },
{
}

/// Created or changed, a row in a terminal lifecycle is not held afterwards; every other row
/// stays as it was, and the cache is known.
pub proof fn law_terminal_event_drops_its_row(
    state: Option<Rows>,
    kind: Seq<char>,
    event: JsonTree,
    payload: JsonTree,
    row: PatternRow,
)
    requires
        kind == "pattern_created"@ || kind == "pattern_lifecycle"@,
        event.field("payload"@) == Some(payload) || (event.field("payload"@) is None && payload
            == event),
        pattern_of(payload) == Some(row),
        row.lifecycle == "converged"@ || row.lifecycle == "dissensus"@ || row.lifecycle
            == "aborted"@,
    ensures
        after_event(state, kind, event) matches Some(after) && {
            &&& !after.contains_key(row.id)
            &&& state matches Some(rows) ==> alike_but(after, rows, row.id)
            &&& state is None ==> alike_but(after, Map::empty(), row.id)
        },
{
}

/// An event that ends a pattern drops the row with the id of its payload, or, where the
/// payload has none, the row that `entity_id` names; every other row stays as it was. A cache
/// that is not known stays so.
pub proof fn law_end_event_drops_its_row(
    state: Option<Rows>,
    kind: Seq<char>,
    event: JsonTree,
    payload: JsonTree,
    id: Seq<char>,
)
    requires
        kind == "pattern_aborted"@ || kind == "pattern_converged"@ || kind == "pattern_dissensus"@,
        event.field("payload"@) == Some(payload) || (event.field("payload"@) is None && payload
            == event),
        payload.text_field("id"@) == Some(id) || (payload.text_field("id"@) is None
            && event.text_field("entity_id"@) == Some(id)),
    ensures
        state is None ==> after_event(state, kind, event) is None,
        state matches Some(rows) ==> {
            &&& after_event(state, kind, event) matches Some(after)
            &&& !after.contains_key(id)
            &&& alike_but(after, rows, id)
        },
{
    lemma_event_kinds();
    assert(end_event(kind));
}

/// An event of another kind, one whose payload is no row where a row is due, and one that
/// names no pattern where one is to end, change nothing.
pub proof fn law_useless_event_changes_nothing(
    state: Option<Rows>,
    kind: Seq<char>,
    event: JsonTree,
    payload: JsonTree,
)
    requires
        event.field("payload"@) == Some(payload) || (event.field("payload"@) is None && payload
            == event),
        (kind == "pattern_created"@ || kind == "pattern_lifecycle"@) ==> payload.text_field(
            "id"@,
        ) is None || payload.text_field("kind"@) is None,
        (kind == "pattern_aborted"@ || kind == "pattern_converged"@ || kind == "pattern_dissensus"@)
            ==> payload.text_field("id"@) is None && event.text_field("entity_id"@) is None,
    ensures
        after_event(state, kind, event) == state,
{
}

/// An event whose data are a JSON text does what its document does; data that are none change
/// nothing.
pub proof fn law_event_text_is_its_document(state: Option<Rows>, kind: Seq<char>, data: Seq<char>)
    ensures
        json_document(data) matches Ok(event) ==> after_event_text(state, kind, data)
            == after_event(state, kind, event),
        json_document(data) is Err ==> after_event_text(state, kind, data) == state,
{
}

/// Only what is listed is held: a row that the seed holds is that of some item of the list.
proof fn lemma_rows_come_from_items(items: Seq<JsonTree>, id: Seq<char>)
    requires
        rows_from(items).contains_key(id),
    ensures
        exists|i: int|
            0 <= i < items.len() && pattern_of(#[trigger] items[i]) == Some(rows_from(items)[id]),
        rows_from(items)[id].id == id,
    decreases items.len(),
{
    if items.len() > 0 {
        let front = items.drop_last();
        let n = items.len() - 1;
        match pattern_of(items.last()) {
            Some(row) => {
                if row.id == id {
                    assert(pattern_of(items[n]) == Some(rows_from(items)[id]));
                } else {
                    lemma_rows_come_from_items(front, id);
                    let i = choose|i: int|
                        0 <= i < front.len() && pattern_of(#[trigger] front[i]) == Some(
                            rows_from(front)[id],
                        );
                    assert(items[i] == front[i]);
                }
            },
            None => {
                lemma_rows_come_from_items(front, id);
                let i = choose|i: int|
                    0 <= i < front.len() && pattern_of(#[trigger] front[i]) == Some(
                        rows_from(front)[id],
                    );
                assert(items[i] == front[i]);
            },
        }
    }
}

/// The document is this array, or an object with this array under `patterns`.
pub open spec fn lists(document: JsonTree, items: Seq<JsonTree>) -> bool {
    document == JsonTree::Array(items) || (document is Object && document.field("patterns"@) == Some(
        JsonTree::Array(items),
    ))
}

/// After an answer whose document is an array, or an object with an array under `patterns`,
/// every item of that array that is a pattern row is held under its id, unless a later item
/// with the same id replaces it, wherever in the array it stands.
pub proof fn law_answer_holds_every_row(
    state: Option<Rows>,
    raw: Seq<u8>,
    body: Seq<char>,
    document: JsonTree,
    items: Seq<JsonTree>,
    i: int,
    row: PatternRow,
)
    requires
        http_body(raw) == Ok::<Seq<char>, HttpError>(body),
        json_document(body) == Ok::<JsonTree, Seq<char>>(document),
        lists(document, items),
        0 <= i < items.len(),
        pattern_of(items[i]) == Some(row),
        forall|j: int|
            i < j < items.len() ==> (pattern_of(#[trigger] items[j]) matches Some(later) ==> later.id
                != row.id),
    ensures
        after_answer(state, Some(raw)) matches Some(rows) && rows.contains_key(row.id)
            && rows[row.id] == row,
{
    assert(listed(document) == items);
    law_listed_row_is_held(items, i, row);
}

/// After such an answer nothing else is held: whatever the cache held before, each row that
/// it holds now is that of an item of the array.
pub proof fn law_answer_holds_nothing_else(
    state: Option<Rows>,
    raw: Seq<u8>,
    body: Seq<char>,
    document: JsonTree,
    items: Seq<JsonTree>,
    id: Seq<char>,
)
    requires
        http_body(raw) == Ok::<Seq<char>, HttpError>(body),
        json_document(body) == Ok::<JsonTree, Seq<char>>(document),
        lists(document, items),
        after_answer(state, Some(raw)) matches Some(rows) ==> rows.contains_key(id),
    ensures
        after_answer(state, Some(raw)) matches Some(rows) && rows[id].id == id && exists|i: int|
            0 <= i < items.len() && pattern_of(#[trigger] items[i]) == Some(rows[id]),
{
    assert(listed(document) == items);
    lemma_rows_come_from_items(items, id);
}

/// An answer that is JSON makes the cache known, and, where it lists nothing, empty.
pub proof fn law_answer_without_list_empties(
    state: Option<Rows>,
    raw: Seq<u8>,
    body: Seq<char>,
    document: JsonTree,
)
    requires
        http_body(raw) == Ok::<Seq<char>, HttpError>(body),
        json_document(body) == Ok::<JsonTree, Seq<char>>(document),
    ensures
        after_answer(state, Some(raw)) is Some,
        !(document is Array) && (document.field("patterns"@) matches Some(v) ==> !(v is Array))
            ==> after_answer(state, Some(raw)) == Some(Map::<Seq<char>, PatternRow>::empty()),
{
}

/// Without an answer, and with one that is no JSON, the cache stays as it was.
pub proof fn law_no_answer_changes_nothing(state: Option<Rows>, raw: Seq<u8>, body: Seq<char>)
    ensures
        after_answer(state, None) == state,
        http_body(raw) == Ok::<Seq<char>, HttpError>(body) && json_document(body) is Err
            ==> after_answer(state, Some(raw)) == state,
{
}

/// Rows that are given are held, the last one of each id, and no others.
pub proof fn law_given_rows_are_held(rows: Seq<ActivePattern>, i: int)
    requires
        0 <= i < rows.len(),
        forall|j: int| i < j < rows.len() ==> (#[trigger] rows[j]).id@ != rows[i].id@,
    ensures
        rows_by_id(rows).contains_key(rows[i].id@),
        rows_by_id(rows)[rows[i].id@] == rows[i]@,
    decreases rows.len(),
{
    let front = rows.drop_last();
    if i < rows.len() - 1 {
        assert forall|j: int| i < j < front.len() implies (#[trigger] front[j]).id@
            != front[i].id@ by {
            assert(front[j] == rows[j]);
        }
        law_given_rows_are_held(front, i);
        assert(rows[rows.len() - 1].id@ != rows[i].id@);
    }
}

/// Nothing is held that was not given.
pub proof fn law_only_given_rows_are_held(rows: Seq<ActivePattern>, id: Seq<char>)
    requires
        rows_by_id(rows).contains_key(id),
    ensures
        exists|i: int| 0 <= i < rows.len() && (#[trigger] rows[i]).id@ == id,
    decreases rows.len(),
{
    if rows.len() > 0 {
        let front = rows.drop_last();
        if rows.last().id@ == id {
            assert(rows[rows.len() - 1].id@ == id);
        } else {
            law_only_given_rows_are_held(front, id);
            let i = choose|i: int| 0 <= i < front.len() && (#[trigger] front[i]).id@ == id;
            assert(rows[i].id@ == id);
        }
    }
}

/// A row is active exactly where its lifecycle is `active`; the active ids are those under
/// which such a row is held.
pub proof fn law_active_means_active(rows: Rows, id: Seq<char>)
    ensures
        active_ids(rows).contains(id) <==> rows.contains_key(id) && rows[id].lifecycle == "active"@,
{
}

/// The badge of a cache that is not known counts nothing and marks nothing.
pub proof fn law_unknown_badge()
    ensures
        badge_of(None).active_count is None,
        !badge_of(None).has_direct,
{
}

/// The count in the badge of a known cache is the number of ids under which a row with
/// lifecycle `active` is held, however many there are.
pub proof fn law_badge_counts_active_rows(rows: Rows)
    requires
        rows.dom().finite(),
        rows.dom().filter(|id: Seq<char>| rows[id].lifecycle == "active"@).len() <= usize::MAX,
    ensures
        badge_of(Some(rows)).active_count matches Some(n) && n == rows.dom().filter(
            |id: Seq<char>| rows[id].lifecycle == "active"@,
        ).len(),
{
    assert(active_ids(rows) =~= rows.dom().filter(
        |id: Seq<char>| rows[id].lifecycle == "active"@,
    ));
}

/// The badge marks a known cache exactly where an active row of the kind `direct` is held.
pub proof fn law_badge_marks_direct_rows(rows: Rows)
    ensures
        badge_of(Some(rows)).has_direct <==> exists|id: Seq<char>| #[trigger]
            rows.contains_key(id) && rows[id].lifecycle == "active"@ && rows[id].kind == "direct"@,
{
    if any_direct(rows) {
        let id = choose|id: Seq<char>| #[trigger] active_ids(rows).contains(id) && rows[id].direct();
        assert(rows.contains_key(id));
    }
    if exists|id: Seq<char>| #[trigger]
        rows.contains_key(id) && rows[id].lifecycle == "active"@ && rows[id].kind == "direct"@ {
        let id = choose|id: Seq<char>| #[trigger]
            rows.contains_key(id) && rows[id].lifecycle == "active"@ && rows[id].kind == "direct"@;
        assert(active_ids(rows).contains(id));
    }
}

/// A new active row raises the count in the badge by exactly one, whatever it was; a row
/// that was active already leaves it.
pub proof fn law_badge_rises_by_one(rows: Rows, row: PatternRow)
    requires
        rows.dom().finite(),
        row.lifecycle == "active"@,
        active_ids(rows).len() < usize::MAX,
    ensures
        badge_of(Some(rows)).active_count matches Some(before) && badge_of(
            Some(rows.insert(row.id, row)),
        ).active_count matches Some(after) && after == before + if rows.contains_key(row.id)
            && rows[row.id].lifecycle == "active"@ {
            0int
        } else {
            1
        },
{
    lemma_active_ids_finite_dom(rows);
    assert(active_ids(rows.insert(row.id, row)) =~= active_ids(rows).insert(row.id));
}

/// An active row that goes lowers the count in the badge by exactly one, whatever it was; any
/// other leaves it.
pub proof fn law_badge_falls_by_one(rows: Rows, id: Seq<char>)
    requires
        rows.dom().finite(),
        active_ids(rows).len() <= usize::MAX,
    ensures
        badge_of(Some(rows)).active_count matches Some(before) && badge_of(
            Some(rows.remove(id)),
        ).active_count matches Some(after) && after == before - if rows.contains_key(id)
            && rows[id].lifecycle == "active"@ {
            1int
        } else {
            0
        },
{
    lemma_active_ids_finite_dom(rows);
    assert(active_ids(rows.remove(id)) =~= active_ids(rows).remove(id));
}

/// The active ids of finitely many rows are finitely many.
proof fn lemma_active_ids_finite_dom(rows: Rows)
    requires
        rows.dom().finite(),
    ensures
        active_ids(rows).finite(),
{
    assert(active_ids(rows) =~= rows.dom().filter(|id: Seq<char>| rows[id].active()));
    rows.dom().lemma_len_filter(|id: Seq<char>| rows[id].active());
}

/// A plan hosts an active pattern exactly where it has a name and an active row names it.
pub proof fn law_plans_of_active_rows(rows: Rows, plan: Seq<char>)
    ensures
        active_plans(rows).contains(plan) <==> plan.len() > 0 && exists|id: Seq<char>| #[trigger]
            rows.contains_key(id) && rows[id].lifecycle == "active"@ && rows[id].plan_id == plan,
{
    if active_plans(rows).contains(plan) {
        let id = choose|id: Seq<char>| #[trigger]
            active_ids(rows).contains(id) && rows[id].plan_id == plan;
        assert(rows.contains_key(id));
    }
    if exists|id: Seq<char>| #[trigger]
        rows.contains_key(id) && rows[id].lifecycle == "active"@ && rows[id].plan_id == plan {
        let id = choose|id: Seq<char>| #[trigger]
            rows.contains_key(id) && rows[id].lifecycle == "active"@ && rows[id].plan_id == plan;
        assert(active_ids(rows).contains(id));
    }
}

/// The ends of the tooltip and of the title, for every count: the number itself, in decimal,
/// and the marker exactly where a counted pattern is direct.
pub proof fn law_suffixes_show_the_count(n: usize)
    ensures
        ({
            let plain = PatternBadge { active_count: Some(n), has_direct: false };
            let marked = PatternBadge { active_count: Some(n), has_direct: true };
            &&& plain.tooltip_text() == " | active patterns: "@ + decimal(n as nat)
            &&& n > 0 ==> marked.tooltip_text() == plain.tooltip_text() + " \u{1F534}"@
            &&& n == 0 ==> marked.tooltip_text() == plain.tooltip_text()
            &&& n > 0 ==> plain.title_text() == " • CP:"@ + decimal(n as nat)
            &&& n > 0 ==> marked.title_text() == plain.title_text() + " \u{26A0}"@
            &&& n == 0 ==> plain.title_text().len() == 0 && marked.title_text().len() == 0
        }),
{
    let d = decimal(n as nat);
    assert(" | active patterns: "@ + d + seq![] =~= " | active patterns: "@ + d);
    assert(" • CP:"@ + d + seq![] =~= " • CP:"@ + d);
}

} // verus!
