//! The task table as a mathematical value: a sequence of rows in the order
//! in which they were added, no two of them under the same identifier.
//! The operations of the store are stated over the functions of this
//! module, and the laws of the store are proved here.

use vstd::prelude::*;
use crate::order::{
    arranged, is_ranking, lemma_arranged_ordered, lemma_arranged_permutes, lemma_arranged_stable,
};
use crate::tasks::models::{merged, TaskView, UpdateTaskView};
use crate::tasks::outside::is_hyphenated_id;
use crate::tasks::record::{decoded, row_of, RowView};
use crate::text::{
    contains_text, lemma_contains_empty, lemma_text_lt_total, lemma_text_lt_transitive, text_le,
    text_lt,
};

verus! {

/// Some row of `table` stands under `id`.
pub open spec fn has_id(table: Seq<RowView>, id: Seq<char>) -> bool {
    exists|i: int| 0 <= i < table.len() && (#[trigger] table[i]).id == id
}

/// Some row of `table` stands under an identifier of the shape in which
/// the store draws the identifiers of new tasks.
pub open spec fn holds_drawn_id(table: Seq<RowView>) -> bool {
    exists|i: int| 0 <= i < table.len() && is_hyphenated_id((#[trigger] table[i]).id)
}

/// No two rows of `table` stand under the same identifier.
pub open spec fn ids_distinct(table: Seq<RowView>) -> bool {
    forall|i: int, j: int|
        0 <= i < j < table.len() ==> (#[trigger] table[i]).id != (#[trigger] table[j]).id
}

/// The row that `table` holds under `id`, if it holds one.
pub open spec fn stored(table: Seq<RowView>, id: Seq<char>) -> Option<RowView> {
    if has_id(table, id) {
        Some(table[choose|i: int| 0 <= i < table.len() && (#[trigger] table[i]).id == id])
    } else {
        None
    }
}

/// `table` without the rows under `id`.
pub open spec fn without(table: Seq<RowView>, id: Seq<char>) -> Seq<RowView> {
    table.filter(|row: RowView| row.id != id)
}

/// `row` as it stands after an update that writes `new`: the update writes
/// every column but the identifier and the creation time.
pub open spec fn rewritten(row: RowView, new: RowView) -> RowView {
    RowView { id: row.id, created_at: row.created_at, ..new }
}

/// `table` with the rows under the identifier of `new` rewritten by it.
pub open spec fn replaced(table: Seq<RowView>, new: RowView) -> Seq<RowView> {
    table.map_values(
        |row: RowView|
            if row.id == new.id {
                rewritten(row, new)
            } else {
                row
            },
    )
}

/// `a` has to be listed before `b`: it has the higher priority, or the same
/// priority and the later creation time.
pub open spec fn outranks(a: RowView, b: RowView) -> bool {
    a.priority > b.priority || (a.priority == b.priority && text_lt(b.created_at, a.created_at))
}

/// The ranking of rows by [`outranks`].
pub open spec fn by_rank() -> spec_fn(RowView, RowView) -> bool {
    |a: RowView, b: RowView| outranks(a, b)
}

/// The rows of `table` in listing order: by priority, highest first; among
/// equal priorities by creation time, latest first; rows that tie in both
/// in the order of the table.
pub open spec fn listing(table: Seq<RowView>) -> Seq<RowView> {
    arranged(table, by_rank())
}

/// `query` occurs in the title of `row` or in its description.
pub open spec fn row_matches(row: RowView, query: Seq<char>) -> bool {
    contains_text(row.title, query) || match row.description {
        Some(text) => contains_text(text, query),
        None => false,
    }
}

/// The rows of `table` that match `query`, in the order of the table.
pub open spec fn matching(table: Seq<RowView>, query: Seq<char>) -> Seq<RowView> {
    table.filter(|row: RowView| row_matches(row, query))
}

/// The tasks that a reader gets from `rows`, one for each row and in the
/// same order: `None` where the tags of some row cannot be read.
pub open spec fn decoded_all(rows: Seq<RowView>) -> Option<Seq<TaskView>> {
    if forall|i: int| 0 <= i < rows.len() ==> decoded(#[trigger] rows[i]) is Some {
        Some(rows.map_values(|row: RowView| decoded(row).unwrap()))
    } else {
        None
    }
}

/// Tasks in listing order: of two of them the earlier one has the higher
/// priority, or the same priority and a creation time that is not earlier.
pub open spec fn tasks_ordered(tasks: Seq<TaskView>) -> bool {
    forall|i: int, j: int|
        0 <= i < j < tasks.len() ==> {
            let a = #[trigger] tasks[i];
            let b = #[trigger] tasks[j];
            a.priority > b.priority || (a.priority == b.priority && text_le(
                b.created_at,
                a.created_at,
            ))
        }
}

/// A filter that every element passes changes nothing.
pub proof fn lemma_filter_all<A>(s: Seq<A>, pred: spec_fn(A) -> bool)
    requires
        forall|i: int| 0 <= i < s.len() ==> pred(#[trigger] s[i]),
    ensures
        s.filter(pred) == s,
    decreases s.len(),
{
    reveal(Seq::filter);
    if s.len() > 0 {
        let front = s.drop_last();
        assert forall|i: int| 0 <= i < front.len() implies pred(#[trigger] front[i]) by {
            assert(front[i] == s[i]);
        }
        lemma_filter_all(front, pred);
        assert(front.push(s.last()) =~= s);
    }
}

/// Under distinct identifiers the row found at an index is the row stored
/// under its identifier.
pub proof fn lemma_stored_at(table: Seq<RowView>, i: int)
    requires
        ids_distinct(table),
        0 <= i < table.len(),
    ensures
        stored(table, table[i].id) == Some(table[i]),
{
    let id = table[i].id;
    assert(has_id(table, id));
    let c = choose|c: int| 0 <= c < table.len() && (#[trigger] table[c]).id == id;
    if c < i {
        assert(table[c].id != table[i].id);
    } else if i < c {
        assert(table[i].id != table[c].id);
    }
}

/// Taking out the row at an index takes out the rows under its identifier.
pub proof fn lemma_remove_is_without(table: Seq<RowView>, i: int)
    requires
        ids_distinct(table),
        0 <= i < table.len(),
    ensures
        table.remove(i) == without(table, table[i].id),
        ids_distinct(table.remove(i)),
        !has_id(table.remove(i), table[i].id),
    decreases table.len(),
{
    reveal(Seq::filter);
    let id = table[i].id;
    let pred = |row: RowView| row.id != id;
    let front = table.drop_last();
    let removed = table.remove(i);
    assert forall|a: int, b: int| 0 <= a < b < removed.len() implies (#[trigger] removed[a]).id != (
    #[trigger] removed[b]).id by {
        let a0 = if a < i { a } else { a + 1 };
        let b0 = if b < i { b } else { b + 1 };
        assert(removed[a] == table[a0] && removed[b] == table[b0]);
    }
    assert forall|a: int| 0 <= a < removed.len() implies (#[trigger] removed[a]).id != id by {
        let a0 = if a < i { a } else { a + 1 };
        assert(removed[a] == table[a0]);
        if a0 < i {
            assert(table[a0].id != table[i].id);
        } else {
            assert(table[i].id != table[a0].id);
        }
    }
    if i == table.len() - 1 {
        assert(removed =~= front);
        assert forall|k: int| 0 <= k < front.len() implies pred(#[trigger] front[k]) by {
            assert(front[k] == removed[k]);
        }
        lemma_filter_all(front, pred);
        assert(!pred(table.last()));
    } else {
        assert(ids_distinct(front)) by {
            assert forall|a: int, b: int| 0 <= a < b < front.len() implies (#[trigger] front[a]).id != (
            #[trigger] front[b]).id by {
                assert(front[a] == table[a] && front[b] == table[b]);
            }
        }
        assert(front[i] == table[i]);
        lemma_remove_is_without(front, i);
        assert(table[i].id != table[table.len() - 1].id);
        assert(pred(table.last()));
        assert(front.remove(i).push(table.last()) =~= removed);
    }
}

/// Taking out the rows under an identifier that the table does not hold
/// changes nothing.
pub proof fn lemma_without_absent(table: Seq<RowView>, id: Seq<char>)
    requires
        !has_id(table, id),
    ensures
        without(table, id) == table,
{
    lemma_filter_all(table, |row: RowView| row.id != id);
}

/// After the rows under an identifier are taken out, none is left under it,
/// and the identifiers that were distinct still are.
pub proof fn lemma_without_clears(table: Seq<RowView>, id: Seq<char>)
    requires
        ids_distinct(table),
    ensures
        !has_id(without(table, id), id),
        ids_distinct(without(table, id)),
        stored(without(table, id), id) is None,
{
    if has_id(table, id) {
        let i = choose|i: int| 0 <= i < table.len() && (#[trigger] table[i]).id == id;
        lemma_remove_is_without(table, i);
    } else {
        lemma_without_absent(table, id);
    }
}

/// Deleting twice is deleting once: the second time nothing is left to
/// take out.
pub proof fn lemma_without_idempotent(table: Seq<RowView>, id: Seq<char>)
    requires
        ids_distinct(table),
    ensures
        without(without(table, id), id) == without(table, id),
{
    lemma_without_clears(table, id);
    lemma_without_absent(without(table, id), id);
}

/// Writing the row at an index, with identifier and creation time kept, is
/// rewriting the rows under its identifier; the identifiers stay distinct,
/// and the row stored under the identifier is the rewritten one.
pub proof fn lemma_update_is_replaced(table: Seq<RowView>, i: int, new: RowView)
    requires
        ids_distinct(table),
        0 <= i < table.len(),
        table[i].id == new.id,
    ensures
        table.update(i, rewritten(table[i], new)) == replaced(table, new),
        ids_distinct(replaced(table, new)),
        stored(replaced(table, new), new.id) == Some(rewritten(table[i], new)),
{
    let after = table.update(i, rewritten(table[i], new));
    assert forall|k: int| 0 <= k < table.len() implies after[k] == #[trigger] replaced(table, new)[k] by {
        if k < i {
            assert(table[k].id != table[i].id);
        } else if i < k {
            assert(table[i].id != table[k].id);
        }
    }
    assert(after =~= replaced(table, new));
    assert forall|a: int, b: int| 0 <= a < b < after.len() implies (#[trigger] after[a]).id != (
    #[trigger] after[b]).id by {
        assert(after[a].id == table[a].id && after[b].id == table[b].id);
    }
    lemma_stored_at(after, i);
}

/// Rewriting the rows under an identifier that the table does not hold
/// changes nothing.
pub proof fn lemma_replaced_absent(table: Seq<RowView>, new: RowView)
    requires
        !has_id(table, new.id),
    ensures
        replaced(table, new) == table,
{
    assert(replaced(table, new) =~= table);
}

/// The creation of a task leaves every other task as it is stored.
pub proof fn lemma_push_keeps_others(table: Seq<RowView>, row: RowView, other: Seq<char>)
    requires
        ids_distinct(table),
        !has_id(table, row.id),
        other != row.id,
    ensures
        stored(table.push(row), other) == stored(table, other),
{
    let after = table.push(row);
    lemma_push_then_stored(table, row);
    if has_id(table, other) {
        let i = choose|i: int| 0 <= i < table.len() && (#[trigger] table[i]).id == other;
        lemma_stored_at(table, i);
        assert(after[i] == table[i]);
        lemma_stored_at(after, i);
    } else {
        assert forall|i: int| 0 <= i < after.len() implies (#[trigger] after[i]).id != other by {
            if i < table.len() {
                assert(after[i] == table[i]);
            }
        }
    }
}

/// An update of one task leaves every other task as it is stored.
pub proof fn lemma_replaced_keeps_others(table: Seq<RowView>, new: RowView, other: Seq<char>)
    requires
        ids_distinct(table),
        other != new.id,
    ensures
        stored(replaced(table, new), other) == stored(table, other),
{
    let after = replaced(table, new);
    assert forall|a: int, b: int| 0 <= a < b < after.len() implies (#[trigger] after[a]).id != (
    #[trigger] after[b]).id by {
        assert(after[a].id == table[a].id && after[b].id == table[b].id);
    }
    if has_id(table, other) {
        let i = choose|i: int| 0 <= i < table.len() && (#[trigger] table[i]).id == other;
        lemma_stored_at(table, i);
        assert(after[i] == table[i]);
        lemma_stored_at(after, i);
    } else {
        assert forall|i: int| 0 <= i < after.len() implies (#[trigger] after[i]).id != other by {
            assert(after[i].id == table[i].id);
        }
    }
}

/// The deletion of one task leaves every other task as it is stored.
pub proof fn lemma_without_keeps_others(table: Seq<RowView>, id: Seq<char>, other: Seq<char>)
    requires
        ids_distinct(table),
        other != id,
    ensures
        stored(without(table, id), other) == stored(table, other),
{
    if has_id(table, id) {
        let i = choose|i: int| 0 <= i < table.len() && (#[trigger] table[i]).id == id;
        lemma_remove_is_without(table, i);
        let after = table.remove(i);
        if has_id(table, other) {
            let j = choose|j: int| 0 <= j < table.len() && (#[trigger] table[j]).id == other;
            lemma_stored_at(table, j);
            let j0 = if j < i { j } else { j - 1 };
            assert(after[j0] == table[j]);
            lemma_stored_at(after, j0);
        } else {
            assert forall|k: int| 0 <= k < after.len() implies (#[trigger] after[k]).id != other by {
                let k0 = if k < i { k } else { k + 1 };
                assert(after[k] == table[k0]);
            }
        }
    } else {
        lemma_without_absent(table, id);
    }
}

/// A row added under a new identifier is the row stored under it, and the
/// identifiers stay distinct.
pub proof fn lemma_push_then_stored(table: Seq<RowView>, row: RowView)
    requires
        ids_distinct(table),
        !has_id(table, row.id),
    ensures
        ids_distinct(table.push(row)),
        stored(table.push(row), row.id) == Some(row),
{
    let after = table.push(row);
    assert forall|a: int, b: int| 0 <= a < b < after.len() implies (#[trigger] after[a]).id != (
    #[trigger] after[b]).id by {
        assert(after[a] == table[a]);
        if b < table.len() {
            assert(after[b] == table[b]);
        }
    }
    lemma_stored_at(after, table.len() as int);
}

/// A task that is created with tags and then read back has the same tags
/// in the same order, and every other field as it was written.
pub proof fn lemma_create_then_read(table: Seq<RowView>, task: TaskView, tags_json: Seq<char>)
    requires
        ids_distinct(table),
        !has_id(table, task.id),
        crate::tasks::outside::tags_in_json(tags_json) == Some(task.tags),
    ensures
        stored(table.push(row_of(task, tags_json)), task.id) matches Some(row) && decoded(row)
            == Some(task),
{
    lemma_push_then_stored(table, row_of(task, tags_json));
    crate::tasks::record::lemma_row_round_trip(task, tags_json);
}

/// A task that is changed and then read back is the task that the change
/// gave: the update starts from the stored task, and what it writes reads
/// back as what it returns.
pub proof fn lemma_update_then_read(
    table: Seq<RowView>,
    before: TaskView,
    input: UpdateTaskView,
    now: Seq<char>,
    tags_json: Seq<char>,
)
    requires
        ids_distinct(table),
        stored(table, before.id) matches Some(row) && decoded(row) == Some(before),
        crate::tasks::outside::tags_in_json(tags_json) == Some(merged(before, input, now).tags),
    ensures
        stored(replaced(table, row_of(merged(before, input, now), tags_json)), before.id) matches Some(
            row,
        ) && decoded(row) == Some(merged(before, input, now)),
        ids_distinct(replaced(table, row_of(merged(before, input, now), tags_json))),
{
    let after = merged(before, input, now);
    let i = choose|i: int| 0 <= i < table.len() && (#[trigger] table[i]).id == before.id;
    lemma_stored_at(table, i);
    lemma_update_is_replaced(table, i, row_of(after, tags_json));
    crate::tasks::record::lemma_row_round_trip(after, tags_json);
    assert(rewritten(table[i], row_of(after, tags_json)) == row_of(after, tags_json));
}

/// Across two updates of a task, the time of its last change does not go
/// back as long as the clock that stamps the updates does not; its
/// identifier and its creation time never change.
pub proof fn lemma_updated_at_monotonic(
    task: TaskView,
    first: UpdateTaskView,
    first_now: Seq<char>,
    second: UpdateTaskView,
    second_now: Seq<char>,
)
    requires
        text_le(first_now, second_now),
    ensures
        text_le(
            merged(task, first, first_now).updated_at,
            merged(merged(task, first, first_now), second, second_now).updated_at,
        ),
        merged(merged(task, first, first_now), second, second_now).created_at == task.created_at,
        merged(merged(task, first, first_now), second, second_now).id == task.id,
{
}

/// Of two rows at most one has to be listed before the other.
pub proof fn lemma_outranks_asymmetric(a: RowView, b: RowView)
    requires
        outranks(a, b),
    ensures
        !outranks(b, a),
{
    lemma_text_lt_total(a.created_at, b.created_at);
}

/// If `a` has to be listed before `b`, and `c` does not have to be listed
/// before `b`, then `a` has to be listed before `c`.
pub proof fn lemma_outranks_chain(a: RowView, b: RowView, c: RowView)
    requires
        outranks(a, b),
        !outranks(c, b),
    ensures
        outranks(a, c),
{
    lemma_text_lt_total(b.created_at, c.created_at);
    if a.priority == b.priority && b.priority == c.priority {
        if b.created_at != c.created_at {
            lemma_text_lt_transitive(c.created_at, b.created_at, a.created_at);
        }
    }
}

/// The order in which rows are listed is a ranking.
pub proof fn lemma_rank_is_ranking()
    ensures
        is_ranking(by_rank()),
{
    assert forall|a: RowView, b: RowView| #[trigger] by_rank()(a, b) implies !by_rank()(b, a) by {
        lemma_outranks_asymmetric(a, b);
    }
    assert forall|a: RowView, b: RowView, c: RowView| #[trigger]
        by_rank()(a, b) && !#[trigger] by_rank()(c, b) implies by_rank()(a, c) by {
        lemma_outranks_chain(a, b, c);
    }
}

/// A listing is ordered: of two of its rows the earlier one has the higher
/// priority, or the same priority and a creation time that is not earlier.
pub proof fn lemma_listing_ordered(table: Seq<RowView>)
    ensures
        forall|i: int, j: int|
            0 <= i < j < listing(table).len() ==> {
                let a = #[trigger] listing(table)[i];
                let b = #[trigger] listing(table)[j];
                a.priority > b.priority || (a.priority == b.priority && text_le(
                    b.created_at,
                    a.created_at,
                ))
            },
{
    lemma_rank_is_ranking();
    lemma_arranged_ordered(table, by_rank());
    let rows = listing(table);
    assert forall|i: int, j: int| 0 <= i < j < rows.len() implies {
        let a = #[trigger] rows[i];
        let b = #[trigger] rows[j];
        a.priority > b.priority || (a.priority == b.priority && text_le(b.created_at, a.created_at))
    } by {
        assert(!by_rank()(rows[j], rows[i]));
        lemma_text_lt_total(rows[i].created_at, rows[j].created_at);
    }
}

/// Every row of a listing is a row of the table, and a row is listed
/// before another only where it outranks it or stood before it in the
/// table: rows that tie keep the order of the table.
pub proof fn lemma_listing_stable(table: Seq<RowView>)
    ensures
        forall|a: int|
            0 <= a < listing(table).len() ==> exists|i: int|
                0 <= i < table.len() && #[trigger] table[i] == #[trigger] listing(table)[a],
        forall|a: int, b: int|
            0 <= a < b < listing(table).len() ==> outranks(
                #[trigger] listing(table)[a],
                #[trigger] listing(table)[b],
            ) || exists|i: int, j: int|
                0 <= i < j < table.len() && #[trigger] table[i] == listing(table)[a]
                    && #[trigger] table[j] == listing(table)[b],
{
    lemma_rank_is_ranking();
    lemma_arranged_stable(table, by_rank());
    let rows = listing(table);
    assert forall|a: int, b: int| 0 <= a < b < rows.len() implies outranks(
        #[trigger] rows[a],
        #[trigger] rows[b],
    ) || exists|i: int, j: int|
        0 <= i < j < table.len() && #[trigger] table[i] == rows[a] && #[trigger] table[j]
            == rows[b] by {
        if !outranks(rows[a], rows[b]) {
            assert(!by_rank()(rows[a], rows[b]));
        }
    }
}

/// The tasks read from a listing are in listing order, one for each row.
pub proof fn lemma_listed_tasks_ordered(table: Seq<RowView>)
    requires
        decoded_all(listing(table)) is Some,
    ensures
        tasks_ordered(decoded_all(listing(table)).unwrap()),
        decoded_all(listing(table)).unwrap().len() == table.len(),
{
    lemma_listing_ordered(table);
    lemma_listing_permutes(table);
    let rows = listing(table);
    let tasks = decoded_all(rows).unwrap();
    assert forall|i: int, j: int| 0 <= i < j < tasks.len() implies {
        let a = #[trigger] tasks[i];
        let b = #[trigger] tasks[j];
        a.priority > b.priority || (a.priority == b.priority && text_le(b.created_at, a.created_at))
    } by {
        let a = rows[i];
        let b = rows[j];
        assert(decoded(a) is Some && decoded(b) is Some);
    }
}

/// A listing holds the rows of the table, each as often as the table does.
pub proof fn lemma_listing_permutes(table: Seq<RowView>)
    ensures
        listing(table).to_multiset() == table.to_multiset(),
        listing(table).len() == table.len(),
{
    lemma_arranged_permutes(table, by_rank());
}

/// The empty query matches every row, so a search for it finds the whole
/// table.
pub proof fn lemma_empty_query_matches_all(table: Seq<RowView>)
    ensures
        matching(table, Seq::empty()) == table,
        listing(matching(table, Seq::empty())) == listing(table),
{
    assert forall|i: int| 0 <= i < table.len() implies row_matches(
        #[trigger] table[i],
        Seq::empty(),
    ) by {
        lemma_contains_empty(table[i].title);
    }
    lemma_filter_all(table, |row: RowView| row_matches(row, Seq::empty()));
}

} // verus!
