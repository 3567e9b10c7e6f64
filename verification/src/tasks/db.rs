//! The store: a table of task rows with the operations that create, read,
//! change, delete and search tasks.
//!
//! The store holds its table in memory. Whoever owns the store keeps a
//! durable copy: it hands the rows of that copy to [`Database::new`] and
//! writes back the rows that an operation has changed.

use vstd::prelude::*;
use crate::order::lemma_slot_is;
use crate::tasks::error::StoreError;
use crate::tasks::models::{
    created, merged, merged_tags, requested_tags, CreateTaskInput, Task, UpdateTaskInput,
};
use crate::tasks::outside::{
    fresh_id, is_hyphenated_id, is_utc_timestamp, tags_as_json, tags_read_back, timestamp_now,
};
use crate::tasks::record::{decoded, row_of, RowView, StoredRow};
use crate::tasks::table::{
    by_rank, decoded_all, has_id, holds_drawn_id, ids_distinct, lemma_empty_query_matches_all,
    lemma_listed_tasks_ordered, lemma_push_then_stored, lemma_remove_is_without, lemma_stored_at,
    lemma_update_is_replaced, lemma_without_absent, listing, matching, outranks, replaced,
    rewritten, row_matches, stored, tasks_ordered, without,
};
use crate::text::{text_contains, text_equal, text_less};

verus! {

/// The task store.
pub struct Database {
    rows: Vec<StoredRow>,
}

impl View for Database {
    type V = Seq<RowView>;

    /// The table: the rows of the store in the order in which they came.
    closed spec fn view(&self) -> Seq<RowView> {
        self.rows.deep_view()
    }
}

/// Tells whether `a` has to be listed before `b`.
fn row_outranks(a: &StoredRow, b: &StoredRow) -> (first: bool)
    ensures
        first == outranks(a@, b@),
{
    a.priority > b.priority || (a.priority == b.priority && text_less(
        b.created_at.as_str(),
        a.created_at.as_str(),
    ))
}

/// Tells whether `query` occurs in the title of `row` or in its description.
fn row_has_text(row: &StoredRow, query: &str) -> (found: bool)
    ensures
        found == row_matches(row@, query@),
{
    if text_contains(row.title.as_str(), query) {
        true
    } else {
        match &row.description {
            Some(text) => text_contains(text.as_str(), query),
            None => false,
        }
    }
}

/// Brings rows into listing order.
fn ranked<'a>(rows: Vec<&'a StoredRow>) -> (out: Vec<&'a StoredRow>)
    ensures
        out.deep_view() == listing(rows.deep_view()),
{
    let mut out: Vec<&StoredRow> = Vec::new();
    let mut i: usize = 0;
    assert(rows.deep_view().take(0) =~= Seq::empty());
    assert(out.deep_view() =~= Seq::empty());
    while i < rows.len()
        invariant
            i <= rows.len(),
            out.deep_view() == listing(rows.deep_view().take(i as int)),
        decreases rows.len() - i,
    {
        let row = rows[i];
        let mut at: usize = 0;
        while at < out.len() && !row_outranks(row, out[at])
            invariant
                at <= out.len(),
                forall|k: int| 0 <= k < at ==> !outranks(row@, #[trigger] out.deep_view()[k]),
            decreases out.len() - at,
        {
            at = at + 1;
        }
        let ghost before = out.deep_view();
        proof {
            lemma_slot_is(before, row@, by_rank(), at as int);
            assert(rows.deep_view().take(i + 1).drop_last() =~= rows.deep_view().take(i as int));
            assert(rows.deep_view().take(i + 1).last() == row@);
        }
        out.insert(at, row);
        assert(out.deep_view() =~= before.insert(at as int, row@));
        i = i + 1;
    }
    assert(rows.deep_view().take(rows.len() as int) =~= rows.deep_view());
    out
}

/// Reads the tasks that `rows` hold, in the same order.
fn decode_rows(rows: &Vec<&StoredRow>) -> (tasks: Result<Vec<Task>, StoreError>)
    ensures
        match decoded_all(rows.deep_view()) {
            Some(views) => tasks matches Ok(list) && list.deep_view() == views,
            None => tasks matches Err(error) && error is SerializationFault,
        },
{
    let mut out: Vec<Task> = Vec::new();
    let mut i: usize = 0;
    while i < rows.len()
        invariant
            i <= rows.len(),
            out.len() == i,
            forall|k: int|
                0 <= k < i ==> decoded(#[trigger] rows.deep_view()[k]) == Some(out.deep_view()[k]),
        decreases rows.len() - i,
    {
        match rows[i].decode() {
            Ok(task) => {
                out.push(task);
            },
            Err(error) => {
                assert(decoded(rows.deep_view()[i as int]) is None);
                return Err(error);
            },
        }
        i = i + 1;
    }
    assert(out.deep_view() =~= decoded_all(rows.deep_view()).unwrap());
    Ok(out)
}

impl Database {
    #[verifier::type_invariant]
    spec fn well_formed(self) -> bool {
        ids_distinct(self.rows.deep_view())
    }

    /// Opens a store on the rows that its durable copy holds; an empty list
    /// opens an empty store. Fails with a storage fault where two rows stand
    /// under the same identifier.
    pub fn new(rows: Vec<StoredRow>) -> (opened: Result<Database, StoreError>)
        ensures
            match opened {
                Ok(db) => ids_distinct(rows.deep_view()) && db@ == rows.deep_view(),
                Err(error) => !ids_distinct(rows.deep_view()) && error.is_duplicate_id(),
            },
    {
        let mut j: usize = 0;
        while j < rows.len()
            invariant
                j <= rows.len(),
                forall|a: int, b: int|
                    0 <= a < b < j ==> (#[trigger] rows.deep_view()[a]).id != (
                    #[trigger] rows.deep_view()[b]).id,
            decreases rows.len() - j,
        {
            let mut i: usize = 0;
            while i < j
                invariant
                    i <= j,
                    j < rows.len(),
                    forall|a: int|
                        0 <= a < i ==> (#[trigger] rows.deep_view()[a]).id
                            != rows.deep_view()[j as int].id,
                decreases j - i,
            {
                if text_equal(rows[i].id.as_str(), rows[j].id.as_str()) {
                    assert(rows.deep_view()[i as int].id == rows.deep_view()[j as int].id);
                    return Err(StoreError::duplicate_id());
                }
                i = i + 1;
            }
            j = j + 1;
        }
        Ok(Database { rows })
    }

    /// Hands out the rows of the table and leaves the table empty, for a
    /// change that puts them back.
    fn take_rows(&mut self) -> (rows: Vec<StoredRow>)
        ensures
            rows == old(self).rows,
            final(self).rows@.len() == 0,
    {
        let mut rows: Vec<StoredRow> = Vec::new();
        std::mem::swap(&mut self.rows, &mut rows);
        rows
    }

    /// A copy of the rows of the table, in the order of the table.
    pub fn rows(&self) -> (copy: Vec<StoredRow>)
        ensures
            copy.deep_view() == self@,
            ids_distinct(self@),
    {
        proof {
            use_type_invariant(self);
        }
        let mut copy: Vec<StoredRow> = Vec::new();
        let mut i: usize = 0;
        while i < self.rows.len()
            invariant
                i <= self.rows.len(),
                copy.len() == i,
                forall|k: int| 0 <= k < i ==> copy@[k]@ == self.rows@[k]@,
            decreases self.rows.len() - i,
        {
            copy.push(self.rows[i].duplicate());
            i = i + 1;
        }
        assert(copy.deep_view() =~= self.rows.deep_view());
        copy
    }

    /// The index of the row under `id`.
    fn find(&self, id: &str) -> (found: Option<usize>)
        ensures
            ids_distinct(self@),
            match found {
                Some(i) => i < self.rows.len() && self@[i as int].id == id@ && stored(self@, id@)
                    == Some(self@[i as int]),
                None => !has_id(self@, id@) && stored(self@, id@) is None,
            },
    {
        proof {
            use_type_invariant(self);
        }
        let mut i: usize = 0;
        while i < self.rows.len()
            invariant
                i <= self.rows.len(),
                ids_distinct(self@),
                forall|k: int| 0 <= k < i ==> (#[trigger] self.rows.deep_view()[k]).id != id@,
            decreases self.rows.len() - i,
        {
            if text_equal(self.rows[i].id.as_str(), id) {
                proof {
                    lemma_stored_at(self@, i as int);
                }
                return Some(i);
            }
            i = i + 1;
        }
        None
    }

    /// A copy of the row that the table holds under `id`, if it holds one.
    pub fn row(&self, id: &str) -> (found: Option<StoredRow>)
        ensures
            found.deep_view() == stored(self@, id@),
            ids_distinct(self@),
    {
        match self.find(id) {
            Some(i) => Some(self.rows[i].duplicate()),
            None => None,
        }
    }

    /// Adds the row of a new task, with `tags_json` as the text of its
    /// tags. Fails with a storage fault, and changes nothing, exactly where
    /// the table already holds a row under the identifier of the task.
    pub fn insert_record(&mut self, task: Task, tags_json: String) -> (added: Result<
        Task,
        StoreError,
    >)
        ensures
            ids_distinct(final(self)@),
            match added {
                Ok(kept) => {
                    &&& !has_id(old(self)@, task@.id)
                    &&& kept@ == task@
                    &&& final(self)@ == old(self)@.push(row_of(task@, tags_json@))
                    &&& stored(final(self)@, task@.id) == Some(row_of(task@, tags_json@))
                },
                Err(error) => {
                    &&& has_id(old(self)@, task@.id)
                    &&& error.is_duplicate_id()
                    &&& final(self)@ == old(self)@
                },
            },
    {
        match self.find(task.id.as_str()) {
            Some(_) => Err(StoreError::duplicate_id()),
            None => {
                let row = StoredRow::from_task(&task, tags_json);
                proof {
                    lemma_push_then_stored(self@, row@);
                }
                let mut rows = self.take_rows();
                rows.push(row);
                assert(rows.deep_view() =~= old(self).rows.deep_view().push(row@));
                self.rows = rows;
                Ok(task)
            },
        }
    }

    /// Creates a task under the identifier `id` at time `now` and adds its
    /// row to the table.
    ///
    /// The call succeeds exactly where the table holds no row under `id`
    /// and the text that is written for the tags reads back as the tags;
    /// for a request without tags it succeeds wherever `id` is new. The
    /// new task is `Todo`, its creation time and the time of its last
    /// change are `now`, and its tags are those of the request, none where
    /// the request names none. Read back, it is the task that is returned.
    /// Where the call fails, it changes nothing: with a serialization
    /// fault where the tags do not read back, else with the storage fault
    /// of an identifier that is taken.
    pub fn create_task_at(&mut self, input: CreateTaskInput, id: String, now: String) -> (outcome:
        Result<Task, StoreError>)
        ensures
            ids_distinct(final(self)@),
            outcome is Ok <==> (!has_id(old(self)@, id@) && tags_read_back(requested_tags(input@))),
            requested_tags(input@).len() == 0 && !has_id(old(self)@, id@) ==> outcome is Ok,
            match outcome {
                Ok(task) => {
                    &&& task@ == created(input@, id@, now@)
                    &&& final(self)@ == old(self)@.push(row_of(task@, tags_as_json(task@.tags)))
                    &&& stored(final(self)@, id@) matches Some(row) && decoded(row) == Some(task@)
                },
                Err(error) => {
                    &&& final(self)@ == old(self)@
                    &&& if tags_read_back(requested_tags(input@)) {
                        error.is_duplicate_id()
                    } else {
                        error is SerializationFault
                    }
                    &&& requested_tags(input@).len() == 0 ==> error.is_duplicate_id()
                },
            },
    {
        proof {
            use_type_invariant(&*self);
        }
        let task = Task::create(input, id, now);
        match StoredRow::encode(&task) {
            Ok(row) => self.insert_record(task, row.tags),
            Err(error) => Err(error),
        }
    }

    /// Creates a task: gives it a fresh identifier, stamps it with the
    /// current time and adds its row to the table.
    ///
    /// The identifier is drawn by chance, so the call can fail with the
    /// storage fault of an identifier that is taken; it does so only where
    /// the table holds a row under an identifier of the shape that is
    /// drawn. Where the table holds none, the call succeeds exactly where
    /// the text that is written for the tags reads back as the tags, and so
    /// for every request without tags. Where the tags do not read back, it
    /// fails with a serialization fault.
    ///
    /// The new task is `Todo`, its creation time is the time of its last
    /// change, and its identifier was not in the table before. Read back,
    /// it has the tags of the request in the same order. Where the call
    /// fails the table is unchanged.
    pub fn create_task(&mut self, input: CreateTaskInput) -> (outcome: Result<Task, StoreError>)
        ensures
            ids_distinct(final(self)@),
            !tags_read_back(requested_tags(input@)) ==> outcome is Err,
            !holds_drawn_id(old(self)@) && tags_read_back(requested_tags(input@)) ==> outcome
                is Ok,
            !holds_drawn_id(old(self)@) && requested_tags(input@).len() == 0 ==> outcome is Ok,
            match outcome {
                Ok(task) => {
                    &&& is_hyphenated_id(task@.id)
                    &&& is_utc_timestamp(task@.created_at)
                    &&& task@ == created(input@, task@.id, task@.created_at)
                    &&& !has_id(old(self)@, task@.id)
                    &&& final(self)@ == old(self)@.push(row_of(task@, tags_as_json(task@.tags)))
                    &&& stored(final(self)@, task@.id) matches Some(row) && decoded(row) == Some(
                        task@,
                    )
                },
                Err(error) => {
                    &&& final(self)@ == old(self)@
                    &&& if tags_read_back(requested_tags(input@)) {
                        error.is_duplicate_id()
                    } else {
                        error is SerializationFault
                    }
                    &&& requested_tags(input@).len() == 0 ==> error.is_duplicate_id()
                    &&& error.is_duplicate_id() ==> holds_drawn_id(old(self)@)
                },
            },
    {
        let now = timestamp_now();
        let id = fresh_id();
        self.create_task_at(input, id, now)
    }

    /// All tasks, in listing order: by priority, highest first; among equal
    /// priorities by creation time, latest first. Fails with a
    /// serialization fault where the tags of some row cannot be read.
    pub fn get_all_tasks(&self) -> (outcome: Result<Vec<Task>, StoreError>)
        ensures
            match decoded_all(listing(self@)) {
                Some(views) => outcome matches Ok(tasks) && tasks.deep_view() == views,
                None => outcome matches Err(error) && error is SerializationFault,
            },
            outcome matches Ok(tasks) ==> tasks.len() == self@.len() && tasks_ordered(
                tasks.deep_view(),
            ),
            ids_distinct(self@),
    {
        proof {
            use_type_invariant(self);
            if decoded_all(listing(self@)) is Some {
                lemma_listed_tasks_ordered(self@);
            }
        }
        let mut all: Vec<&StoredRow> = Vec::new();
        let mut i: usize = 0;
        while i < self.rows.len()
            invariant
                i <= self.rows.len(),
                all.len() == i,
                forall|k: int| 0 <= k < i ==> all@[k]@ == self.rows@[k]@,
            decreases self.rows.len() - i,
        {
            all.push(&self.rows[i]);
            i = i + 1;
        }
        assert(all.deep_view() =~= self.rows.deep_view());
        let listed = ranked(all);
        decode_rows(&listed)
    }

    /// The task under `id`, or `None` where the store holds none. Fails
    /// with a serialization fault where the tags of its row cannot be read.
    pub fn get_task_by_id(&self, id: &str) -> (outcome: Result<Option<Task>, StoreError>)
        ensures
            match stored(self@, id@) {
                None => outcome matches Ok(None),
                Some(row) => match decoded(row) {
                    Some(view) => outcome matches Ok(Some(task)) && task@ == view,
                    None => outcome matches Err(error) && error is SerializationFault,
                },
            },
            ids_distinct(self@),
    {
        match self.find(id) {
            Some(i) => {
                match self.rows[i].decode() {
                    Ok(task) => Ok(Some(task)),
                    Err(error) => Err(error),
                }
            },
            None => Ok(None),
        }
    }

    /// Writes `task` over the row under its identifier, with `tags_json` as
    /// the text of its tags; the identifier and the creation time of the
    /// row stay as they are. Fails with `NotFound`, and changes nothing,
    /// exactly where the table holds no row under that identifier.
    pub fn replace_record(&mut self, task: Task, tags_json: String) -> (written: Result<
        Task,
        StoreError,
    >)
        ensures
            ids_distinct(final(self)@),
            match written {
                Ok(kept) => {
                    &&& stored(old(self)@, task@.id) matches Some(row) && stored(
                        final(self)@,
                        task@.id,
                    ) == Some(rewritten(row, row_of(task@, tags_json@)))
                    &&& kept@ == task@
                    &&& final(self)@ == replaced(old(self)@, row_of(task@, tags_json@))
                },
                Err(error) => {
                    &&& !has_id(old(self)@, task@.id)
                    &&& error is NotFound
                    &&& final(self)@ == old(self)@
                },
            },
    {
        match self.find(task.id.as_str()) {
            Some(i) => {
                let new = StoredRow::from_task(&task, tags_json);
                let row = StoredRow {
                    id: self.rows[i].id.clone(),
                    created_at: self.rows[i].created_at.clone(),
                    ..new
                };
                proof {
                    lemma_update_is_replaced(self@, i as int, new@);
                }
                let mut rows = self.take_rows();
                rows.set(i, row);
                assert(rows.deep_view() =~= old(self).rows.deep_view().update(i as int, row@));
                self.rows = rows;
                Ok(task)
            },
            None => Err(StoreError::NotFound),
        }
    }

    /// Applies a partial update to the task under `id` at time `now`.
    ///
    /// Fails with `NotFound` exactly where the store holds no task under
    /// `id`, and with a serialization fault where the tags of its row
    /// cannot be read. Else it succeeds exactly where the text that is
    /// written for the tags of the changed task reads back as those tags,
    /// which it always does where the changed task has no tags. Each field
    /// that `input` holds replaces the stored one, each field that it
    /// leaves out stays; the time of the last change becomes `now`. Where
    /// the call fails the table is unchanged.
    pub fn update_task_at(&mut self, id: &str, input: UpdateTaskInput, now: String) -> (outcome:
        Result<Task, StoreError>)
        ensures
            ids_distinct(final(self)@),
            match stored(old(self)@, id@) {
                None => {
                    &&& outcome matches Err(error) && error is NotFound
                    &&& final(self)@ == old(self)@
                },
                Some(row) => match decoded(row) {
                    None => {
                        &&& outcome matches Err(error) && error is SerializationFault
                        &&& final(self)@ == old(self)@
                    },
                    Some(before) => {
                        &&& outcome is Ok <==> tags_read_back(merged_tags(before, input@))
                        &&& merged_tags(before, input@).len() == 0 ==> outcome is Ok
                        &&& match outcome {
                            Ok(task) => {
                                &&& task@ == merged(before, input@, now@)
                                &&& final(self)@ == replaced(
                                    old(self)@,
                                    row_of(task@, tags_as_json(task@.tags)),
                                )
                                &&& stored(final(self)@, id@) matches Some(after) && decoded(after)
                                    == Some(task@)
                            },
                            Err(error) => error is SerializationFault && final(self)@ == old(self)@,
                        }
                    },
                },
            },
    {
        proof {
            use_type_invariant(&*self);
        }
        let found = match self.get_task_by_id(id) {
            Ok(found) => found,
            Err(error) => {
                return Err(error);
            },
        };
        let task = match found {
            Some(task) => task,
            None => {
                return Err(StoreError::NotFound);
            },
        };
        let merged_task = task.merge(input, now);
        let row = match StoredRow::encode(&merged_task) {
            Ok(row) => row,
            Err(error) => {
                return Err(error);
            },
        };
        self.replace_record(merged_task, row.tags)
    }

    /// Applies a partial update to the task under `id`, stamped with the
    /// current time. See [`Database::update_task_at`].
    pub fn update_task(&mut self, id: &str, input: UpdateTaskInput) -> (outcome: Result<
        Task,
        StoreError,
    >)
        ensures
            ids_distinct(final(self)@),
            match stored(old(self)@, id@) {
                None => {
                    &&& outcome matches Err(error) && error is NotFound
                    &&& final(self)@ == old(self)@
                },
                Some(row) => match decoded(row) {
                    None => {
                        &&& outcome matches Err(error) && error is SerializationFault
                        &&& final(self)@ == old(self)@
                    },
                    Some(before) => {
                        &&& outcome is Ok <==> tags_read_back(merged_tags(before, input@))
                        &&& merged_tags(before, input@).len() == 0 ==> outcome is Ok
                        &&& match outcome {
                            Ok(task) => {
                                &&& is_utc_timestamp(task@.updated_at)
                                &&& task@ == merged(before, input@, task@.updated_at)
                                &&& final(self)@ == replaced(
                                    old(self)@,
                                    row_of(task@, tags_as_json(task@.tags)),
                                )
                                &&& stored(final(self)@, id@) matches Some(after) && decoded(after)
                                    == Some(task@)
                            },
                            Err(error) => error is SerializationFault && final(self)@ == old(self)@,
                        }
                    },
                },
            },
    {
        let now = timestamp_now();
        self.update_task_at(id, input, now)
    }

    /// Deletes the task under `id`. Deleting a task that the store does not
    /// hold changes nothing and succeeds as well.
    pub fn delete_task(&mut self, id: &str) -> (outcome: Result<(), StoreError>)
        ensures
            outcome is Ok,
            final(self)@ == without(old(self)@, id@),
            ids_distinct(final(self)@),
            !has_id(final(self)@, id@),
    {
        match self.find(id) {
            Some(i) => {
                proof {
                    lemma_remove_is_without(self@, i as int);
                }
                let mut rows = self.take_rows();
                rows.remove(i);
                assert(rows.deep_view() =~= old(self).rows.deep_view().remove(i as int));
                self.rows = rows;
            },
            None => {
                proof {
                    lemma_without_absent(self@, id@);
                }
            },
        }
        Ok(())
    }

    /// The tasks whose title or description holds `query`, upper and lower
    /// case of the ASCII letters taken as equal, in listing order. The
    /// empty query finds every task. Fails with a serialization fault where
    /// the tags of a row that matches cannot be read.
    pub fn search_tasks(&self, query: &str) -> (outcome: Result<Vec<Task>, StoreError>)
        ensures
            match decoded_all(listing(matching(self@, query@))) {
                Some(views) => outcome matches Ok(tasks) && tasks.deep_view() == views,
                None => outcome matches Err(error) && error is SerializationFault,
            },
            outcome matches Ok(tasks) ==> tasks_ordered(tasks.deep_view()),
            query@.len() == 0 ==> match decoded_all(listing(self@)) {
                Some(views) => outcome matches Ok(tasks) && tasks.deep_view() == views,
                None => outcome matches Err(error) && error is SerializationFault,
            },
            ids_distinct(self@),
    {
        proof {
            use_type_invariant(self);
            if decoded_all(listing(matching(self@, query@))) is Some {
                lemma_listed_tasks_ordered(matching(self@, query@));
            }
            if query@.len() == 0 {
                assert(query@ =~= Seq::empty());
                lemma_empty_query_matches_all(self@);
            }
        }
        let mut hits: Vec<&StoredRow> = Vec::new();
        let mut i: usize = 0;
        assert(self.rows.deep_view().take(0) =~= Seq::empty());
        assert(hits.deep_view() =~= Seq::empty());
        proof {
            reveal(Seq::filter);
        }
        while i < self.rows.len()
            invariant
                i <= self.rows.len(),
                hits.deep_view() == matching(self.rows.deep_view().take(i as int), query@),
            decreases self.rows.len() - i,
        {
            let ghost before = hits.deep_view();
            proof {
                reveal(Seq::filter);
                let upto = self.rows.deep_view().take(i + 1);
                assert(upto.drop_last() =~= self.rows.deep_view().take(i as int));
                assert(upto.last() == self.rows@[i as int]@);
            }
            if row_has_text(&self.rows[i], query) {
                hits.push(&self.rows[i]);
                assert(hits.deep_view() =~= before.push(self.rows@[i as int]@));
            }
            i = i + 1;
        }
        assert(self.rows.deep_view().take(self.rows.len() as int) =~= self.rows.deep_view());
        let listed = ranked(hits);
        decode_rows(&listed)
    }
}

} // verus!
