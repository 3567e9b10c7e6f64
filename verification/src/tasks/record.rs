//! Rows of the task table: a task as it is persisted, with its status and
//! its tags written out as text.

use vstd::prelude::*;
use crate::tasks::error::StoreError;
use crate::tasks::models::{status_of_text, status_text, Task, TaskStatus, TaskView};
use crate::tasks::outside::{
    decode_tags, encode_tags, fault_text, tags_as_json, tags_in_json, tags_read_back,
};
use crate::text::{copy_optional, texts_equal};

verus! {

/// One row of the task table, column by column.
#[derive(Debug, Clone)]
pub struct StoredRow {
    pub id: String,
    pub title: String,
    pub description: Option<String>,
    pub status: String,
    pub priority: i32,
    pub due_date: Option<String>,
    pub created_at: String,
    pub updated_at: String,
    pub tags: String,
}

/// The mathematical value of a [`StoredRow`].
pub struct RowView {
    pub id: Seq<char>,
    pub title: Seq<char>,
    pub description: Option<Seq<char>>,
    pub status: Seq<char>,
    pub priority: int,
    pub due_date: Option<Seq<char>>,
    pub created_at: Seq<char>,
    pub updated_at: Seq<char>,
    pub tags: Seq<char>,
}

impl View for StoredRow {
    type V = RowView;

    open spec fn view(&self) -> RowView {
        RowView {
            id: self.id@,
            title: self.title@,
            description: self.description.deep_view(),
            status: self.status@,
            priority: self.priority as int,
            due_date: self.due_date.deep_view(),
            created_at: self.created_at@,
            updated_at: self.updated_at@,
            tags: self.tags@,
        }
    }
}

impl DeepView for StoredRow {
    type V = RowView;

    open spec fn deep_view(&self) -> RowView {
        self@
    }
}

/// The row that persists `task`, given the text that stands for its tags.
pub open spec fn row_of(task: TaskView, tags_json: Seq<char>) -> RowView {
    RowView {
        id: task.id,
        title: task.title,
        description: task.description,
        status: status_text(task.status),
        priority: task.priority,
        due_date: task.due_date,
        created_at: task.created_at,
        updated_at: task.updated_at,
        tags: tags_json,
    }
}

/// The task that `row` holds, given the tags read from its text. A status
/// text that names no status reads as `Todo`.
pub open spec fn task_of(row: RowView, tags: Seq<Seq<char>>) -> TaskView {
    TaskView {
        id: row.id,
        title: row.title,
        description: row.description,
        status: status_of_text(row.status),
        priority: row.priority,
        due_date: row.due_date,
        created_at: row.created_at,
        updated_at: row.updated_at,
        tags,
    }
}

/// The task that a reader gets from `row`: `None` where the text of its
/// tags cannot be read.
pub open spec fn decoded(row: RowView) -> Option<TaskView> {
    match tags_in_json(row.tags) {
        Some(tags) => Some(task_of(row, tags)),
        None => None,
    }
}

/// A task read back from its own row is the task that was written,
/// provided the text of the row gives back the task's tags.
pub proof fn lemma_row_round_trip(task: TaskView, tags_json: Seq<char>)
    requires
        tags_in_json(tags_json) == Some(task.tags),
    ensures
        decoded(row_of(task, tags_json)) == Some(task),
{
    crate::tasks::models::lemma_status_round_trip(task.status);
}

impl StoredRow {
    /// The row that persists `task` with `tags_json` as the text of its tags.
    pub fn from_task(task: &Task, tags_json: String) -> (row: StoredRow)
        ensures
            row@ == row_of(task@, tags_json@),
    {
        StoredRow {
            id: task.id.clone(),
            title: task.title.clone(),
            description: copy_optional(&task.description),
            status: task.status.as_str().to_owned(),
            priority: task.priority,
            due_date: copy_optional(&task.due_date),
            created_at: task.created_at.clone(),
            updated_at: task.updated_at.clone(),
            tags: tags_json,
        }
    }

    /// The task that this row holds, given the tags read from its text.
    pub fn to_task(&self, tags: Vec<String>) -> (task: Task)
        ensures
            task@ == task_of(self@, tags.deep_view()),
    {
        Task {
            id: self.id.clone(),
            title: self.title.clone(),
            description: copy_optional(&self.description),
            status: TaskStatus::from_str(self.status.as_str()),
            priority: self.priority,
            due_date: copy_optional(&self.due_date),
            created_at: self.created_at.clone(),
            updated_at: self.updated_at.clone(),
            tags,
        }
    }

    /// Writes the tags of `task` as text, makes sure that the text reads
    /// back as the same tags, and builds the row that persists the task.
    ///
    /// The call succeeds exactly where the text that is written for the
    /// tags reads back as the tags; it always does for a task without
    /// tags. Where it does not, the call fails with a serialization fault.
    pub fn encode(task: &Task) -> (encoded: Result<StoredRow, StoreError>)
        ensures
            encoded is Ok <==> tags_read_back(task@.tags),
            task@.tags.len() == 0 ==> encoded is Ok,
            match encoded {
                Ok(row) => {
                    &&& row@ == row_of(task@, tags_as_json(task@.tags))
                    &&& decoded(row@) == Some(task@)
                },
                Err(error) => error is SerializationFault,
            },
    {
        let text = match encode_tags(&task.tags) {
            Ok(text) => text,
            Err(error) => {
                return Err(StoreError::SerializationFault(fault_text(&error)));
            },
        };
        match decode_tags(text.as_str()) {
            Ok(back) => {
                proof {
                    if task@.tags.len() == 0 {
                        assert(task.tags@.len() == 0);
                        assert(back.deep_view() =~= task.tags.deep_view());
                    }
                }
                if texts_equal(&back, &task.tags) {
                    proof {
                        lemma_row_round_trip(task@, text@);
                    }
                    Ok(StoredRow::from_task(task, text))
                } else {
                    Err(StoreError::unreadable_tags())
                }
            },
            Err(error) => Err(StoreError::SerializationFault(fault_text(&error))),
        }
    }

    /// Reads the task that this row holds. Fails with a serialization
    /// fault where the text of its tags cannot be read.
    pub fn decode(&self) -> (task: Result<Task, StoreError>)
        ensures
            match decoded(self@) {
                Some(view) => task matches Ok(t) && t@ == view,
                None => task matches Err(error) && error is SerializationFault,
            },
    {
        match decode_tags(self.tags.as_str()) {
            Ok(tags) => Ok(self.to_task(tags)),
            Err(error) => Err(StoreError::SerializationFault(fault_text(&error))),
        }
    }

    /// A copy of this row.
    pub fn duplicate(&self) -> (copy: StoredRow)
        ensures
            copy@ == self@,
    {
        StoredRow {
            id: self.id.clone(),
            title: self.title.clone(),
            description: copy_optional(&self.description),
            status: self.status.clone(),
            priority: self.priority,
            due_date: copy_optional(&self.due_date),
            created_at: self.created_at.clone(),
            updated_at: self.updated_at.clone(),
            tags: self.tags.clone(),
        }
    }
}

} // verus!
