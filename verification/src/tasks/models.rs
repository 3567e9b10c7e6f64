//! Task records and the requests that create and change them.

use vstd::prelude::*;
use crate::text::text_equal;

verus! {

/// Progress of a task.
#[derive(Debug, Clone, Copy, PartialEq, Eq, Structural)]
pub enum TaskStatus {
    Todo,
    InProgress,
    Done,
}

/// The text under which a status is persisted.
pub open spec fn status_text(status: TaskStatus) -> Seq<char> {
    match status {
        TaskStatus::Todo => "todo"@,
        TaskStatus::InProgress => "in_progress"@,
        TaskStatus::Done => "done"@,
    }
}

/// The status that a persisted text stands for. Any text other than the two
/// that name a status in progress or done stands for `Todo`.
pub open spec fn status_of_text(text: Seq<char>) -> TaskStatus {
    if text == "in_progress"@ {
        TaskStatus::InProgress
    } else if text == "done"@ {
        TaskStatus::Done
    } else {
        TaskStatus::Todo
    }
}

/// Reading back the text of a status gives that status.
pub proof fn lemma_status_round_trip(status: TaskStatus)
    ensures
        status_of_text(status_text(status)) == status,
{
    reveal_strlit("todo");
    reveal_strlit("in_progress");
    reveal_strlit("done");
    assert("todo"@.len() == 4);
    assert("in_progress"@.len() == 11);
    assert("done"@.len() == 4);
    assert("todo"@[0] == 't');
    assert("done"@[0] == 'd');
}

impl TaskStatus {
    /// The text under which this status is persisted.
    pub fn as_str(&self) -> (text: &str)
        ensures
            text@ == status_text(*self),
    {
        match self {
            TaskStatus::Todo => "todo",
            TaskStatus::InProgress => "in_progress",
            TaskStatus::Done => "done",
        }
    }

    /// The status that `s` stands for; an unknown text reads as `Todo`.
    pub fn from_str(s: &str) -> (status: TaskStatus)
        ensures
            status == status_of_text(s@),
    {
        if text_equal(s, "in_progress") {
            TaskStatus::InProgress
        } else if text_equal(s, "done") {
            TaskStatus::Done
        } else {
            TaskStatus::Todo
        }
    }
}

/// A task as callers see it.
#[derive(Debug, Clone)]
pub struct Task {
    pub id: String,
    pub title: String,
    pub description: Option<String>,
    pub status: TaskStatus,
    pub priority: i32,
    pub due_date: Option<String>,
    pub created_at: String,
    pub updated_at: String,
    pub tags: Vec<String>,
}

/// The mathematical value of a [`Task`].
pub struct TaskView {
    pub id: Seq<char>,
    pub title: Seq<char>,
    pub description: Option<Seq<char>>,
    pub status: TaskStatus,
    pub priority: int,
    pub due_date: Option<Seq<char>>,
    pub created_at: Seq<char>,
    pub updated_at: Seq<char>,
    pub tags: Seq<Seq<char>>,
}

impl View for Task {
    type V = TaskView;

    open spec fn view(&self) -> TaskView {
        TaskView {
            id: self.id@,
            title: self.title@,
            description: self.description.deep_view(),
            status: self.status,
            priority: self.priority as int,
            due_date: self.due_date.deep_view(),
            created_at: self.created_at@,
            updated_at: self.updated_at@,
            tags: self.tags.deep_view(),
        }
    }
}

impl DeepView for Task {
    type V = TaskView;

    open spec fn deep_view(&self) -> TaskView {
        self@
    }
}

/// What a caller supplies to create a task.
#[derive(Debug)]
pub struct CreateTaskInput {
    pub title: String,
    pub description: Option<String>,
    pub priority: i32,
    pub due_date: Option<String>,
    pub tags: Option<Vec<String>>,
}

/// The mathematical value of a [`CreateTaskInput`].
pub struct CreateTaskView {
    pub title: Seq<char>,
    pub description: Option<Seq<char>>,
    pub priority: int,
    pub due_date: Option<Seq<char>>,
    pub tags: Option<Seq<Seq<char>>>,
}

impl View for CreateTaskInput {
    type V = CreateTaskView;

    open spec fn view(&self) -> CreateTaskView {
        CreateTaskView {
            title: self.title@,
            description: self.description.deep_view(),
            priority: self.priority as int,
            due_date: self.due_date.deep_view(),
            tags: self.tags.deep_view(),
        }
    }
}

/// A partial update: each field that is present replaces the stored value,
/// each absent field leaves it as it is. A description, a due date or a
/// list of tags that is present replaces the stored one whole, also where
/// it is empty; one that is absent cannot take the stored one away.
#[derive(Debug)]
pub struct UpdateTaskInput {
    pub title: Option<String>,
    pub description: Option<String>,
    pub status: Option<TaskStatus>,
    pub priority: Option<i32>,
    pub due_date: Option<String>,
    pub tags: Option<Vec<String>>,
}

/// The mathematical value of an [`UpdateTaskInput`].
pub struct UpdateTaskView {
    pub title: Option<Seq<char>>,
    pub description: Option<Seq<char>>,
    pub status: Option<TaskStatus>,
    pub priority: Option<int>,
    pub due_date: Option<Seq<char>>,
    pub tags: Option<Seq<Seq<char>>>,
}

impl View for UpdateTaskInput {
    type V = UpdateTaskView;

    open spec fn view(&self) -> UpdateTaskView {
        UpdateTaskView {
            title: self.title.deep_view(),
            description: self.description.deep_view(),
            status: self.status,
            priority: match self.priority {
                Some(p) => Some(p as int),
                None => None,
            },
            due_date: self.due_date.deep_view(),
            tags: self.tags.deep_view(),
        }
    }
}

/// The tags that a create request gives its task: those that it names,
/// none where it names none.
pub open spec fn requested_tags(input: CreateTaskView) -> Seq<Seq<char>> {
    match input.tags {
        Some(tags) => tags,
        None => Seq::empty(),
    }
}

/// The tags of `task` after `input` is applied: those that `input` names,
/// the ones that the task has where `input` names none.
pub open spec fn merged_tags(task: TaskView, input: UpdateTaskView) -> Seq<Seq<char>> {
    match input.tags {
        Some(tags) => tags,
        None => task.tags,
    }
}

/// The task that a create request gives rise to, once it has its identifier
/// and the time of its creation: it starts as `Todo`, was last changed when
/// it was created, and has no tags unless the request names some.
pub open spec fn created(input: CreateTaskView, id: Seq<char>, now: Seq<char>) -> TaskView {
    TaskView {
        id,
        title: input.title,
        description: input.description,
        status: TaskStatus::Todo,
        priority: input.priority,
        due_date: input.due_date,
        created_at: now,
        updated_at: now,
        tags: requested_tags(input),
    }
}

/// The task that results when `input` is applied to `task` at time `now`.
/// Identifier and creation time never change; the time of the last change
/// always becomes `now`.
pub open spec fn merged(task: TaskView, input: UpdateTaskView, now: Seq<char>) -> TaskView {
    TaskView {
        id: task.id,
        title: match input.title {
            Some(title) => title,
            None => task.title,
        },
        description: match input.description {
            Some(text) => Some(text),
            None => task.description,
        },
        status: match input.status {
            Some(status) => status,
            None => task.status,
        },
        priority: match input.priority {
            Some(priority) => priority,
            None => task.priority,
        },
        due_date: match input.due_date {
            Some(date) => Some(date),
            None => task.due_date,
        },
        created_at: task.created_at,
        updated_at: now,
        tags: merged_tags(task, input),
    }
}

impl Task {
    /// Builds the task for a create request from the identifier and the
    /// time that the store assigns to it.
    pub fn create(input: CreateTaskInput, id: String, now: String) -> (task: Task)
        ensures
            task@ == created(input@, id@, now@),
    {
        let tags = match input.tags {
            Some(tags) => tags,
            None => Vec::new(),
        };
        let task = Task {
            id,
            title: input.title,
            description: input.description,
            status: TaskStatus::Todo,
            priority: input.priority,
            due_date: input.due_date,
            created_at: now.clone(),
            updated_at: now,
            tags,
        };
        assert(task@.tags =~= created(input@, id@, now@).tags);
        task
    }

    /// Applies a partial update at time `now`.
    pub fn merge(self, input: UpdateTaskInput, now: String) -> (task: Task)
        ensures
            task@ == merged(self@, input@, now@),
    {
        Task {
            id: self.id,
            title: match input.title {
                Some(title) => title,
                None => self.title,
            },
            description: match input.description {
                Some(text) => Some(text),
                None => self.description,
            },
            status: match input.status {
                Some(status) => status,
                None => self.status,
            },
            priority: match input.priority {
                Some(priority) => priority,
                None => self.priority,
            },
            due_date: match input.due_date {
                Some(date) => Some(date),
                None => self.due_date,
            },
            created_at: self.created_at,
            updated_at: now,
            tags: match input.tags {
                Some(tags) => tags,
                None => self.tags,
            },
        }
    }
}

} // verus!
