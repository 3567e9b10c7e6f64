//! The ways in which an operation of the store can fail.

use vstd::prelude::*;
use vstd::string::*;

verus! {

/// Why an operation of the store failed.
#[derive(Debug, Clone, PartialEq, Eq)]
pub enum StoreError {
    /// The operation named a task that the store does not hold.
    NotFound,
    /// The table refused the change; the text says why.
    StorageFault(String),
    /// A list of tags could not be written as text or read back from it;
    /// the text says why.
    SerializationFault(String),
}

/// What a storage fault says when a row arrives under an identifier that
/// the table already holds.
pub open spec fn duplicate_id_detail() -> Seq<char> {
    "UNIQUE constraint failed: tasks.id"@
}

/// What a serialization fault says when the text written for a list of
/// tags does not read back as that list.
pub open spec fn unreadable_tags_detail() -> Seq<char> {
    "tags do not read back as written"@
}

impl StoreError {
    /// The message that describes this error to a caller: the kind of the
    /// fault, followed by its detail where it has one.
    pub open spec fn message_text(&self) -> Seq<char> {
        match self {
            StoreError::NotFound => "Task not found"@,
            StoreError::StorageFault(detail) => "storage fault: "@ + detail@,
            StoreError::SerializationFault(detail) => "serialization fault: "@ + detail@,
        }
    }

    /// This error is the storage fault for a row whose identifier the table
    /// already holds.
    pub open spec fn is_duplicate_id(&self) -> bool {
        self matches StoreError::StorageFault(detail) && detail@ == duplicate_id_detail()
    }

    /// This error is the serialization fault for tags whose text does not
    /// read back as the tags that were written.
    pub open spec fn is_unreadable_tags(&self) -> bool {
        self matches StoreError::SerializationFault(detail) && detail@ == unreadable_tags_detail()
    }

    /// The message that describes this error to a caller. It is never empty.
    pub fn message(&self) -> (text: String)
        ensures
            text@ == self.message_text(),
            text@.len() > 0,
    {
        proof {
            reveal_strlit("Task not found");
            reveal_strlit("storage fault: ");
            reveal_strlit("serialization fault: ");
        }
        match self {
            StoreError::NotFound => String::from_str("Task not found"),
            StoreError::StorageFault(detail) => {
                String::from_str("storage fault: ").concat(detail.as_str())
            },
            StoreError::SerializationFault(detail) => {
                String::from_str("serialization fault: ").concat(detail.as_str())
            },
        }
    }

    /// The serialization fault for tags whose text does not read back as
    /// the tags that were written.
    pub fn unreadable_tags() -> (error: StoreError)
        ensures
            error.is_unreadable_tags(),
            error.message_text() == "serialization fault: "@ + unreadable_tags_detail(),
    {
        StoreError::SerializationFault(String::from_str("tags do not read back as written"))
    }

    /// The storage fault for a row whose identifier the table already holds.
    pub fn duplicate_id() -> (error: StoreError)
        ensures
            error.is_duplicate_id(),
    {
        StoreError::StorageFault(String::from_str("UNIQUE constraint failed: tasks.id"))
    }
}

} // verus!
