//! Rules of the form designer.

use vstd::prelude::*;

verus! {

/// What the designer checks of a field: its identifier and its label.
#[derive(Debug)]
pub struct FieldNames {
    pub id: String,
    pub label: String,
}

/// A schema can be used: it has a field, and every field has an identifier
/// and a label.
pub open spec fn names_complete(fields: Seq<FieldNames>) -> bool {
    &&& fields.len() > 0
    &&& forall|i: int|
        0 <= i < fields.len() ==> (#[trigger] fields[i]).id@.len() > 0 && fields[i].label@.len() > 0
}

/// Tells whether a schema with these fields can be used.
pub fn validate_schema(fields: &Vec<FieldNames>) -> (valid: bool)
    ensures
        valid == names_complete(fields@),
{
    if fields.len() == 0 {
        return false;
    }
    let mut i: usize = 0;
    while i < fields.len()
        invariant
            i <= fields.len(),
            forall|k: int|
                0 <= k < i ==> (#[trigger] fields@[k]).id@.len() > 0 && fields@[k].label@.len() > 0,
        decreases fields.len() - i,
    {
        if fields[i].id.as_str().is_empty() || fields[i].label.as_str().is_empty() {
            return false;
        }
        i = i + 1;
    }
    true
}

} // verus!
