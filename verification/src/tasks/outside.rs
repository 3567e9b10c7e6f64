//! Calls into other crates, each with the contract that the store relies on.
//! Verus takes these contracts as given; nothing in this crate proves them.

use vstd::prelude::*;

verus! {

/// The shape of an identifier: thirty-six characters, hyphens after the
/// eighth, twelfth, sixteenth and twentieth digit, and lower-case
/// hexadecimal digits everywhere else.
pub open spec fn is_hyphenated_id(id: Seq<char>) -> bool {
    &&& id.len() == 36
    &&& forall|i: int|
        0 <= i < 36 ==> if i == 8 || i == 13 || i == 18 || i == 23 {
            #[trigger] id[i] == '-'
        } else {
            ('0' <= id[i] && id[i] <= '9') || ('a' <= id[i] && id[i] <= 'f')
        }
}

/// The shape of a timestamp: at least twenty-five characters, the last six
/// of which give the offset of UTC from itself.
pub open spec fn is_utc_timestamp(text: Seq<char>) -> bool {
    &&& text.len() >= 25
    &&& text.subrange(text.len() - 6, text.len() as int) == "+00:00"@
}

/// The text that `serde_json::to_string` writes for a list of strings.
pub uninterp spec fn tags_as_json(tags: Seq<Seq<char>>) -> Seq<char>;

/// The list of strings that `serde_json::from_str` reads from a text, or
/// `None` where it reports an error.
pub uninterp spec fn tags_in_json(text: Seq<char>) -> Option<Seq<Seq<char>>>;

/// The text that is written for `tags` reads back as `tags`.
pub open spec fn tags_read_back(tags: Seq<Seq<char>>) -> bool {
    tags_in_json(tags_as_json(tags)) == Some(tags)
}

/// `serde_json::Error`, carried from the two calls below to
/// [`fault_text`]. Nothing is known of what it holds.
#[verifier::external_type_specification]
#[verifier::external_body]
pub struct ExJsonError(serde_json::Error);

/// `uuid::Uuid::new_v4`, written out by its `Display`: a random identifier
/// in hyphenated lower-case form. Nothing is claimed about which one. The
/// call does not return on a machine that gives no random bytes.
#[verifier::external_body]
pub(crate) fn fresh_id() -> (id: String)
    ensures
        is_hyphenated_id(id@),
{
    uuid::Uuid::new_v4().to_string()
}

/// `chrono::Utc::now` followed by `DateTime::to_rfc3339`: the current time
/// in UTC as text. Only the shape of the text is claimed. The call does
/// not return on a machine whose clock stands before the year 1970.
#[verifier::external_body]
pub(crate) fn timestamp_now() -> (now: String)
    ensures
        is_utc_timestamp(now@),
{
    chrono::Utc::now().to_rfc3339()
}

/// `serde_json::to_string` on a list of strings. The call succeeds: it
/// writes into a buffer in memory, and a list of strings holds nothing
/// that refuses to be written. The text is the one named by
/// [`tags_as_json`]; for the empty list it is `[]`.
#[verifier::external_body]
pub(crate) fn encode_tags(tags: &Vec<String>) -> (encoded: Result<String, serde_json::Error>)
    ensures
        encoded is Ok,
        encoded matches Ok(text) ==> text@ == tags_as_json(tags.deep_view()),
        encoded matches Ok(text) ==> (tags@.len() == 0 ==> text@ == "[]"@),
{
    serde_json::to_string(tags)
}

/// `serde_json::from_str` for a list of strings: the list named by
/// [`tags_in_json`], or an error where that is `None`. From the text `[]`
/// it reads the empty list.
#[verifier::external_body]
pub(crate) fn decode_tags(text: &str) -> (decoded: Result<Vec<String>, serde_json::Error>)
    ensures
        match decoded {
            Ok(tags) => tags_in_json(text@) == Some(tags.deep_view()),
            Err(_) => tags_in_json(text@) is None,
        },
        text@ == "[]"@ ==> decoded is Ok,
        decoded matches Ok(tags) ==> (text@ == "[]"@ ==> tags@.len() == 0),
{
    serde_json::from_str::<Vec<String>>(text)
}

/// The `Display` text of a `serde_json::Error`. Nothing is claimed of it.
#[verifier::external_body]
pub(crate) fn fault_text(error: &serde_json::Error) -> (text: String) {
    error.to_string()
}

} // verus!
