//! Calls into other crates, each with the contract that the notes rely on.
//! Verus takes these contracts as given; nothing in this crate proves them.

use vstd::prelude::*;
use base64::Engine;

verus! {

/// The bytes that the standard base64 alphabet with padding stands for, as
/// `base64::engine::general_purpose::STANDARD` decodes a text, or `None`
/// where it reports an error.
pub uninterp spec fn base64_bytes(text: Seq<char>) -> Option<Seq<u8>>;

/// `base64::DecodeError`, carried from [`decode_base64`] to
/// [`decode_fault_text`]. Nothing is known of what it holds.
#[verifier::external_type_specification]
#[verifier::external_body]
pub struct ExDecodeError(base64::DecodeError);

/// `Engine::decode` of `base64::engine::general_purpose::STANDARD`: the
/// bytes named by [`base64_bytes`], or an error where that is `None`.
#[verifier::external_body]
pub(crate) fn decode_base64(text: &str) -> (bytes: Result<Vec<u8>, base64::DecodeError>)
    ensures
        match bytes {
            Ok(decoded) => base64_bytes(text@) == Some(decoded@),
            Err(_) => base64_bytes(text@) is None,
        },
{
    base64::engine::general_purpose::STANDARD.decode(text)
}

/// The `Display` text of a `base64::DecodeError`. Nothing is claimed of it.
#[verifier::external_body]
pub(crate) fn decode_fault_text(error: &base64::DecodeError) -> (text: String) {
    error.to_string()
}

/// The HTML that `comrak::markdown_to_html` makes of a note of Markdown
/// under the default options.
pub uninterp spec fn note_html(markdown: Seq<char>) -> Seq<char>;

/// The HTML that `pulldown_cmark::html::push_html` makes of a document of
/// Markdown that `pulldown_cmark::Parser` reads with strike-through,
/// tables, task lists and footnotes switched on.
pub uninterp spec fn document_html(markdown: Seq<char>) -> Seq<char>;

/// `comrak::markdown_to_html` with the default options: the HTML named by
/// [`note_html`]. Under the default options the text depends on the note
/// alone.
#[verifier::external_body]
pub(crate) fn render_note(markdown: &str) -> (html: String)
    ensures
        html@ == note_html(markdown@),
{
    comrak::markdown_to_html(markdown, &comrak::Options::default())
}

/// `pulldown_cmark::html::push_html` on a `pulldown_cmark::Parser` with
/// strike-through, tables, task lists and footnotes switched on: the HTML
/// named by [`document_html`]. The text depends on the document alone.
#[verifier::external_body]
pub(crate) fn render_document(markdown: &str) -> (html: String)
    ensures
        html@ == document_html(markdown@),
{
    let mut options = pulldown_cmark::Options::empty();
    options.insert(pulldown_cmark::Options::ENABLE_STRIKETHROUGH);
    options.insert(pulldown_cmark::Options::ENABLE_TABLES);
    options.insert(pulldown_cmark::Options::ENABLE_TASKLISTS);
    options.insert(pulldown_cmark::Options::ENABLE_FOOTNOTES);
    let parser = pulldown_cmark::Parser::new_ext(markdown, options);
    let mut html = String::new();
    pulldown_cmark::html::push_html(&mut html, parser);
    html
}

} // verus!
