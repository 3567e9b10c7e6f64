//! Export of a note as a page of HTML: the rendered note between the head
//! and the tail of a page that carries its own style sheet.

use vstd::prelude::*;
use vstd::string::*;
use crate::notes::outside::{document_html, note_html, render_document, render_note};
use crate::text::{replace_all, replaced_all};

verus! {

/// What stands before the rendered note on the page of a note.
pub const NOTE_PAGE_HEAD: &'static str = r#"<!DOCTYPE html>
<html>
<head>
    <meta charset="UTF-8">
    <meta name="viewport" content="width=device-width, initial-scale=1.0">
    <title>Exported Note</title>
    <style>
        body {
            font-family: -apple-system, BlinkMacSystemFont, "Segoe UI", Roboto, "Helvetica Neue", Arial, sans-serif;
            line-height: 1.6;
            color: #333;
            max-width: 800px;
            margin: 0 auto;
            padding: 2rem;
        }
        code {
            background-color: #f4f4f4;
            padding: 2px 6px;
            border-radius: 3px;
            font-family: "Courier New", monospace;
        }
        pre {
            background-color: #f4f4f4;
            padding: 1rem;
            border-radius: 5px;
            overflow-x: auto;
        }
        pre code {
            background-color: transparent;
            padding: 0;
        }
        blockquote {
            border-left: 4px solid #ddd;
            padding-left: 1rem;
            color: #666;
            margin: 1rem 0;
        }
        img {
            max-width: 100%;
            height: auto;
        }
        h1, h2, h3, h4, h5, h6 {
            margin-top: 1.5rem;
            margin-bottom: 0.5rem;
        }
    </style>
</head>
<body>
    "#;

/// What stands after the rendered note on the page of a note.
pub const NOTE_PAGE_TAIL: &'static str = r#"
</body>
</html>"#;

/// What stands before the rendered text on the page of a document.
pub const DOCUMENT_PAGE_HEAD: &'static str = r#"<!DOCTYPE html>
<html lang="en">
<head>
    <meta charset="UTF-8">
    <meta name="viewport" content="width=device-width, initial-scale=1.0">
    <title>Exported Document</title>
    <style>
        body {
            max-width: 800px;
            margin: 0 auto;
            padding: 20px;
            font-family: -apple-system, BlinkMacSystemFont, 'Segoe UI', 'Roboto', 'Oxygen',
                'Ubuntu', 'Cantarell', 'Fira Sans', 'Droid Sans', 'Helvetica Neue', sans-serif;
            line-height: 1.6;
            color: #333;
        }
        
        h1 {
            font-size: 2em;
            font-weight: bold;
            margin-top: 0.67em;
            margin-bottom: 0.67em;
            border-bottom: 2px solid #e5e7eb;
            padding-bottom: 0.3em;
        }
        
        h2 {
            font-size: 1.5em;
            font-weight: bold;
            margin-top: 0.83em;
            margin-bottom: 0.83em;
            border-bottom: 1px solid #e5e7eb;
            padding-bottom: 0.3em;
        }
        
        h3 {
            font-size: 1.17em;
            font-weight: bold;
            margin-top: 1em;
            margin-bottom: 1em;
        }
        
        p {
            margin: 1em 0;
        }
        
        code {
            background-color: #f3f4f6;
            padding: 2px 6px;
            border-radius: 3px;
            font-size: 0.9em;
            font-family: 'Courier New', Courier, monospace;
        }
        
        pre {
            background-color: #1f2937;
            color: #f9fafb;
            padding: 16px;
            border-radius: 6px;
            overflow-x: auto;
            margin: 1em 0;
        }
        
        pre code {
            background: none;
            padding: 0;
            color: inherit;
        }
        
        blockquote {
            border-left: 4px solid #0ea5e9;
            padding-left: 1em;
            color: #6b7280;
            margin: 1em 0;
        }
        
        ul, ol {
            margin: 1em 0;
            padding-left: 2em;
        }
        
        img {
            max-width: 100%;
            height: auto;
            border-radius: 6px;
            margin: 1em 0;
        }
        
        table {
            border-collapse: collapse;
            width: 100%;
            margin: 1em 0;
        }
        
        th, td {
            border: 1px solid #e5e7eb;
            padding: 8px 12px;
            text-align: left;
        }
        
        th {
            background-color: #f9fafb;
            font-weight: bold;
        }
        
        a {
            color: #0ea5e9;
            text-decoration: none;
        }
        
        a:hover {
            text-decoration: underline;
        }
    </style>
</head>
<body>
    "#;

/// What stands after the rendered text on the page of a document.
pub const DOCUMENT_PAGE_TAIL: &'static str = r#"
</body>
</html>"#;

/// What the caller is told when a document is to be exported as PDF: it
/// has to be printed from the browser, from the page of HTML that was
/// written in its place.
pub const PRINT_FROM_BROWSER: &'static str =
    "PDF export requires manual printing from browser. HTML file created instead.";

/// The page of a note around the rendered note `html`.
pub open spec fn note_page_text(html: Seq<char>) -> Seq<char> {
    NOTE_PAGE_HEAD@ + html + NOTE_PAGE_TAIL@
}

/// The page of a document around the rendered text `html`.
pub open spec fn document_page_text(html: Seq<char>) -> Seq<char> {
    DOCUMENT_PAGE_HEAD@ + html + DOCUMENT_PAGE_TAIL@
}

/// Puts the rendered note `html` on the page of a note.
pub fn note_page_around(html: &str) -> (page: String)
    ensures
        page@ == note_page_text(html@),
{
    String::from_str(NOTE_PAGE_HEAD).concat(html).concat(NOTE_PAGE_TAIL)
}

/// Puts the rendered text `html` on the page of a document.
pub fn document_page_around(html: &str) -> (page: String)
    ensures
        page@ == document_page_text(html@),
{
    String::from_str(DOCUMENT_PAGE_HEAD).concat(html).concat(DOCUMENT_PAGE_TAIL)
}

/// Renders a note of Markdown and puts it on the page of a note: the HTML
/// of the note between the head and the tail of the page.
pub fn note_page(markdown: &str) -> (page: String)
    ensures
        page@ == note_page_text(note_html(markdown@)),
{
    let html = render_note(markdown);
    note_page_around(html.as_str())
}

/// Renders a document of Markdown, with strike-through, tables, task lists
/// and footnotes, and puts it on the page of a document: the HTML of the
/// document between the head and the tail of the page.
pub fn document_page(content: &str) -> (page: String)
    ensures
        page@ == document_page_text(document_html(content@)),
{
    let html = render_document(content);
    document_page_around(html.as_str())
}

/// Where the page is written when a document is to be exported as PDF: the
/// path of the PDF with every `.pdf` in it turned into `_temp.html`.
pub fn temp_page_path(file_path: &str) -> (path: String)
    ensures
        path@ == replaced_all(file_path@, ".pdf"@, "_temp.html"@),
{
    replace_all(file_path, ".pdf", "_temp.html")
}

} // verus!
