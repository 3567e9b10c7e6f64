use desktop_backends::notes::export::{
    document_page, document_page_around, note_page, note_page_around, temp_page_path,
    DOCUMENT_PAGE_HEAD, DOCUMENT_PAGE_TAIL, NOTE_PAGE_HEAD, NOTE_PAGE_TAIL, PRINT_FROM_BROWSER,
};
use desktop_backends::notes::image::{decode_image, image_bytes, image_file_name, image_payload};
use desktop_backends::notes::listing::{is_hidden, is_listed, sort_nodes, stands_before, FileNode};
use desktop_backends::notes::print::{line_position, printed_lines};

fn file(name: &str) -> FileNode {
    FileNode { name: name.to_string(), path: format!("/notes/{}", name), is_file: true, children: None }
}

fn dir(name: &str) -> FileNode {
    FileNode {
        name: name.to_string(),
        path: format!("/notes/{}", name),
        is_file: false,
        children: Some(Vec::new()),
    }
}

fn names(nodes: &[FileNode]) -> Vec<&str> {
    nodes.iter().map(|node| node.name.as_str()).collect()
}

#[test]
fn names_with_a_leading_dot_are_hidden() {
    assert!(is_hidden(".git"));
    assert!(is_hidden("."));
    assert!(is_hidden(".notes.md"));
    assert!(!is_hidden(""));
    assert!(!is_hidden("a.md"));
    assert!(!is_hidden("a."));
}

#[test]
fn directories_and_markdown_files_are_listed() {
    assert!(is_listed("drafts", false));
    assert!(is_listed("drafts.txt", false));
    assert!(is_listed("a.md", true));
    assert!(is_listed("a.b.md", true));
    assert!(is_listed("Unknown", false));
}

#[test]
fn other_files_and_hidden_entries_are_not_listed() {
    assert!(!is_listed("a.txt", true));
    assert!(!is_listed("a.MD", true));
    assert!(!is_listed("a.md ", true));
    assert!(!is_listed("md", true));
    assert!(!is_listed("", true));
    assert!(!is_listed(".md", true));
    assert!(!is_listed(".hidden.md", true));
    assert!(!is_listed(".cache", false));
    assert!(is_listed("", false));
}

#[test]
fn directories_stand_before_files() {
    assert!(stands_before(&dir("z"), &file("a.md")));
    assert!(!stands_before(&file("a.md"), &dir("z")));
    assert!(stands_before(&dir("a"), &dir("b")));
    assert!(!stands_before(&dir("b"), &dir("a")));
    assert!(stands_before(&file("A.md"), &file("a.md")));
    assert!(!stands_before(&file("a.md"), &file("a.md")));
}

#[test]
fn sort_puts_directories_first_and_each_kind_by_name() {
    let sorted = sort_nodes(vec![file("b.md"), dir("archive"), file("A.md"), dir("Work"), file("a.md")]);
    assert_eq!(names(&sorted), vec!["Work", "archive", "A.md", "a.md", "b.md"]);
    assert!(sort_nodes(Vec::new()).is_empty());
}

#[test]
fn sort_keeps_equal_entries_in_their_order() {
    let mut first = file("same.md");
    first.path = "first".to_string();
    let mut second = file("same.md");
    second.path = "second".to_string();
    let mut third = file("same.md");
    third.path = "third".to_string();
    let sorted = sort_nodes(vec![first, dir("d"), second, third]);
    let paths: Vec<&str> = sorted.iter().map(|node| node.path.as_str()).collect();
    assert_eq!(paths, vec!["/notes/d", "first", "second", "third"]);
}

#[test]
fn sort_agrees_with_a_stable_sort_by_kind_and_name() {
    let make = || {
        vec![
            file("n.md"),
            dir("é"),
            file("10.md"),
            dir("b"),
            file("9.md"),
            dir("B"),
            file("n.md"),
            dir(""),
            file("Z.md"),
        ]
    };
    let mut expected = make();
    expected.sort_by(|a, b| (a.is_file, &a.name).cmp(&(b.is_file, &b.name)));
    let sorted = sort_nodes(make());
    assert_eq!(names(&sorted), names(&expected));
}

#[test]
fn sort_keeps_the_children_with_their_directory() {
    let mut parent = dir("p");
    parent.children = Some(vec![file("inner.md")]);
    let sorted = sort_nodes(vec![file("a.md"), parent]);
    assert_eq!(sorted[0].name, "p");
    assert_eq!(sorted[0].children.as_ref().unwrap()[0].name, "inner.md");
    assert!(sorted[1].children.is_none());
}

#[test]
fn payload_of_a_data_url_is_what_follows_the_comma() {
    assert_eq!(image_payload("data:image/png;base64,iVBORw0KGgo="), "iVBORw0KGgo=");
    assert_eq!(image_payload(",x"), "x");
    assert_eq!(image_payload("é,ü"), "ü");
}

#[test]
fn payload_without_a_comma_is_the_whole_text() {
    assert_eq!(image_payload("iVBORw0KGgo="), "iVBORw0KGgo=");
    assert_eq!(image_payload(""), "");
}

#[test]
fn payload_stops_at_the_second_comma() {
    assert_eq!(image_payload("a,b,c"), "b");
    assert_eq!(image_payload("a,,c"), "");
    assert_eq!(image_payload("abc,"), "");
    assert_eq!(image_payload(","), "");
}

#[test]
fn payload_agrees_with_the_second_piece_of_a_split() {
    for data in ["", ",", "a", "a,b", "a,b,c", ",,", "data:x;base64,QUJD", "x,é,y"] {
        let expected = if data.contains(',') { data.split(',').nth(1).unwrap_or(data) } else { data };
        assert_eq!(image_payload(data), expected);
    }
}

#[test]
fn image_file_name_joins_time_and_name() {
    assert_eq!(image_file_name("20240601_083000", "cat.png"), "20240601_083000_cat.png");
    assert_eq!(image_file_name("", ""), "_");
}

#[test]
fn decode_image_reads_base64() {
    assert_eq!(decode_image("QUJD"), Ok(vec![65, 66, 67]));
    assert_eq!(decode_image("QQ=="), Ok(vec![65]));
    assert_eq!(decode_image(""), Ok(Vec::new()));
    assert_eq!(decode_image("/+8="), Ok(vec![255, 239]));
}

#[test]
fn decode_image_reports_what_is_no_base64() {
    for text in ["QUJ", "QQ", "Q!JD", "data:image/png;base64,QUJD", "QUJD\n"] {
        match decode_image(text) {
            Ok(_) => panic!("{:?} is no base64", text),
            Err(message) => {
                assert!(message.starts_with("Failed to decode base64: "));
                assert!(message.len() > "Failed to decode base64: ".len());
            }
        }
    }
}

#[test]
fn image_bytes_leaves_the_prefix_of_a_data_url_aside() {
    assert_eq!(image_bytes("data:image/png;base64,QUJD"), Ok(vec![65, 66, 67]));
    assert_eq!(image_bytes("QUJD"), Ok(vec![65, 66, 67]));
    assert_eq!(image_bytes("x,QUJD,ignored"), Ok(vec![65, 66, 67]));
    assert!(image_bytes("data:image/png;base64,Q!").is_err());
    assert_eq!(image_bytes("prefix,"), Ok(Vec::new()));
}

#[test]
fn note_page_puts_the_rendered_note_between_head_and_tail() {
    let page = note_page("# Title\n\nSome *text*.");
    assert!(page.starts_with("<!DOCTYPE html>\n<html>\n<head>"));
    assert!(page.starts_with(NOTE_PAGE_HEAD));
    assert!(page.ends_with(NOTE_PAGE_TAIL));
    assert!(page.ends_with("\n</body>\n</html>"));
    assert!(page.contains("<title>Exported Note</title>"));
    assert!(page.contains("        body {\n            font-family:"));
    assert!(page.contains("<body>\n    <h1>Title</h1>\n<p>Some <em>text</em>.</p>\n\n</body>"));
}

#[test]
fn note_page_around_is_head_text_tail() {
    assert_eq!(note_page_around("<p>x</p>"), format!("{}<p>x</p>{}", NOTE_PAGE_HEAD, NOTE_PAGE_TAIL));
    assert_eq!(note_page_around(""), format!("{}{}", NOTE_PAGE_HEAD, NOTE_PAGE_TAIL));
}

#[test]
fn document_page_renders_the_extensions() {
    let page = document_page("~~gone~~\n\n- [x] done\n\n| a |\n|---|\n| b |\n");
    assert!(page.starts_with(DOCUMENT_PAGE_HEAD));
    assert!(page.starts_with("<!DOCTYPE html>\n<html lang=\"en\">"));
    assert!(page.ends_with(DOCUMENT_PAGE_TAIL));
    assert!(page.contains("<title>Exported Document</title>"));
    assert!(page.contains("<del>gone</del>"));
    assert!(page.contains("<input disabled=\"\" type=\"checkbox\" checked=\"\"/>"));
    assert!(page.contains("<table>"));
    assert!(page.contains("        a:hover {\n            text-decoration: underline;\n        }"));
}

#[test]
fn document_page_around_is_head_text_tail() {
    assert_eq!(
        document_page_around("<p>x</p>"),
        format!("{}<p>x</p>{}", DOCUMENT_PAGE_HEAD, DOCUMENT_PAGE_TAIL)
    );
}

#[test]
fn temp_page_path_turns_the_extension() {
    assert_eq!(temp_page_path("/tmp/report.pdf"), "/tmp/report_temp.html");
    assert_eq!(temp_page_path("/tmp/report"), "/tmp/report");
    assert_eq!(temp_page_path("a.pdf.pdf"), "a_temp.html_temp.html");
    assert_eq!(temp_page_path("a.pdfs/b.PDF"), "a_temp.htmls/b.PDF");
    assert_eq!(temp_page_path(""), "");
    assert_eq!(temp_page_path(".pd"), ".pd");
}

#[test]
fn print_message_is_the_one_the_front_end_shows() {
    assert_eq!(
        PRINT_FROM_BROWSER,
        "PDF export requires manual printing from browser. HTML file created instead."
    );
}

#[test]
fn printed_lines_stop_at_the_bottom_margin() {
    assert_eq!(printed_lines(0), 0);
    assert_eq!(printed_lines(1), 1);
    assert_eq!(printed_lines(37), 37);
    assert_eq!(printed_lines(38), 38);
    assert_eq!(printed_lines(39), 38);
    assert_eq!(printed_lines(40), 38);
    assert_eq!(printed_lines(41), 38);
    assert_eq!(printed_lines(usize::MAX), 38);
}

#[test]
fn line_positions_step_down_from_the_top() {
    assert_eq!(line_position(0), 280);
    assert_eq!(line_position(1), 273);
    assert_eq!(line_position(10), 210);
    assert_eq!(line_position(37), 21);
}

#[test]
fn print_layout_agrees_with_stepping_down_the_page() {
    for count in 0usize..60 {
        let mut expected = Vec::new();
        let mut y_position = 280.0;
        for _ in (0..count).take(40) {
            if y_position < 20.0 {
                break;
            }
            expected.push(y_position);
            y_position -= 7.0;
        }
        let printed = printed_lines(count);
        assert_eq!(printed, expected.len());
        for index in 0..printed {
            assert_eq!(line_position(index) as f64, expected[index]);
        }
    }
}
