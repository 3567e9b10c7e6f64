use desktop_backends::crm::auth::{accepts_login, accepts_old_password};
use desktop_backends::forms::{validate_schema, FieldNames};
use desktop_backends::pdf::greet;
use desktop_backends::text::{find_char, text_ends_with};

fn field(id: &str, label: &str) -> FieldNames {
    FieldNames { id: id.to_string(), label: label.to_string() }
}

#[test]
fn schema_without_fields_is_not_valid() {
    assert!(!validate_schema(&Vec::new()));
}

#[test]
fn schema_with_named_fields_is_valid() {
    assert!(validate_schema(&vec![field("name", "Name")]));
    assert!(validate_schema(&vec![field("a", "A"), field("b", "B"), field("a", "A")]));
    assert!(validate_schema(&vec![field(" ", " ")]));
}

#[test]
fn schema_with_an_unnamed_field_is_not_valid() {
    assert!(!validate_schema(&vec![field("", "Name")]));
    assert!(!validate_schema(&vec![field("name", "")]));
    assert!(!validate_schema(&vec![field("a", "A"), field("b", ""), field("c", "C")]));
    assert!(!validate_schema(&vec![field("a", "A"), field("b", "B"), field("", "C")]));
}

#[test]
fn greeting_names_the_caller() {
    assert_eq!(greet("Ada"), "Hello, Ada! PDF Converter is ready.");
    assert_eq!(greet(""), "Hello, ! PDF Converter is ready.");
}

#[test]
fn login_accepts_the_built_in_account_only() {
    assert!(accepts_login("admin", "admin123"));
    assert!(!accepts_login("admin", "admin12"));
    assert!(!accepts_login("admin", "admin1234"));
    assert!(!accepts_login("Admin", "admin123"));
    assert!(!accepts_login("admin123", "admin"));
    assert!(!accepts_login("", ""));
}

#[test]
fn password_change_needs_the_old_password() {
    assert!(accepts_old_password("admin123"));
    assert!(!accepts_old_password("admin"));
    assert!(!accepts_old_password("ADMIN123"));
    assert!(!accepts_old_password(""));
}

#[test]
fn text_ends_with_compares_the_tail() {
    assert!(text_ends_with("note.md", ".md"));
    assert!(text_ends_with(".md", ".md"));
    assert!(text_ends_with("anything", ""));
    assert!(text_ends_with("", ""));
    assert!(!text_ends_with("md", ".md"));
    assert!(!text_ends_with("note.md.txt", ".md"));
    assert!(!text_ends_with("note.mD", ".md"));
    assert!(text_ends_with("grüße", "üße"));
}

#[test]
fn find_char_counts_from_the_start_it_is_given() {
    let text: Vec<char> = "a,b,,c".chars().collect();
    assert_eq!(find_char(&text, 0, ','), 1);
    assert_eq!(find_char(&text, 1, ','), 0);
    assert_eq!(find_char(&text, 2, ','), 1);
    assert_eq!(find_char(&text, 4, ','), 0);
    assert_eq!(find_char(&text, 5, ','), 1);
    assert_eq!(find_char(&text, 6, ','), 0);
    assert_eq!(find_char(&text, 0, 'x'), 6);
}
