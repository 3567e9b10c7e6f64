use desktop_backends::crm::common::{ApiResponse, PageRequest, PageResponse};
use desktop_backends::crm::user::{User, UserInfo, UserRole};
use desktop_backends::pdf::{ConversionResult, FileData};

#[test]
fn success_carries_the_data() {
    let response = ApiResponse::success(41);
    assert!(response.success);
    assert_eq!(response.data, Some(41));
    assert_eq!(response.error, None);
}

#[test]
fn error_carries_the_message() {
    let response: ApiResponse<i32> = ApiResponse::error("no such customer");
    assert!(!response.success);
    assert_eq!(response.data, None);
    assert_eq!(response.error, Some("no such customer".to_string()));
}

#[test]
fn default_page_request_is_the_first_twenty() {
    let request = PageRequest::default();
    assert_eq!(request.page, 1);
    assert_eq!(request.page_size, 20);
}

#[test]
fn page_count_rounds_up() {
    assert_eq!(PageResponse::new(vec![1, 2], 41, 3, 20).total_pages, 3);
    assert_eq!(PageResponse::new(vec![0u8], 40, 1, 20).total_pages, 2);
    assert_eq!(PageResponse::new(vec![0u8], 1, 1, 20).total_pages, 1);
    assert_eq!(PageResponse::new(vec![0u8], 20, 1, 20).total_pages, 1);
    assert_eq!(PageResponse::new(vec![0u8], 21, 1, 20).total_pages, 2);
    assert_eq!(PageResponse::new(vec![0u8], 7, 1, 1).total_pages, 7);
}

#[test]
fn page_count_of_nothing_is_zero() {
    assert_eq!(PageResponse::<u8>::new(Vec::new(), 0, 1, 20).total_pages, 0);
    assert_eq!(PageResponse::<u8>::new(Vec::new(), 0, 1, 0).total_pages, 0);
    assert_eq!(PageResponse::<u8>::new(Vec::new(), -5, 1, 20).total_pages, 0);
    assert_eq!(PageResponse::<u8>::new(Vec::new(), -5, 1, 0).total_pages, 0);
    assert_eq!(PageResponse::<u8>::new(Vec::new(), i64::MIN, 1, 1).total_pages, 0);
}

#[test]
fn page_count_saturates() {
    assert_eq!(PageResponse::<u8>::new(Vec::new(), 5, 1, 0).total_pages, u32::MAX);
    assert_eq!(PageResponse::<u8>::new(Vec::new(), i64::MAX, 1, 1).total_pages, u32::MAX);
    assert_eq!(PageResponse::<u8>::new(Vec::new(), 4294967295, 1, 1).total_pages, u32::MAX);
    assert_eq!(PageResponse::<u8>::new(Vec::new(), 4294967294, 1, 1).total_pages, 4294967294);
    assert_eq!(PageResponse::<u8>::new(Vec::new(), i64::MAX, 1, u32::MAX).total_pages, 2147483649);
}

#[test]
fn page_count_agrees_with_rounding_up_the_quotient() {
    for total in 0i64..200 {
        for page_size in 1u32..30 {
            let expected = ((total as f64) / (page_size as f64)).ceil() as u32;
            assert_eq!(PageResponse::<u8>::new(Vec::new(), total, 1, page_size).total_pages, expected);
        }
    }
}

#[test]
fn page_response_keeps_its_fields() {
    let response = PageResponse::new(vec!["a", "b"], 5, 2, 2);
    assert_eq!(response.items, vec!["a", "b"]);
    assert_eq!(response.total, 5);
    assert_eq!(response.page, 2);
    assert_eq!(response.page_size, 2);
    assert_eq!(response.total_pages, 3);
}

#[test]
fn role_text_of_each_role() {
    assert_eq!(UserRole::Admin.as_str(), "admin");
    assert_eq!(UserRole::Manager.as_str(), "manager");
    assert_eq!(UserRole::Sales.as_str(), "sales");
    assert_eq!(UserRole::Warehouse.as_str(), "warehouse");
    assert_eq!(UserRole::Employee.as_str(), "employee");
}

#[test]
fn role_from_each_text() {
    assert_eq!(UserRole::from_str("admin"), Some(UserRole::Admin));
    assert_eq!(UserRole::from_str("manager"), Some(UserRole::Manager));
    assert_eq!(UserRole::from_str("sales"), Some(UserRole::Sales));
    assert_eq!(UserRole::from_str("warehouse"), Some(UserRole::Warehouse));
    assert_eq!(UserRole::from_str("employee"), Some(UserRole::Employee));
}

#[test]
fn role_from_unknown_text_is_none() {
    assert_eq!(UserRole::from_str(""), None);
    assert_eq!(UserRole::from_str("Admin"), None);
    assert_eq!(UserRole::from_str("admin "), None);
    assert_eq!(UserRole::from_str("root"), None);
}

#[test]
fn user_info_takes_the_public_fields() {
    let user = User {
        id: 7,
        username: "ada".to_string(),
        full_name: "Ada L.".to_string(),
        email: Some("ada@example.org".to_string()),
        phone: None,
        role: "manager".to_string(),
        avatar_path: Some("/a.png".to_string()),
        status: "active".to_string(),
        created_at: "c".to_string(),
        updated_at: "u".to_string(),
        last_login_at: None,
    };
    let info = UserInfo::from(user);
    assert_eq!(info.id, 7);
    assert_eq!(info.username, "ada");
    assert_eq!(info.full_name, "Ada L.");
    assert_eq!(info.email, Some("ada@example.org".to_string()));
    assert_eq!(info.phone, None);
    assert_eq!(info.role, "manager");
    assert_eq!(info.avatar_path, Some("/a.png".to_string()));
}

#[test]
fn converter_models_hold_their_fields() {
    let result = ConversionResult { success: true, message: "done".to_string() };
    assert!(result.success);
    assert_eq!(result.message, "done");
    let file = FileData { name: "a.pdf".to_string(), data: vec![1, 2, 3], size: 3 };
    assert_eq!(file.name, "a.pdf");
    assert_eq!(file.data.len() as u64, file.size);
}
