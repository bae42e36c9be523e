use extract_api::access::{allowed_origin, authorize, list_contains};
use extract_api::config::{create_extractor, parse_port, server_address, PdfOcrStrategy};
use extract_api::error::UserError;
use extract_api::ids::make_result_id;
use extract_api::text::{chars_of, push_decimal, plain_file_name, sanitize_file_name};

#[test]
fn error_messages_kinds_and_statuses() {
    let e = UserError::InternalError("disk full".to_string());
    assert_eq!(e.to_string(), "Internal server error: disk full");
    assert_eq!(e.error_type(), "internal_error");
    let e = UserError::BadRequest("x".to_string());
    assert_eq!(e.error_type(), "bad_request");
    let e = UserError::Unauthorized("Missing or invalid bearer token".to_string());
    assert_eq!(e.status_code(), 401);
    assert_eq!(e.error_type(), "unauthorized");
    assert_eq!(e.to_string(), "Unauthorized: Missing or invalid bearer token");
    match UserError::io_error("permission denied") {
        UserError::InternalError(d) => assert_eq!(d, "IO error: permission denied"),
        _ => panic!("io errors are internal errors"),
    }
}

#[test]
fn sanitize_replaces_each_unsafe_character() {
    assert_eq!(
        sanitize_file_name("Прайс list на 2 квартал 2025 г v1.pdf"),
        "______list____2_________2025___v1.pdf"
    );
    assert_eq!(sanitize_file_name("report-2024_final.PDF"), "report-2024_final.PDF");
    assert_eq!(sanitize_file_name("a b/c\\d"), "a_b_c_d");
    assert_eq!(sanitize_file_name(""), "");
    let once = sanitize_file_name("naïve résumé.docx");
    assert_eq!(once, "na_ve_r_sum_.docx");
    assert_eq!(sanitize_file_name(&once), once);
}

#[test]
fn decimal_rendering() {
    let mut s = String::from("n=");
    push_decimal(&mut s, 0);
    assert_eq!(s, "n=0");
    let mut s = String::new();
    push_decimal(&mut s, 1234567890123);
    assert_eq!(s, "1234567890123");
    assert_eq!(make_result_id("req", "-url-", 7), "req-url-7");
    assert_eq!(make_result_id("req", "-file-", 10), "req-file-10");
    assert_eq!(chars_of("añb"), vec!['a', 'ñ', 'b']);
}

#[test]
fn extractor_configuration() {
    let cfg = create_extractor(None);
    assert_eq!(cfg.ocr_language, "eng+rus");
    assert!(cfg.enable_image_preprocessing);
    assert_eq!(cfg.ocr_timeout_seconds, 240);
    assert!(cfg.pdf_ocr_strategy == PdfOcrStrategy::Auto);
    let cfg = create_extractor(Some("eng+rus+fra+deu".to_string()));
    assert_eq!(cfg.ocr_language, "eng+rus+fra+deu");
}

#[test]
fn port_parsing() {
    assert_eq!(parse_port("8080"), Some(8080));
    assert_eq!(parse_port("0"), Some(0));
    assert_eq!(parse_port("65535"), Some(65535));
    assert_eq!(parse_port("0008280"), Some(8280));
    assert_eq!(parse_port("65536"), None);
    assert_eq!(parse_port("99999999999999999999"), None);
    assert_eq!(parse_port(""), None);
    assert_eq!(parse_port("80a"), None);
    assert_eq!(parse_port("-1"), None);
    assert_eq!(parse_port(" 80"), None);
}

#[test]
fn listen_address() {
    assert_eq!(server_address(None, None), ("0.0.0.0".to_string(), 8080));
    assert_eq!(
        server_address(Some("127.0.0.1".to_string()), Some("8280".to_string())),
        ("127.0.0.1".to_string(), 8280)
    );
    assert_eq!(server_address(None, Some("http".to_string())), ("0.0.0.0".to_string(), 8080));
}

#[test]
fn cors_origins() {
    assert_eq!(allowed_origin(&None, &Some("https://x.example".to_string())), Some("*".to_string()));
    assert_eq!(allowed_origin(&None, &None), Some("*".to_string()));
    let list = Some("https://myapp.com,https://admin.myapp.com".to_string());
    assert_eq!(
        allowed_origin(&list, &Some("https://admin.myapp.com".to_string())),
        Some("https://admin.myapp.com".to_string())
    );
    assert_eq!(allowed_origin(&list, &Some("https://myapp.co".to_string())), None);
    assert_eq!(allowed_origin(&list, &Some("https://myapp.com,https://admin.myapp.com".to_string())), None);
    assert_eq!(allowed_origin(&list, &None), None);
    assert!(list_contains("a,*,b", "*"));
    assert!(!list_contains("ab", "b"));
    assert!(list_contains("a,,b", ""));
    assert!(!list_contains("a,b", ""));
}

#[test]
fn bearer_token() {
    assert!(authorize(&None, &None).is_ok());
    let token = Some("your_secret_token".to_string());
    assert!(authorize(&token, &Some("Bearer your_secret_token".to_string())).is_ok());
    let err = authorize(&token, &Some("Bearer wrong".to_string())).unwrap_err();
    assert_eq!(err.status_code(), 401);
    assert!(authorize(&token, &None).is_err());
    assert!(authorize(&token, &Some("your_secret_token".to_string())).is_err());
}

#[test]
fn stored_names_stay_inside_the_upload_directory() {
    assert_eq!(plain_file_name(".."), None);
    assert_eq!(plain_file_name("."), None);
    assert_eq!(plain_file_name(""), None);
    assert_eq!(plain_file_name("_").as_deref(), Some("_"));
    assert_eq!(plain_file_name("/").as_deref(), Some("_"));
    assert_eq!(plain_file_name("...").as_deref(), Some("..."));
    assert_eq!(plain_file_name("../x.txt").as_deref(), Some(".._x.txt"));
    assert_eq!(plain_file_name("/tmp/x.txt").as_deref(), Some("_tmp_x.txt"));
    assert_eq!(plain_file_name("Прайс.pdf").as_deref(), Some("_____.pdf"));
    assert_eq!(plain_file_name("..a").as_deref(), Some("..a"));
}
