use extract_api::error::UserError;
use extract_api::files::{accept_chunk, MAX_FILE_SIZE};
use extract_api::health::health_check;
use extract_api::response::{
    metadata_keys_distinct, Attempt, ExtractionBatch, ExtractionOutcome, MetadataEntry,
};
use extract_api::urls::{url_response, validate_url_request};

fn extracted(text: &str) -> Attempt {
    Attempt {
        outcome: ExtractionOutcome::Extracted {
            text: text.to_string(),
            metadata: vec![MetadataEntry {
                key: "Content-Type".to_string(),
                values: vec!["text/plain".to_string()],
            }],
        },
        processing_time_ms: 12,
    }
}

fn failed(reason: &str) -> Attempt {
    Attempt {
        outcome: ExtractionOutcome::Failed { reason: reason.to_string() },
        processing_time_ms: 3,
    }
}

#[test]
fn test_health_check() {
    let body = health_check("0.1.0".to_string(), 42);
    assert_eq!(body.status, "healthy");
    assert_eq!(body.version, "0.1.0");
    assert_eq!(body.uptime_ms, 42);
    assert!(body.timestamp.ends_with("+00:00"));
    let t: Vec<char> = body.timestamp.chars().collect();
    assert!(t[..4].iter().all(|c| c.is_ascii_digit()));
    assert_eq!(t[4], '-');
    assert_eq!(t[7], '-');
    assert_eq!(t[10], 'T');
    assert_eq!(t[13], ':');
    assert_eq!(t[16], ':');
    let frac = t.len() - 19 - 6;
    assert!(frac == 0 || ((frac == 4 || frac == 7 || frac == 10) && t[19] == '.'));
}

#[test]
fn test_parse_urls_empty_request() {
    let urls: Vec<String> = vec![];
    let err = validate_url_request(&urls).unwrap_err();
    assert_eq!(err.status_code(), 400);
    assert_eq!(err.to_string(), "Bad request: No URLs provided");
}

#[test]
fn test_parse_urls_too_many() {
    let urls: Vec<String> = (0..15).map(|i| format!("https://example{}.com", i)).collect();
    let err = validate_url_request(&urls).unwrap_err();
    assert_eq!(err.status_code(), 400);
    assert_eq!(err.to_string(), "Bad request: Too many URLs (max 10 allowed)");
}

#[test]
fn test_parse_urls_valid_request() {
    let urls = vec!["https://httpbin.org/html".to_string()];
    assert!(validate_url_request(&urls).is_ok());
    let body = url_response(&urls, vec![extracted("Herman Melville - Moby-Dick")], 20);
    assert_eq!(body.total_files_processed, 1);
    assert!(!body.request_id.is_empty());
    assert_eq!(body.results.len(), 1);
}

#[test]
fn test_parse_files_with_text_file() {
    let mut batch = ExtractionBatch::new();
    let uploaded = Some("test.txt".to_string());
    assert_eq!(batch.stored_file_name(&uploaded).unwrap(), "test.txt");
    let size = accept_chunk(0, "Hello, World! This is a test document.\n".len()).unwrap();
    assert_eq!(size, 39);
    batch.record_file(uploaded, extracted("Hello, World! This is a test document.\n"));
    let body = batch.finish(30);
    assert_eq!(body.total_files_processed, 1);
    assert_eq!(body.successful_extractions, 1);
    assert_eq!(body.failed_extractions, 0);
    assert!(!body.request_id.is_empty());

    let result = &body.results[0];
    assert!(result.file_name.as_ref().unwrap().contains("test.txt"));
    assert!(result.extracted_text.contains("Hello, World!"));
    assert!(result.error.is_none());
}

#[test]
fn test_parse_files_empty_multipart() {
    let batch = ExtractionBatch::new();
    let body = batch.finish(1);
    assert_eq!(body.total_files_processed, 0);
    assert_eq!(body.successful_extractions, 0);
    assert_eq!(body.failed_extractions, 0);
}

#[test]
fn test_user_error_display() {
    let internal_error = UserError::InternalError("Test error".to_string());
    assert!(internal_error.to_string().contains("Internal server error"));

    let bad_request = UserError::BadRequest("Bad input".to_string());
    assert!(bad_request.to_string().contains("Bad request"));
}

#[test]
fn test_user_error_status_codes() {
    assert_eq!(UserError::InternalError("test".to_string()).status_code(), 500);
    assert_eq!(UserError::BadRequest("test".to_string()).status_code(), 400);
}

#[test]
fn url_results_keep_input_order_and_count_failures() {
    let urls = vec![
        "https://a.example/doc.pdf".to_string(),
        "https://b.example/missing.pdf".to_string(),
        "https://c.example/page.html".to_string(),
    ];
    let attempts = vec![extracted("alpha"), failed("404 Not Found"), extracted("gamma")];
    let body = url_response(&urls, attempts, 99);
    assert_eq!(body.total_files_processed, 3);
    assert_eq!(body.successful_extractions, 2);
    assert_eq!(body.failed_extractions, 1);
    assert_eq!(body.total_processing_time_ms, 99);
    for (i, r) in body.results.iter().enumerate() {
        assert_eq!(r.input_index, i);
        assert_eq!(r.id, format!("{}-url-{}", body.request_id, i));
        assert_eq!(r.url.as_deref(), Some(urls[i].as_str()));
        assert!(r.file_name.is_none());
    }
    let bad = &body.results[1];
    assert_eq!(bad.extracted_text, "");
    assert!(bad.metadata.is_none());
    assert_eq!(bad.error.as_deref(), Some("Extraction failed: 404 Not Found"));
    assert_eq!(bad.processing_time_ms, 3);
    let good = &body.results[0];
    assert_eq!(good.extracted_text, "alpha");
    assert_eq!(good.metadata.as_ref().unwrap()[0].key, "Content-Type");
    assert_eq!(good.processing_time_ms, 12);
}

#[test]
fn request_ids_are_hyphenated_v4_uuids() {
    let batch = ExtractionBatch::new();
    let id: Vec<char> = batch.request_id().chars().collect();
    assert_eq!(id.len(), 36);
    for (i, c) in id.iter().enumerate() {
        if i == 8 || i == 13 || i == 18 || i == 23 {
            assert_eq!(*c, '-');
        } else {
            assert!(c.is_ascii_digit() || ('a'..='f').contains(c));
        }
    }
    assert_eq!(id[14], '4');
    assert!(['8', '9', 'a', 'b'].contains(&id[19]));
    assert_ne!(ExtractionBatch::new().request_id(), batch.request_id());
}

#[test]
fn unnamed_files_are_numbered_from_one_and_stored_safely() {
    let mut batch = ExtractionBatch::new();
    batch.record_file(Some("Прайс list на 2 квартал 2025 г v1.pdf".to_string()), extracted("x"));
    assert_eq!(batch.stored_file_name(&None).unwrap(), "unknown_file_2");
    batch.record_file(None, failed("unsupported format"));
    let stored = batch.stored_file_name(&Some("../etc/passwd".to_string())).unwrap();
    assert_eq!(stored, ".._etc_passwd");
    for reserved in ["", ".", ".."] {
        let err = batch.stored_file_name(&Some(reserved.to_string())).unwrap_err();
        assert_eq!(err.status_code(), 500);
        assert_eq!(
            err.to_string(),
            format!("Internal server error: Failed to create temp file {}: not a file name", reserved)
        );
    }
    let body = batch.finish(5);
    assert_eq!(body.results[0].file_name.as_deref(), Some("Прайс list на 2 квартал 2025 г v1.pdf"));
    assert_eq!(body.results[1].file_name.as_deref(), Some("unknown_file_2"));
    assert_eq!(body.results[1].id, format!("{}-file-1", body.request_id));
    assert_eq!(body.results[1].input_index, 1);
    assert_eq!(body.successful_extractions, 1);
    assert_eq!(body.failed_extractions, 1);
}

#[test]
fn result_ids_count_past_nine() {
    let mut batch = ExtractionBatch::new();
    for _ in 0..12 {
        batch.record_file(None, extracted("t"));
    }
    let body = batch.finish(0);
    assert_eq!(body.results[10].id, format!("{}-file-10", body.request_id));
    assert_eq!(body.results[11].file_name.as_deref(), Some("unknown_file_12"));
    let mut ids: Vec<&String> = body.results.iter().map(|r| &r.id).collect();
    ids.sort();
    ids.dedup();
    assert_eq!(ids.len(), 12);
}

#[test]
fn url_request_limits() {
    let ten: Vec<String> = (0..10).map(|i| format!("https://e{}.example", i)).collect();
    assert!(validate_url_request(&ten).is_ok());
    let eleven: Vec<String> = (0..11).map(|i| format!("https://e{}.example", i)).collect();
    assert!(validate_url_request(&eleven).is_err());
}

#[test]
fn file_size_limit_is_fifty_mebibytes() {
    assert_eq!(MAX_FILE_SIZE, 52_428_800);
    assert_eq!(accept_chunk(MAX_FILE_SIZE - 10, 10).unwrap(), MAX_FILE_SIZE);
    let err = accept_chunk(MAX_FILE_SIZE - 10, 11).unwrap_err();
    assert_eq!(err.status_code(), 400);
    assert_eq!(err.to_string(), "Bad request: File too large (max 50MB)");
    assert!(accept_chunk(0, usize::MAX).is_err());
    assert!(accept_chunk(usize::MAX, 1).is_err());
    // Chunked or whole, the same file gets the same answer.
    let mut received = 0;
    for _ in 0..50 {
        received = accept_chunk(received, 1024 * 1024).unwrap();
    }
    assert!(accept_chunk(received, 1).is_err());
}

#[test]
fn metadata_keys_are_checked_for_repeats() {
    let entry = |k: &str| MetadataEntry { key: k.to_string(), values: vec!["v".to_string()] };
    assert!(metadata_keys_distinct(&vec![]));
    assert!(metadata_keys_distinct(&vec![entry("a"), entry("b"), entry("c")]));
    assert!(!metadata_keys_distinct(&vec![entry("a"), entry("b"), entry("a")]));
}
