use qr_foundry::table::{batch_parse_csv_content, parse_csv_content};

#[test]
fn test_parse_csv_content_basic() {
    let csv = "content,type,label\nhttps://example.com,url,Example\nhello world,text,Greeting";
    let result = parse_csv_content(csv).unwrap();

    assert!(result.success);
    assert_eq!(result.total_rows, 2);
    assert_eq!(result.items.len(), 2);

    assert_eq!(result.items[0].content, "https://example.com");
    assert_eq!(result.items[0].qr_type, "url");
    assert_eq!(result.items[0].label, Some("Example".to_string()));

    assert_eq!(result.items[1].content, "hello world");
    assert_eq!(result.items[1].qr_type, "text");
    assert_eq!(result.items[1].label, Some("Greeting".to_string()));
}

#[test]
fn test_parse_csv_content_auto_detect_type() {
    let csv = "content\nhttps://example.com\ntel:+15551234567\nWIFI:T:WPA;S:Test;;";
    let result = parse_csv_content(csv).unwrap();

    assert!(result.success);
    assert_eq!(result.items.len(), 3);
    assert_eq!(result.items[0].qr_type, "url");
    assert_eq!(result.items[1].qr_type, "phone");
    assert_eq!(result.items[2].qr_type, "wifi");
}

#[test]
fn test_parse_csv_content_skips_empty_rows() {
    let csv = "content\nhttps://example.com\n\nhello\n   \nworld";
    let result = parse_csv_content(csv).unwrap();

    assert!(result.success);
    assert_eq!(result.items.len(), 3);
}

#[test]
fn test_parse_csv_content_missing_content_column() {
    let csv = "type,label\nurl,Example";
    let result = parse_csv_content(csv);

    assert!(result.is_err());
    assert!(result.unwrap_err().contains("content"));
}

#[test]
fn test_parse_csv_content_optional_columns() {
    let csv = "content\nhttps://example.com";
    let result = parse_csv_content(csv).unwrap();

    assert!(result.success);
    assert_eq!(result.items.len(), 1);
    assert_eq!(result.items[0].qr_type, "url"); // auto-detected
    assert_eq!(result.items[0].label, None);
}

#[test]
fn test_parse_csv_content_row_numbers() {
    let csv = "content\nfirst\nsecond\nthird";
    let result = parse_csv_content(csv).unwrap();

    assert_eq!(result.items[0].row, 1);
    assert_eq!(result.items[1].row, 2);
    assert_eq!(result.items[2].row, 3);
}

#[test]
fn test_parse_csv_row_numbers_keep_gaps() {
    // A whitespace-only content cell consumes its source position.
    let csv = "content\nfirst\n   \nthird";
    let result = parse_csv_content(csv).unwrap();

    assert_eq!(result.items.len(), 2);
    assert_eq!(result.items[0].row, 1);
    assert_eq!(result.items[1].row, 3);
    assert!(result.items[0].row < result.items[1].row);
}

#[test]
fn test_parse_csv_two_row_scenario() {
    let csv = "content\nhttps://a.com\ntel:+15551234567";
    let result = parse_csv_content(csv).unwrap();

    assert!(result.success);
    assert_eq!(result.items.len(), 2);
    assert_eq!(result.items[0].content, "https://a.com");
    assert_eq!(result.items[0].qr_type, "url");
    assert_eq!(result.items[1].content, "tel:+15551234567");
    assert_eq!(result.items[1].qr_type, "phone");
}

#[test]
fn test_parse_csv_empty_type_cell_falls_back_to_classifier() {
    let csv = "content,type,label\nWIFI:T:WPA;S:X;;,,Home";
    let result = parse_csv_content(csv).unwrap();

    assert!(result.success);
    assert_eq!(result.items.len(), 1);
    assert_eq!(result.items[0].content, "WIFI:T:WPA;S:X;;");
    assert_eq!(result.items[0].qr_type, "wifi");
    assert_eq!(result.items[0].label, Some("Home".to_string()));
}

#[test]
fn test_parse_csv_explicit_type_lowercased() {
    let csv = "content,type\nhello,URL";
    let result = parse_csv_content(csv).unwrap();

    assert_eq!(result.items[0].qr_type, "url");
}

#[test]
fn test_parse_csv_quoted_fields() {
    let csv = "content,label\n\"hello, world\",\"say \"\"hi\"\"\"";
    let result = parse_csv_content(csv).unwrap();

    assert!(result.success);
    assert_eq!(result.items.len(), 1);
    assert_eq!(result.items[0].content, "hello, world");
    assert_eq!(result.items[0].label, Some("say \"hi\"".to_string()));
}

#[test]
fn test_parse_csv_malformed_quoting_reports_row() {
    // Stray character after a closing quote in the second data record.
    let csv = "content\nfine\n\"bad\"x\nrest";
    let result = parse_csv_content(csv).unwrap();

    assert!(!result.success);
    assert_eq!(result.items.len(), 0);
    assert_eq!(result.total_rows, 0);
    let msg = result.error.unwrap();
    assert!(msg.starts_with("Error at row 3"));
}

#[test]
fn test_parse_csv_header_case_insensitive() {
    let csv = "Content,TYPE,Label\nhello,text,Tag";
    let result = parse_csv_content(csv).unwrap();

    assert!(result.success);
    assert_eq!(result.items[0].content, "hello");
    assert_eq!(result.items[0].qr_type, "text");
    assert_eq!(result.items[0].label, Some("Tag".to_string()));
}

#[test]
fn test_batch_parse_csv_content_matches_parse() {
    let csv = "content\nhttps://a.com\ntel:+15551234567".to_string();
    let result = batch_parse_csv_content(csv).unwrap();
    assert!(result.success);
    assert_eq!(result.total_rows, 2);
    assert_eq!(result.items[0].qr_type, "url");
    assert_eq!(result.items[1].qr_type, "phone");
}

#[test]
fn test_parse_csv_crlf_line_endings() {
    let csv = "content,label\r\nhttps://a.com,One\r\nhttps://b.com,Two\r\n";
    let result = parse_csv_content(csv).unwrap();

    assert!(result.success);
    assert_eq!(result.items.len(), 2);
    assert_eq!(result.items[0].content, "https://a.com");
    assert_eq!(result.items[0].label, Some("One".to_string()));
    assert_eq!(result.items[1].row, 2);
}

#[test]
fn test_parse_csv_quoted_field_with_newline() {
    let csv = "content,label\n\"line one\nline two\",Multi";
    let result = parse_csv_content(csv).unwrap();

    assert!(result.success);
    assert_eq!(result.items.len(), 1);
    assert_eq!(result.items[0].content, "line one\nline two");
}

#[test]
fn test_parse_csv_unclosed_quote_is_structural_error() {
    let csv = "content\n\"unclosed";
    let result = parse_csv_content(csv).unwrap();

    assert!(!result.success);
    assert!(result.error.unwrap().starts_with("Error at row 2"));
}
