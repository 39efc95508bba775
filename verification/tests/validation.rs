use base64::Engine;
use qr_foundry::validate::{
    batch_validate, scan_qr_from_data, validate_qr, validate_single_item, BatchGenerateItem,
    ScanResult, ValidationResult,
};

fn qr_png_bytes(content: &str) -> Vec<u8> {
    let code = qrcode::QrCode::new(content.as_bytes()).unwrap();
    let width = code.width();
    let colors = code.to_colors();
    let scale = 8usize;
    let quiet = 4usize;
    let dim = ((width + 2 * quiet) * scale) as u32;
    let mut img = image::GrayImage::from_pixel(dim, dim, image::Luma([255u8]));
    for y in 0..width {
        for x in 0..width {
            if colors[y * width + x] == qrcode::Color::Dark {
                for dy in 0..scale {
                    for dx in 0..scale {
                        img.put_pixel(
                            ((x + quiet) * scale + dx) as u32,
                            ((y + quiet) * scale + dy) as u32,
                            image::Luma([0u8]),
                        );
                    }
                }
            }
        }
    }
    let mut bytes: Vec<u8> = Vec::new();
    image::DynamicImage::ImageLuma8(img)
        .write_to(&mut std::io::Cursor::new(&mut bytes), image::ImageFormat::Png)
        .unwrap();
    bytes
}

fn white_png_bytes() -> Vec<u8> {
    let img = image::GrayImage::from_pixel(200, 200, image::Luma([255u8]));
    let mut bytes: Vec<u8> = Vec::new();
    image::DynamicImage::ImageLuma8(img)
        .write_to(&mut std::io::Cursor::new(&mut bytes), image::ImageFormat::Png)
        .unwrap();
    bytes
}

fn to_data_url(bytes: &[u8]) -> String {
    let encoded = base64::engine::general_purpose::STANDARD.encode(bytes);
    format!("data:image/png;base64,{}", encoded)
}

#[test]
fn test_validation_result_structure() {
    let result = ValidationResult {
        state: "pass".to_string(),
        decoded_content: Some("test".to_string()),
        content_match: true,
        message: "Success".to_string(),
        suggestions: vec![],
    };

    assert_eq!(result.state, "pass");
    assert_eq!(result.decoded_content, Some("test".to_string()));
    assert!(result.content_match);
    assert!(result.suggestions.is_empty());
}

#[test]
fn test_scan_result_structure() {
    let success_result = ScanResult {
        success: true,
        content: Some("https://example.com".to_string()),
        qr_type: Some("url".to_string()),
        error: None,
    };

    assert!(success_result.success);
    assert_eq!(success_result.content, Some("https://example.com".to_string()));
    assert_eq!(success_result.qr_type, Some("url".to_string()));
    assert!(success_result.error.is_none());

    let failure_result = ScanResult {
        success: false,
        content: None,
        qr_type: None,
        error: Some("No QR code found".to_string()),
    };

    assert!(!failure_result.success);
    assert!(failure_result.content.is_none());
    assert!(failure_result.error.is_some());
}

#[test]
fn test_validate_qr_round_trip_pass() {
    let content = "https://example.com/run";
    let data = to_data_url(&qr_png_bytes(content));
    let result = validate_qr(data, content.to_string()).unwrap();

    assert_eq!(result.state, "pass");
    assert!(result.content_match);
    assert_eq!(result.decoded_content, Some(content.to_string()));
    assert_eq!(result.message, "QR code scans correctly");
    assert!(result.suggestions.is_empty());
}

#[test]
fn test_validate_qr_round_trip_boundary_whitespace() {
    let content = "tel:+15551234567";
    let data = to_data_url(&qr_png_bytes(content));
    let expected = format!("  {}\n", content);
    let result = validate_qr(data, expected).unwrap();

    assert_eq!(result.state, "pass");
    assert!(result.content_match);
}

#[test]
fn test_validate_qr_content_mismatch() {
    let data = to_data_url(&qr_png_bytes("https://one.example"));
    let result = validate_qr(data, "https://two.example".to_string()).unwrap();

    assert_eq!(result.state, "warn");
    assert!(!result.content_match);
    assert_eq!(result.decoded_content, Some("https://one.example".to_string()));
    assert_eq!(result.message, "Decoded content differs from expected");
}

#[test]
fn test_validate_qr_blank_image_undetectable() {
    let data = to_data_url(&white_png_bytes());
    let result = validate_qr(data, "anything".to_string()).unwrap();

    assert_eq!(result.state, "fail");
    assert!(result.decoded_content.is_none());
    assert_eq!(result.message, "No QR code detected in image");
    assert_eq!(result.suggestions.len(), 3);
}

#[test]
fn test_validate_qr_corrupt_input_is_fail_verdict() {
    // A transport or container decode failure is itself a fail verdict, not
    // an error return, and its message keeps it apart from "no QR detected".
    let bad_base64 = "data:image/png;base64,!!!notbase64!!!".to_string();
    let result = validate_qr(bad_base64, "x".to_string()).unwrap();
    assert_eq!(result.state, "fail");
    assert!(result.decoded_content.is_none());
    assert!(!result.content_match);
    assert!(result.message.starts_with("Failed to decode base64: "));
    assert!(result.suggestions.is_empty());

    let not_an_image = to_data_url(b"these bytes are no image");
    let result = validate_qr(not_an_image, "x".to_string()).unwrap();
    assert_eq!(result.state, "fail");
    assert!(result.message.starts_with("Failed to decode image: "));
}

#[test]
fn test_validate_single_item_modes_distinguishable() {
    let content = "geo:1.5,2.5";
    let good = qr_png_bytes(content);

    // Pass.
    let item = BatchGenerateItem {
        row: 1,
        content: content.to_string(),
        label: None,
        image_data: to_data_url(&good),
    };
    let v = validate_single_item(&item);
    assert!(v.success);
    assert!(v.content_match);
    assert_eq!(v.decoded_content, Some(content.to_string()));
    assert!(v.error.is_none());

    // Decode-input error: corrupt the image bytes.
    let mut corrupt = good.clone();
    for b in corrupt.iter_mut().skip(20) {
        *b = 0x55;
    }
    let item = BatchGenerateItem {
        row: 2,
        content: content.to_string(),
        label: None,
        image_data: to_data_url(&corrupt),
    };
    let v = validate_single_item(&item);
    assert!(!v.success);
    assert!(v.decoded_content.is_none());
    assert!(v.error.clone().unwrap().starts_with("Failed to decode image: "));

    // Undetectable: blank the image.
    let item = BatchGenerateItem {
        row: 3,
        content: content.to_string(),
        label: None,
        image_data: to_data_url(&white_png_bytes()),
    };
    let v = validate_single_item(&item);
    assert!(!v.success);
    assert!(v.decoded_content.is_none());
    assert_eq!(v.error, Some("No QR code detected".to_string()));

    // Content mismatch: alter the expected string after rendering.
    let item = BatchGenerateItem {
        row: 4,
        content: "geo:9.9,9.9".to_string(),
        label: None,
        image_data: to_data_url(&good),
    };
    let v = validate_single_item(&item);
    assert!(!v.success);
    assert!(!v.content_match);
    assert_eq!(v.decoded_content, Some(content.to_string()));
    assert_eq!(v.error, Some("Content mismatch".to_string()));
}

#[test]
fn test_batch_validate_orders_verdicts() {
    let a = "https://a.example";
    let b = "https://b.example";
    let items = vec![
        BatchGenerateItem {
            row: 1,
            content: a.to_string(),
            label: None,
            image_data: to_data_url(&qr_png_bytes(a)),
        },
        BatchGenerateItem {
            row: 2,
            content: b.to_string(),
            label: None,
            image_data: to_data_url(&qr_png_bytes(b)),
        },
    ];
    let verdicts = batch_validate(items).unwrap();
    assert_eq!(verdicts.len(), 2);
    assert_eq!(verdicts[0].row, 1);
    assert_eq!(verdicts[1].row, 2);
    assert!(verdicts[0].success && verdicts[1].success);
}

#[test]
fn test_scan_qr_from_data_classifies() {
    let content = "WIFI:T:WPA;S:X;;";
    let data = to_data_url(&qr_png_bytes(content));
    let result = scan_qr_from_data(data).unwrap();

    assert!(result.success);
    assert_eq!(result.content, Some(content.to_string()));
    assert_eq!(result.qr_type, Some("wifi".to_string()));
    assert!(result.error.is_none());
}

#[test]
fn test_scan_qr_from_data_no_code() {
    let data = to_data_url(&white_png_bytes());
    let result = scan_qr_from_data(data).unwrap();

    assert!(!result.success);
    assert_eq!(result.error, Some("No QR code found in image".to_string()));
}
