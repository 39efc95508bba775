use base64::Engine;
use qr_foundry::archive::{archive_entry_names, build_archive, run_batch};
use qr_foundry::validate::BatchGenerateItem;

fn qr_png_bytes(content: &str) -> Vec<u8> {
    let code = qrcode::QrCode::new(content.as_bytes()).unwrap();
    let width = code.width();
    let colors = code.to_colors();
    let scale = 8usize;
    let quiet = 4usize;
    let dim = ((width + 2 * quiet) * scale) as u32;
    let mut img = image::GrayImage::from_pixel(dim, dim, image::Luma([255u8]));
    for y in 0..width {
        for x in 0..width {
            if colors[y * width + x] == qrcode::Color::Dark {
                for dy in 0..scale {
                    for dx in 0..scale {
                        img.put_pixel(
                            ((x + quiet) * scale + dx) as u32,
                            ((y + quiet) * scale + dy) as u32,
                            image::Luma([0u8]),
                        );
                    }
                }
            }
        }
    }
    let mut bytes: Vec<u8> = Vec::new();
    image::DynamicImage::ImageLuma8(img)
        .write_to(&mut std::io::Cursor::new(&mut bytes), image::ImageFormat::Png)
        .unwrap();
    bytes
}

fn to_data_url(bytes: &[u8]) -> String {
    let encoded = base64::engine::general_purpose::STANDARD.encode(bytes);
    format!("data:image/png;base64,{}", encoded)
}

fn item(row: usize, content: &str, label: Option<&str>) -> BatchGenerateItem {
    BatchGenerateItem {
        row,
        content: content.to_string(),
        label: label.map(|l| l.to_string()),
        image_data: to_data_url(&qr_png_bytes(content)),
    }
}

#[test]
fn test_archive_contains_all_entries() {
    let items = vec![
        item(1, "https://a.example", Some("First Link")),
        item(2, "tel:+15551234567", None),
        item(3, "hello world", Some("a/b:c")),
    ];
    let build = build_archive(&items, false).unwrap();
    assert!(build.verdicts.is_empty());

    let mut archive = zip::ZipArchive::new(std::io::Cursor::new(build.bytes)).unwrap();
    assert_eq!(archive.len(), 3);
    let mut names: Vec<String> = Vec::new();
    for i in 0..archive.len() {
        names.push(archive.by_index(i).unwrap().name().to_string());
    }
    assert_eq!(names, vec!["001_First_Link.png", "002_qr.png", "003_a_b_c.png"]);

    // Names are unique and follow the row-prefix pattern.
    let computed = archive_entry_names(&items);
    assert_eq!(computed, names);
    assert_eq!(build.entry_names, names);
    for (i, n) in names.iter().enumerate() {
        assert!(n.ends_with(".png"));
        assert!(n.starts_with(&format!("{:03}_", i + 1)));
        for m in names.iter().skip(i + 1) {
            assert_ne!(n, m);
        }
    }
}

#[test]
fn test_archive_round_trips_image_bytes() {
    let png = qr_png_bytes("geo:0,0");
    let items = vec![BatchGenerateItem {
        row: 7,
        content: "geo:0,0".to_string(),
        label: None,
        image_data: to_data_url(&png),
    }];
    let build = build_archive(&items, false).unwrap();

    let mut archive = zip::ZipArchive::new(std::io::Cursor::new(build.bytes)).unwrap();
    let mut entry = archive.by_index(0).unwrap();
    assert_eq!(entry.name(), "007_qr.png");
    let mut stored: Vec<u8> = Vec::new();
    std::io::Read::read_to_end(&mut entry, &mut stored).unwrap();
    assert_eq!(stored, png);
}

#[test]
fn test_archive_with_validation_keeps_degraded_rows() {
    // Three rendered items, one with deliberately corrupted image bytes: the
    // archive still holds three entries, and exactly one verdict is a
    // decode-input error while the others pass.
    let good1 = item(1, "https://a.example", None);
    let mut corrupt_png = qr_png_bytes("https://b.example");
    for b in corrupt_png.iter_mut().skip(20) {
        *b = 0x55;
    }
    let bad = BatchGenerateItem {
        row: 2,
        content: "https://b.example".to_string(),
        label: None,
        image_data: to_data_url(&corrupt_png),
    };
    let good2 = item(3, "https://c.example", None);

    let items = vec![good1, bad, good2];
    let build = build_archive(&items, true).unwrap();
    let verdicts = build.verdicts;

    let archive = zip::ZipArchive::new(std::io::Cursor::new(build.bytes)).unwrap();
    assert_eq!(archive.len(), 3);

    assert_eq!(verdicts.len(), 3);
    assert!(verdicts[0].success);
    assert!(!verdicts[1].success);
    assert!(verdicts[1]
        .error
        .clone()
        .unwrap()
        .starts_with("Failed to decode image: "));
    assert!(verdicts[2].success);
    let decode_errors = verdicts
        .iter()
        .filter(|v| v.error.as_ref().map(|e| e.starts_with("Failed to decode")) == Some(true))
        .count();
    assert_eq!(decode_errors, 1);
}

#[test]
fn test_archive_fails_whole_on_bad_transport() {
    let good = item(1, "https://a.example", None);
    let bad = BatchGenerateItem {
        row: 2,
        content: "x".to_string(),
        label: None,
        image_data: "data:image/png;base64,!!!notbase64!!!".to_string(),
    };
    let err = match build_archive(&vec![good, bad], false) {
        Ok(_) => panic!("build should abort on undecodable transport"),
        Err(e) => e,
    };
    assert!(err.starts_with("Failed to decode image for row 2: "));
}

#[test]
fn test_run_batch_outcome_shapes() {
    let items = vec![item(1, "https://a.example", None)];
    let (bytes, outcome) = run_batch(&items, true);
    assert!(bytes.is_some());
    assert!(outcome.success);
    assert!(outcome.error.is_none());
    assert_eq!(outcome.validation_results.len(), 1);
    assert!(outcome.validation_results[0].success);

    let bad = vec![BatchGenerateItem {
        row: 1,
        content: "x".to_string(),
        label: None,
        image_data: "!!!notbase64!!!".to_string(),
    }];
    let (bytes, outcome) = run_batch(&bad, true);
    assert!(bytes.is_none());
    assert!(!outcome.success);
    assert!(outcome.error.is_some());
    assert!(outcome.validation_results.is_empty());
}
