//! Row validation: decode a rendered QR image and compare the recovered text
//! against the intended payload, mapping every failure path to a verdict.

use vstd::prelude::*;

use crate::b64::{b64_of, decode_base64};
use crate::classify::{detect_qr_type, spec_classify};
use crate::export::{spec_strip, strip_data_url_prefix};
use crate::scan::{qr_scan_of, scan_qr_image};
use crate::text::{spec_trim, str_eq, trim_str};

verus! {

/// One row's payload and rendered image, as handed back by the renderer.
#[derive(Debug, Clone)]
pub struct BatchGenerateItem {
    pub row: usize,
    pub content: String,
    pub label: Option<String>,
    /// Base64-encoded PNG, possibly behind a data-URI marker.
    pub image_data: String,
}

/// Per-row validation verdict of a batch item.
#[derive(Debug, Clone)]
pub struct BatchValidationResult {
    pub row: usize,
    pub success: bool,
    pub decoded_content: Option<String>,
    pub content_match: bool,
    pub error: Option<String>,
}

/// Single-image validation verdict, with advisory remediation hints.
#[derive(Debug, Clone)]
pub struct ValidationResult {
    /// One of "pass", "warn", "fail".
    pub state: String,
    pub decoded_content: Option<String>,
    pub content_match: bool,
    pub message: String,
    pub suggestions: Vec<String>,
}

/// Outcome of scanning an arbitrary image for a QR payload.
#[derive(Debug, Clone)]
pub struct ScanResult {
    pub success: bool,
    pub content: Option<String>,
    pub qr_type: Option<String>,
    pub error: Option<String>,
}

/// The verdict owed for expected payload `content` on row `row`, given image
/// transport data `data`: every field is fixed by the decode outcomes.
pub open spec fn verdict_for(
    row: int,
    content: Seq<char>,
    data: Seq<char>,
    v: BatchValidationResult,
) -> bool {
    &&& v.row == row
    &&& match b64_of(spec_strip(data)) {
        Result::Err(t) => {
            &&& !v.success
            &&& v.decoded_content is None
            &&& !v.content_match
            &&& v.error matches Some(m) && m@ == "Failed to decode base64: "@ + t
        },
        Result::Ok(bytes) => match qr_scan_of(bytes) {
            Result::Err(t) => {
                &&& !v.success
                &&& v.decoded_content is None
                &&& !v.content_match
                &&& v.error matches Some(m) && m@ == "Failed to decode image: "@ + t
            },
            Result::Ok(grids) => {
                if grids.len() == 0 {
                    &&& !v.success
                    &&& v.decoded_content is None
                    &&& !v.content_match
                    &&& v.error matches Some(m) && m@ == "No QR code detected"@
                } else {
                    match grids[0] {
                        Option::None => {
                            &&& !v.success
                            &&& v.decoded_content is None
                            &&& !v.content_match
                            &&& v.error matches Some(m) && m@
                                == "Decode error: unreadable symbol"@
                        },
                        Option::Some(text) => {
                            let matched = spec_trim(text) == spec_trim(content);
                            &&& v.success == matched
                            &&& v.decoded_content matches Some(d) && d@ == text
                            &&& v.content_match == matched
                            &&& if matched {
                                v.error is None
                            } else {
                                v.error matches Some(m) && m@ == "Content mismatch"@
                            }
                        },
                    }
                }
            },
        },
    }
}

/// Validation is a pure function of the row, payload and image data: two
/// verdicts for the same inputs agree in every observable field.
pub proof fn lemma_validate_deterministic(
    row: int,
    content: Seq<char>,
    data: Seq<char>,
    v1: BatchValidationResult,
    v2: BatchValidationResult,
)
    requires
        verdict_for(row, content, data, v1),
        verdict_for(row, content, data, v2),
    ensures
        v1.row == v2.row,
        v1.success == v2.success,
        v1.content_match == v2.content_match,
        v1.decoded_content is Some <==> v2.decoded_content is Some,
        v1.decoded_content matches Some(d1) ==> v2.decoded_content matches Some(d2) && d1@ == d2@,
        v1.error is Some <==> v2.error is Some,
        v1.error matches Some(m1) ==> v2.error matches Some(m2) && m1@ == m2@,
{
}

/// Validate one rendered batch item against its intended payload.
/// Never fails: every decode problem degrades to an error verdict.
pub fn validate_single_item(item: &BatchGenerateItem) -> (v: BatchValidationResult)
    ensures
        verdict_for(item.row as int, item.content@, item.image_data@, v),
{
    let base64_data = strip_data_url_prefix(item.image_data.as_str());
    let image_bytes = match decode_base64(base64_data) {
        Ok(b) => b,
        Err(e) => {
            return BatchValidationResult {
                row: item.row,
                success: false,
                decoded_content: None,
                content_match: false,
                error: Some(String::from_str("Failed to decode base64: ").concat(e.as_str())),
            };
        },
    };
    let grids = match scan_qr_image(&image_bytes) {
        Ok(g) => g,
        Err(e) => {
            return BatchValidationResult {
                row: item.row,
                success: false,
                decoded_content: None,
                content_match: false,
                error: Some(String::from_str("Failed to decode image: ").concat(e.as_str())),
            };
        },
    };
    if grids.len() == 0 {
        return BatchValidationResult {
            row: item.row,
            success: false,
            decoded_content: None,
            content_match: false,
            error: Some("No QR code detected".to_string()),
        };
    }
    proof {
        assert(grids.deep_view()[0] == grids@[0].deep_view());
    }
    match &grids[0] {
        Option::None => BatchValidationResult {
            row: item.row,
            success: false,
            decoded_content: None,
            content_match: false,
            error: Some("Decode error: unreadable symbol".to_string()),
        },
        Option::Some(text) => {
            let matched = str_eq(trim_str(text.as_str()), trim_str(item.content.as_str()));
            BatchValidationResult {
                row: item.row,
                success: matched,
                decoded_content: Some(text.clone()),
                content_match: matched,
                error: if matched {
                    None
                } else {
                    Some("Content mismatch".to_string())
                },
            }
        },
    }
}

/// Validate a batch of rendered items, one verdict per item, in input order.
pub fn batch_validate(items: Vec<BatchGenerateItem>) -> (r: Result<
    Vec<BatchValidationResult>,
    String,
>)
    ensures
        r is Ok,
        r matches Ok(v) ==> v@.len() == items@.len() && forall|i: int|
            0 <= i < items@.len() ==> verdict_for(
                items@[i].row as int,
                items@[i].content@,
                items@[i].image_data@,
                #[trigger] v@[i],
            ),
{
    let mut results: Vec<BatchValidationResult> = Vec::new();
    let n = items.len();
    let mut i: usize = 0;
    while i < n
        invariant
            i <= n,
            n == items@.len(),
            results@.len() == i,
            forall|j: int|
                0 <= j < i ==> verdict_for(
                    items@[j].row as int,
                    items@[j].content@,
                    items@[j].image_data@,
                    #[trigger] results@[j],
                ),
        decreases n - i,
    {
        let result = validate_single_item(&items[i]);
        results.push(result);
        i += 1;
    }
    Ok(results)
}

/// Round-trip law: when the pipeline decodes the image and recovers text
/// equal to the expected payload up to boundary whitespace, the verdict is a
/// pass and carries exactly the decoded text.
pub proof fn lemma_validate_round_trip(
    row: int,
    content: Seq<char>,
    data: Seq<char>,
    v: BatchValidationResult,
)
    requires
        verdict_for(row, content, data, v),
        ({
            let b = b64_of(spec_strip(data));
            b is Ok && {
                let g = qr_scan_of(b->Ok_0);
                g is Ok && g->Ok_0.len() > 0 && g->Ok_0[0] is Some && spec_trim(
                    g->Ok_0[0].unwrap(),
                ) == spec_trim(content)
            }
        }),
    ensures
        v.success,
        v.content_match,
        v.error is None,
        v.decoded_content matches Some(d) && d@ == qr_scan_of(
            b64_of(spec_strip(data))->Ok_0,
        )->Ok_0[0].unwrap(),
{
}

/// The single-image verdict owed for expected payload `content` once the
/// pixel pipeline has yielded the grid outcomes `grids`.
pub open spec fn validation_outcome(
    content: Seq<char>,
    grids: Seq<Option<Seq<char>>>,
    v: ValidationResult,
) -> bool {
    if grids.len() == 0 {
        &&& v.state@ == "fail"@
        &&& v.decoded_content is None
        &&& !v.content_match
        &&& v.message@ == "No QR code detected in image"@
        &&& v.suggestions.deep_view() == seq![
            "Increase error correction level to H"@,
            "Reduce logo size if using one"@,
            "Ensure sufficient contrast between colors"@,
        ]
    } else {
        match grids[0] {
            Option::None => {
                &&& v.state@ == "warn"@
                &&& v.decoded_content is None
                &&& !v.content_match
                &&& v.message@ == "QR code detected but decode was unreliable"@
                &&& v.suggestions.deep_view() == seq![
                    "Increase error correction level"@,
                    "Reduce customization complexity"@,
                    "Ensure logo doesn't cover critical areas"@,
                ]
            },
            Option::Some(text) => {
                let matched = spec_trim(text) == spec_trim(content);
                &&& v.decoded_content matches Some(d) && d@ == text
                &&& v.content_match == matched
                &&& if matched {
                    &&& v.state@ == "pass"@
                    &&& v.message@ == "QR code scans correctly"@
                    &&& v.suggestions.deep_view() == Seq::<Seq<char>>::empty()
                } else {
                    &&& v.state@ == "warn"@
                    &&& v.message@ == "Decoded content differs from expected"@
                    &&& v.suggestions.deep_view() == seq!["Verify the QR content is correct"@]
                }
            },
        }
    }
}

/// The single-image verdict owed for expected payload `content` and image
/// transport data `data`: decode-input failures are fail verdicts of their
/// own, distinguishable by message from an undetectable code.
pub open spec fn qr_validation_for(
    content: Seq<char>,
    data: Seq<char>,
    v: ValidationResult,
) -> bool {
    match b64_of(spec_strip(data)) {
        Result::Err(t) => {
            &&& v.state@ == "fail"@
            &&& v.decoded_content is None
            &&& !v.content_match
            &&& v.message@ == "Failed to decode base64: "@ + t
            &&& v.suggestions.deep_view() == Seq::<Seq<char>>::empty()
        },
        Result::Ok(bytes) => match qr_scan_of(bytes) {
            Result::Err(t) => {
                &&& v.state@ == "fail"@
                &&& v.decoded_content is None
                &&& !v.content_match
                &&& v.message@ == "Failed to decode image: "@ + t
                &&& v.suggestions.deep_view() == Seq::<Seq<char>>::empty()
            },
            Result::Ok(grids) => validation_outcome(content, grids, v),
        },
    }
}

/// Validate a QR image (base64 transport form) against the expected content.
/// Never fails: a transport or container decode problem is itself a fail
/// verdict whose message names the decode failure.
pub fn validate_qr(image_data: String, expected_content: String) -> (r: Result<
    ValidationResult,
    String,
>)
    ensures
        r is Ok,
        r matches Ok(v) ==> qr_validation_for(expected_content@, image_data@, v),
{
    let base64_data = strip_data_url_prefix(image_data.as_str());
    let image_bytes = match decode_base64(base64_data) {
        Ok(b) => b,
        Err(e) => {
            let empty: Vec<String> = Vec::new();
            proof {
                assert(empty.deep_view() =~= Seq::<Seq<char>>::empty());
            }
            return Ok(ValidationResult {
                state: "fail".to_string(),
                decoded_content: None,
                content_match: false,
                message: String::from_str("Failed to decode base64: ").concat(e.as_str()),
                suggestions: empty,
            });
        },
    };
    let grids = match scan_qr_image(&image_bytes) {
        Ok(g) => g,
        Err(e) => {
            let empty: Vec<String> = Vec::new();
            proof {
                assert(empty.deep_view() =~= Seq::<Seq<char>>::empty());
            }
            return Ok(ValidationResult {
                state: "fail".to_string(),
                decoded_content: None,
                content_match: false,
                message: String::from_str("Failed to decode image: ").concat(e.as_str()),
                suggestions: empty,
            });
        },
    };
    if grids.len() == 0 {
        let suggestions = vec![
            "Increase error correction level to H".to_string(),
            "Reduce logo size if using one".to_string(),
            "Ensure sufficient contrast between colors".to_string(),
        ];
        proof {
            assert(suggestions.deep_view() =~= seq![
                "Increase error correction level to H"@,
                "Reduce logo size if using one"@,
                "Ensure sufficient contrast between colors"@,
            ]);
        }
        return Ok(ValidationResult {
            state: "fail".to_string(),
            decoded_content: None,
            content_match: false,
            message: "No QR code detected in image".to_string(),
            suggestions,
        });
    }
    proof {
        assert(grids.deep_view()[0] == grids@[0].deep_view());
    }
    match &grids[0] {
        Option::None => {
            let suggestions = vec![
                "Increase error correction level".to_string(),
                "Reduce customization complexity".to_string(),
                "Ensure logo doesn't cover critical areas".to_string(),
            ];
            proof {
                assert(suggestions.deep_view() =~= seq![
                    "Increase error correction level"@,
                    "Reduce customization complexity"@,
                    "Ensure logo doesn't cover critical areas"@,
                ]);
            }
            Ok(ValidationResult {
                state: "warn".to_string(),
                decoded_content: None,
                content_match: false,
                message: "QR code detected but decode was unreliable".to_string(),
                suggestions,
            })
        },
        Option::Some(text) => {
            let matched = str_eq(trim_str(text.as_str()), trim_str(expected_content.as_str()));
            if matched {
                let suggestions: Vec<String> = Vec::new();
                proof {
                    assert(suggestions.deep_view() =~= Seq::<Seq<char>>::empty());
                }
                Ok(ValidationResult {
                    state: "pass".to_string(),
                    decoded_content: Some(text.clone()),
                    content_match: true,
                    message: "QR code scans correctly".to_string(),
                    suggestions,
                })
            } else {
                let suggestions = vec!["Verify the QR content is correct".to_string()];
                proof {
                    assert(suggestions.deep_view() =~= seq!["Verify the QR content is correct"@]);
                }
                Ok(ValidationResult {
                    state: "warn".to_string(),
                    decoded_content: Some(text.clone()),
                    content_match: false,
                    message: "Decoded content differs from expected".to_string(),
                    suggestions,
                })
            }
        },
    }
}

/// The scan outcome owed once the pixel pipeline has yielded `grids`.
pub open spec fn scan_outcome(grids: Seq<Option<Seq<char>>>, r: ScanResult) -> bool {
    if grids.len() == 0 {
        &&& !r.success
        &&& r.content is None
        &&& r.qr_type is None
        &&& r.error matches Some(m) && m@ == "No QR code found in image"@
    } else {
        match grids[0] {
            Option::None => {
                &&& !r.success
                &&& r.content is None
                &&& r.qr_type is None
                &&& r.error matches Some(m) && m@ == "Failed to decode QR: unreadable symbol"@
            },
            Option::Some(text) => {
                &&& r.success
                &&& r.content matches Some(c) && c@ == text
                &&& r.qr_type matches Some(t) && t@ == spec_classify(text)
                &&& r.error is None
            },
        }
    }
}

/// Scan raw image bytes for a QR payload and classify what was found.
/// Fails exactly when the bytes are not a decodable image.
pub fn scan_qr_bytes(image_bytes: &Vec<u8>) -> (r: Result<ScanResult, String>)
    ensures
        r is Ok <==> qr_scan_of(image_bytes@) is Ok,
        r matches Ok(s) ==> qr_scan_of(image_bytes@) matches Ok(g) && scan_outcome(g, s),
        r matches Err(m) ==> qr_scan_of(image_bytes@) matches Err(t) && m@ == "Failed to decode image: "@
            + t,
{
    let grids = match scan_qr_image(image_bytes) {
        Ok(g) => g,
        Err(e) => {
            return Err(String::from_str("Failed to decode image: ").concat(e.as_str()));
        },
    };
    if grids.len() == 0 {
        return Ok(ScanResult {
            success: false,
            content: None,
            qr_type: None,
            error: Some("No QR code found in image".to_string()),
        });
    }
    proof {
        assert(grids.deep_view()[0] == grids@[0].deep_view());
    }
    match &grids[0] {
        Option::None => Ok(ScanResult {
            success: false,
            content: None,
            qr_type: None,
            error: Some("Failed to decode QR: unreadable symbol".to_string()),
        }),
        Option::Some(text) => {
            let qr_type = detect_qr_type(text.as_str());
            Ok(ScanResult {
                success: true,
                content: Some(text.clone()),
                qr_type: Some(qr_type),
                error: None,
            })
        },
    }
}

/// Scan a QR image in base64 transport form.
/// Fails exactly when the transport or the image container cannot be decoded.
pub fn scan_qr_from_data(image_data: String) -> (r: Result<ScanResult, String>)
    ensures
        ({
            let decoded = b64_of(spec_strip(image_data@));
            match decoded {
                Result::Err(t) => r matches Err(m) && m@ == "Failed to decode base64: "@ + t,
                Result::Ok(bytes) => match qr_scan_of(bytes) {
                    Result::Err(t) => r matches Err(m) && m@ == "Failed to decode image: "@ + t,
                    Result::Ok(grids) => r matches Ok(s) && scan_outcome(grids, s),
                },
            }
        }),
{
    let base64_data = strip_data_url_prefix(image_data.as_str());
    let image_bytes = match decode_base64(base64_data) {
        Ok(b) => b,
        Err(e) => {
            return Err(String::from_str("Failed to decode base64: ").concat(e.as_str()));
        },
    };
    scan_qr_bytes(&image_bytes)
}

} // verus!
