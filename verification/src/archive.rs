//! Archive assembly: per-item entry naming with filesystem-safe labels, and
//! deflate-compressed packaging of rendered images with optional validation.

use vstd::prelude::*;

use crate::b64::{b64_of, decode_base64};
use crate::export::{spec_strip, strip_data_url_prefix};
use crate::text::{digit_char, digits_value, is_digit, lemma_decimal_len, lemma_pad3_digits,
    lemma_pad3_value, pad3, push_decimal, spec_decimal, spec_pad3};
use crate::validate::{validate_single_item, verdict_for, BatchGenerateItem, BatchValidationResult};

verus! {

/// Terminal outcome of one batch archive run.
#[derive(Debug, Clone)]
pub struct BatchGenerateResult {
    pub success: bool,
    pub zip_path: Option<String>,
    pub validation_results: Vec<BatchValidationResult>,
    pub error: Option<String>,
}

/// A character that may stand in an archive entry name unchanged:
/// ASCII alphanumerics, '-', '_' and '.'.
pub open spec fn keep_char(c: char) -> bool {
    ||| 48 <= c as u32 <= 57
    ||| 65 <= c as u32 <= 90
    ||| 97 <= c as u32 <= 122
    ||| c == '-'
    ||| c == '_'
    ||| c == '.'
}

/// The sanitized form of a label character.
pub open spec fn sanitize_char(c: char) -> char {
    if keep_char(c) {
        c
    } else {
        '_'
    }
}

/// The sanitized label: every unsafe character replaced by '_', truncated to
/// 50 characters.
pub open spec fn spec_sanitize(s: Seq<char>) -> Seq<char> {
    let m = s.map_values(|c: char| sanitize_char(c));
    if m.len() <= 50 {
        m
    } else {
        m.subrange(0, 50)
    }
}

fn exec_sanitize_char(c: char) -> (r: char)
    ensures
        r == sanitize_char(c),
{
    let u = c as u32;
    if (48 <= u && u <= 57) || (65 <= u && u <= 90) || (97 <= u && u <= 122) || c == '-' || c == '_'
        || c == '.' {
        c
    } else {
        '_'
    }
}

/// Map a label to a filesystem-safe entry-name fragment: characters outside
/// ASCII alphanumerics and '-', '_', '.' become '_'; at most 50 characters.
pub fn sanitize_filename(s: &str) -> (r: String)
    ensures
        r@ == spec_sanitize(s@),
{
    let n = s.unicode_len();
    let limit = if n <= 50 {
        n
    } else {
        50
    };
    let mut out = String::new();
    let mut i: usize = 0;
    while i < limit
        invariant
            i <= limit <= n,
            n == s@.len(),
            limit == if n <= 50 {
                n as int
            } else {
                50
            },
            out@ == s@.subrange(0, i as int).map_values(|c: char| sanitize_char(c)),
        decreases limit - i,
    {
        out.push(exec_sanitize_char(s.get_char(i)));
        proof {
            assert(s@.subrange(0, i + 1).map_values(|c: char| sanitize_char(c)) =~= s@.subrange(
                0,
                i as int,
            ).map_values(|c: char| sanitize_char(c)).push(sanitize_char(s@[i as int])));
        }
        i += 1;
    }
    proof {
        if n <= 50 {
            assert(s@.subrange(0, n as int) =~= s@);
        } else {
            assert(s@.subrange(0, 50).map_values(|c: char| sanitize_char(c)) =~= s@.map_values(
                |c: char| sanitize_char(c),
            ).subrange(0, 50));
        }
    }
    out
}

/// The archive entry name owed for a row: the zero-padded row index, an
/// underscore, the sanitized label (or "qr" without one), and ".png".
pub open spec fn spec_entry_name(row: nat, label: Option<Seq<char>>) -> Seq<char> {
    spec_pad3(row) + "_"@ + (match label {
        Some(l) => spec_sanitize(l),
        None => "qr"@,
    }) + ".png"@
}

/// Build the archive entry name for one row.
pub fn entry_filename(row: usize, label: &Option<String>) -> (r: String)
    ensures
        r@ == spec_entry_name(row as nat, label.deep_view()),
{
    let mut out = pad3(row);
    out.append("_");
    match label {
        Some(l) => {
            let s = sanitize_filename(l.as_str());
            out.append(s.as_str());
        },
        None => {
            out.append("qr");
        },
    }
    out.append(".png");
    out
}

/// An entry name for a machine-word row is at most 75 characters long.
pub proof fn lemma_entry_name_len(row: nat, label: Option<Seq<char>>)
    requires
        row <= usize::MAX,
    ensures
        spec_entry_name(row, label).len() <= 75,
{
    reveal_strlit("_");
    reveal_strlit(".png");
    reveal_strlit("qr");
    lemma_decimal_len(row);
    if row < 10 {
        assert(spec_decimal(row).len() == 1);
    } else if row < 100 {
        assert(spec_decimal(row) == spec_decimal(row / 10).push(digit_char((row % 10) as int)));
        assert(spec_decimal(row / 10).len() == 1);
    }
    assert(spec_pad3(row).len() <= 20);
    match label {
        Some(l) => {
            assert(spec_sanitize(l).len() <= 50);
        },
        None => {},
    }
}

/// Entry names are injective in the row index: rows differ, names differ,
/// whatever the labels are.
pub proof fn lemma_entry_name_injective(
    r1: nat,
    l1: Option<Seq<char>>,
    r2: nat,
    l2: Option<Seq<char>>,
)
    requires
        r1 != r2,
    ensures
        spec_entry_name(r1, l1) != spec_entry_name(r2, l2),
{
    reveal_strlit("_");
    reveal_strlit(".png");
    reveal_strlit("qr");
    let p1 = spec_pad3(r1);
    let p2 = spec_pad3(r2);
    lemma_pad3_digits(r1);
    lemma_pad3_digits(r2);
    let n1 = spec_entry_name(r1, l1);
    let n2 = spec_entry_name(r2, l2);
    assert("_"@.len() == 1 && "_"@[0] == '_');
    assert(forall|i: int| 0 <= i < p1.len() ==> n1[i] == p1[i]);
    assert(forall|i: int| 0 <= i < p2.len() ==> n2[i] == p2[i]);
    assert(n1[p1.len() as int] == '_');
    assert(n2[p2.len() as int] == '_');
    if n1 == n2 {
        if p1.len() == p2.len() {
            assert(p1 =~= p2);
            lemma_pad3_value(r1);
            lemma_pad3_value(r2);
            assert(digits_value(p1) == r1 && digits_value(p2) == r2);
            assert(false);
        } else if p1.len() < p2.len() {
            assert(n1[p1.len() as int] == n2[p1.len() as int]);
            assert(n2[p1.len() as int] == p2[p1.len() as int]);
            assert(is_digit(p2[p1.len() as int]));
            assert(false);
        } else {
            assert(n2[p2.len() as int] == n1[p2.len() as int]);
            assert(n1[p2.len() as int] == p1[p2.len() as int]);
            assert(is_digit(p1[p2.len() as int]));
            assert(false);
        }
    }
}

/// Archive naming law: items with pairwise distinct row indices get pairwise
/// distinct entry names, so an archive of N items holds N entries.
pub proof fn lemma_entry_names_unique(items: Seq<BatchGenerateItem>)
    requires
        forall|i: int, j: int|
            0 <= i < j < items.len() ==> #[trigger] items[i].row != #[trigger] items[j].row,
    ensures
        forall|i: int, j: int|
            0 <= i < j < items.len() ==> spec_entry_name(
                #[trigger] items[i].row as nat,
                items[i].label.deep_view(),
            ) != spec_entry_name(#[trigger] items[j].row as nat, items[j].label.deep_view()),
{
    assert forall|i: int, j: int| 0 <= i < j < items.len() implies spec_entry_name(
        #[trigger] items[i].row as nat,
        items[i].label.deep_view(),
    ) != spec_entry_name(#[trigger] items[j].row as nat, items[j].label.deep_view()) by {
        lemma_entry_name_injective(
            items[i].row as nat,
            items[i].label.deep_view(),
            items[j].row as nat,
            items[j].label.deep_view(),
        );
    }
}

/// The archive entry names for a batch, in item order.
pub fn archive_entry_names(items: &Vec<BatchGenerateItem>) -> (r: Vec<String>)
    ensures
        r@.len() == items@.len(),
        forall|i: int|
            0 <= i < items@.len() ==> #[trigger] r@[i]@ == spec_entry_name(
                items@[i].row as nat,
                items@[i].label.deep_view(),
            ),
{
    let mut out: Vec<String> = Vec::new();
    let n = items.len();
    let mut i: usize = 0;
    while i < n
        invariant
            i <= n,
            n == items@.len(),
            out@.len() == i,
            forall|j: int|
                0 <= j < i ==> #[trigger] out@[j]@ == spec_entry_name(
                    items@[j].row as nat,
                    items@[j].label.deep_view(),
                ),
        decreases n - i,
    {
        let name = entry_filename(items[i].row, &items[i].label);
        out.push(name);
        i += 1;
    }
    out
}

/// An in-memory deflate archive under construction.
#[verifier::external_body]
pub struct ArchiveSink {
    inner: zip::ZipWriter<std::io::Cursor<Vec<u8>>>,
}

/// The entries (name, uncompressed bytes) written to the archive so far, in
/// write order.
pub uninterp spec fn sink_entries(z: ArchiveSink) -> Seq<(Seq<char>, Seq<u8>)>;

/// Relies on zip::ZipWriter::new over an in-memory cursor: a fresh archive
/// holds no entries.
#[verifier::external_body]
fn sink_new() -> (z: ArchiveSink)
    ensures
        sink_entries(z) == Seq::<(Seq<char>, Seq<u8>)>::empty(),
{
    ArchiveSink { inner: zip::ZipWriter::new(std::io::Cursor::new(Vec::new())) }
}

/// Relies on zip::ZipWriter::start_file and the writer's Write::write_all
/// over the in-memory cursor: on success the archive holds exactly one more
/// entry, with this name and these bytes, deflate-compressed at a fixed
/// moderate level. Writing to memory, the only failure paths are a duplicate
/// entry name, a name too long for the format's 16-bit length field, or more
/// data bytes than the format's 32-bit entry limit, so the call succeeds
/// whenever those are excluded (the name-length condition keeps its UTF-8
/// form within the field for any characters).
#[verifier::external_body]
fn sink_add(z: &mut ArchiveSink, name: &str, data: &Vec<u8>) -> (r: Result<(), String>)
    ensures
        r is Ok ==> sink_entries(*final(z)) == sink_entries(*old(z)).push((name@, data@)),
        (forall|j: int|
            0 <= j < sink_entries(*old(z)).len() ==> #[trigger] sink_entries(*old(z))[j].0
                != name@) && name@.len() <= 0x3fff && data@.len() <= 0xffff_ffff ==> r is Ok,
{
    let options = zip::write::SimpleFileOptions::default()
        .compression_method(zip::CompressionMethod::Deflated)
        .compression_level(Some(6));
    if let Err(e) = z.inner.start_file(name, options) {
        return Err(format!("{}", e));
    }
    if let Err(e) = std::io::Write::write_all(&mut z.inner, data) {
        return Err(format!("{}", e));
    }
    Ok(())
}

/// Relies on zip::ZipWriter::finish: writes the archive's central directory
/// and hands back the in-memory buffer holding the complete archive bytes.
/// All writes go to the cursor's memory, so the call succeeds.
#[verifier::external_body]
fn sink_finish(z: ArchiveSink) -> (r: Result<Vec<u8>, String>)
    ensures
        r is Ok,
{
    match z.inner.finish() {
        Ok(c) => Ok(c.into_inner()),
        Err(e) => Err(format!("{}", e)),
    }
}

/// The archive entries owed for the first `k` items: each item's entry name
/// paired with its decoded image bytes, in item order.
pub open spec fn spec_entries(items: Seq<BatchGenerateItem>, k: int) -> Seq<(Seq<char>, Seq<u8>)>
    decreases k,
{
    if k <= 0 || k > items.len() {
        Seq::empty()
    } else {
        spec_entries(items, k - 1).push(
            (
                spec_entry_name(items[k - 1].row as nat, items[k - 1].label.deep_view()),
                b64_of(spec_strip(items[k - 1].image_data@))->Ok_0,
            ),
        )
    }
}

proof fn lemma_spec_entries_structure(items: Seq<BatchGenerateItem>, k: int)
    requires
        0 <= k <= items.len(),
    ensures
        spec_entries(items, k).len() == k,
        forall|j: int|
            0 <= j < k ==> #[trigger] spec_entries(items, k)[j] == (
                spec_entry_name(items[j].row as nat, items[j].label.deep_view()),
                b64_of(spec_strip(items[j].image_data@))->Ok_0,
            ),
    decreases k,
{
    if k > 0 {
        lemma_spec_entries_structure(items, k - 1);
    }
}

/// Every item's row index is unique in the batch.
pub open spec fn rows_distinct(items: Seq<BatchGenerateItem>) -> bool {
    forall|i: int, j: int|
        0 <= i < j < items.len() ==> #[trigger] items[i].row != #[trigger] items[j].row
}

/// Every item's transport data decodes, and the decoded image fits the
/// archive format's 32-bit entry limit.
pub open spec fn all_items_archivable(items: Seq<BatchGenerateItem>) -> bool {
    forall|i: int|
        0 <= i < items.len() ==> (b64_of(spec_strip(#[trigger] items[i].image_data@)) matches Ok(b)
            && b.len() <= 0xffff_ffff)
}

/// The first item whose transport data does not decode, or the item count.
pub open spec fn first_undecodable(items: Seq<BatchGenerateItem>, k: int) -> int
    decreases items.len() - k,
{
    if k < 0 || k >= items.len() {
        items.len() as int
    } else if b64_of(spec_strip(items[k].image_data@)) is Err {
        k
    } else {
        first_undecodable(items, k + 1)
    }
}

proof fn lemma_first_undecodable_bounds(items: Seq<BatchGenerateItem>, k: int)
    requires
        0 <= k <= items.len(),
    ensures
        k <= first_undecodable(items, k) <= items.len(),
    decreases items.len() - k,
{
    if k < items.len() && !(b64_of(spec_strip(items[k].image_data@)) is Err) {
        lemma_first_undecodable_bounds(items, k + 1);
    }
}

proof fn lemma_first_undecodable_skip(items: Seq<BatchGenerateItem>, k: int, i: int)
    requires
        0 <= k <= i <= items.len(),
        forall|j: int| k <= j < i ==> b64_of(spec_strip(#[trigger] items[j].image_data@)) is Ok,
    ensures
        first_undecodable(items, k) >= i,
        i < items.len() && b64_of(spec_strip(items[i].image_data@)) is Err ==> first_undecodable(
            items,
            k,
        ) == i,
    decreases i - k,
{
    if k < i {
        lemma_first_undecodable_skip(items, k + 1, i);
    } else {
        lemma_first_undecodable_bounds(items, k);
    }
}

/// Assembled archive of one batch: its bytes, the entry names in write order,
/// the per-item verdicts, and the entry list the archive was built from.
pub struct ArchiveBuild {
    pub bytes: Vec<u8>,
    pub entry_names: Vec<String>,
    pub verdicts: Vec<BatchValidationResult>,
    pub entries: Ghost<Seq<(Seq<char>, Seq<u8>)>>,
}

/// Assemble the archive for a batch of rendered items, in input order,
/// optionally validating each item first. Validation verdicts never stop the
/// build; an undecodable image aborts it whole, naming the first failing
/// row. With decodable transport on every item, pairwise distinct rows, and
/// images within the format's entry limit, the build succeeds.
pub fn build_archive(items: &Vec<BatchGenerateItem>, validate: bool) -> (r: Result<
    ArchiveBuild,
    String,
>)
    ensures
        r matches Ok(out) ==> {
            &&& out.entry_names@.len() == items@.len()
            &&& forall|i: int|
                0 <= i < items@.len() ==> #[trigger] out.entry_names@[i]@ == spec_entry_name(
                    items@[i].row as nat,
                    items@[i].label.deep_view(),
                )
            &&& out.entries@ == spec_entries(items@, items@.len() as int)
            &&& validate ==> out.verdicts@.len() == items@.len() && forall|i: int|
                0 <= i < items@.len() ==> verdict_for(
                    items@[i].row as int,
                    items@[i].content@,
                    items@[i].image_data@,
                    #[trigger] out.verdicts@[i],
                )
            &&& !validate ==> out.verdicts@.len() == 0
            &&& forall|i: int|
                0 <= i < items@.len() ==> b64_of(
                    spec_strip(#[trigger] items@[i].image_data@),
                ) is Ok
        },
        all_items_archivable(items@) && rows_distinct(items@) ==> r is Ok,
        (exists|i: int|
            0 <= i < items@.len() && b64_of(
                spec_strip(#[trigger] items@[i].image_data@),
            ) is Err) ==> r is Err,
        ({
            let f = first_undecodable(items@, 0);
            &&& f < items@.len()
            &&& rows_distinct(items@)
            &&& forall|i: int|
                0 <= i < f ==> (b64_of(spec_strip(#[trigger] items@[i].image_data@)) matches Ok(
                    b,
                ) && b.len() <= 0xffff_ffff)
        }) ==> ({
            let f = first_undecodable(items@, 0);
            r matches Err(m) && b64_of(spec_strip(items@[f].image_data@)) matches Err(t) && m@
                == "Failed to decode image for row "@ + spec_decimal(items@[f].row as nat) + ": "@
                + t
        }),
{
    let mut sink = sink_new();
    let mut verdicts: Vec<BatchValidationResult> = Vec::new();
    let mut names: Vec<String> = Vec::new();
    let n = items.len();
    let mut i: usize = 0;
    proof {
        assert(sink_entries(sink) =~= spec_entries(items@, 0));
    }
    while i < n
        invariant
            i <= n,
            n == items@.len(),
            sink_entries(sink) == spec_entries(items@, i as int),
            names@.len() == i,
            forall|j: int|
                0 <= j < i ==> #[trigger] names@[j]@ == spec_entry_name(
                    items@[j].row as nat,
                    items@[j].label.deep_view(),
                ),
            forall|j: int| 0 <= j < i ==> b64_of(spec_strip(#[trigger] items@[j].image_data@)) is Ok,
            validate ==> verdicts@.len() == i && forall|j: int|
                0 <= j < i ==> verdict_for(
                    items@[j].row as int,
                    items@[j].content@,
                    items@[j].image_data@,
                    #[trigger] verdicts@[j],
                ),
            !validate ==> verdicts@.len() == 0,
        decreases n - i,
    {
        let item = &items[i];
        if validate {
            let verdict = validate_single_item(item);
            verdicts.push(verdict);
        }
        let base64_data = strip_data_url_prefix(item.image_data.as_str());
        let image_bytes = match decode_base64(base64_data) {
            Ok(b) => b,
            Err(e) => {
                proof {
                    lemma_first_undecodable_skip(items@, 0, i as int);
                }
                let mut msg = String::from_str("Failed to decode image for row ");
                push_decimal(&mut msg, item.row);
                msg.append(": ");
                msg.append(e.as_str());
                return Err(msg);
            },
        };
        let name = entry_filename(item.row, &item.label);
        proof {
            lemma_spec_entries_structure(items@, i as int);
            lemma_entry_name_len(item.row as nat, item.label.deep_view());
            lemma_first_undecodable_skip(items@, 0, i + 1);
            if rows_distinct(items@) {
                assert forall|j: int| 0 <= j < sink_entries(sink).len() implies #[trigger] sink_entries(
                    sink,
                )[j].0 != name@ by {
                    lemma_entry_name_injective(
                        items@[j].row as nat,
                        items@[j].label.deep_view(),
                        items@[i as int].row as nat,
                        items@[i as int].label.deep_view(),
                    );
                }
            }
        }
        if let Err(e) = sink_add(&mut sink, name.as_str(), &image_bytes) {
            let mut msg = String::from_str("Failed to add file to ZIP: ");
            msg.append(e.as_str());
            return Err(msg);
        }
        names.push(name);
        proof {
            assert(sink_entries(sink) == spec_entries(items@, i + 1));
        }
        i += 1;
    }
    proof {
        if first_undecodable(items@, 0) < items@.len() {
            lemma_first_undecodable_skip(items@, 0, n as int);
        }
    }
    let ghost built = sink_entries(sink);
    let bytes = match sink_finish(sink) {
        Ok(b) => b,
        Err(e) => {
            let mut msg = String::from_str("Failed to finalize ZIP: ");
            msg.append(e.as_str());
            return Err(msg);
        },
    };
    Ok(ArchiveBuild { bytes, entry_names: names, verdicts, entries: Ghost(built) })
}

/// Drive one batch run over already-rendered items: assemble the archive and
/// collect per-item verdicts. A fatal step yields a failed outcome carrying
/// one top-level error; otherwise the outcome carries the complete verdict
/// list, never a truncated one. Archivable items with distinct rows always
/// succeed. The caller stores the bytes and records the archive location.
pub fn run_batch(items: &Vec<BatchGenerateItem>, validate: bool) -> (r: (
    Option<Vec<u8>>,
    BatchGenerateResult,
))
    ensures
        r.1.success <==> r.0 is Some,
        r.1.zip_path is None,
        all_items_archivable(items@) && rows_distinct(items@) ==> r.1.success,
        r.1.success ==> {
            &&& r.1.error is None
            &&& validate ==> r.1.validation_results@.len() == items@.len() && forall|i: int|
                0 <= i < items@.len() ==> verdict_for(
                    items@[i].row as int,
                    items@[i].content@,
                    items@[i].image_data@,
                    #[trigger] r.1.validation_results@[i],
                )
            &&& !validate ==> r.1.validation_results@.len() == 0
        },
        !r.1.success ==> r.1.error is Some && r.1.validation_results@.len() == 0,
{
    match build_archive(items, validate) {
        Ok(out) => (
            Some(out.bytes),
            BatchGenerateResult {
                success: true,
                zip_path: None,
                validation_results: out.verdicts,
                error: None,
            },
        ),
        Err(e) => (
            None,
            BatchGenerateResult {
                success: false,
                zip_path: None,
                validation_results: Vec::new(),
                error: Some(e),
            },
        ),
    }
}

} // verus!
