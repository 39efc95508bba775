//! Table ingestion: a delimited-text tokenizer with standard quoting rules,
//! header lookup, and row-record construction with source-position numbering.

use vstd::prelude::*;

use crate::classify::{detect_qr_type, spec_classify};
use crate::text::{
    lower_seq, lower_str, push_decimal, spec_decimal, spec_trim, str_eq, trim_str,
};

verus! {

/// One ingested row: source-position index, payload, content type, optional label.
#[derive(Debug, Clone)]
pub struct BatchItem {
    pub row: usize,
    pub content: String,
    pub qr_type: String,
    pub label: Option<String>,
}

/// Outcome of one ingestion run: either all rows, or a row-level error report.
#[derive(Debug, Clone)]
pub struct BatchParseResult {
    pub success: bool,
    pub items: Vec<BatchItem>,
    pub error: Option<String>,
    pub total_rows: usize,
}

/// Mathematical image of a `BatchItem`.
pub ghost struct BatchItemView {
    pub row: int,
    pub content: Seq<char>,
    pub qr_type: Seq<char>,
    pub label: Option<Seq<char>>,
}

impl View for BatchItem {
    type V = BatchItemView;

    open spec fn view(&self) -> BatchItemView {
        BatchItemView {
            row: self.row as int,
            content: self.content@,
            qr_type: self.qr_type@,
            label: self.label.deep_view(),
        }
    }
}

/// Tokenizer position within a field.
#[derive(Debug, Clone, Copy, PartialEq, Eq, Structural)]
pub enum FieldState {
    /// At the start of a field.
    Start,
    /// Inside an unquoted field.
    Unquoted,
    /// Inside a quoted field.
    Quoted,
    /// Just after a quote character inside a quoted field.
    QuoteQuote,
}

/// The tokenization of the remaining input, given the parse position and the
/// field, record, and records accumulated so far. Fields are separated by
/// commas, records by line breaks; a quoted field may hold separators and
/// doubled quotes; a completely empty line yields no record. A stray character
/// after a closing quote, or an unclosed quote, is a structural error naming
/// the offending record's index.
pub open spec fn csv_parse_from(
    s: Seq<char>,
    i: int,
    st: FieldState,
    field: Seq<char>,
    rec: Seq<Seq<char>>,
    recs: Seq<Seq<Seq<char>>>,
) -> Result<Seq<Seq<Seq<char>>>, int>
    decreases s.len() - i,
{
    if i < 0 || i >= s.len() {
        match st {
            FieldState::Quoted => Err(recs.len() as int),
            FieldState::Start => if rec.len() == 0 {
                Ok(recs)
            } else {
                Ok(recs.push(rec.push(field)))
            },
            _ => Ok(recs.push(rec.push(field))),
        }
    } else {
        let c = s[i];
        match st {
            FieldState::Start => {
                if c == '"' {
                    csv_parse_from(s, i + 1, FieldState::Quoted, field, rec, recs)
                } else if c == ',' {
                    csv_parse_from(s, i + 1, FieldState::Start, Seq::empty(), rec.push(field), recs)
                } else if c == '\n' || c == '\r' {
                    let j = if c == '\r' && i + 1 < s.len() && s[i + 1] == '\n' {
                        i + 2
                    } else {
                        i + 1
                    };
                    if rec.len() == 0 {
                        csv_parse_from(s, j, FieldState::Start, field, rec, recs)
                    } else {
                        csv_parse_from(
                            s,
                            j,
                            FieldState::Start,
                            Seq::empty(),
                            Seq::empty(),
                            recs.push(rec.push(field)),
                        )
                    }
                } else {
                    csv_parse_from(s, i + 1, FieldState::Unquoted, field.push(c), rec, recs)
                }
            },
            FieldState::Unquoted => {
                if c == ',' {
                    csv_parse_from(s, i + 1, FieldState::Start, Seq::empty(), rec.push(field), recs)
                } else if c == '\n' || c == '\r' {
                    let j = if c == '\r' && i + 1 < s.len() && s[i + 1] == '\n' {
                        i + 2
                    } else {
                        i + 1
                    };
                    csv_parse_from(
                        s,
                        j,
                        FieldState::Start,
                        Seq::empty(),
                        Seq::empty(),
                        recs.push(rec.push(field)),
                    )
                } else {
                    csv_parse_from(s, i + 1, FieldState::Unquoted, field.push(c), rec, recs)
                }
            },
            FieldState::Quoted => {
                if c == '"' {
                    csv_parse_from(s, i + 1, FieldState::QuoteQuote, field, rec, recs)
                } else {
                    csv_parse_from(s, i + 1, FieldState::Quoted, field.push(c), rec, recs)
                }
            },
            FieldState::QuoteQuote => {
                if c == '"' {
                    csv_parse_from(s, i + 1, FieldState::Quoted, field.push('"'), rec, recs)
                } else if c == ',' {
                    csv_parse_from(s, i + 1, FieldState::Start, Seq::empty(), rec.push(field), recs)
                } else if c == '\n' || c == '\r' {
                    let j = if c == '\r' && i + 1 < s.len() && s[i + 1] == '\n' {
                        i + 2
                    } else {
                        i + 1
                    };
                    csv_parse_from(
                        s,
                        j,
                        FieldState::Start,
                        Seq::empty(),
                        Seq::empty(),
                        recs.push(rec.push(field)),
                    )
                } else {
                    Err(recs.len() as int)
                }
            },
        }
    }
}

/// The tokenization of a whole input: the records, or the index of the record
/// where quoting is malformed.
pub open spec fn spec_csv(s: Seq<char>) -> Result<Seq<Seq<Seq<char>>>, int> {
    csv_parse_from(s, 0, FieldState::Start, Seq::empty(), Seq::empty(), Seq::empty())
}

/// Tokenize delimited text into records of fields.
/// Fails with the index of the record whose quoting is malformed.
pub fn parse_csv_records(s: &str) -> (r: Result<Vec<Vec<String>>, usize>)
    ensures
        r matches Ok(recs) ==> spec_csv(s@) == Ok::<Seq<Seq<Seq<char>>>, int>(recs.deep_view()),
        r matches Err(k) ==> spec_csv(s@) == Err::<Seq<Seq<Seq<char>>>, int>(k as int) && k
            < usize::MAX,
{
    let n = s.unicode_len();
    let mut i: usize = 0;
    let mut st = FieldState::Start;
    let mut field = String::new();
    let mut rec: Vec<String> = Vec::new();
    let mut recs: Vec<Vec<String>> = Vec::new();
    proof {
        assert(field@ =~= Seq::<char>::empty());
        assert(rec.deep_view() =~= Seq::<Seq<char>>::empty());
        assert(recs.deep_view() =~= Seq::<Seq<Seq<char>>>::empty());
    }
    while i < n
        invariant
            i <= n,
            n == s@.len(),
            spec_csv(s@) == csv_parse_from(
                s@,
                i as int,
                st,
                field@,
                rec.deep_view(),
                recs.deep_view(),
            ),
            recs@.len() <= i,
            st != FieldState::Start ==> recs@.len() < i,
        decreases n - i,
    {
        let c = s.get_char(i);
        let ghost field0 = field@;
        let ghost rec0 = rec.deep_view();
        let ghost recs0 = recs.deep_view();
        match st {
            FieldState::Start => {
                if c == '"' {
                    st = FieldState::Quoted;
                    i += 1;
                } else if c == ',' {
                    rec.push(field);
                    field = String::new();
                    i += 1;
                    proof {
                        assert(rec.deep_view() =~= rec0.push(field0));
                    }
                } else if c == '\n' || c == '\r' {
                    let mut j = i + 1;
                    if c == '\r' && i + 1 < n && s.get_char(i + 1) == '\n' {
                        j = i + 2;
                    }
                    if rec.len() == 0 {
                        i = j;
                    } else {
                        rec.push(field);
                        field = String::new();
                        proof {
                            assert(rec.deep_view() =~= rec0.push(field0));
                        }
                        recs.push(rec);
                        rec = Vec::new();
                        proof {
                            assert(recs.deep_view() =~= recs0.push(rec0.push(field0)));
                            assert(rec.deep_view() =~= Seq::<Seq<char>>::empty());
                        }
                        i = j;
                    }
                } else {
                    field.push(c);
                    st = FieldState::Unquoted;
                    i += 1;
                }
            },
            FieldState::Unquoted => {
                if c == ',' {
                    rec.push(field);
                    field = String::new();
                    st = FieldState::Start;
                    i += 1;
                    proof {
                        assert(rec.deep_view() =~= rec0.push(field0));
                    }
                } else if c == '\n' || c == '\r' {
                    let mut j = i + 1;
                    if c == '\r' && i + 1 < n && s.get_char(i + 1) == '\n' {
                        j = i + 2;
                    }
                    rec.push(field);
                    field = String::new();
                    proof {
                        assert(rec.deep_view() =~= rec0.push(field0));
                    }
                    recs.push(rec);
                    rec = Vec::new();
                    st = FieldState::Start;
                    proof {
                        assert(recs.deep_view() =~= recs0.push(rec0.push(field0)));
                        assert(rec.deep_view() =~= Seq::<Seq<char>>::empty());
                    }
                    i = j;
                } else {
                    field.push(c);
                    i += 1;
                }
            },
            FieldState::Quoted => {
                if c == '"' {
                    st = FieldState::QuoteQuote;
                }
                if c != '"' {
                    field.push(c);
                }
                i += 1;
            },
            FieldState::QuoteQuote => {
                if c == '"' {
                    field.push('"');
                    st = FieldState::Quoted;
                    i += 1;
                } else if c == ',' {
                    rec.push(field);
                    field = String::new();
                    st = FieldState::Start;
                    i += 1;
                    proof {
                        assert(rec.deep_view() =~= rec0.push(field0));
                    }
                } else if c == '\n' || c == '\r' {
                    let mut j = i + 1;
                    if c == '\r' && i + 1 < n && s.get_char(i + 1) == '\n' {
                        j = i + 2;
                    }
                    rec.push(field);
                    field = String::new();
                    proof {
                        assert(rec.deep_view() =~= rec0.push(field0));
                    }
                    recs.push(rec);
                    rec = Vec::new();
                    st = FieldState::Start;
                    proof {
                        assert(recs.deep_view() =~= recs0.push(rec0.push(field0)));
                        assert(rec.deep_view() =~= Seq::<Seq<char>>::empty());
                    }
                    i = j;
                } else {
                    return Err(recs.len());
                }
            },
        }
    }
    match st {
        FieldState::Quoted => Err(recs.len()),
        FieldState::Start => {
            if rec.len() == 0 {
                Ok(recs)
            } else {
                let ghost field0 = field@;
                let ghost rec0 = rec.deep_view();
                let ghost recs0 = recs.deep_view();
                rec.push(field);
                proof {
                    assert(rec.deep_view() =~= rec0.push(field0));
                }
                recs.push(rec);
                proof {
                    assert(recs.deep_view() =~= recs0.push(rec0.push(field0)));
                }
                Ok(recs)
            }
        },
        _ => {
            let ghost field0 = field@;
            let ghost rec0 = rec.deep_view();
            let ghost recs0 = recs.deep_view();
            rec.push(field);
            proof {
                assert(rec.deep_view() =~= rec0.push(field0));
            }
            recs.push(rec);
            proof {
                assert(recs.deep_view() =~= recs0.push(rec0.push(field0)));
            }
            Ok(recs)
        },
    }
}

/// The first header column whose lowered name equals `name`, searching from `i`.
pub open spec fn find_col_from(hdr: Seq<Seq<char>>, name: Seq<char>, i: int) -> Option<int>
    decreases hdr.len() - i,
{
    if i < 0 || i >= hdr.len() {
        None
    } else if lower_seq(hdr[i]) == name {
        Some(i)
    } else {
        find_col_from(hdr, name, i + 1)
    }
}

/// The first header column whose lowered name equals `name`, if any.
pub open spec fn spec_find_col(hdr: Seq<Seq<char>>, name: Seq<char>) -> Option<int> {
    find_col_from(hdr, name, 0)
}

/// Case-insensitive lookup of a column name in the header record.
pub fn find_col(hdr: &Vec<String>, name: &str) -> (r: Option<usize>)
    ensures
        match r {
            Some(u) => spec_find_col(hdr.deep_view(), name@) == Some(u as int),
            None => spec_find_col(hdr.deep_view(), name@) is None,
        },
{
    let n = hdr.len();
    let mut i: usize = 0;
    while i < n
        invariant
            i <= n,
            n == hdr@.len(),
            spec_find_col(hdr.deep_view(), name@) == find_col_from(hdr.deep_view(), name@, i as int),
        decreases n - i,
    {
        let lowered = lower_str(hdr[i].as_str());
        if str_eq(lowered.as_str(), name) {
            proof {
                assert(hdr.deep_view()[i as int] == hdr@[i as int]@);
            }
            return Some(i);
        }
        proof {
            assert(hdr.deep_view()[i as int] == hdr@[i as int]@);
        }
        i += 1;
    }
    None
}

/// The cell of a record at an optional column index, if the record has it.
pub open spec fn cell_at(rec: Seq<Seq<char>>, idx: Option<int>) -> Option<Seq<char>> {
    match idx {
        Some(i) => if 0 <= i < rec.len() {
            Some(rec[i])
        } else {
            None
        },
        None => None,
    }
}

/// The row record owed for source record `rec` at 1-based data position `row`:
/// nothing when the trimmed content cell is empty; otherwise the trimmed
/// payload, the explicit (lowered) type or the classified one, and the
/// trimmed label when non-empty.
pub open spec fn spec_item_of(
    rec: Seq<Seq<char>>,
    row: int,
    ci: int,
    ti: Option<int>,
    li: Option<int>,
) -> Option<BatchItemView> {
    let content = spec_trim(
        if 0 <= ci < rec.len() {
            rec[ci]
        } else {
            Seq::empty()
        },
    );
    if content.len() == 0 {
        None
    } else {
        let qr_type = match cell_at(rec, ti) {
            Some(tc) => {
                let tt = spec_trim(tc);
                if tt.len() == 0 {
                    spec_classify(content)
                } else {
                    lower_seq(tt)
                }
            },
            None => spec_classify(content),
        };
        let label = match cell_at(rec, li) {
            Some(lc) => {
                let lt = spec_trim(lc);
                if lt.len() == 0 {
                    None
                } else {
                    Some(lt)
                }
            },
            None => None,
        };
        Some(BatchItemView { row, content, qr_type, label })
    }
}

/// The row records owed for the data records from position `k` on.
pub open spec fn spec_items_from(
    data: Seq<Seq<Seq<char>>>,
    k: int,
    ci: int,
    ti: Option<int>,
    li: Option<int>,
) -> Seq<BatchItemView>
    decreases data.len() - k,
{
    if k < 0 || k >= data.len() {
        Seq::empty()
    } else {
        let rest = spec_items_from(data, k + 1, ci, ti, li);
        match spec_item_of(data[k], k + 1, ci, ti, li) {
            Some(it) => seq![it] + rest,
            None => rest,
        }
    }
}

/// The row records owed for all data records.
pub open spec fn spec_items(
    data: Seq<Seq<Seq<char>>>,
    ci: int,
    ti: Option<int>,
    li: Option<int>,
) -> Seq<BatchItemView> {
    spec_items_from(data, 0, ci, ti, li)
}

/// The views of a sequence of row records.
pub open spec fn views_of(items: Seq<BatchItem>) -> Seq<BatchItemView> {
    items.map_values(|b: BatchItem| b@)
}

/// The whole ingestion contract: what `parse_csv_content` owes for `input`.
pub open spec fn parse_result_for(input: Seq<char>, r: Result<BatchParseResult, String>) -> bool {
    match spec_csv(input) {
        Err(k) => {
            if k == 0 {
                r matches Err(m) && "Failed to read CSV headers"@.is_prefix_of(m@)
            } else {
                r matches Ok(res) && {
                    &&& !res.success
                    &&& res.items@.len() == 0
                    &&& res.total_rows == 0
                    &&& res.error matches Some(m) && m@ == "Error at row "@ + spec_decimal(
                        (k + 1) as nat,
                    ) + ": malformed quoting"@
                }
            }
        },
        Ok(recs) => {
            if recs.len() == 0 || spec_find_col(recs[0], "content"@) is None {
                r matches Err(m) && m@ == "CSV must have a 'content' column"@
            } else {
                let ci = spec_find_col(recs[0], "content"@).unwrap();
                let ti = spec_find_col(recs[0], "type"@);
                let li = spec_find_col(recs[0], "label"@);
                let items = spec_items(recs.drop_first(), ci, ti, li);
                r matches Ok(res) && {
                    &&& res.success
                    &&& views_of(res.items@) == items
                    &&& res.total_rows == items.len()
                    &&& res.error is None
                }
            }
        },
    }
}

/// Build the row record for one data record, if its content cell is non-blank.
fn build_item(rec: &Vec<String>, row: usize, ci: usize, ti: Option<usize>, li: Option<usize>) -> (r:
    Option<BatchItem>)
    ensures
        ({
            let spec = spec_item_of(
                rec.deep_view(),
                row as int,
                ci as int,
                match ti {
                    Some(t) => Some(t as int),
                    None => None,
                },
                match li {
                    Some(l) => Some(l as int),
                    None => None,
                },
            );
            match r {
                Some(item) => spec == Some(item@),
                None => spec is None,
            }
        }),
{
    proof {
        assert(forall|j: int|
            0 <= j < rec@.len() ==> rec.deep_view()[j] == #[trigger] rec@[j].deep_view());
    }
    let content = if ci < rec.len() {
        trim_str(rec[ci].as_str()).to_string()
    } else {
        proof {
            assert(spec_trim(Seq::<char>::empty()) =~= Seq::<char>::empty());
        }
        String::new()
    };
    if content.as_str().unicode_len() == 0 {
        return None;
    }
    let qr_type = match ti {
        Some(t) if t < rec.len() => {
            let tt = trim_str(rec[t].as_str());
            if tt.unicode_len() == 0 {
                detect_qr_type(content.as_str())
            } else {
                lower_str(tt)
            }
        },
        _ => detect_qr_type(content.as_str()),
    };
    let label = match li {
        Some(l) if l < rec.len() => {
            let lt = trim_str(rec[l].as_str());
            if lt.unicode_len() == 0 {
                None
            } else {
                Some(lt.to_string())
            }
        },
        _ => None,
    };
    Some(BatchItem { row, content, qr_type, label })
}

/// Ingest a header-tagged table: a mandatory (case-insensitive) content
/// column, optional type and label columns; blank-content rows are skipped
/// but keep their source position; malformed quoting in a data record is
/// reported with its 1-based source row number, counting the header.
pub fn parse_csv_content(content: &str) -> (r: Result<BatchParseResult, String>)
    ensures
        parse_result_for(content@, r),
{
    let n = content.unicode_len();
    let recs = match parse_csv_records(content) {
        Ok(v) => v,
        Err(k) => {
            if k == 0 {
                let msg = "Failed to read CSV headers: malformed quoting".to_string();
                proof {
                    reveal_strlit("Failed to read CSV headers");
                    reveal_strlit("Failed to read CSV headers: malformed quoting");
                    assert(msg@.subrange(0, "Failed to read CSV headers"@.len() as int)
                        =~= "Failed to read CSV headers"@);
                }
                return Err(msg);
            }
            let mut msg = String::from_str("Error at row ");
            push_decimal(&mut msg, k + 1);
            msg.append(": malformed quoting");
            return Ok(BatchParseResult {
                success: false,
                items: Vec::new(),
                error: Some(msg),
                total_rows: 0,
            });
        },
    };
    if recs.len() == 0 {
        return Err("CSV must have a 'content' column".to_string());
    }
    proof {
        assert(recs.deep_view()[0] == recs@[0].deep_view());
    }
    let header = &recs[0];
    let ci = match find_col(header, "content") {
        Some(c) => c,
        None => {
            return Err("CSV must have a 'content' column".to_string());
        },
    };
    let ti = find_col(header, "type");
    let li = find_col(header, "label");
    let ghost gci = ci as int;
    let ghost gti: Option<int> = match ti {
        Some(t) => Some(t as int),
        None => None,
    };
    let ghost gli: Option<int> = match li {
        Some(l) => Some(l as int),
        None => None,
    };
    let ghost data = recs.deep_view().drop_first();
    let m = recs.len();
    let mut items: Vec<BatchItem> = Vec::new();
    let mut k: usize = 1;
    proof {
        assert(views_of(items@) =~= Seq::<BatchItemView>::empty());
        assert(spec_items(data, gci, gti, gli) =~= views_of(items@) + spec_items_from(
            data,
            0,
            gci,
            gti,
            gli,
        ));
    }
    while k < m
        invariant
            1 <= k <= m,
            m == recs@.len(),
            data == recs.deep_view().drop_first(),
            gci == ci as int,
            gti == (match ti {
                Some(t) => Some(t as int),
                None => None,
            }),
            gli == (match li {
                Some(l) => Some(l as int),
                None => None,
            }),
            spec_items(data, gci, gti, gli) == views_of(items@) + spec_items_from(
                data,
                k - 1,
                gci,
                gti,
                gli,
            ),
        decreases m - k,
    {
        let ghost items0 = items@;
        proof {
            assert(data[k - 1] == recs.deep_view()[k as int]);
            assert(recs.deep_view()[k as int] == recs@[k as int].deep_view());
            assert(spec_items_from(data, k - 1, gci, gti, gli) == (match spec_item_of(
                data[k - 1],
                k as int,
                gci,
                gti,
                gli,
            ) {
                Some(it) => seq![it] + spec_items_from(data, k as int, gci, gti, gli),
                None => spec_items_from(data, k as int, gci, gti, gli),
            }));
        }
        match build_item(&recs[k], k, ci, ti, li) {
            Some(item) => {
                items.push(item);
                proof {
                    assert(spec_item_of(data[k - 1], k as int, gci, gti, gli) == Some(item@));
                    assert(views_of(items@) =~= views_of(items0).push(item@));
                    assert(views_of(items0) + (seq![item@] + spec_items_from(
                        data,
                        k as int,
                        gci,
                        gti,
                        gli,
                    )) =~= views_of(items0).push(item@) + spec_items_from(
                        data,
                        k as int,
                        gci,
                        gti,
                        gli,
                    ));
                }
            },
            None => {},
        }
        k += 1;
    }
    proof {
        assert(spec_items(data, gci, gti, gli) =~= views_of(items@));
    }
    let total_rows = items.len();
    proof {
        assert(views_of(items@).len() == items@.len());
    }
    Ok(BatchParseResult { success: true, items, error: None, total_rows })
}


/// A data record is blank when its (trimmed) content cell is empty; blank
/// records yield no row.
pub open spec fn is_blank_row(rec: Seq<Seq<char>>, ci: int) -> bool {
    spec_trim(
        if 0 <= ci < rec.len() {
            rec[ci]
        } else {
            Seq::empty()
        },
    ).len() == 0
}

/// The number of non-blank data records from position `k` on.
pub open spec fn count_nonblank_from(data: Seq<Seq<Seq<char>>>, k: int, ci: int) -> nat
    decreases data.len() - k,
{
    if k < 0 || k >= data.len() {
        0
    } else {
        (if !is_blank_row(data[k], ci) {
            1nat
        } else {
            0nat
        }) + count_nonblank_from(data, k + 1, ci)
    }
}

proof fn lemma_row_skip_from(
    data: Seq<Seq<Seq<char>>>,
    k: int,
    ci: int,
    ti: Option<int>,
    li: Option<int>,
)
    ensures
        spec_items_from(data, k, ci, ti, li).len() == count_nonblank_from(data, k, ci),
    decreases data.len() - k,
{
    if 0 <= k < data.len() {
        lemma_row_skip_from(data, k + 1, ci, ti, li);
    }
}

/// Row-skip law: the number of ingested rows equals the number of data
/// records whose trimmed content cell is non-empty; skipped records yield
/// nothing, and no more rows exist than non-blank records.
pub proof fn lemma_row_skip(data: Seq<Seq<Seq<char>>>, ci: int, ti: Option<int>, li: Option<int>)
    ensures
        spec_items(data, ci, ti, li).len() == count_nonblank_from(data, 0, ci),
{
    lemma_row_skip_from(data, 0, ci, ti, li);
}

proof fn lemma_items_from_rows(
    data: Seq<Seq<Seq<char>>>,
    k: int,
    ci: int,
    ti: Option<int>,
    li: Option<int>,
)
    requires
        0 <= k <= data.len(),
    ensures
        forall|j: int|
            0 <= j < spec_items_from(data, k, ci, ti, li).len() ==> {
                let it = #[trigger] spec_items_from(data, k, ci, ti, li)[j];
                &&& k + 1 <= it.row <= data.len()
                &&& spec_item_of(data[it.row - 1], it.row, ci, ti, li) == Some(it)
            },
        forall|j: int|
            0 < j < spec_items_from(data, k, ci, ti, li).len()
                ==> #[trigger] spec_items_from(data, k, ci, ti, li)[j - 1].row < spec_items_from(
                data,
                k,
                ci,
                ti,
                li,
            )[j].row,
    decreases data.len() - k,
{
    if k < data.len() {
        lemma_items_from_rows(data, k + 1, ci, ti, li);
        let rest = spec_items_from(data, k + 1, ci, ti, li);
        match spec_item_of(data[k], k + 1, ci, ti, li) {
            Some(it) => {
                let whole = seq![it] + rest;
                assert(spec_items_from(data, k, ci, ti, li) == whole);
                assert(whole[0] == it);
                assert(forall|j: int| 1 <= j < whole.len() ==> whole[j] == rest[j - 1]);
            },
            None => {},
        }
    }
}

/// Source-position law: every ingested row's index is the 1-based position of
/// its source record, and re-reading that record yields exactly that row, so
/// skipping blank records does not shift the numbering of later rows.
pub proof fn lemma_rows_sourced(
    data: Seq<Seq<Seq<char>>>,
    ci: int,
    ti: Option<int>,
    li: Option<int>,
)
    ensures
        forall|j: int|
            0 <= j < spec_items(data, ci, ti, li).len() ==> {
                let it = #[trigger] spec_items(data, ci, ti, li)[j];
                &&& 1 <= it.row <= data.len()
                &&& spec_item_of(data[it.row - 1], it.row, ci, ti, li) == Some(it)
            },
{
    lemma_items_from_rows(data, 0, ci, ti, li);
}

/// Order-preservation law: ingested rows carry strictly increasing source
/// indices, so output order is source order (with gaps where records were
/// skipped).
pub proof fn lemma_rows_ordered(
    data: Seq<Seq<Seq<char>>>,
    ci: int,
    ti: Option<int>,
    li: Option<int>,
)
    ensures
        forall|j: int|
            0 < j < spec_items(data, ci, ti, li).len() ==> #[trigger] spec_items(
                data,
                ci,
                ti,
                li,
            )[j - 1].row < spec_items(data, ci, ti, li)[j].row,
{
    lemma_items_from_rows(data, 0, ci, ti, li);
}

/// Ingest a table handed over as one string (the transport form callers use).
pub fn batch_parse_csv_content(content: String) -> (r: Result<BatchParseResult, String>)
    ensures
        parse_result_for(content@, r),
{
    parse_csv_content(content.as_str())
}

} // verus!
