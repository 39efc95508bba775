//! Export-side helpers: data-URI unwrapping and the result record that
//! callers receive from a save operation.

use vstd::prelude::*;

verus! {

/// Result record of a save-to-disk operation performed by the caller.
#[derive(Debug, Clone)]
pub struct ExportResult {
    pub success: bool,
    pub path: Option<String>,
    pub error: Option<String>,
}

/// The first index at or after `i` holding a comma, or the length if none.
pub open spec fn find_comma(s: Seq<char>, i: int) -> int
    decreases s.len() - i,
{
    if i < 0 || i >= s.len() {
        s.len() as int
    } else if s[i] == ',' {
        i
    } else {
        find_comma(s, i + 1)
    }
}

/// A data URI carries its payload after the first comma; the payload itself
/// ends at the next comma, if any. Input without a comma is already bare.
pub open spec fn spec_strip(s: Seq<char>) -> Seq<char> {
    let c1 = find_comma(s, 0);
    if c1 == s.len() {
        s
    } else {
        s.subrange(c1 + 1, find_comma(s, c1 + 1))
    }
}

proof fn lemma_find_comma_at(s: Seq<char>, a: int, i: int)
    requires
        0 <= a <= i <= s.len(),
        forall|j: int| a <= j < i ==> s[j] != ',',
        i < s.len() ==> s[i] == ',',
    ensures
        find_comma(s, a) == if i < s.len() {
            i
        } else {
            s.len() as int
        },
    decreases i - a,
{
    if a < i {
        lemma_find_comma_at(s, a + 1, i);
    }
}

/// Strips a data-URI framing marker: returns the segment between the first
/// comma and the following comma or end; input without a comma is returned whole.
pub fn strip_data_url_prefix(data: &str) -> (r: &str)
    ensures
        r@ == spec_strip(data@),
{
    let n = data.unicode_len();
    let mut i: usize = 0;
    while i < n && data.get_char(i) != ','
        invariant
            i <= n,
            n == data@.len(),
            forall|j: int| 0 <= j < i ==> data@[j] != ',',
        decreases n - i,
    {
        i += 1;
    }
    proof {
        lemma_find_comma_at(data@, 0, i as int);
    }
    if i == n {
        return data;
    }
    let mut j: usize = i + 1;
    while j < n && data.get_char(j) != ','
        invariant
            i + 1 <= j <= n,
            n == data@.len(),
            forall|k: int| i + 1 <= k < j ==> data@[k] != ',',
        decreases n - j,
    {
        j += 1;
    }
    proof {
        lemma_find_comma_at(data@, i + 1, j as int);
    }
    data.substring_char(i + 1, j)
}

} // verus!
