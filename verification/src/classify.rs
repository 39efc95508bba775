//! Payload classification: maps a raw text payload to one of nine
//! content-type names by case-insensitive prefix matching, first match wins.

use vstd::prelude::*;

use crate::text::{exec_lower_char, lower_char, lower_seq};

verus! {

/// The classification rules, in precedence order: the first prefix that the
/// lowered payload begins with decides the content type; anything else is text.
pub open spec fn spec_classify(s: Seq<char>) -> Seq<char> {
    let l = lower_seq(s);
    if "wifi:"@.is_prefix_of(l) {
        "wifi"@
    } else if "begin:vcard"@.is_prefix_of(l) {
        "vcard"@
    } else if "mailto:"@.is_prefix_of(l) {
        "email"@
    } else if "sms:"@.is_prefix_of(l) || "smsto:"@.is_prefix_of(l) {
        "sms"@
    } else if "tel:"@.is_prefix_of(l) {
        "phone"@
    } else if "geo:"@.is_prefix_of(l) {
        "geo"@
    } else if "begin:vevent"@.is_prefix_of(l) {
        "calendar"@
    } else if "http://"@.is_prefix_of(l) || "https://"@.is_prefix_of(l) {
        "url"@
    } else {
        "text"@
    }
}

/// The nine content-type names a classification can produce.
pub open spec fn is_content_type(t: Seq<char>) -> bool {
    ||| t == "wifi"@
    ||| t == "vcard"@
    ||| t == "email"@
    ||| t == "sms"@
    ||| t == "phone"@
    ||| t == "geo"@
    ||| t == "calendar"@
    ||| t == "url"@
    ||| t == "text"@
}

/// Classification is total: every payload maps to one of the nine types.
pub proof fn lemma_classify_total(s: Seq<char>)
    ensures
        is_content_type(spec_classify(s)),
{
}

/// Classification is case-insensitive: a payload and its lowered copy
/// classify the same way.
pub proof fn lemma_classify_case_insensitive(s: Seq<char>)
    ensures
        spec_classify(lower_seq(s)) == spec_classify(s),
{
    assert(lower_seq(lower_seq(s)) =~= lower_seq(s));
}

/// Precedence illustrated on the vcard rule: no payload matches both the
/// wifi and the vcard prefix, so a "begin:vcard" prefix in any case variant
/// decides the type outright.
pub proof fn lemma_classify_vcard_prefix(s: Seq<char>)
    ensures
        "begin:vcard"@.is_prefix_of(lower_seq(s)) ==> spec_classify(s) == "vcard"@,
{
    reveal_strlit("begin:vcard");
    reveal_strlit("wifi:");
    let l = lower_seq(s);
    if "begin:vcard"@.is_prefix_of(l) {
        assert(l.subrange(0, 11) == "begin:vcard"@);
        assert(l[0] == l.subrange(0, 11)[0]);
        assert(l[0] == 'b');
        if "wifi:"@.is_prefix_of(l) {
            assert(l.subrange(0, 5) == "wifi:"@);
            assert(l[0] == l.subrange(0, 5)[0]);
            assert(l[0] == 'w');
        }
    }
}

/// True iff the ASCII-lowered view of `s` begins with `p`.
fn lowered_has_prefix(s: &str, p: &str) -> (b: bool)
    ensures
        b == p@.is_prefix_of(lower_seq(s@)),
{
    let n = p.unicode_len();
    let m = s.unicode_len();
    if n > m {
        return false;
    }
    let mut i: usize = 0;
    while i < n
        invariant
            i <= n,
            n == p@.len(),
            n <= m == s@.len(),
            forall|j: int| 0 <= j < i ==> lower_char(s@[j]) == p@[j],
        decreases n - i,
    {
        let c = exec_lower_char(s.get_char(i));
        if c != p.get_char(i) {
            assert(lower_seq(s@)[i as int] != p@[i as int]);
            assert(!p@.is_prefix_of(lower_seq(s@)));
            return false;
        }
        i += 1;
    }
    assert(p@ =~= lower_seq(s@).subrange(0, n as int));
    true
}

/// Classify a payload's content type by its scheme prefix, case-insensitively.
/// Returns exactly one of the nine type names; unmatched input is text.
pub fn detect_qr_type(content: &str) -> (r: String)
    ensures
        r@ == spec_classify(content@),
{
    if lowered_has_prefix(content, "wifi:") {
        "wifi".to_string()
    } else if lowered_has_prefix(content, "begin:vcard") {
        "vcard".to_string()
    } else if lowered_has_prefix(content, "mailto:") {
        "email".to_string()
    } else if lowered_has_prefix(content, "sms:") || lowered_has_prefix(content, "smsto:") {
        "sms".to_string()
    } else if lowered_has_prefix(content, "tel:") {
        "phone".to_string()
    } else if lowered_has_prefix(content, "geo:") {
        "geo".to_string()
    } else if lowered_has_prefix(content, "begin:vevent") {
        "calendar".to_string()
    } else if lowered_has_prefix(content, "http://") || lowered_has_prefix(content, "https://") {
        "url".to_string()
    } else {
        "text".to_string()
    }
}

} // verus!
