//! Shared text utilities: ASCII lowering, boundary-whitespace trimming, and
//! decimal rendering of row numbers, all with exact sequence-level contracts.

use vstd::prelude::*;

verus! {

/// Relies on alloc's String::push: appends the given character to the string.
pub assume_specification[ String::push ](s: &mut String, ch: char)
    ensures
        final(s)@ == old(s)@.push(ch),
;

/// ASCII-lowered copy of a character: 'A'..'Z' map to 'a'..'z', all else
/// unchanged. Case-insensitivity in this library is deliberately over the
/// ASCII range, which covers every scheme prefix, column name and type name
/// the rules compare.
pub open spec fn lower_char(c: char) -> char {
    if 65 <= c as u32 && c as u32 <= 90 {
        ((c as u32 + 32) as u8) as char
    } else {
        c
    }
}

/// ASCII-lowered copy of a character sequence.
pub open spec fn lower_seq(s: Seq<char>) -> Seq<char> {
    s.map_values(|c: char| lower_char(c))
}

pub fn exec_lower_char(c: char) -> (r: char)
    ensures
        r == lower_char(c),
{
    let u = c as u32;
    if 65 <= u && u <= 90 {
        ((u + 32) as u8) as char
    } else {
        c
    }
}

/// ASCII-lowered copy of a string.
pub fn lower_str(s: &str) -> (r: String)
    ensures
        r@ == lower_seq(s@),
{
    let n = s.unicode_len();
    let mut out = String::new();
    let mut i: usize = 0;
    while i < n
        invariant
            i <= n,
            n == s@.len(),
            out@ == lower_seq(s@.subrange(0, i as int)),
        decreases n - i,
    {
        out.push(exec_lower_char(s.get_char(i)));
        assert(lower_seq(s@.subrange(0, i + 1)) =~= lower_seq(s@.subrange(0, i as int)).push(
            lower_char(s@[i as int]),
        ));
        i += 1;
    }
    assert(s@.subrange(0, n as int) =~= s@);
    out
}

/// The whitespace characters ignored at string boundaries: the Unicode
/// White_Space set, the same set str::trim goes by.
pub open spec fn is_space(c: char) -> bool {
    ||| c == ' '
    ||| c == '\t'
    ||| c == '\n'
    ||| c == '\u{b}'
    ||| c == '\u{c}'
    ||| c == '\r'
    ||| c == '\u{85}'
    ||| c == '\u{a0}'
    ||| c == '\u{1680}'
    ||| 0x2000 <= c as u32 && c as u32 <= 0x200a
    ||| c == '\u{2028}'
    ||| c == '\u{2029}'
    ||| c == '\u{202f}'
    ||| c == '\u{205f}'
    ||| c == '\u{3000}'
}

pub fn exec_is_space(c: char) -> (b: bool)
    ensures
        b == is_space(c),
{
    let u = c as u32;
    c == ' ' || c == '\t' || c == '\n' || c == '\u{b}' || c == '\u{c}' || c == '\r'
        || c == '\u{85}' || c == '\u{a0}' || c == '\u{1680}' || (0x2000 <= u && u <= 0x200a)
        || c == '\u{2028}' || c == '\u{2029}' || c == '\u{202f}' || c == '\u{205f}'
        || c == '\u{3000}'
}

pub open spec fn trim_left(s: Seq<char>) -> Seq<char>
    decreases s.len(),
{
    if s.len() > 0 && is_space(s[0]) {
        trim_left(s.drop_first())
    } else {
        s
    }
}

pub open spec fn trim_right(s: Seq<char>) -> Seq<char>
    decreases s.len(),
{
    if s.len() > 0 && is_space(s.last()) {
        trim_right(s.drop_last())
    } else {
        s
    }
}

/// A copy of the sequence with leading and trailing whitespace removed.
pub open spec fn spec_trim(s: Seq<char>) -> Seq<char> {
    trim_right(trim_left(s))
}

proof fn lemma_trim_left_at(s: Seq<char>, a: int)
    requires
        0 <= a <= s.len(),
        forall|j: int| 0 <= j < a ==> is_space(s[j]),
        a < s.len() ==> !is_space(s[a]),
    ensures
        trim_left(s) == s.subrange(a, s.len() as int),
    decreases a,
{
    if a == 0 {
        assert(s.subrange(0, s.len() as int) =~= s);
    } else {
        lemma_trim_left_at(s.drop_first(), a - 1);
        assert(s.drop_first().subrange(a - 1, s.drop_first().len() as int) =~= s.subrange(
            a,
            s.len() as int,
        ));
    }
}

proof fn lemma_trim_right_at(s: Seq<char>, b: int)
    requires
        0 <= b <= s.len(),
        forall|j: int| b <= j < s.len() ==> is_space(s[j]),
        b > 0 ==> !is_space(s[b - 1]),
    ensures
        trim_right(s) == s.subrange(0, b),
    decreases s.len() - b,
{
    if b == s.len() {
        assert(s.subrange(0, s.len() as int) =~= s);
    } else {
        lemma_trim_right_at(s.drop_last(), b);
        assert(s.drop_last().subrange(0, b) =~= s.subrange(0, b));
    }
}

/// Copy of the input with boundary whitespace removed.
pub fn trim_str(s: &str) -> (r: &str)
    ensures
        r@ == spec_trim(s@),
{
    let n = s.unicode_len();
    let mut a: usize = 0;
    while a < n && exec_is_space(s.get_char(a))
        invariant
            a <= n,
            n == s@.len(),
            forall|j: int| 0 <= j < a ==> is_space(s@[j]),
        decreases n - a,
    {
        a += 1;
    }
    proof {
        lemma_trim_left_at(s@, a as int);
    }
    if a == n {
        let r = s.substring_char(n, n);
        proof {
            lemma_trim_right_at(trim_left(s@), 0);
            assert(trim_left(s@).subrange(0, 0) =~= s@.subrange(n as int, n as int));
        }
        return r;
    }
    let mut b: usize = n;
    while b > a && exec_is_space(s.get_char(b - 1))
        invariant
            a <= b <= n,
            n == s@.len(),
            a < n,
            !is_space(s@[a as int]),
            forall|j: int| b <= j < n ==> is_space(s@[j]),
        decreases b,
    {
        b -= 1;
    }
    let r = s.substring_char(a, b);
    proof {
        let t = trim_left(s@);
        assert(t == s@.subrange(a as int, n as int));
        assert(b > a);
        assert(!is_space(s@[b - 1]));
        assert(forall|j: int| b - a <= j < t.len() ==> is_space(t[j]));
        assert((b - a) > 0 ==> !is_space(t[b - a - 1]));
        lemma_trim_right_at(t, b - a);
        assert(t.subrange(0, b - a) =~= s@.subrange(a as int, b as int));
    }
    r
}

/// Character-wise string equality.
pub fn str_eq(a: &str, b: &str) -> (r: bool)
    ensures
        r == (a@ == b@),
{
    let n = a.unicode_len();
    let m = b.unicode_len();
    if n != m {
        return false;
    }
    let mut i: usize = 0;
    while i < n
        invariant
            i <= n,
            n == a@.len() == b@.len(),
            forall|j: int| 0 <= j < i ==> a@[j] == b@[j],
        decreases n - i,
    {
        if a.get_char(i) != b.get_char(i) {
            return false;
        }
        i += 1;
    }
    proof {
        assert(a@ =~= b@);
    }
    true
}

/// The character for a single decimal digit.
pub open spec fn digit_char(d: int) -> char {
    ((48 + d) as u8) as char
}

/// The decimal digit string of a number, most significant digit first.
pub open spec fn spec_decimal(n: nat) -> Seq<char>
    decreases n,
{
    if n < 10 {
        seq![digit_char(n as int)]
    } else {
        spec_decimal(n / 10).push(digit_char((n % 10) as int))
    }
}

/// The decimal digit string, zero-padded on the left to at least three digits.
pub open spec fn spec_pad3(n: nat) -> Seq<char> {
    if n < 10 {
        seq!['0', '0'] + spec_decimal(n)
    } else if n < 100 {
        seq!['0'] + spec_decimal(n)
    } else {
        spec_decimal(n)
    }
}

/// Appends the decimal digits of `n` to `out`.
pub fn push_decimal(out: &mut String, n: usize)
    ensures
        final(out)@ == old(out)@ + spec_decimal(n as nat),
    decreases n,
{
    if n >= 10 {
        push_decimal(out, n / 10);
    }
    let d: u8 = (n % 10) as u8 + 48;
    out.push(d as char);
    proof {
        if n >= 10 {
            assert(old(out)@ + spec_decimal((n / 10) as nat) + seq![digit_char((n % 10) as int)]
                =~= old(out)@ + spec_decimal(n as nat));
        } else {
            assert(old(out)@ + seq![digit_char(n as int)] =~= old(out)@ + spec_decimal(n as nat));
        }
    }
}

/// The decimal digits of `n`, zero-padded on the left to at least three digits.
pub fn pad3(n: usize) -> (r: String)
    ensures
        r@ == spec_pad3(n as nat),
{
    let mut out = String::new();
    if n < 10 {
        out.append("00");
        proof {
            reveal_strlit("00");
            assert("00"@ =~= seq!['0', '0']);
        }
    } else if n < 100 {
        out.append("0");
        proof {
            reveal_strlit("0");
            assert("0"@ =~= seq!['0']);
        }
    }
    push_decimal(&mut out, n);
    proof {
        assert(out@ =~= spec_pad3(n as nat));
    }
    out
}

/// A decimal digit character.
pub open spec fn is_digit(c: char) -> bool {
    48 <= c as u32 <= 57
}

/// Every character of a decimal digit string is a digit.
pub proof fn lemma_decimal_digits(n: nat)
    ensures
        forall|i: int| 0 <= i < spec_decimal(n).len() ==> is_digit(#[trigger] spec_decimal(n)[i]),
    decreases n,
{
    if n < 10 {
        assert(spec_decimal(n) =~= seq![digit_char(n as int)]);
    } else {
        lemma_decimal_digits(n / 10);
        let d = spec_decimal(n / 10);
        assert forall|i: int| 0 <= i < spec_decimal(n).len() implies is_digit(
            #[trigger] spec_decimal(n)[i],
        ) by {
            if i < d.len() {
                assert(spec_decimal(n)[i] == d[i]);
            } else {
                assert(spec_decimal(n)[i] == digit_char((n % 10) as int));
            }
        }
    }
}

/// Ten to the `k`.
pub open spec fn pow10(k: nat) -> nat
    decreases k,
{
    if k == 0 {
        1
    } else {
        10 * pow10((k - 1) as nat)
    }
}

proof fn lemma_decimal_len_below(n: nat, k: nat)
    requires
        k >= 1,
        n < pow10(k),
    ensures
        spec_decimal(n).len() <= k,
    decreases n,
{
    if n >= 10 {
        assert(pow10(k) == 10 * pow10((k - 1) as nat));
        if k == 1 {
            assert(pow10(0) == 1);
            assert(false);
        }
        assert(n / 10 < pow10((k - 1) as nat)) by (nonlinear_arith)
            requires
                n < 10 * pow10((k - 1) as nat),
        ;
        lemma_decimal_len_below(n / 10, (k - 1) as nat);
    }
}

/// The decimal rendering of a machine-word number has at most 20 digits.
pub proof fn lemma_decimal_len(n: nat)
    requires
        n <= usize::MAX,
    ensures
        spec_decimal(n).len() <= 20,
{
    assert(pow10(1) == 10 * pow10(0));
    assert(pow10(2) == 10 * pow10(1));
    assert(pow10(3) == 10 * pow10(2));
    assert(pow10(4) == 10 * pow10(3));
    assert(pow10(5) == 10 * pow10(4));
    assert(pow10(6) == 10 * pow10(5));
    assert(pow10(7) == 10 * pow10(6));
    assert(pow10(8) == 10 * pow10(7));
    assert(pow10(9) == 10 * pow10(8));
    assert(pow10(10) == 10 * pow10(9));
    assert(pow10(11) == 10 * pow10(10));
    assert(pow10(12) == 10 * pow10(11));
    assert(pow10(13) == 10 * pow10(12));
    assert(pow10(14) == 10 * pow10(13));
    assert(pow10(15) == 10 * pow10(14));
    assert(pow10(16) == 10 * pow10(15));
    assert(pow10(17) == 10 * pow10(16));
    assert(pow10(18) == 10 * pow10(17));
    assert(pow10(19) == 10 * pow10(18));
    assert(pow10(20) == 10 * pow10(19));
    assert(pow10(0) == 1);
    assert(n < pow10(20));
    lemma_decimal_len_below(n, 20);
}

/// The numeric value of a digit string, read left to right.
pub open spec fn digits_value(s: Seq<char>) -> nat
    decreases s.len(),
{
    if s.len() == 0 {
        0
    } else {
        digits_value(s.drop_last()) * 10 + (if s.last() as u32 >= 48 {
            s.last() as u32 - 48
        } else {
            0
        }) as nat
    }
}

/// The decimal rendering of a number evaluates back to that number.
pub proof fn lemma_decimal_value(n: nat)
    ensures
        digits_value(spec_decimal(n)) == n,
    decreases n,
{
    let s = spec_decimal(n);
    if n < 10 {
        assert(s =~= seq![digit_char(n as int)]);
        assert(s.drop_last() =~= Seq::<char>::empty());
        assert(digits_value(s.drop_last()) == 0);
        assert(s.last() as u32 == 48 + n);
        assert(digits_value(s) == n);
    } else {
        lemma_decimal_value(n / 10);
        assert(s.drop_last() =~= spec_decimal(n / 10));
        assert(digits_value(s.drop_last()) == n / 10);
        assert(s.last() == digit_char((n % 10) as int));
        assert(s.last() as u32 == 48 + n % 10);
        vstd::arithmetic::div_mod::lemma_fundamental_div_mod(n as int, 10);
        assert(digits_value(s) == n);
    }
}

/// Zero-padding does not change the numeric value of the rendering.
pub proof fn lemma_pad3_value(n: nat)
    ensures
        digits_value(spec_pad3(n)) == n,
{
    let p = spec_pad3(n);
    if n < 10 {
        let q = seq!['0', '0', digit_char(n as int)];
        assert(spec_decimal(n) =~= seq![digit_char(n as int)]);
        assert(p =~= q);
        assert(q.drop_last() =~= seq!['0', '0']);
        assert(seq!['0', '0'].drop_last() =~= seq!['0']);
        assert(seq!['0'].drop_last() =~= Seq::<char>::empty());
        assert(digits_value(Seq::<char>::empty()) == 0);
        assert(digits_value(seq!['0']) == 0);
        assert(digits_value(seq!['0', '0']) == 0);
        assert(q.last() as u32 == 48 + n);
        assert(digits_value(q) == n);
    } else if n < 100 {
        let q = seq!['0', digit_char((n / 10) as int), digit_char((n % 10) as int)];
        assert(spec_decimal(n / 10) =~= seq![digit_char((n / 10) as int)]);
        assert(p =~= q);
        assert(q.drop_last() =~= seq!['0', digit_char((n / 10) as int)]);
        let q2 = seq!['0', digit_char((n / 10) as int)];
        assert(q2.drop_last() =~= seq!['0']);
        assert(seq!['0'].drop_last() =~= Seq::<char>::empty());
        assert(digits_value(Seq::<char>::empty()) == 0);
        assert(digits_value(seq!['0']) == 0);
        assert(q2.last() as u32 == 48 + n / 10);
        assert(digits_value(q2) == n / 10);
        assert(q.last() as u32 == 48 + n % 10);
        vstd::arithmetic::div_mod::lemma_fundamental_div_mod(n as int, 10);
        assert(digits_value(q) == n);
    } else {
        lemma_decimal_value(n);
    }
}

/// The padded rendering is all digits and at least three characters long.
pub proof fn lemma_pad3_digits(n: nat)
    ensures
        spec_pad3(n).len() >= 3,
        forall|i: int| 0 <= i < spec_pad3(n).len() ==> is_digit(#[trigger] spec_pad3(n)[i]),
{
    lemma_decimal_digits(n);
    let d = spec_decimal(n);
    if n < 10 {
        assert(d =~= seq![digit_char(n as int)]);
        assert forall|i: int| 0 <= i < spec_pad3(n).len() implies is_digit(
            #[trigger] spec_pad3(n)[i],
        ) by {
            if i >= 2 {
                assert(spec_pad3(n)[i] == d[i - 2]);
            }
        }
    } else if n < 100 {
        assert(d =~= spec_decimal(n / 10).push(digit_char((n % 10) as int)));
        assert(spec_decimal(n / 10) =~= seq![digit_char((n / 10) as int)]);
        assert forall|i: int| 0 <= i < spec_pad3(n).len() implies is_digit(
            #[trigger] spec_pad3(n)[i],
        ) by {
            if i >= 1 {
                assert(spec_pad3(n)[i] == d[i - 1]);
            }
        }
    } else {
        assert(d == spec_decimal(n / 10).push(digit_char((n % 10) as int)));
        assert(spec_decimal(n / 10) == spec_decimal(n / 100).push(digit_char(((n / 10) % 10) as int)));
        assert(spec_decimal(n / 100).len() >= 1);
    }
}

} // verus!
