//! Text that the library builds itself: decimal numerals, lists of bytes,
//! and comparisons of strings and byte strings for equality.
use vstd::prelude::*;
use vstd::utf8::*;
use std::string::String as StdString;

verus! {

broadcast use vstd::utf8::group_utf8_lib;

/// The character of a decimal digit.
pub open spec fn digit_char(d: nat) -> char {
    if d == 0 {
        '0'
    } else if d == 1 {
        '1'
    } else if d == 2 {
        '2'
    } else if d == 3 {
        '3'
    } else if d == 4 {
        '4'
    } else if d == 5 {
        '5'
    } else if d == 6 {
        '6'
    } else if d == 7 {
        '7'
    } else if d == 8 {
        '8'
    } else {
        '9'
    }
}

/// The decimal numeral of a natural number, without leading zeros.
pub open spec fn decimal(n: nat) -> Seq<char>
    decreases n,
{
    if n < 10 {
        seq![digit_char(n)]
    } else {
        decimal(n / 10).push(digit_char(n % 10))
    }
}

/// The decimal numeral of an integer, with a leading '-' when it is negative.
pub open spec fn signed_decimal(i: int) -> Seq<char> {
    if i < 0 {
        seq!['-'] + decimal((-i) as nat)
    } else {
        decimal(i as nat)
    }
}

/// The digits of a number after its last one has been taken off, least significant first.
pub open spec fn digits_after(m: nat) -> Seq<u8> {
    if m == 0 {
        seq![]
    } else {
        digits_reversed(m)
    }
}

/// The digits of a number, least significant first.
pub open spec fn digits_reversed(n: nat) -> Seq<u8>
    decreases n,
{
    if n < 10 {
        seq![n as u8]
    } else {
        seq![(n % 10) as u8] + digits_reversed(n / 10)
    }
}

fn digit_str(d: u8) -> (s: &'static str)
    requires
        d < 10,
    ensures
        s@ == seq![digit_char(d as nat)],
{
    match d {
        0 => {
            proof { reveal_strlit("0"); }
            "0"
        },
        1 => {
            proof { reveal_strlit("1"); }
            "1"
        },
        2 => {
            proof { reveal_strlit("2"); }
            "2"
        },
        3 => {
            proof { reveal_strlit("3"); }
            "3"
        },
        4 => {
            proof { reveal_strlit("4"); }
            "4"
        },
        5 => {
            proof { reveal_strlit("5"); }
            "5"
        },
        6 => {
            proof { reveal_strlit("6"); }
            "6"
        },
        7 => {
            proof { reveal_strlit("7"); }
            "7"
        },
        8 => {
            proof { reveal_strlit("8"); }
            "8"
        },
        _ => {
            proof { reveal_strlit("9"); }
            "9"
        },
    }
}

proof fn lemma_digits_reversed_len(n: nat)
    ensures
        digits_reversed(n).len() == decimal(n).len(),
        digits_reversed(n).len() >= 1,
        forall|i: int| 0 <= i < digits_reversed(n).len() ==> #[trigger] digits_reversed(n)[i] < 10,
    decreases n,
{
    if n >= 10 {
        lemma_digits_reversed_len(n / 10);
    }
}

/// Reading the reversed digits from the most significant end spells the numeral.
proof fn lemma_digits_spell(n: nat, k: int)
    requires
        0 <= k <= digits_reversed(n).len(),
    ensures
        decimal(n).take(k) == Seq::new(
            k as nat,
            |j: int| digit_char(digits_reversed(n)[digits_reversed(n).len() - 1 - j] as nat),
        ),
    decreases n,
{
    lemma_digits_reversed_len(n);
    if n < 10 {
        assert(decimal(n).take(k) =~= Seq::new(
            k as nat,
            |j: int| digit_char(digits_reversed(n)[digits_reversed(n).len() - 1 - j] as nat),
        ));
    } else {
        lemma_digits_reversed_len(n / 10);
        let len = digits_reversed(n).len();
        if k < len {
            lemma_digits_spell(n / 10, k);
            assert forall|j: int| 0 <= j < k implies #[trigger] decimal(n).take(k)[j] == digit_char(
                digits_reversed(n)[len - 1 - j] as nat,
            ) by {
                assert(decimal(n)[j] == decimal(n / 10)[j]);
                assert(decimal(n / 10).take(k)[j] == decimal(n / 10)[j]);
                assert(digits_reversed(n)[len - 1 - j] == digits_reversed(n / 10)[len - 2 - j]);
            }
            assert(decimal(n).take(k) =~= Seq::new(
                k as nat,
                |j: int| digit_char(digits_reversed(n)[len - 1 - j] as nat),
            ));
        } else {
            lemma_digits_spell(n / 10, k - 1);
            assert forall|j: int| 0 <= j < k implies #[trigger] decimal(n).take(k)[j] == digit_char(
                digits_reversed(n)[len - 1 - j] as nat,
            ) by {
                if j < k - 1 {
                    assert(decimal(n)[j] == decimal(n / 10)[j]);
                    assert(decimal(n / 10).take(k - 1)[j] == decimal(n / 10)[j]);
                    assert(digits_reversed(n)[len - 1 - j] == digits_reversed(n / 10)[len - 2 - j]);
                } else {
                    assert(digits_reversed(n)[0] == (n % 10) as u8);
                }
            }
            assert(decimal(n).take(k) =~= Seq::new(
                k as nat,
                |j: int| digit_char(digits_reversed(n)[len - 1 - j] as nat),
            ));
        }
    }
}

/// Appends the decimal numeral of `n` to `out`.
pub fn push_decimal(out: &mut StdString, n: u64)
    ensures
        final(out)@ == old(out)@ + decimal(n as nat),
{
    let mut digits: Vec<u8> = Vec::new();
    digits.push((n % 10) as u8);
    let mut m: u64 = n / 10;
    proof {
        assert(digits_reversed(n as nat) =~= digits@ + digits_after(m as nat));
    }
    while m > 0
        invariant
            digits_reversed(n as nat) == digits@ + digits_after(m as nat),
        decreases m,
    {
        let d = (m % 10) as u8;
        proof {
            assert(digits_after(m as nat) =~= seq![d] + digits_after((m / 10) as nat));
            assert(digits@.push(d) + digits_after((m / 10) as nat) =~= digits@ + (seq![d]
                + digits_after((m / 10) as nat)));
        }
        digits.push(d);
        m = m / 10;
    }
    proof {
        assert(digits@ =~= digits_reversed(n as nat));
    }
    proof {
        lemma_digits_reversed_len(n as nat);
        lemma_digits_spell(n as nat, 0);
    }
    let len = digits.len();
    let ghost start = out@;
    let mut k: usize = 0;
    while k < len
        invariant
            len == digits@.len(),
            digits@ == digits_reversed(n as nat),
            k <= len,
            forall|j: int| 0 <= j < len ==> #[trigger] digits@[j] < 10,
            out@ == start + decimal(n as nat).take(k as int),
        decreases len - k,
    {
        let d = digits[len - 1 - k];
        let s = digit_str(d);
        proof {
            lemma_digits_spell(n as nat, k as int);
            lemma_digits_spell(n as nat, k + 1);
            assert(decimal(n as nat).take(k + 1) =~= decimal(n as nat).take(k as int) + s@);
        }
        out.append(s);
        k = k + 1;
    }
    proof {
        assert(decimal(n as nat).take(len as int) =~= decimal(n as nat));
    }
}

/// The decimal text of a signed 64-bit integer, as CEL's `string` prints it.
pub fn int_to_text(i: i64) -> (s: StdString)
    ensures
        s@ == signed_decimal(i as int),
{
    let mut out = StdString::new();
    if i < 0 {
        proof { reveal_strlit("-"); }
        out.append("-");
        let magnitude: u64 = if i == i64::MIN {
            9223372036854775808u64
        } else {
            (-i) as u64
        };
        push_decimal(&mut out, magnitude);
    } else {
        push_decimal(&mut out, i as u64);
    }
    out
}

/// The decimal text of an unsigned 64-bit integer.
pub fn uint_to_text(n: u64) -> (s: StdString)
    ensures
        s@ == decimal(n as nat),
{
    let mut out = StdString::new();
    push_decimal(&mut out, n);
    proof {
        assert(out@ =~= decimal(n as nat));
    }
    out
}

/// Whether two byte strings hold the same bytes.
pub fn bytes_equal(a: &[u8], b: &[u8]) -> (r: bool)
    ensures
        r == (a@ == b@),
{
    if a.len() != b.len() {
        return false;
    }
    let mut i: usize = 0;
    while i < a.len()
        invariant
            a@.len() == b@.len(),
            i <= a@.len(),
            forall|j: int| 0 <= j < i ==> a@[j] == b@[j],
        decreases a@.len() - i,
    {
        if a[i] != b[i] {
            return false;
        }
        i = i + 1;
    }
    proof {
        assert(a@ =~= b@);
    }
    true
}

/// Whether two strings hold the same characters.
pub fn str_equal(a: &str, b: &str) -> (r: bool)
    ensures
        r == (a@ == b@),
{
    let r = bytes_equal(a.as_bytes(), b.as_bytes());
    proof {
        if r {
            assert(decode_utf8(encode_utf8(a@)) == a@);
            assert(decode_utf8(encode_utf8(b@)) == b@);
        }
    }
    r
}

/// A fresh vector holding the bytes of `a`.
pub fn copy_bytes(a: &[u8]) -> (v: Vec<u8>)
    ensures
        v@ == a@,
{
    let mut v: Vec<u8> = Vec::new();
    let mut i: usize = 0;
    while i < a.len()
        invariant
            i <= a@.len(),
            v@ == a@.take(i as int),
        decreases a@.len() - i,
    {
        v.push(a[i]);
        i = i + 1;
        proof {
            assert(v@ =~= a@.take(i as int));
        }
    }
    proof {
        assert(a@.take(a@.len() as int) =~= a@);
    }
    v
}

/// A fresh vector holding the bytes of `a` followed by those of `b`.
pub fn concat_bytes(a: &[u8], b: &[u8]) -> (v: Vec<u8>)
    ensures
        v@ == a@ + b@,
{
    let mut v = copy_bytes(a);
    let mut i: usize = 0;
    while i < b.len()
        invariant
            i <= b@.len(),
            v@ == a@ + b@.take(i as int),
        decreases b@.len() - i,
    {
        v.push(b[i]);
        i = i + 1;
        proof {
            assert(v@ =~= a@ + b@.take(i as int));
        }
    }
    proof {
        assert(b@.take(b@.len() as int) =~= b@);
    }
    v
}

/// A fresh string holding the characters of `a` followed by those of `b`.
pub fn concat_str(a: &str, b: &str) -> (s: StdString)
    ensures
        s@ == a@ + b@,
{
    let mut s = StdString::new();
    s.append(a);
    s.append(b);
    proof {
        assert(s@ =~= a@ + b@);
    }
    s
}

/// The comma-separated decimal numerals of some bytes, without brackets.
pub open spec fn byte_items(bytes: Seq<u8>) -> Seq<char>
    decreases bytes.len(),
{
    if bytes.len() == 0 {
        seq![]
    } else if bytes.len() == 1 {
        decimal(bytes[0] as nat)
    } else {
        byte_items(bytes.drop_last()) + ", "@ + decimal(bytes.last() as nat)
    }
}

/// How a list of bytes is written out: their decimal numerals, separated by
/// ", " and enclosed in square brackets, such as "[1, 2, 255]".
pub open spec fn byte_list(bytes: Seq<u8>) -> Seq<char> {
    "["@ + byte_items(bytes) + "]"@
}

/// Writes out a list of bytes as [`byte_list`] describes.
pub fn byte_list_text(bytes: &[u8]) -> (s: StdString)
    ensures
        s@ == byte_list(bytes@),
{
    let mut s = StdString::new();
    s.append("[");
    let mut i: usize = 0;
    while i < bytes.len()
        invariant
            i <= bytes@.len(),
            s@ == "["@ + byte_items(bytes@.take(i as int)),
        decreases bytes@.len() - i,
    {
        let ghost before = s@;
        if i > 0 {
            s.append(", ");
        }
        push_decimal(&mut s, bytes[i] as u64);
        proof {
            let t = bytes@.take(i + 1);
            assert(t.drop_last() =~= bytes@.take(i as int));
            assert(t.last() == bytes@[i as int]);
            if i == 0 {
                assert(byte_items(bytes@.take(0)) =~= Seq::<char>::empty());
                assert(s@ =~= "["@ + byte_items(t));
            } else {
                assert(s@ =~= "["@ + byte_items(t));
            }
        }
        i = i + 1;
    }
    s.append("]");
    proof {
        assert(bytes@.take(bytes@.len() as int) =~= bytes@);
    }
    s
}

/// Whether `n` occurs in `s` starting at position `i`.
pub open spec fn occurs_at(n: Seq<u8>, s: Seq<u8>, i: int) -> bool {
    0 <= i && i + n.len() <= s.len() && s.subrange(i, i + n.len()) == n
}

/// Whether `n` occurs anywhere in `s` as a contiguous run.
pub open spec fn occurs_in(n: Seq<u8>, s: Seq<u8>) -> bool {
    exists|i: int| occurs_at(n, s, i)
}

/// Whether `s` begins with `p`.
pub open spec fn is_prefix(p: Seq<u8>, s: Seq<u8>) -> bool {
    occurs_at(p, s, 0)
}

/// Whether `s` ends with `p`.
pub open spec fn is_suffix(p: Seq<u8>, s: Seq<u8>) -> bool {
    p.len() <= s.len() && occurs_at(p, s, s.len() - p.len())
}

/// `n` occurs in `s` exactly when some run of `s`, of the length of `n`
/// and lying within `s`, is `n`; so what occurs in `s` is never longer than
/// `s`, nothing but the empty sequence occurs in an empty one, and every run
/// of `s` occurs in it.
pub proof fn lemma_occurs_in_iff_run(n: Seq<u8>, s: Seq<u8>)
    ensures
        occurs_in(n, s) <==> exists|i: int|
            0 <= i && i + n.len() <= s.len() && #[trigger] s.subrange(i, i + n.len()) =~= n,
        occurs_in(n, s) ==> n.len() <= s.len(),
        s.len() == 0 ==> (occurs_in(n, s) <==> n.len() == 0),
        forall|i: int, j: int| 0 <= i <= j <= s.len() ==> occurs_in(#[trigger] s.subrange(i, j), s),
{
    if occurs_in(n, s) {
        let i = choose|i: int| occurs_at(n, s, i);
        assert(s.subrange(i, i + n.len()) =~= n);
    }
    if exists|i: int| 0 <= i && i + n.len() <= s.len() && #[trigger] s.subrange(i, i + n.len()) =~= n {
        let i = choose|i: int| 0 <= i && i + n.len() <= s.len() && #[trigger] s.subrange(i, i + n.len()) =~= n;
        assert(occurs_at(n, s, i));
    }
    if s.len() == 0 && n.len() == 0 {
        assert(s.subrange(0, 0) =~= n);
        assert(occurs_at(n, s, 0));
    }
    assert forall|i: int, j: int| 0 <= i <= j <= s.len() implies occurs_in(#[trigger] s.subrange(i, j), s) by {
        assert(occurs_at(s.subrange(i, j), s, i));
    }
}

/// `s` begins with `p` exactly when `p` is no longer than `s` and the first
/// bytes of `s` are those of `p`.
pub proof fn lemma_is_prefix_iff(p: Seq<u8>, s: Seq<u8>)
    ensures
        is_prefix(p, s) <==> p.len() <= s.len() && s.take(p.len() as int) =~= p,
{
    if p.len() <= s.len() {
        assert(s.take(p.len() as int) =~= s.subrange(0, p.len() as int));
    }
}

/// `s` ends with `p` exactly when `p` is no longer than `s` and the last
/// bytes of `s` are those of `p`.
pub proof fn lemma_is_suffix_iff(p: Seq<u8>, s: Seq<u8>)
    ensures
        is_suffix(p, s) <==> p.len() <= s.len() && s.skip(s.len() - p.len()) =~= p,
{
    if p.len() <= s.len() {
        assert(s.skip(s.len() - p.len()) =~= s.subrange(s.len() - p.len(), s.len() as int));
    }
}

/// Whether `n` occurs in `s` at position `i`, which leaves room for it.
fn matches_at(s: &[u8], n: &[u8], i: usize) -> (r: bool)
    requires
        i + n@.len() <= s@.len(),
    ensures
        r == occurs_at(n@, s@, i as int),
{
    let sl = s.len();
    let mut j: usize = 0;
    while j < n.len()
        invariant
            sl == s@.len(),
            i + n@.len() <= s@.len(),
            j <= n@.len(),
            forall|k: int| 0 <= k < j ==> s@[i + k] == n@[k],
        decreases n@.len() - j,
    {
        if s[i + j] != n[j] {
            proof {
                assert(s@.subrange(i as int, i + n@.len())[j as int] != n@[j as int]);
            }
            return false;
        }
        j = j + 1;
    }
    proof {
        assert(s@.subrange(i as int, i + n@.len()) =~= n@);
    }
    true
}

/// Whether `s` begins with `p`.
pub fn bytes_start_with(s: &[u8], p: &[u8]) -> (r: bool)
    ensures
        r == is_prefix(p@, s@),
{
    if p.len() > s.len() {
        return false;
    }
    matches_at(s, p, 0)
}

/// Whether `s` ends with `p`.
pub fn bytes_end_with(s: &[u8], p: &[u8]) -> (r: bool)
    ensures
        r == is_suffix(p@, s@),
{
    if p.len() > s.len() {
        return false;
    }
    matches_at(s, p, s.len() - p.len())
}

/// Whether `n` occurs anywhere in `s`.
pub fn bytes_contain(s: &[u8], n: &[u8]) -> (r: bool)
    ensures
        r == occurs_in(n@, s@),
{
    if n.len() > s.len() {
        return false;
    }
    let last = s.len() - n.len();
    let mut i: usize = 0;
    loop
        invariant
            last + n@.len() == s@.len(),
            i <= last,
            forall|k: int| 0 <= k < i ==> !occurs_at(n@, s@, k),
        ensures
            forall|k: int| 0 <= k <= last ==> !occurs_at(n@, s@, k),
        decreases last - i,
    {
        if matches_at(s, n, i) {
            return true;
        }
        if i == last {
            break;
        }
        i = i + 1;
    }
    proof {
        assert forall|k: int| !occurs_at(n@, s@, k) by {
            if 0 <= k <= last {
            }
        }
    }
    false
}

/// The characters that `String::from_utf8_lossy` makes of some bytes:
/// their UTF-8 decoding, with U+FFFD in place of each invalid sequence.
pub uninterp spec fn utf8_lossy(bytes: Seq<u8>) -> Seq<char>;

/// Calls `String::from_utf8_lossy` and takes the result as an owned string.
/// The contract claims that the result is a function of the bytes, and, as
/// the documentation says, that valid UTF-8 is decoded unchanged.
#[verifier::external_body]
pub(crate) fn string_from_utf8_lossy(bytes: &[u8]) -> (s: StdString)
    ensures
        s@ == utf8_lossy(bytes@),
        valid_utf8(bytes@) ==> s@ == decode_utf8(bytes@),
{
    StdString::from_utf8_lossy(bytes).into_owned()
}

/// The UTF-8 encoding of a concatenation is the concatenation of the
/// encodings.
pub proof fn lemma_encode_utf8_concat(a: Seq<char>, b: Seq<char>)
    ensures
        encode_utf8(a + b) == encode_utf8(a) + encode_utf8(b),
    decreases a.len(),
{
    if a.len() == 0 {
        assert(a + b =~= b);
        assert(encode_utf8(a) =~= Seq::<u8>::empty());
        assert(encode_utf8(a) + encode_utf8(b) =~= encode_utf8(b));
    } else {
        assert((a + b).drop_first() =~= a.drop_first() + b);
        assert((a + b)[0] == a[0]);
        lemma_encode_utf8_concat(a.drop_first(), b);
        assert(encode_utf8(a + b) =~= encode_utf8(a) + encode_utf8(b));
    }
}

/// A string is empty exactly when its UTF-8 encoding is.
pub proof fn lemma_encode_utf8_empty(a: Seq<char>)
    ensures
        (encode_utf8(a).len() == 0) == (a.len() == 0),
{
    if a.len() > 0 {
        assert(decode_utf8(encode_utf8(a)) == a);
        if encode_utf8(a).len() == 0 {
            assert(encode_utf8(a) =~= Seq::<u8>::empty());
            assert(decode_utf8(Seq::<u8>::empty()) =~= Seq::<char>::empty());
        }
    }
}

} // verus!
