//! The lexicographic order of byte strings, by which CEL compares strings
//! (through their UTF-8 encoding) and bytes.
use vstd::prelude::*;
use core::cmp::Ordering;

verus! {

/// The sign of the lexicographic comparison of `a` with `b`: -1 when `a` comes
/// first, 0 when they are equal, 1 when `b` comes first. A proper prefix comes
/// before the longer sequence.
pub open spec fn lex_sign(a: Seq<u8>, b: Seq<u8>) -> int
    decreases a.len(),
{
    if a.len() == 0 {
        if b.len() == 0 {
            0
        } else {
            -1
        }
    } else if b.len() == 0 {
        1
    } else if a[0] < b[0] {
        -1
    } else if a[0] > b[0] {
        1
    } else {
        lex_sign(a.drop_first(), b.drop_first())
    }
}

/// Two byte strings compare equal exactly when they are the same.
pub proof fn lemma_lex_sign_zero_iff_equal(a: Seq<u8>, b: Seq<u8>)
    ensures
        (lex_sign(a, b) == 0) == (a == b),
        -1 <= lex_sign(a, b) <= 1,
    decreases a.len(),
{
    if a.len() > 0 && b.len() > 0 && a[0] == b[0] {
        lemma_lex_sign_zero_iff_equal(a.drop_first(), b.drop_first());
        if a.drop_first() == b.drop_first() {
            assert(a =~= seq![a[0]] + a.drop_first());
            assert(b =~= seq![b[0]] + b.drop_first());
        }
        if a == b {
            assert(a.drop_first() == b.drop_first());
        }
    } else if a.len() == 0 && b.len() == 0 {
        assert(a =~= b);
    }
}

/// Swapping the operands turns the order around.
pub proof fn lemma_lex_sign_antisymmetric(a: Seq<u8>, b: Seq<u8>)
    ensures
        lex_sign(b, a) == -lex_sign(a, b),
    decreases a.len(),
{
    if a.len() > 0 && b.len() > 0 && a[0] == b[0] {
        lemma_lex_sign_antisymmetric(a.drop_first(), b.drop_first());
    }
}

/// The order is transitive: when `a` comes before `b` and `b` before `c`,
/// `a` comes before `c`.
pub proof fn lemma_lex_sign_transitive(a: Seq<u8>, b: Seq<u8>, c: Seq<u8>)
    requires
        lex_sign(a, b) < 0,
        lex_sign(b, c) < 0,
    ensures
        lex_sign(a, c) < 0,
    decreases a.len(),
{
    if a.len() > 0 && b.len() > 0 && c.len() > 0 && a[0] == b[0] && b[0] == c[0] {
        lemma_lex_sign_transitive(a.drop_first(), b.drop_first(), c.drop_first());
    }
}

/// The first position at which two byte strings differ decides their
/// order, whatever their lengths: when `a` and `b` agree on their first `k`
/// bytes and `a[k] < b[k]`, `a` comes first; when `a[k] > b[k]`, `b` does.
pub proof fn lemma_lex_sign_first_difference(a: Seq<u8>, b: Seq<u8>, k: int)
    requires
        0 <= k < a.len(),
        k < b.len(),
        a.take(k) == b.take(k),
        a[k] != b[k],
    ensures
        lex_sign(a, b) == (if a[k] < b[k] { -1int } else { 1int }),
    decreases k,
{
    if k > 0 {
        assert(a[0] == a.take(k)[0] && b[0] == b.take(k)[0]);
        assert(a.drop_first().take(k - 1) =~= a.take(k).drop_first());
        assert(b.drop_first().take(k - 1) =~= b.take(k).drop_first());
        lemma_lex_sign_first_difference(a.drop_first(), b.drop_first(), k - 1);
    }
}

/// A proper prefix comes before the longer byte string, and the longer one
/// after it.
pub proof fn lemma_lex_sign_proper_prefix(a: Seq<u8>, b: Seq<u8>)
    requires
        a.len() < b.len(),
        b.take(a.len() as int) == a,
    ensures
        lex_sign(a, b) == -1,
        lex_sign(b, a) == 1,
    decreases a.len(),
{
    if a.len() > 0 {
        assert(b[0] == b.take(a.len() as int)[0]);
        assert(b.drop_first().take(a.drop_first().len() as int) =~= b.take(a.len() as int).drop_first());
        lemma_lex_sign_proper_prefix(a.drop_first(), b.drop_first());
    }
}

/// Compares two byte strings lexicographically; the result is the sign of
/// the comparison.
pub fn compare_bytes(a: &[u8], b: &[u8]) -> (r: i8)
    ensures
        r as int == lex_sign(a@, b@),
        -1 <= r <= 1,
{
    let mut i: usize = 0;
    proof {
        assert(a@.skip(0) =~= a@);
        assert(b@.skip(0) =~= b@);
    }
    while i < a.len() && i < b.len()
        invariant
            i <= a@.len(),
            i <= b@.len(),
            lex_sign(a@, b@) == lex_sign(a@.skip(i as int), b@.skip(i as int)),
        decreases a@.len() - i,
    {
        if a[i] < b[i] {
            return -1;
        }
        if a[i] > b[i] {
            return 1;
        }
        proof {
            assert(a@.skip(i as int).drop_first() =~= a@.skip(i + 1));
            assert(b@.skip(i as int).drop_first() =~= b@.skip(i + 1));
        }
        i = i + 1;
    }
    if i < b.len() {
        -1
    } else if i < a.len() {
        1
    } else {
        0
    }
}

/// The sign that an [`Ordering`] stands for: -1 for `Less`, 0 for `Equal`,
/// 1 for `Greater`.
pub open spec fn order_sign(o: Ordering) -> int {
    match o {
        Ordering::Less => -1,
        Ordering::Equal => 0,
        Ordering::Greater => 1,
    }
}

/// The [`Ordering`] of a comparison whose sign is `s`.
pub fn ordering_of_sign(s: i8) -> (o: Ordering)
    requires
        -1 <= s <= 1,
    ensures
        order_sign(o) == s,
{
    if s < 0 {
        Ordering::Less
    } else if s == 0 {
        Ordering::Equal
    } else {
        Ordering::Greater
    }
}

} // verus!
