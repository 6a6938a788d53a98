//! Byte-level text utilities: the library renders and parses all text as
//! UTF-8 byte sequences, so that every step is checked.
use vstd::prelude::*;

verus! {

use vstd::string::StringSliceAdditionalSpecFns;

pub const B_TAB: u8 = 9;
pub const B_LF: u8 = 10;
pub const B_CR: u8 = 13;
pub const B_SPACE: u8 = 32;
pub const B_HASH: u8 = 35;
pub const B_COMMA: u8 = 44;
pub const B_DOT: u8 = 46;
pub const B_ZERO: u8 = 48;
pub const B_NINE: u8 = 57;
pub const B_DASH: u8 = 45;
pub const B_EQ: u8 = 61;
pub const B_COLON: u8 = 58;

/// The UTF-8 bytes of a string literal.
pub open spec fn lit(s: &str) -> Seq<u8> {
    s.spec_bytes()
}

pub open spec fn repeat_byte(b: u8, n: nat) -> Seq<u8> {
    Seq::new(n, |i: int| b)
}

pub open spec fn spaces(n: nat) -> Seq<u8> {
    repeat_byte(B_SPACE, n)
}

/// Left-pad with spaces to a minimum width (the width never truncates).
pub open spec fn pad_left(s: Seq<u8>, w: nat) -> Seq<u8> {
    if s.len() >= w {
        s
    } else {
        spaces((w - s.len()) as nat) + s
    }
}

/// Right-pad with spaces to a minimum width.
pub open spec fn pad_right(s: Seq<u8>, w: nat) -> Seq<u8> {
    if s.len() >= w {
        s
    } else {
        s + spaces((w - s.len()) as nat)
    }
}

/// Centre within a width; a leftover space goes to the right.
pub open spec fn center(s: Seq<u8>, w: nat) -> Seq<u8> {
    if s.len() >= w {
        s
    } else {
        let total = (w - s.len()) as nat;
        spaces(total / 2) + s + spaces((total - total / 2) as nat)
    }
}

/// Decimal digits of a natural number, most significant first.
pub open spec fn dec(n: nat) -> Seq<u8>
    decreases n,
{
    if n < 10 {
        seq![(B_ZERO + n) as u8]
    } else {
        dec(n / 10) + seq![(B_ZERO + n % 10) as u8]
    }
}

/// Decimal digits zero-padded on the left to a minimum width.
pub open spec fn zpad(n: nat, w: nat) -> Seq<u8> {
    if dec(n).len() >= w {
        dec(n)
    } else {
        repeat_byte(B_ZERO, (w - dec(n).len()) as nat) + dec(n)
    }
}

pub open spec fn pow10(k: nat) -> nat
    decreases k,
{
    if k == 0 {
        1
    } else {
        10 * pow10((k - 1) as nat)
    }
}

/// A number below `10^k` prints in at most `k` digits.
pub proof fn lemma_dec_len_le(n: nat, k: nat)
    requires
        k >= 1,
        n < pow10(k),
    ensures
        dec(n).len() <= k,
    decreases k,
{
    if n < 10 {
    } else {
        assert(pow10(k) == 10 * pow10((k - 1) as nat));
        assert(k >= 2) by {
            if k == 1 {
                assert(pow10(1nat) == 10);
            }
        }
        assert(n / 10 < pow10((k - 1) as nat)) by (nonlinear_arith)
            requires
                n < 10 * pow10((k - 1) as nat),
                pow10((k - 1) as nat) >= 0,
                n >= 0,
        ;
        lemma_dec_len_le(n / 10, (k - 1) as nat);
    }
}

/// A non-negative quotient rounded half away from zero.
pub open spec fn round_div(n: int, d: int) -> int
    recommends
        n >= 0,
        d > 0,
{
    if 2 * (n % d) >= d {
        n / d + 1
    } else {
        n / d
    }
}

/// Fixed-point rendering: `v` in units of `1/scale`, with `w` fractional
/// digits (`scale == 10^w`), as `integer.fraction`.
pub open spec fn fixed(v: nat, scale: nat, w: nat) -> Seq<u8>
    recommends
        scale > 1,
{
    dec(v / scale) + seq![B_DOT] + zpad(v % scale, w)
}

pub open spec fn is_ws(b: u8) -> bool {
    b == B_SPACE || b == B_TAB || b == B_LF || b == B_CR
}

/// Number of leading whitespace bytes.
pub open spec fn ws_prefix(s: Seq<u8>) -> nat
    decreases s.len(),
{
    if s.len() == 0 || !is_ws(s[0]) {
        0
    } else {
        1 + ws_prefix(s.drop_first())
    }
}

/// Number of trailing whitespace bytes.
pub open spec fn ws_suffix(s: Seq<u8>) -> nat
    decreases s.len(),
{
    if s.len() == 0 || !is_ws(s[s.len() - 1]) {
        0
    } else {
        1 + ws_suffix(s.drop_last())
    }
}

/// The sequence with leading and trailing whitespace removed.
pub open spec fn trim_spec(s: Seq<u8>) -> Seq<u8> {
    if ws_prefix(s) == s.len() {
        Seq::empty()
    } else {
        s.subrange(ws_prefix(s) as int, s.len() - ws_suffix(s))
    }
}

/// Index of the first occurrence of `b`, or the length if absent.
pub open spec fn idx_of(s: Seq<u8>, b: u8) -> nat
    decreases s.len(),
{
    if s.len() == 0 {
        0
    } else if s[0] == b {
        0
    } else {
        1 + idx_of(s.drop_first(), b)
    }
}

pub proof fn lemma_idx_of_le(s: Seq<u8>, b: u8)
    ensures
        idx_of(s, b) <= s.len(),
    decreases s.len(),
{
    if s.len() > 0 && s[0] != b {
        lemma_idx_of_le(s.drop_first(), b);
    }
}

/// Fields obtained by splitting at every occurrence of `b`.
pub open spec fn split_at_byte(s: Seq<u8>, b: u8) -> Seq<Seq<u8>>
    decreases s.len(),
    via split_at_byte_decreases
{
    if idx_of(s, b) == s.len() {
        seq![s]
    } else {
        seq![s.take(idx_of(s, b) as int)] + split_at_byte(s.skip(idx_of(s, b) + 1 as int), b)
    }
}

#[via_fn]
proof fn split_at_byte_decreases(s: Seq<u8>, b: u8) {
    lemma_idx_of_le(s, b);
}

pub open spec fn is_digit(b: u8) -> bool {
    B_ZERO <= b && b <= B_NINE
}

pub open spec fn all_digits(s: Seq<u8>) -> bool {
    forall|i: int| 0 <= i < s.len() ==> is_digit(#[trigger] s[i])
}

/// A non-empty, all-digit sequence.
pub open spec fn is_dec_number(s: Seq<u8>) -> bool {
    s.len() > 0 && all_digits(s)
}

/// The value of a digit sequence read in base ten.
pub open spec fn dec_value(s: Seq<u8>) -> nat
    decreases s.len(),
{
    if s.len() == 0 {
        0
    } else {
        dec_value(s.drop_last()) * 10 + (if is_digit(s[s.len() - 1]) {
            (s[s.len() - 1] - B_ZERO) as nat
        } else {
            0
        })
    }
}

/// Executable test for the whitespace bytes of `is_ws`.
pub fn is_ws_byte(b: u8) -> (r: bool)
    ensures
        r == is_ws(b),
{
    b == B_SPACE || b == B_TAB || b == B_LF || b == B_CR
}

pub fn push_bytes(out: &mut Vec<u8>, s: &[u8])
    ensures
        final(out)@ == old(out)@ + s@,
{
    let mut i: usize = 0;
    while i < s.len()
        invariant
            i <= s@.len(),
            out@ == old(out)@ + s@.subrange(0, i as int),
        decreases s@.len() - i,
    {
        out.push(s[i]);
        proof {
            assert(out@ =~= old(out)@ + s@.subrange(0, i + 1 as int));
        }
        i = i + 1;
    }
    proof {
        assert(out@ =~= old(out)@ + s@);
    }
}

pub fn push_lit(out: &mut Vec<u8>, s: &str)
    ensures
        final(out)@ == old(out)@ + lit(s),
{
    push_bytes(out, s.as_bytes());
}

pub fn push_repeat(out: &mut Vec<u8>, b: u8, n: usize)
    ensures
        final(out)@ == old(out)@ + repeat_byte(b, n as nat),
{
    let mut i: usize = 0;
    while i < n
        invariant
            i <= n,
            out@ == old(out)@ + repeat_byte(b, i as nat),
        decreases n - i,
    {
        out.push(b);
        proof {
            assert(out@ =~= old(out)@ + repeat_byte(b, (i + 1) as nat));
        }
        i = i + 1;
    }
}

/// Append decimal digits of `n`.
pub fn push_dec(out: &mut Vec<u8>, n: u128)
    ensures
        final(out)@ == old(out)@ + dec(n as nat),
    decreases n,
{
    if n < 10 {
        out.push(B_ZERO + (n as u8));
    } else {
        push_dec(out, n / 10);
        out.push(B_ZERO + ((n % 10) as u8));
        proof {
            assert(out@ =~= old(out)@ + dec(n as nat));
        }
    }
}

/// Append decimal digits of `n`, zero-padded on the left to width `w`.
pub fn push_zpad(out: &mut Vec<u8>, n: u128, w: usize)
    ensures
        final(out)@ == old(out)@ + zpad(n as nat, w as nat),
{
    let mut digits: Vec<u8> = Vec::new();
    push_dec(&mut digits, n);
    if digits.len() < w {
        push_repeat(out, B_ZERO, w - digits.len());
    }
    push_bytes(out, digits.as_slice());
    proof {
        assert(out@ =~= old(out)@ + zpad(n as nat, w as nat));
    }
}

/// Append `s` left-padded with spaces to width `w`.
pub fn push_pad_left(out: &mut Vec<u8>, s: &[u8], w: usize)
    ensures
        final(out)@ == old(out)@ + pad_left(s@, w as nat),
{
    if s.len() < w {
        push_repeat(out, B_SPACE, w - s.len());
    }
    push_bytes(out, s);
    proof {
        assert(out@ =~= old(out)@ + pad_left(s@, w as nat));
    }
}

/// Append `s` right-padded with spaces to width `w`.
pub fn push_pad_right(out: &mut Vec<u8>, s: &[u8], w: usize)
    ensures
        final(out)@ == old(out)@ + pad_right(s@, w as nat),
{
    push_bytes(out, s);
    if s.len() < w {
        push_repeat(out, B_SPACE, w - s.len());
    }
    proof {
        assert(out@ =~= old(out)@ + pad_right(s@, w as nat));
    }
}

/// Append `s` centred to width `w`.
pub fn push_center(out: &mut Vec<u8>, s: &[u8], w: usize)
    ensures
        final(out)@ == old(out)@ + center(s@, w as nat),
{
    if s.len() >= w {
        push_bytes(out, s);
    } else {
        let total = w - s.len();
        push_repeat(out, B_SPACE, total / 2);
        push_bytes(out, s);
        push_repeat(out, B_SPACE, total - total / 2);
    }
    proof {
        assert(out@ =~= old(out)@ + center(s@, w as nat));
    }
}

/// Append the fixed-point rendering of `v` in units of `1/scale`.
pub fn push_fixed(out: &mut Vec<u8>, v: u128, scale: u128, w: usize)
    requires
        scale > 1,
    ensures
        final(out)@ == old(out)@ + fixed(v as nat, scale as nat, w as nat),
{
    push_dec(out, v / scale);
    out.push(B_DOT);
    push_zpad(out, v % scale, w);
    proof {
        assert(out@ =~= old(out)@ + fixed(v as nat, scale as nat, w as nat));
    }
}

/// Division of non-negative integers rounded half away from zero.
pub fn round_div_u128(n: u128, d: u128) -> (r: u128)
    requires
        d > 0,
    ensures
        r == round_div(n as int, d as int),
{
    let q = n / d;
    let rem = n % d;
    if rem >= d - rem {
        proof {
            assert(q < u128::MAX) by {
                vstd::arithmetic::div_mod::lemma_fundamental_div_mod(n as int, d as int);
                assert(n >= d * q + 1) by (nonlinear_arith)
                    requires
                        n == d * q + rem,
                        rem >= 1,
                        d >= 1,
                        q >= 0,
                ;
                assert(d * q >= q) by (nonlinear_arith)
                    requires
                        d >= 1,
                        q >= 0,
                ;
            }
        }
        q + 1
    } else {
        q
    }
}

proof fn lemma_ws_prefix_is(s: Seq<u8>, k: nat)
    requires
        k <= s.len(),
        forall|j: int| 0 <= j < k ==> is_ws(#[trigger] s[j]),
        k == s.len() || !is_ws(s[k as int]),
    ensures
        ws_prefix(s) == k,
    decreases k,
{
    if k == 0 {
    } else {
        assert(is_ws(s[0]));
        lemma_ws_prefix_is(s.drop_first(), (k - 1) as nat);
    }
}

proof fn lemma_ws_suffix_is(s: Seq<u8>, k: nat)
    requires
        k <= s.len(),
        forall|j: int| s.len() - k <= j < s.len() ==> is_ws(#[trigger] s[j]),
        k == s.len() || !is_ws(s[s.len() - k - 1]),
    ensures
        ws_suffix(s) == k,
    decreases k,
{
    if k == 0 {
    } else {
        assert(is_ws(s[s.len() - 1]));
        lemma_ws_suffix_is(s.drop_last(), (k - 1) as nat);
    }
}

/// Copy of `s` with leading and trailing whitespace removed.
pub fn trim(s: &[u8]) -> (r: Vec<u8>)
    ensures
        r@ == trim_spec(s@),
{
    let n = s.len();
    let mut lo: usize = 0;
    while lo < n && is_ws_byte(s[lo])
        invariant
            lo <= n,
            n == s@.len(),
            forall|j: int| 0 <= j < lo ==> is_ws(#[trigger] s@[j]),
        decreases n - lo,
    {
        lo = lo + 1;
    }
    proof {
        lemma_ws_prefix_is(s@, lo as nat);
    }
    if lo == n {
        let r: Vec<u8> = Vec::new();
        proof {
            assert(r@ =~= trim_spec(s@));
        }
        return r;
    }
    let mut hi: usize = n;
    while hi > lo + 1 && is_ws_byte(s[hi - 1])
        invariant
            lo < hi <= n,
            n == s@.len(),
            forall|j: int| hi <= j < n ==> is_ws(#[trigger] s@[j]),
        decreases hi,
    {
        hi = hi - 1;
    }
    proof {
        if is_ws(s@[hi - 1]) {
            assert(hi == lo + 1);
            assert(!is_ws(s@[lo as int]));
            assert(false);
        }
        lemma_ws_suffix_is(s@, (n - hi) as nat);
    }
    let mut r: Vec<u8> = Vec::new();
    let mut i: usize = lo;
    while i < hi
        invariant
            lo <= i <= hi <= n,
            n == s@.len(),
            r@ == s@.subrange(lo as int, i as int),
        decreases hi - i,
    {
        r.push(s[i]);
        proof {
            assert(r@ =~= s@.subrange(lo as int, i + 1 as int));
        }
        i = i + 1;
    }
    proof {
        assert(r@ =~= trim_spec(s@));
    }
    r
}

/// Split at every occurrence of `b`; fields are returned unchanged.
pub fn split_bytes(s: &[u8], b: u8) -> (r: Vec<Vec<u8>>)
    ensures
        r@.len() == split_at_byte(s@, b).len(),
        forall|i: int| 0 <= i < r@.len() ==> r@[i]@ == split_at_byte(s@, b)[i],
    decreases s@.len(),
{
    let n = s.len();
    let mut k: usize = 0;
    while k < n && s[k] != b
        invariant
            k <= n,
            n == s@.len(),
            forall|j: int| 0 <= j < k ==> s@[j] != b,
        decreases n - k,
    {
        k = k + 1;
    }
    proof {
        lemma_idx_of_is(s@, b, k as nat);
    }
    let mut first: Vec<u8> = Vec::new();
    let mut i: usize = 0;
    while i < k
        invariant
            i <= k <= n,
            n == s@.len(),
            first@ == s@.subrange(0, i as int),
        decreases k - i,
    {
        first.push(s[i]);
        proof {
            assert(first@ =~= s@.subrange(0, i + 1 as int));
        }
        i = i + 1;
    }
    if k == n {
        let mut r: Vec<Vec<u8>> = Vec::new();
        proof {
            assert(first@ =~= s@);
        }
        r.push(first);
        return r;
    }
    let mut rest_in: Vec<u8> = Vec::new();
    let mut j: usize = k + 1;
    while j < n
        invariant
            k + 1 <= j <= n,
            n == s@.len(),
            rest_in@ == s@.subrange(k + 1 as int, j as int),
        decreases n - j,
    {
        rest_in.push(s[j]);
        proof {
            assert(rest_in@ =~= s@.subrange(k + 1 as int, j + 1 as int));
        }
        j = j + 1;
    }
    proof {
        assert(rest_in@ =~= s@.skip(k + 1 as int));
        assert(first@ =~= s@.take(k as int));
    }
    let mut rest = split_bytes(rest_in.as_slice(), b);
    let mut r: Vec<Vec<u8>> = Vec::new();
    r.push(first);
    r.append(&mut rest);
    proof {
        assert(split_at_byte(s@, b) == seq![s@.take(k as int)] + split_at_byte(s@.skip(k + 1), b));
        assert(forall|i2: int| 0 <= i2 < r@.len() ==> r@[i2]@ == split_at_byte(s@, b)[i2]);
    }
    r
}

proof fn lemma_idx_of_is(s: Seq<u8>, b: u8, k: nat)
    requires
        k <= s.len(),
        forall|j: int| 0 <= j < k ==> s[j] != b,
        k == s.len() || s[k as int] == b,
    ensures
        idx_of(s, b) == k,
    decreases k,
{
    if k == 0 {
    } else {
        lemma_idx_of_is(s.drop_first(), b, (k - 1) as nat);
    }
}

/// Parse a non-empty all-digit byte sequence as a `u64`.
pub fn parse_u64(s: &[u8]) -> (r: Option<u64>)
    ensures
        match r {
            Some(n) => is_dec_number(s@) && dec_value(s@) == n,
            None => !is_dec_number(s@) || dec_value(s@) > u64::MAX,
        },
{
    let n = s.len();
    if n == 0 {
        return None;
    }
    let mut acc: u64 = 0;
    let mut i: usize = 0;
    while i < n
        invariant
            i <= n,
            n == s@.len(),
            n > 0,
            forall|j: int| 0 <= j < i ==> is_digit(#[trigger] s@[j]),
            acc == dec_value(s@.take(i as int)),
        decreases n - i,
    {
        let b = s[i];
        if b < B_ZERO || b > B_NINE {
            return None;
        }
        let d = b - B_ZERO;
        let shifted = match acc.checked_mul(10) {
            Some(m) => m,
            None => {
                proof {
                    assert(s@.take(i + 1 as int).drop_last() =~= s@.take(i as int));
                    assert(dec_value(s@.take(i + 1 as int)) > u64::MAX);
                    lemma_dec_value_prefix_overflow(s@, (i + 1) as nat);
                }
                return None;
            },
        };
        let next = match shifted.checked_add(d as u64) {
            Some(a) => a,
            None => {
                proof {
                    assert(s@.take(i + 1 as int).drop_last() =~= s@.take(i as int));
                    assert(dec_value(s@.take(i + 1 as int)) > u64::MAX);
                    lemma_dec_value_prefix_overflow(s@, (i + 1) as nat);
                }
                return None;
            },
        };
        acc = next;
        proof {
            assert(s@.take(i + 1 as int).drop_last() =~= s@.take(i as int));
        }
        i = i + 1;
    }
    proof {
        assert(s@.take(n as int) =~= s@);
    }
    Some(acc)
}

proof fn lemma_dec_value_prefix_overflow(s: Seq<u8>, k: nat)
    requires
        k <= s.len(),
        dec_value(s.take(k as int)) > u64::MAX,
    ensures
        all_digits(s) ==> dec_value(s) > u64::MAX,
    decreases s.len() - k,
{
    if k == s.len() {
        assert(s.take(k as int) =~= s);
    } else {
        assert(s.take(k + 1 as int).drop_last() =~= s.take(k as int));
        lemma_dec_value_prefix_overflow(s, k + 1);
    }
}

/// A fresh copy of a byte slice.
pub fn copy_bytes(s: &[u8]) -> (r: Vec<u8>)
    ensures
        r@ == s@,
{
    let mut r: Vec<u8> = Vec::new();
    push_bytes(&mut r, s);
    proof {
        assert(r@ =~= s@);
    }
    r
}

/// Byte-sequence equality.
pub fn bytes_eq(a: &[u8], b: &[u8]) -> (r: bool)
    ensures
        r == (a@ == b@),
{
    if a.len() != b.len() {
        proof {
            assert(a@ != b@);
        }
        return false;
    }
    let n = a.len();
    let mut i: usize = 0;
    while i < n
        invariant
            i <= n,
            n == a@.len() == b@.len(),
            forall|j: int| 0 <= j < i ==> a@[j] == b@[j],
        decreases n - i,
    {
        if a[i] != b[i] {
            proof {
                assert(a@ != b@);
            }
            return false;
        }
        i = i + 1;
    }
    proof {
        assert(a@ =~= b@);
    }
    true
}

} // verus!
