//! Numeric tokens: decimal integers as the SIZE, BBX and property records
//! carry them, hexadecimal bitmap rows, and the decimal rendering of a glyph
//! encoding. Each runtime function is proved against a spec-level value
//! function over byte sequences.

use vstd::prelude::*;

verus! {

/// `b` is an ASCII decimal digit.
pub open spec fn is_digit(b: u8) -> bool {
    '0' as u8 <= b <= '9' as u8
}

/// Every byte of `t` is a decimal digit.
pub open spec fn all_digits(t: Seq<u8>) -> bool {
    forall|i: int| 0 <= i < t.len() ==> is_digit(#[trigger] t[i])
}

/// The value of `t` read as a decimal numeral (meaningful when
/// `all_digits(t)` holds).
pub open spec fn dec_val(t: Seq<u8>) -> int
    decreases t.len(),
{
    if t.len() == 0 {
        0
    } else {
        dec_val(t.drop_last()) * 10 + (t.last() - ('0' as u8))
    }
}

/// A longer all-digit numeral never has a smaller value: appending digits
/// multiplies the prefix value and adds a non-negative digit.
pub proof fn lemma_dec_val_prefix(t: Seq<u8>, k: int)
    requires
        0 <= k <= t.len(),
        all_digits(t),
    ensures
        dec_val(t) >= dec_val(t.take(k)),
        dec_val(t.take(k)) >= 0,
    decreases t.len() - k,
{
    if k == t.len() {
        assert(t.take(k) =~= t);
        lemma_dec_val_nonneg(t);
    } else {
        lemma_dec_val_prefix(t, k + 1);
        lemma_dec_val_nonneg(t.take(k));
        assert(t.take(k + 1).drop_last() =~= t.take(k));
        assert(t.take(k + 1).last() == t[k]);
        assert(dec_val(t.take(k + 1)) == dec_val(t.take(k)) * 10 + (t[k] - ('0' as u8)));
    }
}

pub proof fn lemma_dec_val_nonneg(t: Seq<u8>)
    requires
        all_digits(t),
    ensures
        dec_val(t) >= 0,
    decreases t.len(),
{
    if t.len() > 0 {
        assert(all_digits(t.drop_last())) by {
            assert(forall|i: int|
                0 <= i < t.len() - 1 ==> #[trigger] t.drop_last()[i] == t[i]);
        }
        lemma_dec_val_nonneg(t.drop_last());
    }
}

/// What `t` denotes as an unsigned machine word: its decimal value when it
/// is a non-empty run of digits whose value fits, nothing otherwise.
pub open spec fn spec_parse_usize(t: Seq<u8>) -> Option<int> {
    if t.len() > 0 && all_digits(t) && dec_val(t) <= usize::MAX as int {
        Some(dec_val(t))
    } else {
        None
    }
}

/// Reads a non-empty run of decimal digits as a `usize`, rejecting any other
/// byte and any value that does not fit.
pub fn parse_usize(t: &[u8]) -> (r: Option<usize>)
    ensures
        (match r {
            Some(v) => spec_parse_usize(t@) == Some(v as int),
            None => spec_parse_usize(t@) is None,
        }),
{
    if t.len() == 0 {
        return None;
    }
    let mut acc: usize = 0;
    let mut i: usize = 0;
    proof {
        assert(t@.take(0) =~= Seq::<u8>::empty());
    }
    while i < t.len()
        invariant
            0 < t@.len(),
            i <= t@.len(),
            all_digits(t@.take(i as int)),
            acc == dec_val(t@.take(i as int)),
        decreases t@.len() - i,
    {
        let b = t[i];
        if b < '0' as u8 || b > '9' as u8 {
            assert(!all_digits(t@));
            return None;
        }
        let d = (b - '0' as u8) as usize;
        proof {
            assert(t@.take(i + 1).drop_last() =~= t@.take(i as int));
            assert(t@.take(i + 1).last() == t@[i as int]);
        }
        if acc > (usize::MAX - d) / 10 {
            // The numeral seen so far already exceeds the machine range.
            proof {
                assert(acc * 10 + d > usize::MAX) by {
                    assert(acc >= (usize::MAX - d) / 10 + 1);
                    assert(((usize::MAX - d) / 10 + 1) * 10 == ((usize::MAX - d) / 10) * 10
                        + 10);
                    assert(((usize::MAX - d) / 10) * 10 > usize::MAX - d - 10);
                    assert(acc * 10 >= ((usize::MAX - d) / 10 + 1) * 10) by (nonlinear_arith)
                        requires
                            acc >= (usize::MAX - d) / 10 + 1,
                            d >= 0,
                    ;
                }
                assert(dec_val(t@.take(i + 1)) > usize::MAX);
                if all_digits(t@) {
                    lemma_dec_val_prefix(t@, i + 1);
                }
            }
            return None;
        }
        proof {
            assert(acc <= (usize::MAX - d) / 10);
            assert(acc * 10 <= ((usize::MAX - d) / 10) * 10) by (nonlinear_arith)
                requires
                    acc <= (usize::MAX - d) / 10,
            ;
            assert(((usize::MAX - d) / 10) * 10 <= usize::MAX - d);
        }
        acc = acc * 10 + d;
        i += 1;
    }
    proof {
        assert(t@.take(t@.len() as int) =~= t@);
    }
    Some(acc)
}

/// What `t` denotes as a signed machine word: an optional leading minus sign
/// followed by a non-empty run of digits whose value fits.
pub open spec fn spec_parse_isize(t: Seq<u8>) -> Option<int> {
    if t.len() > 0 && t[0] == '-' as u8 {
        let m = t.skip(1);
        if m.len() > 0 && all_digits(m) && -dec_val(m) >= isize::MIN as int {
            Some(-dec_val(m))
        } else {
            None
        }
    } else {
        if t.len() > 0 && all_digits(t) && dec_val(t) <= isize::MAX as int {
            Some(dec_val(t))
        } else {
            None
        }
    }
}

/// Reads an optionally negated run of decimal digits as an `isize`.
pub fn parse_isize(t: &[u8]) -> (r: Option<isize>)
    ensures
        (match r {
            Some(v) => spec_parse_isize(t@) == Some(v as int),
            None => spec_parse_isize(t@) is None,
        }),
{
    if t.len() == 0 {
        return None;
    }
    if t[0] == '-' as u8 {
        let rest = vstd::slice::slice_subrange(t, 1, t.len());
        match parse_usize(rest) {
            Some(v) => {
                if v <= isize::MAX as usize {
                    Some(-(v as isize))
                } else if v == (isize::MAX as usize) + 1 {
                    Some(isize::MIN)
                } else {
                    assert(-dec_val(t@.skip(1)) < isize::MIN as int);
                    None
                }
            },
            None => {
                assert(spec_parse_isize(t@) is None);
                None
            },
        }
    } else {
        match parse_usize(t) {
            Some(v) => {
                if v <= isize::MAX as usize {
                    Some(v as isize)
                } else {
                    None
                }
            },
            None => None,
        }
    }
}

/// `b` is an ASCII hexadecimal digit, either case.
pub open spec fn is_hex_digit(b: u8) -> bool {
    ('0' as u8 <= b <= '9' as u8) || ('a' as u8 <= b <= 'f' as u8) || ('A' as u8 <= b
        <= 'F' as u8)
}

/// Every byte of `t` is a hexadecimal digit.
pub open spec fn all_hex_digits(t: Seq<u8>) -> bool {
    forall|i: int| 0 <= i < t.len() ==> is_hex_digit(#[trigger] t[i])
}

/// The numeric value of one hexadecimal digit.
pub open spec fn hex_digit_val(b: u8) -> int {
    if '0' as u8 <= b <= '9' as u8 {
        b - ('0' as u8)
    } else if 'a' as u8 <= b <= 'f' as u8 {
        10 + (b - ('a' as u8))
    } else {
        10 + (b - ('A' as u8))
    }
}

/// The value of `t` read as a hexadecimal numeral (meaningful when
/// `all_hex_digits(t)` holds).
pub open spec fn hex_val(t: Seq<u8>) -> int
    decreases t.len(),
{
    if t.len() == 0 {
        0
    } else {
        hex_val(t.drop_last()) * 16 + hex_digit_val(t.last())
    }
}

pub proof fn lemma_hex_val_nonneg(t: Seq<u8>)
    requires
        all_hex_digits(t),
    ensures
        hex_val(t) >= 0,
    decreases t.len(),
{
    if t.len() > 0 {
        assert(all_hex_digits(t.drop_last())) by {
            assert(forall|i: int|
                0 <= i < t.len() - 1 ==> #[trigger] t.drop_last()[i] == t[i]);
        }
        lemma_hex_val_nonneg(t.drop_last());
    }
}

pub proof fn lemma_hex_val_prefix(t: Seq<u8>, k: int)
    requires
        0 <= k <= t.len(),
        all_hex_digits(t),
    ensures
        hex_val(t) >= hex_val(t.take(k)),
        hex_val(t.take(k)) >= 0,
    decreases t.len() - k,
{
    if k == t.len() {
        assert(t.take(k) =~= t);
        lemma_hex_val_nonneg(t);
    } else {
        lemma_hex_val_prefix(t, k + 1);
        lemma_hex_val_nonneg(t.take(k));
        assert(t.take(k + 1).drop_last() =~= t.take(k));
        assert(t.take(k + 1).last() == t[k]);
        assert(hex_val(t.take(k + 1)) == hex_val(t.take(k)) * 16 + hex_digit_val(t[k]));
    }
}

/// A numeral of at most two hexadecimal digits is one byte's worth.
pub proof fn lemma_hex_val_short(t: Seq<u8>)
    requires
        all_hex_digits(t),
        t.len() <= 2,
    ensures
        0 <= hex_val(t) < 256,
{
    assert(hex_val(Seq::<u8>::empty()) == 0);
    if t.len() == 1 {
        assert(t.drop_last() =~= Seq::<u8>::empty());
        assert(t.last() == t[0]);
        assert(hex_val(t) == hex_val(t.drop_last()) * 16 + hex_digit_val(t[0]));
    } else if t.len() == 2 {
        assert(t.drop_last().drop_last() =~= Seq::<u8>::empty());
        assert(t.drop_last().last() == t[0]);
        assert(hex_val(t.drop_last()) == hex_val(t.drop_last().drop_last()) * 16
            + hex_digit_val(t[0]));
        assert(t.last() == t[1]);
        assert(hex_val(t) == hex_val(t.drop_last()) * 16 + hex_digit_val(t[1]));
    }
}

/// Reads a non-empty run of hexadecimal digits as a `u16`, rejecting any
/// other byte and any value above `u16::MAX`.
pub open spec fn spec_parse_hex_u16(t: Seq<u8>) -> Option<int> {
    if t.len() > 0 && all_hex_digits(t) && hex_val(t) <= u16::MAX as int {
        Some(hex_val(t))
    } else {
        None
    }
}

pub fn parse_hex_u16(t: &[u8]) -> (r: Option<u16>)
    ensures
        (match r {
            Some(v) => spec_parse_hex_u16(t@) == Some(v as int),
            None => spec_parse_hex_u16(t@) is None,
        }),
{
    if t.len() == 0 {
        return None;
    }
    let mut acc: u32 = 0;
    let mut i: usize = 0;
    proof {
        assert(t@.take(0) =~= Seq::<u8>::empty());
    }
    while i < t.len()
        invariant
            0 < t@.len(),
            i <= t@.len(),
            all_hex_digits(t@.take(i as int)),
            acc == hex_val(t@.take(i as int)),
            acc <= u16::MAX,
        decreases t@.len() - i,
    {
        let b = t[i];
        let d: u32 = if b >= '0' as u8 && b <= '9' as u8 {
            (b - '0' as u8) as u32
        } else if b >= 'a' as u8 && b <= 'f' as u8 {
            10 + (b - 'a' as u8) as u32
        } else if b >= 'A' as u8 && b <= 'F' as u8 {
            10 + (b - 'A' as u8) as u32
        } else {
            assert(!all_hex_digits(t@));
            return None;
        };
        assert(d == hex_digit_val(t@[i as int]) && d <= 15);
        proof {
            assert(t@.take(i + 1).drop_last() =~= t@.take(i as int));
            assert(t@.take(i + 1).last() == t@[i as int]);
        }
        acc = acc * 16 + d;
        if acc > u16::MAX as u32 {
            // The numeral seen so far already exceeds sixteen bits.
            proof {
                assert(hex_val(t@.take(i + 1)) > u16::MAX);
                if all_hex_digits(t@) {
                    lemma_hex_val_prefix(t@, i + 1);
                }
            }
            return None;
        }
        i += 1;
    }
    proof {
        assert(t@.take(t@.len() as int) =~= t@);
    }
    Some(acc as u16)
}

/// The decimal numeral of `n`, most significant digit first.
pub open spec fn spec_decimal(n: nat) -> Seq<u8>
    decreases n,
{
    if n < 10 {
        seq![(('0' as u8) + n) as u8]
    } else {
        spec_decimal(n / 10).push((('0' as u8) + n % 10) as u8)
    }
}

/// Renders `n` as its decimal numeral.
#[verifier::rlimit(30)]
pub fn to_decimal(n: usize) -> (r: Vec<u8>)
    ensures
        r@ == spec_decimal(n as nat),
{
    let mut rev: Vec<u8> = Vec::new();
    let mut m = n;
    loop
        invariant_except_break
            rev@.len() == 0 ==> m == n,
            rev@.len() > 0 && m > 0 ==> spec_decimal(n as nat) == spec_decimal(m as nat)
                + rev@.reverse(),
            rev@.len() > 0 && m == 0 ==> spec_decimal(n as nat) == rev@.reverse(),
        ensures
            rev@.len() > 0,
            spec_decimal(n as nat) == rev@.reverse(),
        decreases m, (if rev.len() == 0 { 1int } else { 0int }),
    {
        if m == 0 && rev.len() > 0 {
            break;
        }
        let ghost old_rev = rev@;
        let ghost pre = old_rev.reverse();
        proof {
            // The numeral of `n` is the numeral of `m` followed by the
            // digits collected so far.
            if old_rev.len() == 0 {
                assert(spec_decimal(n as nat) =~= spec_decimal(m as nat) + pre);
            }
            assert(spec_decimal(n as nat) == spec_decimal(m as nat) + pre);
        }
        let d = ('0' as u8) + (m % 10) as u8;
        rev.push(d);
        proof {
            assert(rev@.drop_last() =~= old_rev);
            assert(rev@.reverse() =~= seq![d] + pre);
        }
        let next = m / 10;
        proof {
            if m >= 10 {
                assert(spec_decimal(m as nat) == spec_decimal((m / 10) as nat).push(d));
                assert(spec_decimal((m / 10) as nat).push(d) + pre =~= spec_decimal(
                    (m / 10) as nat) + (seq![d] + pre));
                assert(spec_decimal(n as nat) == spec_decimal(next as nat) + rev@.reverse());
            } else {
                assert(spec_decimal(m as nat) =~= seq![d]);
                assert(seq![d] + pre =~= rev@.reverse());
                assert(spec_decimal(n as nat) == rev@.reverse());
            }
        }
        m = next;
    }
    // Reverse the collected digits.
    let mut out: Vec<u8> = Vec::new();
    let mut i: usize = rev.len();
    while i > 0
        invariant
            i <= rev@.len(),
            out@ =~= rev@.skip(i as int).reverse(),
        decreases i,
    {
        i -= 1;
        out.push(rev[i]);
        proof {
            assert(rev@.skip(i as int).drop_first() =~= rev@.skip(i + 1));
            assert(rev@.skip(i as int).reverse() =~= rev@.skip(i + 1).reverse().push(
                rev@[i as int]));
        }
    }
    proof {
        assert(rev@.skip(0) =~= rev@);
    }
    out
}

} // verus!
