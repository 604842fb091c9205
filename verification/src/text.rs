//! Byte-level text utilities: line splitting, whitespace tokenising and
//! prefix tests over ASCII byte strings, each proved against a spec-level
//! model of the same operation.

use vstd::prelude::*;

verus! {

/// The newline byte that separates lines.
pub const NL: u8 = '\n' as u8;

/// The carriage return byte, stripped when it ends a line just before a newline.
pub const CR: u8 = '\r' as u8;

/// Whitespace as `char::is_whitespace` has it on ASCII text:
/// space, tab, line feed, vertical tab, form feed, carriage return.
pub open spec fn is_ws(b: u8) -> bool {
    b == 32 || (9 <= b && b <= 13)
}

/// Runtime whitespace test matching [`is_ws`].
pub fn ws_byte(b: u8) -> (r: bool)
    ensures
        r == is_ws(b),
{
    b == 32 || (9 <= b && b <= 13)
}

/// `l` begins with the bytes of `kw`.
pub open spec fn spec_has_prefix(l: Seq<u8>, kw: Seq<u8>) -> bool {
    l.len() >= kw.len() && l.subrange(0, kw.len() as int) == kw
}

/// Runtime prefix test matching [`spec_has_prefix`].
pub fn has_prefix(line: &[u8], kw: &[u8]) -> (r: bool)
    ensures
        r == spec_has_prefix(line@, kw@),
{
    if line.len() < kw.len() {
        assert(!spec_has_prefix(line@, kw@));
        return false;
    }
    let mut i: usize = 0;
    while i < kw.len()
        invariant
            i <= kw@.len() <= line@.len(),
            forall|j: int| 0 <= j < i ==> line@[j] == kw@[j],
        decreases kw@.len() - i,
    {
        if line[i] != kw[i] {
            assert(line@.subrange(0, kw@.len() as int)[i as int] != kw@[i as int]);
            return false;
        }
        i += 1;
    }
    assert(line@.subrange(0, kw@.len() as int) =~= kw@);
    true
}

/// Runtime equality of two byte strings, as sequences.
pub fn bytes_eq(line: &[u8], kw: &[u8]) -> (r: bool)
    ensures
        r == (line@ == kw@),
{
    if line.len() != kw.len() {
        assert(line@ != kw@);
        return false;
    }
    let mut i: usize = 0;
    while i < kw.len()
        invariant
            i <= kw@.len() == line@.len(),
            forall|j: int| 0 <= j < i ==> line@[j] == kw@[j],
        decreases kw@.len() - i,
    {
        if line[i] != kw[i] {
            return false;
        }
        i += 1;
    }
    assert(line@ =~= kw@);
    true
}

/// The bytes of `line` from index `from` on, as an owned vector.
pub fn tail_from(line: &[u8], from: usize) -> (r: Vec<u8>)
    requires
        from <= line@.len(),
    ensures
        r@ == line@.skip(from as int),
{
    let r = vstd::slice::slice_to_vec(vstd::slice::slice_subrange(line, from, line.len()));
    assert(r@ =~= line@.skip(from as int));
    r
}

/// Index of the first newline byte of `s`, or `s.len()` when there is none.
pub open spec fn newline_at(s: Seq<u8>) -> int
    decreases s.len(),
{
    if s.len() == 0 {
        0
    } else if s[0] == NL {
        0
    } else {
        1 + newline_at(s.skip(1))
    }
}

pub proof fn lemma_newline_at_step(s: Seq<u8>, j: int)
    requires
        0 <= j < s.len(),
    ensures
        s[j] != NL ==> newline_at(s.skip(j)) == 1 + newline_at(s.skip(j + 1)),
        s[j] == NL ==> newline_at(s.skip(j)) == 0,
{
    assert(s.skip(j).len() > 0);
    assert(s.skip(j)[0] == s[j]);
    assert(s.skip(j).skip(1) =~= s.skip(j + 1));
}

/// The lines of `s`: split at each newline byte, a carriage return that
/// stands just before the newline stripped, and no final empty line when
/// the text ends with a newline.
pub open spec fn spec_lines(s: Seq<u8>) -> Seq<Seq<u8>>
    decreases s.len(),
{
    if s.len() == 0 {
        Seq::empty()
    } else {
        let k = newline_at(s);
        if 0 <= k < s.len() {
            seq![strip_cr(s.subrange(0, k))] + spec_lines(s.skip(k + 1))
        } else {
            seq![s]
        }
    }
}

/// `l` with one trailing carriage return removed, if it has one.
pub open spec fn strip_cr(l: Seq<u8>) -> Seq<u8> {
    if l.len() > 0 && l.last() == CR {
        l.drop_last()
    } else {
        l
    }
}

/// The sequences held by a sequence of byte vectors.
pub open spec fn views_of(v: Seq<Vec<u8>>) -> Seq<Seq<u8>> {
    v.map_values(|x: Vec<u8>| x@)
}

/// Splits a byte string into its lines, as [`spec_lines`] describes them.
pub fn split_lines(s: &[u8]) -> (r: Vec<Vec<u8>>)
    ensures
        views_of(r@) == spec_lines(s@),
{
    let mut out: Vec<Vec<u8>> = Vec::new();
    let mut pos: usize = 0;
    proof {
        assert(s@.skip(0) =~= s@);
        assert(views_of(out@) =~= Seq::<Seq<u8>>::empty());
        assert(views_of(out@) + spec_lines(s@) =~= spec_lines(s@));
    }
    while pos < s.len()
        invariant
            pos <= s@.len(),
            spec_lines(s@) == views_of(out@) + spec_lines(s@.skip(pos as int)),
        decreases s@.len() - pos,
    {
        let ghost prev = views_of(out@);
        let ghost rest = s@.skip(pos as int);
        // Scan to the next newline (or the end of the input).
        let mut j: usize = pos;
        while j < s.len() && s[j] != NL
            invariant
                pos <= j <= s@.len(),
                newline_at(s@.skip(pos as int)) == (j - pos) + newline_at(s@.skip(j as int)),
            decreases s@.len() - j,
        {
            proof {
                lemma_newline_at_step(s@, j as int);
            }
            j += 1;
        }
        proof {
            if j < s@.len() {
                lemma_newline_at_step(s@, j as int);
            } else {
                assert(s@.skip(j as int) =~= Seq::<u8>::empty());
            }
            assert(newline_at(rest) == j - pos);
        }
        let mut line = vstd::slice::slice_to_vec(vstd::slice::slice_subrange(s, pos, j));
        assert(line@ =~= rest.subrange(0, j - pos));
        if j < s.len() {
            // The segment ended at a newline: strip one trailing carriage return.
            if line.len() > 0 && line[line.len() - 1] == CR {
                let _ = line.pop();
            }
            assert(line@ == strip_cr(rest.subrange(0, j - pos)));
            let ghost lv = line@;
            out.push(line);
            proof {
                assert(rest.skip(j - pos + 1) =~= s@.skip(j + 1));
                assert(spec_lines(rest) == seq![lv] + spec_lines(s@.skip(j + 1)));
                assert(views_of(out@) =~= prev.push(lv));
                assert(views_of(out@) + spec_lines(s@.skip(j + 1)) =~= prev + spec_lines(rest));
            }
            pos = j + 1;
        } else {
            assert(line@ =~= rest);
            let ghost lv = line@;
            out.push(line);
            proof {
                assert(spec_lines(rest) == seq![lv]);
                assert(views_of(out@) =~= prev.push(lv));
                assert(s@.skip(s@.len() as int) =~= Seq::<u8>::empty());
                assert(views_of(out@) + spec_lines(s@.skip(s@.len() as int)) =~= prev
                    + spec_lines(rest));
            }
            pos = s.len();
        }
    }
    proof {
        assert(s@.skip(pos as int) =~= Seq::<u8>::empty());
        assert(views_of(out@) + spec_lines(s@.skip(pos as int)) =~= views_of(out@));
    }
    out
}

/// Length of the whitespace-free run that begins `s`.
pub open spec fn token_len(s: Seq<u8>) -> nat
    decreases s.len(),
{
    if s.len() == 0 || is_ws(s[0]) {
        0
    } else {
        1 + token_len(s.skip(1))
    }
}

pub proof fn lemma_token_len_step(s: Seq<u8>, j: int)
    requires
        0 <= j < s.len(),
    ensures
        !is_ws(s[j]) ==> token_len(s.skip(j)) == 1 + token_len(s.skip(j + 1)),
        is_ws(s[j]) ==> token_len(s.skip(j)) == 0,
{
    assert(s.skip(j).len() > 0);
    assert(s.skip(j)[0] == s[j]);
    assert(s.skip(j).skip(1) =~= s.skip(j + 1));
}

/// The whitespace-separated tokens of `s`: the maximal runs of
/// non-whitespace bytes, in order.
pub open spec fn spec_tokens(s: Seq<u8>) -> Seq<Seq<u8>>
    decreases s.len(),
{
    if s.len() == 0 {
        Seq::empty()
    } else if is_ws(s[0]) {
        spec_tokens(s.skip(1))
    } else {
        let k = token_len(s) as int;
        if 1 <= k <= s.len() {
            seq![s.subrange(0, k)] + spec_tokens(s.skip(k))
        } else {
            Seq::empty()
        }
    }
}

/// Splits a byte string into its whitespace-separated tokens, as
/// [`spec_tokens`] describes them.
pub fn split_tokens(s: &[u8]) -> (r: Vec<Vec<u8>>)
    ensures
        views_of(r@) == spec_tokens(s@),
{
    let mut out: Vec<Vec<u8>> = Vec::new();
    let mut pos: usize = 0;
    proof {
        assert(s@.skip(0) =~= s@);
        assert(views_of(out@) + spec_tokens(s@) =~= spec_tokens(s@));
    }
    while pos < s.len()
        invariant
            pos <= s@.len(),
            spec_tokens(s@) == views_of(out@) + spec_tokens(s@.skip(pos as int)),
        decreases s@.len() - pos,
    {
        let ghost prev = views_of(out@);
        if ws_byte(s[pos]) {
            proof {
                assert(s@.skip(pos as int)[0] == s@[pos as int]);
                assert(s@.skip(pos as int).skip(1) =~= s@.skip(pos as int + 1));
            }
            pos += 1;
        } else {
            // Scan to the end of the token.
            let mut j: usize = pos;
            while j < s.len() && !ws_byte(s[j])
                invariant
                    pos <= j <= s@.len(),
                    token_len(s@.skip(pos as int)) == (j - pos) + token_len(s@.skip(j as int)),
                decreases s@.len() - j,
            {
                proof {
                    lemma_token_len_step(s@, j as int);
                }
                j += 1;
            }
            proof {
                if j < s@.len() {
                    lemma_token_len_step(s@, j as int);
                } else {
                    assert(s@.skip(j as int) =~= Seq::<u8>::empty());
                }
                assert(token_len(s@.skip(pos as int)) == j - pos);
            }
            let tok = vstd::slice::slice_to_vec(vstd::slice::slice_subrange(s, pos, j));
            let ghost tv = tok@;
            out.push(tok);
            proof {
                let rest = s@.skip(pos as int);
                assert(rest[0] == s@[pos as int]);
                assert(tv =~= rest.subrange(0, j - pos));
                assert(rest.skip(j - pos) =~= s@.skip(j as int));
                assert(spec_tokens(rest) == seq![tv] + spec_tokens(s@.skip(j as int)));
                assert(views_of(out@) =~= prev.push(tv));
                assert(views_of(out@) + spec_tokens(s@.skip(j as int)) =~= prev
                    + spec_tokens(rest));
            }
            pos = j;
        }
    }
    proof {
        assert(s@.skip(pos as int) =~= Seq::<u8>::empty());
        assert(views_of(out@) + spec_tokens(s@.skip(pos as int)) =~= views_of(out@));
    }
    out
}

} // verus!
