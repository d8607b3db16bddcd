//! Byte-to-text helpers: locating null separators and decoding UTF-8.
use vstd::prelude::*;
use vstd::utf8::{decode_utf8, valid_utf8};
use crate::error::OgawaError;

verus! {

/// Index of the first zero byte, or -1 when none occurs.
pub open spec fn spec_first_nul(b: Seq<u8>) -> int
    decreases b.len(),
{
    if b.len() == 0 {
        -1
    } else if b[0] == 0 {
        0
    } else {
        let r = spec_first_nul(b.skip(1));
        if r < 0 {
            -1
        } else {
            r + 1
        }
    }
}

/// The complete zero-terminated segments of a byte sequence, in order; bytes
/// after the last separator do not form a segment.
pub open spec fn spec_nul_split(b: Seq<u8>) -> Seq<Seq<u8>>
    decreases b.len(),
{
    let k = spec_first_nul(b);
    if 0 <= k < b.len() {
        seq![b.take(k)] + spec_nul_split(b.skip(k + 1))
    } else {
        Seq::<Seq<u8>>::empty()
    }
}

/// A position holding a zero byte with none before it is the first null.
pub proof fn lemma_first_nul_at(b: Seq<u8>, k: int)
    requires
        0 <= k < b.len(),
        b[k] == 0,
        forall|m: int| 0 <= m < k ==> b[m] != 0,
    ensures
        spec_first_nul(b) == k,
    decreases b.len(),
{
    if k > 0 {
        assert(forall|m: int| 0 <= m < k - 1 ==> b.skip(1)[m] == b[m + 1]);
        lemma_first_nul_at(b.skip(1), k - 1);
    }
}

/// Without any zero byte there is no first null.
pub proof fn lemma_first_nul_none(b: Seq<u8>)
    requires
        forall|m: int| 0 <= m < b.len() ==> b[m] != 0,
    ensures
        spec_first_nul(b) == -1,
    decreases b.len(),
{
    if b.len() > 0 {
        assert(forall|m: int| 0 <= m < b.skip(1).len() ==> b.skip(1)[m] == b[m + 1] && b.skip(
            1,
        )[m] != 0);
        lemma_first_nul_none(b.skip(1));
    }
}

/// Finds the first zero byte at or after `from`.
pub(crate) fn find_nul(buf: &Vec<u8>, from: usize) -> (r: Option<usize>)
    requires
        from <= buf@.len(),
    ensures
        match r {
            Some(k) => from <= k < buf@.len() && buf@[k as int] == 0 && forall|m: int|
                from <= m < k ==> buf@[m] != 0,
            None => forall|m: int| from <= m < buf@.len() ==> buf@[m] != 0,
        },
{
    let mut i: usize = from;
    let n = buf.len();
    while i < n
        invariant
            from <= i <= n,
            n == buf@.len(),
            forall|m: int| from <= m < i ==> buf@[m] != 0,
        decreases n - i,
    {
        if buf[i] == 0 {
            return Some(i);
        }
        i = i + 1;
    }
    None
}

/// Copies the bytes of `v` in positions `[a, b)` into a fresh vector.
pub(crate) fn copy_range(v: &Vec<u8>, a: usize, b: usize) -> (r: Vec<u8>)
    requires
        a <= b <= v@.len(),
    ensures
        r@ == v@.subrange(a as int, b as int),
{
    let mut out: Vec<u8> = Vec::new();
    let mut i: usize = a;
    while i < b
        invariant
            a <= i <= b <= v@.len(),
            out@ == v@.subrange(a as int, i as int),
        decreases b - i,
    {
        out.push(v[i]);
        i = i + 1;
        proof {
            assert(out@ =~= v@.subrange(a as int, i as int));
        }
    }
    out
}

/// Relies on `String::from_utf8`: it succeeds exactly on valid UTF-8 input
/// and returns the string those bytes encode.
#[verifier::external_body]
pub(crate) fn string_from_utf8(bytes: Vec<u8>) -> (r: Option<String>)
    ensures
        r is Some <==> valid_utf8(bytes@),
        r is Some ==> r->0@ == decode_utf8(bytes@),
{
    String::from_utf8(bytes).ok()
}

/// Decodes the zero-terminated segments of `buf` as UTF-8 strings; fails when
/// any complete segment is not valid UTF-8.
pub(crate) fn split_nul_strings(buf: &Vec<u8>) -> (r: Result<Vec<String>, OgawaError>)
    ensures
        ({
            let segs = spec_nul_split(buf@);
            &&& (r is Ok <==> forall|i: int| 0 <= i < segs.len() ==> valid_utf8(segs[i]))
            &&& r is Ok ==> r->Ok_0@.len() == segs.len() && forall|i: int|
                0 <= i < segs.len() ==> r->Ok_0@[i]@ == decode_utf8(segs[i])
            &&& r is Err ==> r->Err_0 == OgawaError::ParsingError(
                crate::error::ParsingError::FromUtf8Error,
            )
        }),
{
    let ghost segs = spec_nul_split(buf@);
    let n = buf.len();
    let mut out: Vec<String> = Vec::new();
    let mut pos: usize = 0;
    proof {
        assert(buf@.skip(0) =~= buf@);
        assert(segs.skip(0) =~= segs);
    }
    loop
        invariant
            pos <= n,
            n == buf@.len(),
            segs == spec_nul_split(buf@),
            spec_nul_split(buf@.skip(pos as int)) == segs.skip(out@.len() as int),
            out@.len() <= segs.len(),
            forall|i: int|
                0 <= i < out@.len() ==> valid_utf8(segs[i]) && out@[i]@ == decode_utf8(segs[i]),
        decreases buf@.len() - pos,
    {
        match find_nul(buf, pos) {
            None => {
                proof {
                    lemma_first_nul_none(buf@.skip(pos as int));
                    assert(spec_nul_split(buf@.skip(pos as int)) == Seq::<Seq<u8>>::empty());
                    assert(segs.skip(out@.len() as int).len() == 0);
                    assert(out@.len() == segs.len());
                }
                return Ok(out);
            },
            Some(k) => {
                proof {
                    let done = out@.len() as int;
                    let tail = buf@.skip(pos as int);
                    assert(forall|m: int| 0 <= m < k - pos ==> tail[m] == buf@[m + pos]);
                    assert(tail[k - pos] == buf@[k as int]);
                    lemma_first_nul_at(tail, k - pos);
                    assert(tail.take(k - pos) =~= buf@.subrange(pos as int, k as int));
                    assert(tail.skip(k - pos + 1) =~= buf@.skip(k + 1));
                    assert(spec_nul_split(tail) == seq![buf@.subrange(pos as int, k as int)]
                        + spec_nul_split(buf@.skip(k + 1)));
                    assert(segs.skip(done).len() >= 1);
                    assert(done < segs.len());
                    assert(segs.skip(done)[0] == buf@.subrange(pos as int, k as int));
                    assert(segs[done] == buf@.subrange(pos as int, k as int));
                    assert(spec_nul_split(buf@.skip(k + 1)) =~= segs.skip(done).skip(1));
                    assert(segs.skip(done).skip(1) =~= segs.skip(done + 1));
                }
                let seg = copy_range(buf, pos, k);
                match string_from_utf8(seg) {
                    Some(s) => {
                        out.push(s);
                        pos = k + 1;
                    },
                    None => {
                        return Err(OgawaError::ParsingError(
                            crate::error::ParsingError::FromUtf8Error,
                        ));
                    },
                }
            },
        }
    }
}

} // verus!
