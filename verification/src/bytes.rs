//! Helpers on byte strings.

use vstd::prelude::*;

verus! {

/// Whether two byte strings hold the same bytes.
pub fn bytes_equal(a: &[u8], b: &[u8]) -> (same: bool)
    ensures
        same == (a@ == b@),
{
    if a.len() != b.len() {
        return false;
    }
    let mut i: usize = 0;
    while i < a.len()
        invariant
            i <= a.len(),
            a.len() == b.len(),
            forall|j: int| 0 <= j < i ==> a@[j] == b@[j],
        decreases a.len() - i,
    {
        if a[i] != b[i] {
            return false;
        }
        i += 1;
    }
    assert(a@ =~= b@);
    true
}

/// Appends `src` to `out`.
pub fn append_bytes(out: &mut Vec<u8>, src: &[u8])
    ensures
        final(out)@ == old(out)@ + src@,
{
    let mut i: usize = 0;
    while i < src.len()
        invariant
            i <= src.len(),
            out@ == old(out)@ + src@.take(i as int),
        decreases src.len() - i,
    {
        out.push(src[i]);
        assert(src@.take(i + 1) =~= src@.take(i as int).push(src@[i as int]));
        i += 1;
    }
    assert(src@.take(src.len() as int) =~= src@);
}

/// A fresh vector holding the bytes of `src`.
pub fn copy_bytes(src: &[u8]) -> (out: Vec<u8>)
    ensures
        out@ == src@,
{
    let mut out: Vec<u8> = Vec::new();
    append_bytes(&mut out, src);
    assert(out@ =~= src@);
    out
}

/// The 24 bytes of `src` from `pos` on.
pub fn take_24(src: &[u8], pos: usize) -> (out: [u8; 24])
    requires
        pos + 24 <= src@.len(),
    ensures
        out@ == src@.subrange(pos as int, pos + 24),
{
    let len: usize = src.len();
    let mut out = [0u8; 24];
    let mut i: usize = 0;
    while i < 24
        invariant
            i <= 24,
            pos + 24 <= len,
            len == src@.len(),
            forall|j: int| 0 <= j < i ==> out@[j] == src@[pos + j],
        decreases 24 - i,
    {
        out[i] = src[pos + i];
        i += 1;
    }
    assert(out@ =~= src@.subrange(pos as int, pos + 24));
    out
}

/// The 32 bytes of `src` from `pos` on.
pub fn take_32(src: &[u8], pos: usize) -> (out: [u8; 32])
    requires
        pos + 32 <= src@.len(),
    ensures
        out@ == src@.subrange(pos as int, pos + 32),
{
    let len: usize = src.len();
    let mut out = [0u8; 32];
    let mut i: usize = 0;
    while i < 32
        invariant
            i <= 32,
            pos + 32 <= len,
            len == src@.len(),
            forall|j: int| 0 <= j < i ==> out@[j] == src@[pos + j],
        decreases 32 - i,
    {
        out[i] = src[pos + i];
        i += 1;
    }
    assert(out@ =~= src@.subrange(pos as int, pos + 32));
    out
}

/// The 64 bytes of `src` from `pos` on.
pub fn take_64(src: &[u8], pos: usize) -> (out: [u8; 64])
    requires
        pos + 64 <= src@.len(),
    ensures
        out@ == src@.subrange(pos as int, pos + 64),
{
    let len: usize = src.len();
    let mut out = [0u8; 64];
    let mut i: usize = 0;
    while i < 64
        invariant
            i <= 64,
            pos + 64 <= len,
            len == src@.len(),
            forall|j: int| 0 <= j < i ==> out@[j] == src@[pos + j],
        decreases 64 - i,
    {
        out[i] = src[pos + i];
        i += 1;
    }
    assert(out@ =~= src@.subrange(pos as int, pos + 64));
    out
}

/// A fresh vector holding the bytes of `src` from `from` up to `to`.
pub fn copy_range(src: &[u8], from: usize, to: usize) -> (out: Vec<u8>)
    requires
        from <= to <= src@.len(),
    ensures
        out@ == src@.subrange(from as int, to as int),
{
    let mut out: Vec<u8> = Vec::new();
    let mut i: usize = from;
    while i < to
        invariant
            from <= i <= to <= src@.len(),
            out@ == src@.subrange(from as int, i as int),
        decreases to - i,
    {
        out.push(src[i]);
        assert(src@.subrange(from as int, i + 1) =~= src@.subrange(from as int, i as int).push(
            src@[i as int],
        ));
        i += 1;
    }
    out
}

} // verus!
