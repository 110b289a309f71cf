//! Little-endian fields inside fixed-size byte records.
use vstd::prelude::*;

verus! {

/// The little-endian 16-bit word at `off`.
pub open spec fn le16(s: Seq<u8>, off: int) -> u16 {
    (s[off] + 256 * s[off + 1]) as u16
}

/// The little-endian 32-bit word at `off`.
pub open spec fn le32(s: Seq<u8>, off: int) -> u32 {
    (s[off] + 256 * s[off + 1] + 65536 * s[off + 2] + 16777216 * s[off + 3]) as u32
}

/// `s` with the little-endian 16-bit word `v` stored at `off`.
pub open spec fn put16(s: Seq<u8>, off: int, v: u16) -> Seq<u8> {
    s.update(off, (v % 256) as u8).update(off + 1, (v / 256) as u8)
}

/// `s` with the little-endian 32-bit word `v` stored at `off`.
pub open spec fn put32(s: Seq<u8>, off: int, v: u32) -> Seq<u8> {
    s.update(off, (v % 256) as u8).update(off + 1, ((v / 256) % 256) as u8).update(
        off + 2,
        ((v / 65536) % 256) as u8,
    ).update(off + 3, (v / 16777216) as u8)
}

/// `s` with `t` written over it starting at `off`.
pub open spec fn splice(s: Seq<u8>, off: int, t: Seq<u8>) -> Seq<u8> {
    s.take(off) + t + s.skip(off + t.len())
}

/// `s` with the positions `lo..hi` set to `b`.
pub open spec fn fill(s: Seq<u8>, lo: int, hi: int, b: u8) -> Seq<u8> {
    Seq::new(s.len(), |i: int| if lo <= i < hi { b } else { s[i] })
}

/// A stored word reads back as the value written, and nothing outside the
/// two bytes changes.
pub proof fn lemma_put16_get16(s: Seq<u8>, off: int, v: u16)
    requires
        0 <= off,
        off + 1 < s.len(),
    ensures
        le16(put16(s, off, v), off) == v,
        put16(s, off, v).len() == s.len(),
        forall|i: int| 0 <= i < s.len() && i != off && i != off + 1 ==> put16(s, off, v)[i] == s[i],
{
}

/// A stored 32-bit word reads back as the value written.
pub proof fn lemma_put32_get32(s: Seq<u8>, off: int, v: u32)
    requires
        0 <= off,
        off + 3 < s.len(),
    ensures
        le32(put32(s, off, v), off) == v,
        put32(s, off, v).len() == s.len(),
{
    let t = put32(s, off, v);
    let b0 = v % 256;
    let b1 = (v / 256) % 256;
    let b2 = (v / 65536) % 256;
    let b3 = v / 16777216;
    assert(t[off] == b0 && t[off + 1] == b1 && t[off + 2] == b2 && t[off + 3] == b3);
    assert(b0 + 256 * b1 + 65536 * b2 + 16777216 * b3 == v) by (nonlinear_arith)
        requires
            b0 == v % 256,
            b1 == (v / 256) % 256,
            b2 == (v / 65536) % 256,
            b3 == v / 16777216,
            v < 0x1_0000_0000,
    {
        assert(v / 65536 == (v / 256) / 256) by (nonlinear_arith);
        assert(v / 16777216 == (v / 65536) / 256) by (nonlinear_arith);
    }
}

/// `data` cut into consecutive pieces of `size` bytes gives exactly `recs`.
pub open spec fn chunks_match(data: Seq<u8>, recs: Seq<Seq<u8>>, size: int) -> bool {
    &&& recs.len() * size == data.len()
    &&& forall|i: int|
        0 <= i < recs.len() ==> #[trigger] recs[i] == data.subrange(i * size, i * size + size)
}

/// Every piece of `recs` has `size` bytes.
pub open spec fn uniform(recs: Seq<Seq<u8>>, size: int) -> bool {
    forall|i: int| 0 <= i < recs.len() ==> (#[trigger] recs[i]).len() == size
}

proof fn lemma_mul_step(n: int, size: int)
    requires
        0 <= n,
        0 < size,
    ensures
        (n + 1) * size == n * size + size,
        n * size >= 0,
{
    assert((n + 1) * size == n * size + size) by (nonlinear_arith);
    assert(n * size >= 0) by (nonlinear_arith)
        requires
            0 <= n,
            0 < size,
    ;
}

proof fn lemma_mul_mono(i: int, n: int, size: int)
    requires
        0 <= i < n,
        0 < size,
    ensures
        i * size + size <= n * size,
        0 <= i * size,
{
    assert(i * size + size <= n * size) by (nonlinear_arith)
        requires
            0 <= i < n,
            0 < size,
    ;
    assert(0 <= i * size) by (nonlinear_arith)
        requires
            0 <= i,
            0 < size,
    ;
}

/// Concatenating pieces of `size` bytes and cutting the result again gives
/// the pieces back.
pub proof fn lemma_flatten_chunks(recs: Seq<Seq<u8>>, size: int)
    requires
        0 < size,
        uniform(recs, size),
    ensures
        chunks_match(recs.flatten(), recs, size),
    decreases recs.len(),
{
    if recs.len() == 0 {
        assert(recs.flatten() =~= Seq::<u8>::empty());
    } else {
        let init = recs.drop_last();
        lemma_flatten_chunks(init, size);
        init.lemma_flatten_push(recs.last());
        assert(init.push(recs.last()) =~= recs);
        let n = init.len() as int;
        lemma_mul_step(n, size);
        let f = recs.flatten();
        assert(f == init.flatten() + recs.last());
        assert forall|i: int| 0 <= i < recs.len() implies #[trigger] recs[i] == f.subrange(
            i * size,
            i * size + size,
        ) by {
            if i < n {
                lemma_mul_mono(i, n, size);
                assert(init[i] == recs[i]);
                assert(f.subrange(i * size, i * size + size) =~= init.flatten().subrange(
                    i * size,
                    i * size + size,
                ));
            } else {
                assert(f.subrange(i * size, i * size + size) =~= recs.last());
            }
        }
    }
}

/// Two byte strings cut into the same pieces are equal.
pub proof fn lemma_chunks_unique(a: Seq<u8>, b: Seq<u8>, recs: Seq<Seq<u8>>, size: int)
    requires
        0 < size,
        chunks_match(a, recs, size),
        chunks_match(b, recs, size),
    ensures
        a == b,
{
    assert forall|k: int| 0 <= k < a.len() implies a[k] == b[k] by {
        let i = k / size;
        let j = k % size;
        assert(k == i * size + j && 0 <= j < size) by (nonlinear_arith)
            requires
                i == k / size,
                j == k % size,
                0 < size,
        ;
        assert(0 <= i < recs.len()) by (nonlinear_arith)
            requires
                k == i * size + j,
                0 <= j < size,
                0 <= k < recs.len() * size,
                0 < size,
        ;
        lemma_mul_mono(i, recs.len() as int, size);
        assert(recs[i] == a.subrange(i * size, i * size + size));
        assert(recs[i] == b.subrange(i * size, i * size + size));
        assert(a[k] == recs[i][j]);
    }
    assert(a =~= b);
}

/// Cutting `data` into pieces and concatenating them again gives `data`.
pub proof fn lemma_chunks_flatten(data: Seq<u8>, recs: Seq<Seq<u8>>, size: int)
    requires
        0 < size,
        chunks_match(data, recs, size),
    ensures
        uniform(recs, size),
        recs.flatten() == data,
{
    assert forall|i: int| 0 <= i < recs.len() implies (#[trigger] recs[i]).len() == size by {
        lemma_mul_mono(i, recs.len() as int, size);
    }
    lemma_flatten_chunks(recs, size);
    lemma_chunks_unique(recs.flatten(), data, recs, size);
}

/// Reads the little-endian word at `off`.
pub fn read_u16(bytes: &[u8], off: usize) -> (r: u16)
    requires
        off + 1 < bytes@.len(),
    ensures
        r == le16(bytes@, off as int),
{
    bytes[off] as u16 + (bytes[off + 1] as u16) * 256
}

/// Reads the little-endian 32-bit word at `off`.
pub fn read_u32(bytes: &[u8], off: usize) -> (r: u32)
    requires
        off + 3 < bytes@.len(),
    ensures
        r == le32(bytes@, off as int),
{
    bytes[off] as u32 + (bytes[off + 1] as u32) * 256 + (bytes[off + 2] as u32) * 65536 + (
    bytes[off + 3] as u32) * 16777216
}

/// Stores `v` little-endian at `off`.
pub fn write_u16<const N: usize>(raw: &mut [u8; N], off: usize, v: u16)
    requires
        off + 1 < N,
    ensures
        final(raw)@ == put16(old(raw)@, off as int, v),
{
    raw[off] = (v % 256) as u8;
    raw[off + 1] = (v / 256) as u8;
}

/// Stores `v` little-endian at `off`.
pub fn write_u32<const N: usize>(raw: &mut [u8; N], off: usize, v: u32)
    requires
        off + 3 < N,
    ensures
        final(raw)@ == put32(old(raw)@, off as int, v),
{
    raw[off] = (v % 256) as u8;
    raw[off + 1] = ((v / 256) % 256) as u8;
    raw[off + 2] = ((v / 65536) % 256) as u8;
    raw[off + 3] = (v / 16777216) as u8;
}

/// Copies `M` bytes starting at `off` out of `raw`.
pub fn read_array<const N: usize, const M: usize>(raw: &[u8; N], off: usize) -> (out: [u8; M])
    requires
        off + M <= N,
    ensures
        out@ == raw@.subrange(off as int, off + M),
{
    let mut out = [0u8;M];
    let mut i: usize = 0;
    while i < M
        invariant
            i <= M,
            off + M <= N,
            out@.len() == M,
            forall|k: int| 0 <= k < i ==> out@[k] == raw@[off + k],
        decreases M - i,
    {
        out[i] = raw[off + i];
        i = i + 1;
    }
    assert(out@ =~= raw@.subrange(off as int, off + M));
    out
}

/// Writes the bytes of `src` into `raw` starting at `off`.
pub fn write_slice<const N: usize>(raw: &mut [u8; N], off: usize, src: &[u8])
    requires
        off + src@.len() <= N,
    ensures
        final(raw)@ == splice(old(raw)@, off as int, src@),
{
    let ghost orig = raw@;
    let mut i: usize = 0;
    while i < src.len()
        invariant
            i <= src@.len(),
            off + src@.len() <= N,
            raw@.len() == N,
            forall|k: int| 0 <= k < N && !(off <= k < off + i) ==> raw@[k] == orig[k],
            forall|k: int| 0 <= k < i ==> raw@[off + k] == src@[k],
        decreases src@.len() - i,
    {
        raw[off + i] = src[i];
        i = i + 1;
    }
    assert(raw@ =~= splice(orig, off as int, src@));
}

/// Sets the positions `lo..hi` of `raw` to `b`.
pub fn fill_range<const N: usize>(raw: &mut [u8; N], lo: usize, hi: usize, b: u8)
    requires
        lo <= hi <= N,
    ensures
        final(raw)@ == fill(old(raw)@, lo as int, hi as int, b),
{
    let ghost orig = raw@;
    let mut i: usize = lo;
    while i < hi
        invariant
            lo <= i <= hi <= N,
            raw@.len() == N,
            forall|k: int| 0 <= k < N && !(lo <= k < i) ==> raw@[k] == orig[k],
            forall|k: int| lo <= k < i ==> raw@[k] == b,
        decreases hi - i,
    {
        raw[i] = b;
        i = i + 1;
    }
    assert(raw@ =~= fill(orig, lo as int, hi as int, b));
}

} // verus!
