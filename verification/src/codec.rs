use vstd::prelude::*;

verus! {

/// The bytes `bytes` decoded as UTF-8, each invalid sequence replaced by
/// U+FFFD (what `String::from_utf8_lossy` returns).
pub uninterp spec fn utf8_lossy(bytes: Seq<u8>) -> Seq<char>;

/// Calls `String::from_utf8_lossy` and owns the result. The contract
/// states that the characters are those of the named decoding, and that
/// bytes all below 0x80 (ASCII, valid UTF-8) decode one character each.
#[verifier::external_body]
pub(crate) fn string_from_utf8_lossy(bytes: &[u8]) -> (res: String)
    ensures
        res@ == utf8_lossy(bytes@),
        (forall|i: int| 0 <= i < bytes@.len() ==> bytes@[i] < 0x80) ==> res@ == bytes@.map_values(
            |b: u8| b as char,
        ),
{
    String::from_utf8_lossy(bytes).into_owned()
}

/// Calls `String::push`: the string gains the character at its end.
#[verifier::external_body]
pub(crate) fn string_push(s: &mut String, c: char)
    ensures
        final(s)@ == old(s)@.push(c),
{
    s.push(c);
}

/// The big-endian 16-bit value of the two bytes `h`, `l`.
pub open spec fn be16(h: u8, l: u8) -> u16 {
    ((h as nat) * 256 + (l as nat)) as u16
}

/// The big-endian 32-bit value of four bytes.
pub open spec fn be32(b0: u8, b1: u8, b2: u8, b3: u8) -> u32 {
    ((b0 as nat) * 0x100_0000 + (b1 as nat) * 0x1_0000 + (b2 as nat) * 0x100 + (b3 as nat)) as u32
}

/// The little-endian 16-bit value of two bytes.
pub open spec fn le16(b0: u8, b1: u8) -> u16 {
    be16(b1, b0)
}

/// The little-endian 32-bit value of four bytes.
pub open spec fn le32(b0: u8, b1: u8, b2: u8, b3: u8) -> u32 {
    be32(b3, b2, b1, b0)
}

/// The two big-endian bytes of a 16-bit value.
pub open spec fn be16_bytes(v: u16) -> Seq<u8> {
    seq![(v / 256) as u8, (v % 256) as u8]
}

/// The four big-endian bytes of a 32-bit value.
pub open spec fn be32_bytes(v: u32) -> Seq<u8> {
    seq![
        (v / 0x100_0000) as u8,
        ((v / 0x1_0000) % 256) as u8,
        ((v / 0x100) % 256) as u8,
        (v % 256) as u8,
    ]
}

pub fn from_be_u16(h: u8, l: u8) -> (res: u16)
    ensures
        res == be16(h, l),
        res as nat == (h as nat) * 256 + (l as nat),
{
    (h as u16) * 256 + (l as u16)
}

pub fn from_be_u32(b0: u8, b1: u8, b2: u8, b3: u8) -> (res: u32)
    ensures
        res == be32(b0, b1, b2, b3),
        res as nat == (b0 as nat) * 0x100_0000 + (b1 as nat) * 0x1_0000 + (b2 as nat) * 0x100 + (
        b3 as nat),
{
    (b0 as u32) * 0x100_0000 + (b1 as u32) * 0x1_0000 + (b2 as u32) * 0x100 + (b3 as u32)
}

pub fn to_be_u16(v: u16) -> (res: [u8; 2])
    ensures
        res@ == be16_bytes(v),
{
    [(v / 256) as u8, (v % 256) as u8]
}

pub fn to_be_u32(v: u32) -> (res: [u8; 4])
    ensures
        res@ == be32_bytes(v),
{
    [(v / 0x100_0000) as u8, ((v / 0x1_0000) % 256) as u8, ((v / 0x100) % 256) as u8, (v % 256) as u8]
}

pub proof fn lemma_be16_roundtrip(v: u16)
    ensures
        be16(be16_bytes(v)[0], be16_bytes(v)[1]) == v,
{
}

pub proof fn lemma_be16_bytes_roundtrip(h: u8, l: u8)
    ensures
        be16_bytes(be16(h, l)) == seq![h, l],
{
    assert(be16_bytes(be16(h, l)) =~= seq![h, l]);
}

pub proof fn lemma_be32_roundtrip(v: u32)
    ensures
        be32(be32_bytes(v)[0], be32_bytes(v)[1], be32_bytes(v)[2], be32_bytes(v)[3]) == v,
{
}

pub proof fn lemma_be32_bytes_roundtrip(b0: u8, b1: u8, b2: u8, b3: u8)
    ensures
        be32_bytes(be32(b0, b1, b2, b3)) == seq![b0, b1, b2, b3],
{
    let x = (b0 as nat) * 0x100_0000 + (b1 as nat) * 0x1_0000 + (b2 as nat) * 0x100 + (b3 as nat);
    assert(x / 0x100_0000 == b0) by (nonlinear_arith)
        requires
            x == (b0 as nat) * 0x100_0000 + (b1 as nat) * 0x1_0000 + (b2 as nat) * 0x100 + (b3 as nat),
            b1 < 256,
            b2 < 256,
            b3 < 256,
    ;
    assert((x / 0x1_0000) % 256 == b1) by (nonlinear_arith)
        requires
            x == (b0 as nat) * 0x100_0000 + (b1 as nat) * 0x1_0000 + (b2 as nat) * 0x100 + (b3 as nat),
            b1 < 256,
            b2 < 256,
            b3 < 256,
    ;
    assert((x / 0x100) % 256 == b2) by (nonlinear_arith)
        requires
            x == (b0 as nat) * 0x100_0000 + (b1 as nat) * 0x1_0000 + (b2 as nat) * 0x100 + (b3 as nat),
            b1 < 256,
            b2 < 256,
            b3 < 256,
    ;
    assert(be32_bytes(be32(b0, b1, b2, b3)) =~= seq![b0, b1, b2, b3]);
}

/// Appends all of `src` to the end of `dst`.
pub fn extend_from_slice(dst: &mut Vec<u8>, src: &[u8])
    ensures
        final(dst)@ == old(dst)@ + src@,
{
    let mut i: usize = 0;
    while i < src.len()
        invariant
            i <= src.len(),
            dst@ == old(dst)@ + src@.take(i as int),
        decreases src.len() - i,
    {
        dst.push(src[i]);
        i = i + 1;
        assert(src@.take(i as int) =~= src@.take(i - 1) + seq![src@[i - 1]]);
    }
    assert(src@.take(src.len() as int) =~= src@);
}

/// A copy of `src[start..]`.
pub fn slice_from(src: &[u8], start: usize) -> (res: Vec<u8>)
    requires
        start <= src.len(),
    ensures
        res@ == src@.skip(start as int),
{
    let mut v: Vec<u8> = Vec::new();
    let mut i: usize = start;
    while i < src.len()
        invariant
            start <= i <= src.len(),
            v@ == src@.subrange(start as int, i as int),
        decreases src.len() - i,
    {
        v.push(src[i]);
        i = i + 1;
        assert(v@ =~= src@.subrange(start as int, i as int));
    }
    v
}

/// A copy of `src[start..end]`.
pub fn slice_range(src: &[u8], start: usize, end: usize) -> (res: Vec<u8>)
    requires
        start <= end <= src.len(),
    ensures
        res@ == src@.subrange(start as int, end as int),
{
    let mut v: Vec<u8> = Vec::new();
    let mut i: usize = start;
    while i < end
        invariant
            start <= i <= end <= src.len(),
            v@ == src@.subrange(start as int, i as int),
        decreases end - i,
    {
        v.push(src[i]);
        i = i + 1;
        assert(v@ =~= src@.subrange(start as int, i as int));
    }
    v
}

/// Extends or truncates `v` to `len` bytes, filling with `value`.
pub fn resize_bytes(v: &mut Vec<u8>, len: usize, value: u8)
    ensures
        final(v)@.len() == len,
        len <= old(v)@.len() ==> final(v)@ == old(v)@.take(len as int),
        len > old(v)@.len() ==> final(v)@ == old(v)@ + Seq::new((len - old(v)@.len()) as nat, |i: int| value),
{
    if len <= v.len() {
        v.truncate(len);
        assert(v@ =~= old(v)@.take(len as int));
    } else {
        let ghost orig = v@;
        while v.len() < len
            invariant
                orig.len() <= v@.len() <= len,
                v@ == orig + Seq::new((v@.len() - orig.len()) as nat, |i: int| value),
            decreases len - v.len(),
        {
            v.push(value);
            assert(v@ =~= orig + Seq::new((v@.len() - orig.len()) as nat, |i: int| value));
        }
    }
}

} // verus!
