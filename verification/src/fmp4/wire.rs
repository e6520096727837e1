//! Big-endian fields and box framing.
use vstd::prelude::*;

verus! {

/// Size of a plain box header: a 32 bit size and a four character type.
pub const BOX_HEADER_SIZE: u32 = 8;

/// Size of a full box header: the plain header, a version byte and 24 flag bits.
pub const FULL_BOX_HEADER_SIZE: u32 = 12;

/// A 16 bit field, most significant byte first.
pub open spec fn be16(x: u16) -> Seq<u8> {
    seq![(x / 0x100) as u8, (x % 0x100) as u8]
}

/// A 32 bit field, most significant byte first.
pub open spec fn be32(x: u32) -> Seq<u8> {
    seq![
        (x / 0x100_0000) as u8,
        (x / 0x1_0000 % 0x100) as u8,
        (x / 0x100 % 0x100) as u8,
        (x % 0x100) as u8,
    ]
}

/// A 64 bit field, most significant byte first.
pub open spec fn be64(x: u64) -> Seq<u8> {
    be32((x / 0x1_0000_0000) as u32) + be32((x % 0x1_0000_0000) as u32)
}

/// An optional 32 bit field: nothing when absent.
pub open spec fn opt_be32(x: Option<u32>) -> Seq<u8> {
    match x {
        Some(v) => be32(v),
        None => Seq::empty(),
    }
}

/// The weight of a flag bit when the flag is set, else zero.
pub open spec fn flag(set: bool, weight: u32) -> u32 {
    if set {
        weight
    } else {
        0
    }
}

/// The encodings of the items of `s`, one after the other.
pub open spec fn concat_all<T>(s: Seq<T>, enc: spec_fn(T) -> Seq<u8>) -> Seq<u8>
    decreases s.len(),
{
    if s.len() == 0 {
        Seq::empty()
    } else {
        concat_all(s.drop_last(), enc) + enc(s.last())
    }
}

/// Taking one more item appends that item's encoding.
pub proof fn lemma_concat_all_step<T>(s: Seq<T>, enc: spec_fn(T) -> Seq<u8>, i: int)
    requires
        0 <= i < s.len(),
    ensures
        concat_all(s.take(i + 1), enc) == concat_all(s.take(i), enc) + enc(s[i]),
{
    assert(s.take(i + 1).drop_last() =~= s.take(i));
}

/// The encodings of a sequence of one item.
pub proof fn lemma_concat_all_one<T>(s: Seq<T>, enc: spec_fn(T) -> Seq<u8>)
    requires
        s.len() == 1,
    ensures
        concat_all(s, enc) == enc(s[0]),
{
    reveal_with_fuel(concat_all, 2);
    assert(concat_all(s, enc) =~= enc(s[0]));
}

/// The encodings of a sequence of two items.
pub proof fn lemma_concat_all_two<T>(s: Seq<T>, enc: spec_fn(T) -> Seq<u8>)
    requires
        s.len() == 2,
    ensures
        concat_all(s, enc) == enc(s[0]) + enc(s[1]),
{
    lemma_concat_all_one(s.drop_last(), enc);
    assert(concat_all(s, enc) =~= enc(s[0]) + enc(s[1]));
}

/// `n` zero bytes.
pub open spec fn zeroes(n: nat) -> Seq<u8> {
    Seq::new(n, |i: int| 0u8)
}

/// The version and flags word of a full box.
pub open spec fn full_box_word(version: u8, flags: u32) -> int {
    version * 0x100_0000 + flags
}

/// A plain box: size, type, payload. The size counts the header.
pub open spec fn plain_box(kind: u32, payload: Seq<u8>) -> Seq<u8> {
    be32((BOX_HEADER_SIZE + payload.len()) as u32) + be32(kind) + payload
}

/// A full box: size, type, version and flags, payload.
pub open spec fn full_box(kind: u32, version: u8, flags: u32, payload: Seq<u8>) -> Seq<u8> {
    be32((FULL_BOX_HEADER_SIZE + payload.len()) as u32) + be32(kind) + be32(
        full_box_word(version, flags) as u32,
    ) + payload
}

/// Appends one byte.
pub fn put_u8(out: &mut Vec<u8>, x: u8)
    ensures
        final(out)@ == old(out)@ + seq![x],
{
    out.push(x);
    assert(out@ =~= old(out)@ + seq![x]);
}

/// Appends a 16 bit field.
pub fn put_u16(out: &mut Vec<u8>, x: u16)
    ensures
        final(out)@ == old(out)@ + be16(x),
{
    out.push((x / 0x100) as u8);
    out.push((x % 0x100) as u8);
    assert(out@ =~= old(out)@ + be16(x));
}

/// Appends a 32 bit field.
pub fn put_u32(out: &mut Vec<u8>, x: u32)
    ensures
        final(out)@ == old(out)@ + be32(x),
{
    out.push((x / 0x100_0000) as u8);
    out.push((x / 0x1_0000 % 0x100) as u8);
    out.push((x / 0x100 % 0x100) as u8);
    out.push((x % 0x100) as u8);
    assert(out@ =~= old(out)@ + be32(x));
}

/// Appends a 64 bit field.
pub fn put_u64(out: &mut Vec<u8>, x: u64)
    ensures
        final(out)@ == old(out)@ + be64(x),
{
    put_u32(out, (x / 0x1_0000_0000) as u32);
    put_u32(out, (x % 0x1_0000_0000) as u32);
    assert(out@ =~= old(out)@ + be64(x));
}

/// Appends an optional 32 bit field.
pub fn put_opt_u32(out: &mut Vec<u8>, x: Option<u32>)
    ensures
        final(out)@ == old(out)@ + opt_be32(x),
{
    match x {
        Some(v) => {
            put_u32(out, v);
        },
        None => {
            assert(out@ =~= old(out)@ + opt_be32(x));
        },
    }
}

/// Appends a signed 16 bit field in two's complement.
pub fn put_i16(out: &mut Vec<u8>, x: i16)
    ensures
        final(out)@ == old(out)@ + be16(x as u16),
{
    put_u16(out, x as u16);
}

/// Appends a signed 32 bit field in two's complement.
pub fn put_i32(out: &mut Vec<u8>, x: i32)
    ensures
        final(out)@ == old(out)@ + be32(x as u32),
{
    put_u32(out, x as u32);
}

/// Appends `n` zero bytes.
pub fn put_zeroes(out: &mut Vec<u8>, n: usize)
    ensures
        final(out)@ == old(out)@ + zeroes(n as nat),
{
    let mut i: usize = 0;
    while i < n
        invariant
            i <= n,
            out@ == old(out)@ + zeroes(i as nat),
        decreases n - i,
    {
        out.push(0u8);
        i = i + 1;
        assert(out@ =~= old(out)@ + zeroes(i as nat));
    }
}

/// Appends a copy of `src`.
pub fn put_bytes(out: &mut Vec<u8>, src: &Vec<u8>)
    ensures
        final(out)@ == old(out)@ + src@,
{
    let mut i: usize = 0;
    while i < src.len()
        invariant
            i <= src.len(),
            out@ == old(out)@ + src@.take(i as int),
        decreases src.len() - i,
    {
        out.push(src[i]);
        i = i + 1;
        assert(out@ =~= old(out)@ + src@.take(i as int));
    }
    assert(src@.take(src.len() as int) =~= src@);
}

/// Frames a payload as a plain box.
pub fn plain_box_of(kind: u32, payload: Vec<u8>) -> (r: Vec<u8>)
    requires
        payload@.len() + BOX_HEADER_SIZE <= u32::MAX,
    ensures
        r@ == plain_box(kind, payload@),
{
    let mut body = payload;
    let mut r: Vec<u8> = Vec::new();
    put_u32(&mut r, body.len() as u32 + BOX_HEADER_SIZE);
    put_u32(&mut r, kind);
    r.append(&mut body);
    assert(r@ =~= plain_box(kind, payload@));
    r
}

/// Frames a payload as a full box.
pub fn full_box_of(kind: u32, version: u8, flags: u32, payload: Vec<u8>) -> (r: Vec<u8>)
    requires
        payload@.len() + FULL_BOX_HEADER_SIZE <= u32::MAX,
        flags < 0x100_0000,
    ensures
        r@ == full_box(kind, version, flags, payload@),
{
    let mut body = payload;
    let mut r: Vec<u8> = Vec::new();
    put_u32(&mut r, body.len() as u32 + FULL_BOX_HEADER_SIZE);
    put_u32(&mut r, kind);
    put_u32(&mut r, version as u32 * 0x100_0000 + flags);
    r.append(&mut body);
    assert(r@ =~= full_box(kind, version, flags, payload@));
    r
}

} // verus!
