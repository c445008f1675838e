//! Building blocks of the wire format: little-endian integers and
//! length-prefixed text.

use crate::buffer::bytes_mut_view;
use crate::error::IggyError;
use bytes::BufMut;
use bytes::BytesMut;
use vstd::prelude::*;

verus! {

/// The longest text field the wire can carry: its length travels in one byte.
pub const MAX_TEXT_LENGTH: usize = 255;

/// The four bytes of `x`, least significant first.
pub open spec fn u32_le(x: u32) -> Seq<u8> {
    seq![
        (x % 256) as u8,
        (x / 256 % 256) as u8,
        (x / 65536 % 256) as u8,
        (x / 16777216) as u8,
    ]
}

/// The number whose little-endian form is the first four bytes of `s`.
pub open spec fn le_u32(s: Seq<u8>) -> u32
    recommends
        s.len() >= 4,
{
    (s[0] as int + 256 * (s[1] as int) + 65536 * (s[2] as int) + 16777216 * (s[3] as int)) as u32
}

/// The eight bytes of `x`, least significant first.
pub open spec fn u64_le(x: u64) -> Seq<u8> {
    u32_le((x % 0x1_0000_0000) as u32) + u32_le((x / 0x1_0000_0000) as u32)
}

/// The number whose little-endian form is the first eight bytes of `s`.
pub open spec fn le_u64(s: Seq<u8>) -> u64
    recommends
        s.len() >= 8,
{
    (le_u32(s) as int + 0x1_0000_0000 * (le_u32(s.skip(4)) as int)) as u64
}

/// The sixteen bytes of `x`, least significant first.
pub open spec fn u128_le(x: u128) -> Seq<u8> {
    u64_le((x % 0x1_0000_0000_0000_0000) as u64) + u64_le((x / 0x1_0000_0000_0000_0000) as u64)
}

/// The number whose little-endian form is the first sixteen bytes of `s`.
pub open spec fn le_u128(s: Seq<u8>) -> u128
    recommends
        s.len() >= 16,
{
    (le_u64(s) as int + 0x1_0000_0000_0000_0000 * (le_u64(s.skip(8)) as int)) as u128
}

/// A text field on the wire: one length byte, then the bytes themselves.
pub open spec fn text_wire(t: Seq<u8>) -> Seq<u8>
    recommends
        valid_text(t),
{
    seq![t.len() as u8] + t
}

/// A text field is non-empty and short enough for its one-byte length.
pub open spec fn valid_text(t: Seq<u8>) -> bool {
    1 <= t.len() <= 255
}

/// Reads a text field from the front of `s`: the text and the number of
/// bytes it took, or `None` where `s` is too short or the text is empty.
pub open spec fn parse_text(s: Seq<u8>) -> Option<(Seq<u8>, nat)> {
    if s.len() < 1 || s[0] == 0 || s.len() < 1 + s[0] {
        None
    } else {
        Some((s.subrange(1, 1 + s[0] as int), (1 + s[0]) as nat))
    }
}

/// An optional number travels as the number itself, with 0 for "none".
pub open spec fn opt_u32(x: Option<u32>) -> u32 {
    match x {
        Some(v) => v,
        None => 0,
    }
}

/// The optional number that `x` stands for on the wire: 0 is "none".
pub open spec fn u32_opt(x: u32) -> Option<u32> {
    if x == 0 {
        None
    } else {
        Some(x)
    }
}

/// An optional number can be sent unless it is `Some(0)`, which would be
/// read back as "none".
pub open spec fn valid_opt_u32(x: Option<u32>) -> bool {
    x != Some(0u32)
}

/// An optional number travels as the number itself, with 0 for "none".
pub open spec fn opt_u64(x: Option<u64>) -> u64 {
    match x {
        Some(v) => v,
        None => 0,
    }
}

/// The optional number that `x` stands for on the wire: 0 is "none".
pub open spec fn u64_opt(x: u64) -> Option<u64> {
    if x == 0 {
        None
    } else {
        Some(x)
    }
}

/// An optional number can be sent unless it is `Some(0)`, which would be
/// read back as "none".
pub open spec fn valid_opt_u64(x: Option<u64>) -> bool {
    x != Some(0u64)
}

/// Reading back an encoded `u32` gives the number, whatever follows it.
pub proof fn lemma_u32_roundtrip(x: u32, rest: Seq<u8>)
    ensures
        u32_le(x).len() == 4,
        le_u32(u32_le(x) + rest) == x,
        (u32_le(x) + rest).skip(4) == rest,
{
    let s = u32_le(x) + rest;
    assert(s[0] == u32_le(x)[0]);
    assert(s[1] == u32_le(x)[1]);
    assert(s[2] == u32_le(x)[2]);
    assert(s[3] == u32_le(x)[3]);
    assert(s.skip(4) =~= rest);
}

/// Reading back an encoded `u64` gives the number, whatever follows it.
pub proof fn lemma_u64_roundtrip(x: u64, rest: Seq<u8>)
    ensures
        u64_le(x).len() == 8,
        le_u64(u64_le(x) + rest) == x,
        (u64_le(x) + rest).skip(8) == rest,
{
    let lo = (x % 0x1_0000_0000) as u32;
    let hi = (x / 0x1_0000_0000) as u32;
    let s = u64_le(x) + rest;
    assert(s =~= u32_le(lo) + (u32_le(hi) + rest));
    lemma_u32_roundtrip(lo, u32_le(hi) + rest);
    lemma_u32_roundtrip(hi, rest);
    assert(s.skip(8) =~= rest);
}

/// Reading back an encoded `u128` gives the number, whatever follows it.
pub proof fn lemma_u128_roundtrip(x: u128, rest: Seq<u8>)
    ensures
        u128_le(x).len() == 16,
        le_u128(u128_le(x) + rest) == x,
        (u128_le(x) + rest).skip(16) == rest,
{
    let lo = (x % 0x1_0000_0000_0000_0000) as u64;
    let hi = (x / 0x1_0000_0000_0000_0000) as u64;
    let s = u128_le(x) + rest;
    lemma_u64_roundtrip(lo, u64_le(hi) + rest);
    lemma_u64_roundtrip(hi, rest);
    assert(s =~= u64_le(lo) + (u64_le(hi) + rest));
    assert(s.skip(16) =~= rest);
}

/// Reading back an encoded text field gives the text and its encoded
/// length, whatever follows it.
pub proof fn lemma_text_roundtrip(t: Seq<u8>, rest: Seq<u8>)
    requires
        valid_text(t),
    ensures
        text_wire(t).len() == 1 + t.len(),
        parse_text(text_wire(t) + rest) == Some((t, (1 + t.len()) as nat)),
        (text_wire(t) + rest).skip(1 + t.len() as int) == rest,
{
    let s = text_wire(t) + rest;
    assert(s[0] == t.len() as u8);
    assert(s.subrange(1, 1 + t.len() as int) =~= t);
    assert(s.skip(1 + t.len() as int) =~= rest);
}

/// One byte on the wire.
pub open spec fn u8_wire(x: u8) -> Seq<u8> {
    seq![x]
}

/// A flag on the wire: one byte, 1 for "yes" and 0 for "no".
pub open spec fn bool_wire(b: bool) -> Seq<u8> {
    seq![if b { 1u8 } else { 0u8 }]
}

/// An optional `u32` on the wire: the number, or 0 for "none".
pub open spec fn opt_u32_wire(x: Option<u32>) -> Seq<u8> {
    u32_le(opt_u32(x))
}

/// An optional `u64` on the wire: the number, or 0 for "none".
pub open spec fn opt_u64_wire(x: Option<u64>) -> Seq<u8> {
    u64_le(opt_u64(x))
}

/// A run of bytes on the wire: its length as a `u32`, then the bytes.
pub open spec fn blob_wire(b: Seq<u8>) -> Seq<u8>
    recommends
        valid_blob(b),
{
    u32_le(b.len() as u32) + b
}

/// The longest run of bytes that one field can carry.
pub const MAX_BLOB_LENGTH: usize = 10_000_000;

/// A run of bytes fits a field when it is at most [`MAX_BLOB_LENGTH`] long.
pub open spec fn valid_blob(b: Seq<u8>) -> bool {
    b.len() <= 10_000_000
}

/// Reads one byte from the front of `s`.
pub open spec fn parse_u8(s: Seq<u8>) -> Option<(u8, nat)> {
    if s.len() < 1 {
        None
    } else {
        Some((s[0], 1nat))
    }
}

/// Reads a flag from the front of `s`; any byte but 0 and 1 is rejected.
pub open spec fn parse_bool(s: Seq<u8>) -> Option<(bool, nat)> {
    if s.len() < 1 || s[0] > 1 {
        None
    } else {
        Some((s[0] == 1, 1nat))
    }
}

/// Reads a `u32` from the front of `s`.
pub open spec fn parse_u32(s: Seq<u8>) -> Option<(u32, nat)> {
    if s.len() < 4 {
        None
    } else {
        Some((le_u32(s), 4nat))
    }
}

/// Reads a `u64` from the front of `s`.
pub open spec fn parse_u64(s: Seq<u8>) -> Option<(u64, nat)> {
    if s.len() < 8 {
        None
    } else {
        Some((le_u64(s), 8nat))
    }
}

/// Reads a `u128` from the front of `s`.
pub open spec fn parse_u128(s: Seq<u8>) -> Option<(u128, nat)> {
    if s.len() < 16 {
        None
    } else {
        Some((le_u128(s), 16nat))
    }
}

/// Reads an optional `u32` from the front of `s`.
pub open spec fn parse_opt_u32(s: Seq<u8>) -> Option<(Option<u32>, nat)> {
    if s.len() < 4 {
        None
    } else {
        Some((u32_opt(le_u32(s)), 4nat))
    }
}

/// Reads an optional `u64` from the front of `s`.
pub open spec fn parse_opt_u64(s: Seq<u8>) -> Option<(Option<u64>, nat)> {
    if s.len() < 8 {
        None
    } else {
        Some((u64_opt(le_u64(s)), 8nat))
    }
}

/// Reads a run of bytes from the front of `s`: the bytes and the number of
/// bytes the field took, or `None` where the length is missing, too large,
/// or more than what is left of `s`.
pub open spec fn parse_blob(s: Seq<u8>) -> Option<(Seq<u8>, nat)> {
    if s.len() < 4 || le_u32(s) > 10_000_000 || s.len() < 4 + le_u32(s) {
        None
    } else {
        Some((s.subrange(4, 4 + le_u32(s) as int), (4 + le_u32(s)) as nat))
    }
}

/// Reading back an encoded byte gives the byte, whatever follows it.
pub proof fn lemma_u8_parse(x: u8, rest: Seq<u8>)
    ensures
        parse_u8(u8_wire(x) + rest) == Some((x, u8_wire(x).len())),
        (u8_wire(x) + rest).skip(u8_wire(x).len() as int) == rest,
        u8_wire(x).len() == 1,
{
    assert((u8_wire(x) + rest)[0] == x);
    assert((u8_wire(x) + rest).skip(1) =~= rest);
}

/// Reading back an encoded flag gives the flag, whatever follows it.
pub proof fn lemma_bool_parse(x: bool, rest: Seq<u8>)
    ensures
        parse_bool(bool_wire(x) + rest) == Some((x, bool_wire(x).len())),
        (bool_wire(x) + rest).skip(bool_wire(x).len() as int) == rest,
        bool_wire(x).len() == 1,
{
    assert((bool_wire(x) + rest)[0] == bool_wire(x)[0]);
    assert((bool_wire(x) + rest).skip(1) =~= rest);
}

/// Reading back an encoded `u32` gives the number, whatever follows it.
pub proof fn lemma_u32_parse(x: u32, rest: Seq<u8>)
    ensures
        parse_u32(u32_le(x) + rest) == Some((x, u32_le(x).len())),
        (u32_le(x) + rest).skip(u32_le(x).len() as int) == rest,
        u32_le(x).len() == 4,
{
    lemma_u32_roundtrip(x, rest);
}

/// Reading back an encoded `u64` gives the number, whatever follows it.
pub proof fn lemma_u64_parse(x: u64, rest: Seq<u8>)
    ensures
        parse_u64(u64_le(x) + rest) == Some((x, u64_le(x).len())),
        (u64_le(x) + rest).skip(u64_le(x).len() as int) == rest,
        u64_le(x).len() == 8,
{
    lemma_u64_roundtrip(x, rest);
}

/// Reading back an encoded `u128` gives the number, whatever follows it.
pub proof fn lemma_u128_parse(x: u128, rest: Seq<u8>)
    ensures
        parse_u128(u128_le(x) + rest) == Some((x, u128_le(x).len())),
        (u128_le(x) + rest).skip(u128_le(x).len() as int) == rest,
        u128_le(x).len() == 16,
{
    lemma_u128_roundtrip(x, rest);
}

/// Reading back an encoded optional `u32` gives it back, whatever follows.
pub proof fn lemma_opt_u32_parse(x: Option<u32>, rest: Seq<u8>)
    requires
        valid_opt_u32(x),
    ensures
        parse_opt_u32(opt_u32_wire(x) + rest) == Some((x, opt_u32_wire(x).len())),
        (opt_u32_wire(x) + rest).skip(opt_u32_wire(x).len() as int) == rest,
        opt_u32_wire(x).len() == 4,
{
    lemma_u32_roundtrip(opt_u32(x), rest);
}

/// Reading back an encoded optional `u64` gives it back, whatever follows.
pub proof fn lemma_opt_u64_parse(x: Option<u64>, rest: Seq<u8>)
    requires
        valid_opt_u64(x),
    ensures
        parse_opt_u64(opt_u64_wire(x) + rest) == Some((x, opt_u64_wire(x).len())),
        (opt_u64_wire(x) + rest).skip(opt_u64_wire(x).len() as int) == rest,
        opt_u64_wire(x).len() == 8,
{
    lemma_u64_roundtrip(opt_u64(x), rest);
}

/// Reading back an encoded text field gives the text, whatever follows it.
pub proof fn lemma_text_parse(t: Seq<u8>, rest: Seq<u8>)
    requires
        valid_text(t),
    ensures
        parse_text(text_wire(t) + rest) == Some((t, text_wire(t).len())),
        (text_wire(t) + rest).skip(text_wire(t).len() as int) == rest,
        text_wire(t).len() == 1 + t.len(),
{
    lemma_text_roundtrip(t, rest);
}

/// Reading back an encoded run of bytes gives the bytes, whatever follows.
pub proof fn lemma_blob_parse(b: Seq<u8>, rest: Seq<u8>)
    requires
        valid_blob(b),
    ensures
        parse_blob(blob_wire(b) + rest) == Some((b, blob_wire(b).len())),
        (blob_wire(b) + rest).skip(blob_wire(b).len() as int) == rest,
        blob_wire(b).len() == 4 + b.len(),
{
    let s = blob_wire(b) + rest;
    assert(s =~= u32_le(b.len() as u32) + (b + rest));
    lemma_u32_roundtrip(b.len() as u32, b + rest);
    assert(s.subrange(4, 4 + b.len() as int) =~= b);
    assert(s.skip(4 + b.len() as int) =~= rest);
}

/// Appends the little-endian form of `x` to `buf`.
pub fn put_u32_le(buf: &mut BytesMut, x: u32)
    requires
        bytes_mut_view(*old(buf)).len() + 4 <= isize::MAX,
    ensures
        bytes_mut_view(*final(buf)) == bytes_mut_view(*old(buf)) + u32_le(x),
{
    let a: [u8; 4] = [
        (x % 256) as u8,
        (x / 256 % 256) as u8,
        (x / 65536 % 256) as u8,
        (x / 16777216) as u8,
    ];
    buf.put_slice(a.as_slice());
    proof {
        assert(a@ =~= u32_le(x));
    }
}

/// Appends the little-endian form of `x` to `buf`.
pub fn put_u64_le(buf: &mut BytesMut, x: u64)
    requires
        bytes_mut_view(*old(buf)).len() + 8 <= isize::MAX,
    ensures
        bytes_mut_view(*final(buf)) == bytes_mut_view(*old(buf)) + u64_le(x),
{
    let ghost before = bytes_mut_view(*buf);
    put_u32_le(buf, (x % 0x1_0000_0000) as u32);
    put_u32_le(buf, (x / 0x1_0000_0000) as u32);
    proof {
        assert(bytes_mut_view(*buf) =~= before + u64_le(x));
    }
}

/// Appends the little-endian form of `x` to `buf`.
pub fn put_u128_le(buf: &mut BytesMut, x: u128)
    requires
        bytes_mut_view(*old(buf)).len() + 16 <= isize::MAX,
    ensures
        bytes_mut_view(*final(buf)) == bytes_mut_view(*old(buf)) + u128_le(x),
{
    let ghost before = bytes_mut_view(*buf);
    put_u64_le(buf, (x % 0x1_0000_0000_0000_0000) as u64);
    put_u64_le(buf, (x / 0x1_0000_0000_0000_0000) as u64);
    proof {
        assert(bytes_mut_view(*buf) =~= before + u128_le(x));
    }
}

/// Appends one byte to `buf`.
pub fn put_u8(buf: &mut BytesMut, x: u8)
    requires
        bytes_mut_view(*old(buf)).len() + 1 <= isize::MAX,
    ensures
        bytes_mut_view(*final(buf)) == bytes_mut_view(*old(buf)).push(x),
{
    let a: [u8; 1] = [x];
    buf.put_slice(a.as_slice());
    proof {
        assert(bytes_mut_view(*buf) =~= bytes_mut_view(*old(buf)).push(x));
    }
}

/// Appends a text field, its length byte first, to `buf`.
pub fn put_text(buf: &mut BytesMut, text: &Vec<u8>)
    requires
        valid_text(text@),
        bytes_mut_view(*old(buf)).len() + text_wire(text@).len() <= isize::MAX,
    ensures
        bytes_mut_view(*final(buf)) == bytes_mut_view(*old(buf)) + text_wire(text@),
{
    let ghost before = bytes_mut_view(*buf);
    put_u8(buf, text.len() as u8);
    buf.put_slice(text.as_slice());
    proof {
        assert(bytes_mut_view(*buf) =~= before + text_wire(text@));
    }
}

/// Reads the `u32` that starts at `pos`.
pub fn read_u32_le(s: &[u8], pos: usize) -> (x: u32)
    requires
        pos + 4 <= s@.len(),
    ensures
        x == le_u32(s@.skip(pos as int)),
{
    let b0: u32 = s[pos] as u32;
    let b1: u32 = s[pos + 1] as u32;
    let b2: u32 = s[pos + 2] as u32;
    let b3: u32 = s[pos + 3] as u32;
    b0 + 256 * b1 + 65536 * b2 + 16777216 * b3
}

/// Reads the `u64` that starts at `pos`.
pub fn read_u64_le(s: &[u8], pos: usize) -> (x: u64)
    requires
        pos + 8 <= s@.len(),
    ensures
        x == le_u64(s@.skip(pos as int)),
{
    let n: usize = s.len();
    let lo: u64 = read_u32_le(s, pos) as u64;
    let hi: u64 = read_u32_le(s, pos + 4) as u64;
    proof {
        assert(s@.skip(pos as int).skip(4) =~= s@.skip(pos + 4));
    }
    lo + 0x1_0000_0000 * hi
}

/// Reads the `u128` that starts at `pos`.
pub fn read_u128_le(s: &[u8], pos: usize) -> (x: u128)
    requires
        pos + 16 <= s@.len(),
    ensures
        x == le_u128(s@.skip(pos as int)),
{
    let n: usize = s.len();
    let lo: u128 = read_u64_le(s, pos) as u128;
    let hi: u128 = read_u64_le(s, pos + 8) as u128;
    proof {
        assert(s@.skip(pos as int).skip(8) =~= s@.skip(pos + 8));
    }
    lo + 0x1_0000_0000_0000_0000 * hi
}

/// Copies the bytes of `s` from `from` up to `to` into a new vector.
pub fn copy_range(s: &[u8], from: usize, to: usize) -> (v: Vec<u8>)
    requires
        from <= to <= s@.len(),
    ensures
        v@ == s@.subrange(from as int, to as int),
{
    let mut v: Vec<u8> = Vec::new();
    let mut i: usize = from;
    while i < to
        invariant
            from <= i <= to <= s@.len(),
            v@ == s@.subrange(from as int, i as int),
        decreases to - i,
    {
        v.push(s[i]);
        i += 1;
        proof {
            assert(v@ =~= s@.subrange(from as int, i as int));
        }
    }
    v
}

/// Reads the text field that starts at `pos`: the text and the position
/// just after it, or `None` where the field is empty or runs past the end.
pub fn read_text(s: &[u8], pos: usize) -> (r: Option<(Vec<u8>, usize)>)
    requires
        pos <= s@.len(),
    ensures
        match r {
            Some((t, next)) => parse_text(s@.skip(pos as int)) == Some((t@, (next - pos) as nat))
                && pos < next <= s@.len() && valid_text(t@),
            None => parse_text(s@.skip(pos as int)) is None,
        },
{
    let ghost rest = s@.skip(pos as int);
    if s.len() - pos < 1 {
        return None;
    }
    let n: usize = s[pos] as usize;
    if n == 0 || s.len() - pos < 1 + n {
        return None;
    }
    let t = copy_range(s, pos + 1, pos + 1 + n);
    proof {
        assert(rest[0] == s@[pos as int]);
        assert(t@ =~= rest.subrange(1, 1 + n));
    }
    Some((t, pos + 1 + n))
}

/// Turns an optional number into its wire value.
pub fn encode_opt_u32(x: Option<u32>) -> (v: u32)
    ensures
        v == opt_u32(x),
{
    match x {
        Some(v) => v,
        None => 0,
    }
}

/// Reads an optional number from its wire value.
pub fn decode_opt_u32(v: u32) -> (x: Option<u32>)
    ensures
        x == u32_opt(v),
{
    if v == 0 {
        None
    } else {
        Some(v)
    }
}

/// Turns an optional number into its wire value.
pub fn encode_opt_u64(x: Option<u64>) -> (v: u64)
    ensures
        v == opt_u64(x),
{
    match x {
        Some(v) => v,
        None => 0,
    }
}

/// Reads an optional number from its wire value.
pub fn decode_opt_u64(v: u64) -> (x: Option<u64>)
    ensures
        x == u64_opt(v),
{
    if v == 0 {
        None
    } else {
        Some(v)
    }
}

/// Tells whether `text` fits a text field.
pub fn is_valid_text(text: &Vec<u8>) -> (ok: bool)
    ensures
        ok == valid_text(text@),
{
    1 <= text.len() && text.len() <= MAX_TEXT_LENGTH
}

/// Copies a byte vector.
pub fn copy_bytes(value: &Vec<u8>) -> (v: Vec<u8>)
    ensures
        v@ == value@,
{
    let v = copy_range(value.as_slice(), 0, value.len());
    proof {
        assert(v@ =~= value@);
    }
    v
}

/// Tells whether two byte strings are equal.
pub fn same_bytes(a: &[u8], b: &[u8]) -> (same: bool)
    ensures
        same == (a@ == b@),
{
    if a.len() != b.len() {
        return false;
    }
    let n = a.len();
    let mut i: usize = 0;
    while i < n
        invariant
            i <= n,
            n == a@.len(),
            n == b@.len(),
            forall|j: int| 0 <= j < i ==> a@[j] == b@[j],
        decreases n - i,
    {
        if a[i] != b[i] {
            return false;
        }
        i += 1;
    }
    proof {
        assert(a@ =~= b@);
    }
    true
}

/// Appends a flag to `buf`.
pub fn put_bool(buf: &mut BytesMut, x: bool)
    requires
        bytes_mut_view(*old(buf)).len() + 1 <= isize::MAX,
    ensures
        bytes_mut_view(*final(buf)) == bytes_mut_view(*old(buf)) + bool_wire(x),
{
    let ghost before = bytes_mut_view(*buf);
    put_u8(buf, if x { 1 } else { 0 });
    proof {
        assert(bytes_mut_view(*buf) =~= before + bool_wire(x));
    }
}

/// Appends one byte to `buf`.
pub fn put_byte(buf: &mut BytesMut, x: u8)
    requires
        bytes_mut_view(*old(buf)).len() + 1 <= isize::MAX,
    ensures
        bytes_mut_view(*final(buf)) == bytes_mut_view(*old(buf)) + u8_wire(x),
{
    let ghost before = bytes_mut_view(*buf);
    put_u8(buf, x);
    proof {
        assert(bytes_mut_view(*buf) =~= before + u8_wire(x));
    }
}

/// Appends an optional `u32` to `buf`.
pub fn put_opt_u32(buf: &mut BytesMut, x: Option<u32>)
    requires
        bytes_mut_view(*old(buf)).len() + 4 <= isize::MAX,
    ensures
        bytes_mut_view(*final(buf)) == bytes_mut_view(*old(buf)) + opt_u32_wire(x),
{
    put_u32_le(buf, encode_opt_u32(x));
}

/// Appends an optional `u64` to `buf`.
pub fn put_opt_u64(buf: &mut BytesMut, x: Option<u64>)
    requires
        bytes_mut_view(*old(buf)).len() + 8 <= isize::MAX,
    ensures
        bytes_mut_view(*final(buf)) == bytes_mut_view(*old(buf)) + opt_u64_wire(x),
{
    put_u64_le(buf, encode_opt_u64(x));
}

/// Appends a run of bytes, its length first, to `buf`.
pub fn put_blob(buf: &mut BytesMut, blob: &Vec<u8>)
    requires
        valid_blob(blob@),
        bytes_mut_view(*old(buf)).len() + 4 + blob@.len() <= isize::MAX,
    ensures
        bytes_mut_view(*final(buf)) == bytes_mut_view(*old(buf)) + blob_wire(blob@),
{
    let ghost before = bytes_mut_view(*buf);
    put_u32_le(buf, blob.len() as u32);
    buf.put_slice(blob.as_slice());
    proof {
        assert(bytes_mut_view(*buf) =~= before + blob_wire(blob@));
    }
}

/// Reads the byte at `pos`.
pub fn read_u8(s: &[u8], pos: usize) -> (r: Result<(u8, usize), IggyError>)
    requires
        pos <= s@.len(),
    ensures
        match r {
            Ok((x, next)) => parse_u8(s@.skip(pos as int)) == Some((x, (next - pos) as nat))
                && pos < next <= s@.len(),
            Err(e) => e == IggyError::InvalidCommand && parse_u8(s@.skip(pos as int)) is None,
        },
{
    if s.len() - pos < 1 {
        return Err(IggyError::InvalidCommand);
    }
    Ok((s[pos], pos + 1))
}

/// Reads the flag at `pos`.
pub fn read_bool(s: &[u8], pos: usize) -> (r: Result<(bool, usize), IggyError>)
    requires
        pos <= s@.len(),
    ensures
        match r {
            Ok((x, next)) => parse_bool(s@.skip(pos as int)) == Some((x, (next - pos) as nat))
                && pos < next <= s@.len(),
            Err(e) => e == IggyError::InvalidCommand && parse_bool(s@.skip(pos as int)) is None,
        },
{
    if s.len() - pos < 1 || s[pos] > 1 {
        return Err(IggyError::InvalidCommand);
    }
    Ok((s[pos] == 1, pos + 1))
}

/// Reads the `u32` at `pos`.
pub fn read_u32(s: &[u8], pos: usize) -> (r: Result<(u32, usize), IggyError>)
    requires
        pos <= s@.len(),
    ensures
        match r {
            Ok((x, next)) => parse_u32(s@.skip(pos as int)) == Some((x, (next - pos) as nat))
                && pos < next <= s@.len(),
            Err(e) => e == IggyError::InvalidCommand && parse_u32(s@.skip(pos as int)) is None,
        },
{
    if s.len() - pos < 4 {
        return Err(IggyError::InvalidCommand);
    }
    Ok((read_u32_le(s, pos), pos + 4))
}

/// Reads the `u64` at `pos`.
pub fn read_u64(s: &[u8], pos: usize) -> (r: Result<(u64, usize), IggyError>)
    requires
        pos <= s@.len(),
    ensures
        match r {
            Ok((x, next)) => parse_u64(s@.skip(pos as int)) == Some((x, (next - pos) as nat))
                && pos < next <= s@.len(),
            Err(e) => e == IggyError::InvalidCommand && parse_u64(s@.skip(pos as int)) is None,
        },
{
    if s.len() - pos < 8 {
        return Err(IggyError::InvalidCommand);
    }
    Ok((read_u64_le(s, pos), pos + 8))
}

/// Reads the `u128` at `pos`.
pub fn read_u128(s: &[u8], pos: usize) -> (r: Result<(u128, usize), IggyError>)
    requires
        pos <= s@.len(),
    ensures
        match r {
            Ok((x, next)) => parse_u128(s@.skip(pos as int)) == Some((x, (next - pos) as nat))
                && pos < next <= s@.len(),
            Err(e) => e == IggyError::InvalidCommand && parse_u128(s@.skip(pos as int)) is None,
        },
{
    if s.len() - pos < 16 {
        return Err(IggyError::InvalidCommand);
    }
    Ok((read_u128_le(s, pos), pos + 16))
}

/// Reads the optional `u32` at `pos`.
pub fn read_opt_u32(s: &[u8], pos: usize) -> (r: Result<(Option<u32>, usize), IggyError>)
    requires
        pos <= s@.len(),
    ensures
        match r {
            Ok((x, next)) => parse_opt_u32(s@.skip(pos as int)) == Some((x, (next - pos) as nat))
                && pos < next <= s@.len() && valid_opt_u32(x),
            Err(e) => e == IggyError::InvalidCommand && parse_opt_u32(s@.skip(pos as int))
                is None,
        },
{
    if s.len() - pos < 4 {
        return Err(IggyError::InvalidCommand);
    }
    Ok((decode_opt_u32(read_u32_le(s, pos)), pos + 4))
}

/// Reads the optional `u64` at `pos`.
pub fn read_opt_u64(s: &[u8], pos: usize) -> (r: Result<(Option<u64>, usize), IggyError>)
    requires
        pos <= s@.len(),
    ensures
        match r {
            Ok((x, next)) => parse_opt_u64(s@.skip(pos as int)) == Some((x, (next - pos) as nat))
                && pos < next <= s@.len() && valid_opt_u64(x),
            Err(e) => e == IggyError::InvalidCommand && parse_opt_u64(s@.skip(pos as int))
                is None,
        },
{
    if s.len() - pos < 8 {
        return Err(IggyError::InvalidCommand);
    }
    Ok((decode_opt_u64(read_u64_le(s, pos)), pos + 8))
}

/// Reads the text field at `pos`.
pub fn read_text_field(s: &[u8], pos: usize) -> (r: Result<(Vec<u8>, usize), IggyError>)
    requires
        pos <= s@.len(),
    ensures
        match r {
            Ok((t, next)) => parse_text(s@.skip(pos as int)) == Some((t@, (next - pos) as nat))
                && pos < next <= s@.len() && valid_text(t@),
            Err(e) => e == IggyError::InvalidCommand && parse_text(s@.skip(pos as int)) is None,
        },
{
    match read_text(s, pos) {
        Some(found) => Ok(found),
        None => Err(IggyError::InvalidCommand),
    }
}

/// Reads the run of bytes at `pos`.
pub fn read_blob(s: &[u8], pos: usize) -> (r: Result<(Vec<u8>, usize), IggyError>)
    requires
        pos <= s@.len(),
    ensures
        match r {
            Ok((b, next)) => parse_blob(s@.skip(pos as int)) == Some((b@, (next - pos) as nat))
                && pos < next <= s@.len() && valid_blob(b@),
            Err(e) => e == IggyError::InvalidCommand && parse_blob(s@.skip(pos as int)) is None,
        },
{
    let ghost rest = s@.skip(pos as int);
    if s.len() - pos < 4 {
        return Err(IggyError::InvalidCommand);
    }
    let n = read_u32_le(s, pos) as usize;
    if n > MAX_BLOB_LENGTH || s.len() - pos - 4 < n {
        return Err(IggyError::InvalidCommand);
    }
    let b = copy_range(s, pos + 4, pos + 4 + n);
    proof {
        assert(b@ =~= rest.subrange(4, 4 + n));
    }
    Ok((b, pos + 4 + n))
}

/// Tells whether `blob` fits a field.
pub fn is_valid_blob(blob: &Vec<u8>) -> (ok: bool)
    ensures
        ok == valid_blob(blob@),
{
    blob.len() <= MAX_BLOB_LENGTH
}

/// Tells whether an optional number can be sent.
pub fn is_valid_opt_u32(x: Option<u32>) -> (ok: bool)
    ensures
        ok == valid_opt_u32(x),
{
    match x {
        Some(v) => v != 0,
        None => true,
    }
}

/// Tells whether an optional number can be sent.
pub fn is_valid_opt_u64(x: Option<u64>) -> (ok: bool)
    ensures
        ok == valid_opt_u64(x),
{
    match x {
        Some(v) => v != 0,
        None => true,
    }
}

/// An optional text field on the wire: a zero byte for "none", or a one
/// byte followed by the text field.
pub open spec fn opt_text_wire(t: Option<Seq<u8>>) -> Seq<u8> {
    match t {
        Some(text) => seq![1u8] + text_wire(text),
        None => seq![0u8],
    }
}

/// An optional text field fits the wire where the text, if there is one,
/// does.
pub open spec fn valid_opt_text(t: Option<Seq<u8>>) -> bool {
    match t {
        Some(text) => valid_text(text),
        None => true,
    }
}

/// Reads an optional text field from the front of `s`.
pub open spec fn parse_opt_text(s: Seq<u8>) -> Option<(Option<Seq<u8>>, nat)> {
    if s.len() < 1 {
        None
    } else if s[0] == 0 {
        Some((None, 1nat))
    } else if s[0] == 1 {
        match parse_text(s.skip(1)) {
            Some((text, n)) => Some((Some(text), 1 + n)),
            None => None,
        }
    } else {
        None
    }
}

/// Reading back an encoded optional text gives it back, whatever follows.
pub proof fn lemma_opt_text_parse(t: Option<Seq<u8>>, rest: Seq<u8>)
    requires
        valid_opt_text(t),
    ensures
        parse_opt_text(opt_text_wire(t) + rest) == Some((t, opt_text_wire(t).len())),
        (opt_text_wire(t) + rest).skip(opt_text_wire(t).len() as int) == rest,
        1 <= opt_text_wire(t).len() <= 257,
{
    let s = opt_text_wire(t) + rest;
    match t {
        Some(text) => {
            assert(s[0] == 1);
            assert(s.skip(1) =~= text_wire(text) + rest);
            lemma_text_parse(text, rest);
            assert(s.skip(opt_text_wire(t).len() as int) =~= rest);
        },
        None => {
            assert(s[0] == 0);
            assert(s.skip(1) =~= rest);
        },
    }
}

/// The view of an optional byte vector.
pub open spec fn opt_bytes_view(t: Option<Vec<u8>>) -> Option<Seq<u8>> {
    match t {
        Some(text) => Some(text@),
        None => None,
    }
}

/// Tells whether an optional text fits the wire.
pub fn is_valid_opt_text(t: &Option<Vec<u8>>) -> (ok: bool)
    ensures
        ok == valid_opt_text(opt_bytes_view(*t)),
{
    match t {
        Some(text) => is_valid_text(text),
        None => true,
    }
}

/// Appends an optional text field to `buf`.
pub fn put_opt_text(buf: &mut BytesMut, t: &Option<Vec<u8>>)
    requires
        valid_opt_text(opt_bytes_view(*t)),
        bytes_mut_view(*old(buf)).len() + opt_text_wire(opt_bytes_view(*t)).len() <= isize::MAX,
    ensures
        bytes_mut_view(*final(buf)) == bytes_mut_view(*old(buf)) + opt_text_wire(
            opt_bytes_view(*t),
        ),
{
    let ghost before = bytes_mut_view(*buf);
    match t {
        Some(text) => {
            put_u8(buf, 1);
            put_text(buf, text);
            proof {
                assert(bytes_mut_view(*buf) =~= before + opt_text_wire(opt_bytes_view(*t)));
            }
        },
        None => {
            put_u8(buf, 0);
            proof {
                assert(bytes_mut_view(*buf) =~= before + opt_text_wire(opt_bytes_view(*t)));
            }
        },
    }
}

/// Reads the optional text field at `pos`.
pub fn read_opt_text(s: &[u8], pos: usize) -> (r: Result<(Option<Vec<u8>>, usize), IggyError>)
    requires
        pos <= s@.len(),
    ensures
        match r {
            Ok((t, next)) => parse_opt_text(s@.skip(pos as int)) == Some(
                (opt_bytes_view(t), (next - pos) as nat),
            ) && pos < next <= s@.len() && valid_opt_text(opt_bytes_view(t)),
            Err(e) => e == IggyError::InvalidCommand && parse_opt_text(s@.skip(pos as int))
                is None,
        },
{
    if s.len() - pos < 1 {
        return Err(IggyError::InvalidCommand);
    }
    let flag = s[pos];
    if flag == 0 {
        Ok((None, pos + 1))
    } else if flag == 1 {
        proof {
            assert(s@.skip(pos as int).skip(1) =~= s@.skip(pos + 1));
        }
        let (text, next) = read_text_field(s, pos + 1)?;
        Ok((Some(text), next))
    } else {
        Err(IggyError::InvalidCommand)
    }
}

/// The number of bytes that an optional text field takes on the wire.
pub fn opt_text_size(t: &Option<Vec<u8>>) -> (n: usize)
    requires
        valid_opt_text(opt_bytes_view(*t)),
    ensures
        n == opt_text_wire(opt_bytes_view(*t)).len(),
        n <= 257,
{
    match t {
        Some(text) => 2 + text.len(),
        None => 1,
    }
}

/// Concatenation is associative.
pub proof fn lemma_concat_assoc(a: Seq<u8>, b: Seq<u8>, c: Seq<u8>)
    ensures
        (a + b) + c == a + (b + c),
{
    assert((a + b) + c =~= a + (b + c));
}

/// Skipping the first part of a concatenation leaves the second.
pub proof fn lemma_skip_concat(a: Seq<u8>, b: Seq<u8>)
    ensures
        (a + b).skip(a.len() as int) == b,
{
    assert((a + b).skip(a.len() as int) =~= b);
}

/// Appending nothing changes nothing.
pub proof fn lemma_concat_empty(a: Seq<u8>)
    ensures
        a + Seq::<u8>::empty() == a,
        Seq::<u8>::empty() + a == a,
{
    assert(a + Seq::<u8>::empty() =~= a);
    assert(Seq::<u8>::empty() + a =~= a);
}

/// A prefix of a prefix is a prefix.
pub proof fn lemma_take_take(s: Seq<u8>, k: int, n: int)
    requires
        0 <= n <= k <= s.len(),
    ensures
        s.take(k).take(n) == s.take(n),
        s.drop_last() == s.take(s.len() - 1) || s.len() == 0,
{
    assert(s.take(k).take(n) =~= s.take(n));
    if s.len() > 0 {
        assert(s.drop_last() =~= s.take(s.len() - 1));
    }
}

/// Two sequences that agree on their first `n` elements agree on every
/// window inside those elements.
pub proof fn lemma_window(s: Seq<u8>, other: Seq<u8>, n: int, a: int, b: int)
    requires
        0 <= a,
        0 <= b,
        a + b <= n,
        n <= s.len(),
        n <= other.len(),
        s.take(n) == other.take(n),
    ensures
        s.skip(a).take(b) == other.skip(a).take(b),
        other.skip(a).len() >= b,
{
    assert forall|i: int| 0 <= i < b implies s.skip(a).take(b)[i] == other.skip(a).take(b)[i] by {
        assert(s.take(n)[a + i] == s[a + i]);
        assert(other.take(n)[a + i] == other[a + i]);
        assert(s.skip(a).take(b)[i] == s.skip(a)[i]);
        assert(other.skip(a).take(b)[i] == other.skip(a)[i]);
    }
    assert(s.skip(a).take(b) =~= other.skip(a).take(b));
}

/// Two sequences that agree on their first `n` elements agree on each of
/// them.
pub proof fn lemma_same_front(s: Seq<u8>, other: Seq<u8>, n: int)
    requires
        0 <= n <= s.len(),
        n <= other.len(),
        s.take(n) == other.take(n),
    ensures
        forall|i: int| 0 <= i < n ==> s[i] == other[i],
{
    assert forall|i: int| 0 <= i < n implies s[i] == other[i] by {
        assert(s.take(n)[i] == s[i]);
        assert(other.take(n)[i] == other[i]);
    }
}

/// Reading a byte looks at nothing beyond it.
pub proof fn lemma_u8_local(s: Seq<u8>, other: Seq<u8>)
    requires
        parse_u8(s) is Some,
        other.len() >= parse_u8(s).unwrap().1,
        other.take(parse_u8(s).unwrap().1 as int) == s.take(parse_u8(s).unwrap().1 as int),
    ensures
        parse_u8(other) == parse_u8(s),
{
    lemma_same_front(s, other, 1);
}

/// Reading a flag looks at nothing beyond it.
pub proof fn lemma_bool_local(s: Seq<u8>, other: Seq<u8>)
    requires
        parse_bool(s) is Some,
        other.len() >= parse_bool(s).unwrap().1,
        other.take(parse_bool(s).unwrap().1 as int) == s.take(parse_bool(s).unwrap().1 as int),
    ensures
        parse_bool(other) == parse_bool(s),
{
    lemma_same_front(s, other, 1);
}

/// The first four bytes decide the number.
pub proof fn lemma_le_u32_local(s: Seq<u8>, other: Seq<u8>)
    requires
        s.len() >= 4,
        other.len() >= 4,
        other.take(4) == s.take(4),
    ensures
        le_u32(other) == le_u32(s),
{
    lemma_same_front(s, other, 4);
}

/// The first eight bytes decide the number.
pub proof fn lemma_le_u64_local(s: Seq<u8>, other: Seq<u8>)
    requires
        s.len() >= 8,
        other.len() >= 8,
        other.take(8) == s.take(8),
    ensures
        le_u64(other) == le_u64(s),
{
    lemma_window(s, other, 8, 0, 4);
    lemma_window(s, other, 8, 4, 4);
    assert(s.skip(0) =~= s);
    assert(other.skip(0) =~= other);
    lemma_le_u32_local(s, other);
    lemma_le_u32_local(s.skip(4), other.skip(4));
}

/// The first sixteen bytes decide the number.
pub proof fn lemma_le_u128_local(s: Seq<u8>, other: Seq<u8>)
    requires
        s.len() >= 16,
        other.len() >= 16,
        other.take(16) == s.take(16),
    ensures
        le_u128(other) == le_u128(s),
{
    lemma_window(s, other, 16, 0, 8);
    lemma_window(s, other, 16, 8, 8);
    assert(s.skip(0) =~= s);
    assert(other.skip(0) =~= other);
    lemma_le_u64_local(s, other);
    lemma_le_u64_local(s.skip(8), other.skip(8));
}

/// Reading a `u32` looks at nothing beyond it.
pub proof fn lemma_u32_local(s: Seq<u8>, other: Seq<u8>)
    requires
        parse_u32(s) is Some,
        other.len() >= parse_u32(s).unwrap().1,
        other.take(parse_u32(s).unwrap().1 as int) == s.take(parse_u32(s).unwrap().1 as int),
    ensures
        parse_u32(other) == parse_u32(s),
{
    lemma_le_u32_local(s, other);
}

/// Reading a `u64` looks at nothing beyond it.
pub proof fn lemma_u64_local(s: Seq<u8>, other: Seq<u8>)
    requires
        parse_u64(s) is Some,
        other.len() >= parse_u64(s).unwrap().1,
        other.take(parse_u64(s).unwrap().1 as int) == s.take(parse_u64(s).unwrap().1 as int),
    ensures
        parse_u64(other) == parse_u64(s),
{
    lemma_le_u64_local(s, other);
}

/// Reading a `u128` looks at nothing beyond it.
pub proof fn lemma_u128_local(s: Seq<u8>, other: Seq<u8>)
    requires
        parse_u128(s) is Some,
        other.len() >= parse_u128(s).unwrap().1,
        other.take(parse_u128(s).unwrap().1 as int) == s.take(parse_u128(s).unwrap().1 as int),
    ensures
        parse_u128(other) == parse_u128(s),
{
    lemma_le_u128_local(s, other);
}

/// Reading an optional `u32` looks at nothing beyond it.
pub proof fn lemma_opt_u32_local(s: Seq<u8>, other: Seq<u8>)
    requires
        parse_opt_u32(s) is Some,
        other.len() >= parse_opt_u32(s).unwrap().1,
        other.take(parse_opt_u32(s).unwrap().1 as int) == s.take(
            parse_opt_u32(s).unwrap().1 as int,
        ),
    ensures
        parse_opt_u32(other) == parse_opt_u32(s),
{
    lemma_le_u32_local(s, other);
}

/// Reading an optional `u64` looks at nothing beyond it.
pub proof fn lemma_opt_u64_local(s: Seq<u8>, other: Seq<u8>)
    requires
        parse_opt_u64(s) is Some,
        other.len() >= parse_opt_u64(s).unwrap().1,
        other.take(parse_opt_u64(s).unwrap().1 as int) == s.take(
            parse_opt_u64(s).unwrap().1 as int,
        ),
    ensures
        parse_opt_u64(other) == parse_opt_u64(s),
{
    lemma_le_u64_local(s, other);
}

/// Reading a text field looks at nothing beyond it.
pub proof fn lemma_text_local(s: Seq<u8>, other: Seq<u8>)
    requires
        parse_text(s) is Some,
        other.len() >= parse_text(s).unwrap().1,
        other.take(parse_text(s).unwrap().1 as int) == s.take(parse_text(s).unwrap().1 as int),
    ensures
        parse_text(other) == parse_text(s),
{
    let n = 1 + s[0] as int;
    lemma_same_front(s, other, n);
    assert(other.subrange(1, n) =~= s.subrange(1, n));
}

/// Reading a run of bytes looks at nothing beyond it.
pub proof fn lemma_blob_local(s: Seq<u8>, other: Seq<u8>)
    requires
        parse_blob(s) is Some,
        other.len() >= parse_blob(s).unwrap().1,
        other.take(parse_blob(s).unwrap().1 as int) == s.take(parse_blob(s).unwrap().1 as int),
    ensures
        parse_blob(other) == parse_blob(s),
{
    let n = 4 + le_u32(s) as int;
    lemma_same_front(s, other, n);
    assert(other.subrange(4, n) =~= s.subrange(4, n));
}

/// Reading an optional text field looks at nothing beyond it.
pub proof fn lemma_opt_text_local(s: Seq<u8>, other: Seq<u8>)
    requires
        parse_opt_text(s) is Some,
        other.len() >= parse_opt_text(s).unwrap().1,
        other.take(parse_opt_text(s).unwrap().1 as int) == s.take(
            parse_opt_text(s).unwrap().1 as int,
        ),
    ensures
        parse_opt_text(other) == parse_opt_text(s),
{
    let n = parse_opt_text(s).unwrap().1 as int;
    lemma_same_front(s, other, n);
    if s[0] == 1 {
        lemma_window(s, other, n, 1, n - 1);
        lemma_text_local(s.skip(1), other.skip(1));
    }
}

/// An optional run of bytes on the wire: the run itself, or a run of length
/// zero for "none".
pub open spec fn opt_blob_wire(b: Option<Seq<u8>>) -> Seq<u8> {
    match b {
        Some(bytes) => blob_wire(bytes),
        None => blob_wire(Seq::empty()),
    }
}

/// An optional run of bytes can be sent where the run, if there is one, is
/// not empty (an empty one would be read back as "none") and fits a field.
pub open spec fn valid_opt_blob(b: Option<Seq<u8>>) -> bool {
    match b {
        Some(bytes) => 1 <= bytes.len() && valid_blob(bytes),
        None => true,
    }
}

/// Reads an optional run of bytes from the front of `s`.
pub open spec fn parse_opt_blob(s: Seq<u8>) -> Option<(Option<Seq<u8>>, nat)> {
    match parse_blob(s) {
        Some((bytes, n)) => Some((if bytes.len() == 0 { None } else { Some(bytes) }, n)),
        None => None,
    }
}

/// Reading back an encoded optional run of bytes gives it back, whatever
/// follows.
pub proof fn lemma_opt_blob_parse(b: Option<Seq<u8>>, rest: Seq<u8>)
    requires
        valid_opt_blob(b),
    ensures
        parse_opt_blob(opt_blob_wire(b) + rest) == Some((b, opt_blob_wire(b).len())),
        (opt_blob_wire(b) + rest).skip(opt_blob_wire(b).len() as int) == rest,
        4 <= opt_blob_wire(b).len() <= 10_000_004,
{
    match b {
        Some(bytes) => {
            lemma_blob_parse(bytes, rest);
        },
        None => {
            lemma_blob_parse(Seq::empty(), rest);
        },
    }
}

/// Reading an optional run of bytes looks at nothing beyond it.
pub proof fn lemma_opt_blob_local(s: Seq<u8>, other: Seq<u8>)
    requires
        parse_opt_blob(s) is Some,
        other.len() >= parse_opt_blob(s).unwrap().1,
        other.take(parse_opt_blob(s).unwrap().1 as int) == s.take(
            parse_opt_blob(s).unwrap().1 as int,
        ),
    ensures
        parse_opt_blob(other) == parse_opt_blob(s),
{
    lemma_blob_local(s, other);
}

/// Tells whether an optional run of bytes can be sent.
pub fn is_valid_opt_blob(b: &Option<Vec<u8>>) -> (ok: bool)
    ensures
        ok == valid_opt_blob(opt_bytes_view(*b)),
{
    match b {
        Some(bytes) => 1 <= bytes.len() && bytes.len() <= MAX_BLOB_LENGTH,
        None => true,
    }
}

/// The number of bytes that a run of bytes takes on the wire.
pub fn blob_size(b: &Vec<u8>) -> (n: usize)
    requires
        valid_blob(b@),
    ensures
        n == blob_wire(b@).len(),
        n <= 10_000_004,
{
    4 + b.len()
}

/// The number of bytes that an optional run of bytes takes on the wire.
pub fn opt_blob_size(b: &Option<Vec<u8>>) -> (n: usize)
    requires
        valid_opt_blob(opt_bytes_view(*b)),
    ensures
        n == opt_blob_wire(opt_bytes_view(*b)).len(),
        n <= 10_000_004,
{
    match b {
        Some(bytes) => 4 + bytes.len(),
        None => 4,
    }
}

/// Appends an optional run of bytes to `buf`.
pub fn put_opt_blob(buf: &mut BytesMut, b: &Option<Vec<u8>>)
    requires
        valid_opt_blob(opt_bytes_view(*b)),
        bytes_mut_view(*old(buf)).len() + opt_blob_wire(opt_bytes_view(*b)).len() <= isize::MAX,
    ensures
        bytes_mut_view(*final(buf)) == bytes_mut_view(*old(buf)) + opt_blob_wire(
            opt_bytes_view(*b),
        ),
{
    match b {
        Some(bytes) => {
            put_blob(buf, bytes);
        },
        None => {
            let none: Vec<u8> = Vec::new();
            put_blob(buf, &none);
        },
    }
}

/// Reads the optional run of bytes at `pos`.
pub fn read_opt_blob(s: &[u8], pos: usize) -> (r: Result<(Option<Vec<u8>>, usize), IggyError>)
    requires
        pos <= s@.len(),
    ensures
        match r {
            Ok((b, next)) => parse_opt_blob(s@.skip(pos as int)) == Some(
                (opt_bytes_view(b), (next - pos) as nat),
            ) && pos < next <= s@.len() && valid_opt_blob(opt_bytes_view(b)),
            Err(e) => e == IggyError::InvalidCommand && parse_opt_blob(s@.skip(pos as int))
                is None,
        },
{
    let (bytes, next) = read_blob(s, pos)?;
    if bytes.len() == 0 {
        Ok((None, next))
    } else {
        Ok((Some(bytes), next))
    }
}

} // verus!
