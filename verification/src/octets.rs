//! Byte strings: big-endian integers, and the buffers of the `bytes` crate.
use bytes::{Buf, BufMut, Bytes, BytesMut};
use vstd::prelude::*;

verus! {

/// The two octets of `n`, most significant first.
pub open spec fn be16(n: u16) -> Seq<u8> {
    seq![(n / 0x100) as u8, (n % 0x100) as u8]
}

/// The four octets of `n`, most significant first.
pub open spec fn be32(n: u32) -> Seq<u8> {
    be16((n / 0x1_0000) as u16) + be16((n % 0x1_0000) as u16)
}

/// The eight octets of `n`, most significant first.
pub open spec fn be64(n: u64) -> Seq<u8> {
    be32((n / 0x1_0000_0000) as u32) + be32((n % 0x1_0000_0000) as u32)
}

/// The 16-bit integer whose octets stand in `s` from `at` on, most significant first.
pub open spec fn u16_at(s: Seq<u8>, at: int) -> u16 {
    (s[at] * 0x100 + s[at + 1]) as u16
}

/// The 32-bit integer whose octets stand in `s` from `at` on, most significant first.
pub open spec fn u32_at(s: Seq<u8>, at: int) -> u32 {
    (u16_at(s, at) * 0x1_0000 + u16_at(s, at + 2)) as u32
}

/// The 64-bit integer whose octets stand in `s` from `at` on, most significant first.
pub open spec fn u64_at(s: Seq<u8>, at: int) -> u64 {
    (u32_at(s, at) * 0x1_0000_0000 + u32_at(s, at + 4)) as u64
}

/// The bits of a signed 32-bit integer, read as an unsigned one.
pub open spec fn twos_complement(n: i32) -> u32 {
    if n < 0 {
        (n + 0x1_0000_0000) as u32
    } else {
        n as u32
    }
}

/// The four octets of an integer, read back from wherever they stand, give that integer.
pub proof fn u32_reads_back(s: Seq<u8>, at: int, n: u32)
    requires
        0 <= at,
        at + 4 <= s.len(),
        s.subrange(at, at + 4) == be32(n),
    ensures
        u32_at(s, at) == n,
{
    let w = s.subrange(at, at + 4);
    assert(w[0] == s[at] && w[1] == s[at + 1] && w[2] == s[at + 2] && w[3] == s[at + 3]);
}

/// The two octets of an integer, read back from wherever they stand, give that integer.
pub proof fn u16_reads_back(s: Seq<u8>, at: int, n: u16)
    requires
        0 <= at,
        at + 2 <= s.len(),
        s.subrange(at, at + 2) == be16(n),
    ensures
        u16_at(s, at) == n,
{
    let w = s.subrange(at, at + 2);
    assert(w[0] == s[at] && w[1] == s[at + 1]);
}

/// The eight octets of an integer, read back from wherever they stand, give that integer.
pub proof fn u64_reads_back(s: Seq<u8>, at: int, n: u64)
    requires
        0 <= at,
        at + 8 <= s.len(),
        s.subrange(at, at + 8) == be64(n),
    ensures
        u64_at(s, at) == n,
{
    let w = s.subrange(at, at + 8);
    let high = (n / 0x1_0000_0000) as u32;
    let low = (n % 0x1_0000_0000) as u32;
    assert(s.subrange(at, at + 4) =~= w.subrange(0, 4));
    assert(w.subrange(0, 4) =~= be32(high));
    assert(s.subrange(at + 4, at + 8) =~= w.subrange(4, 8));
    assert(w.subrange(4, 8) =~= be32(low));
    u32_reads_back(s, at, high);
    u32_reads_back(s, at + 4, low);
}

/// Four octets are those of the integer that is read from them.
pub proof fn u32_writes_back(s: Seq<u8>, at: int)
    requires
        0 <= at,
        at + 4 <= s.len(),
    ensures
        be32(u32_at(s, at)) == s.subrange(at, at + 4),
{
    let n = u32_at(s, at);
    u16_writes_back(s, at);
    u16_writes_back(s, at + 2);
    assert(n / 0x1_0000 == u16_at(s, at));
    assert(n % 0x1_0000 == u16_at(s, at + 2));
    assert(s.subrange(at, at + 2) + s.subrange(at + 2, at + 4) =~= s.subrange(at, at + 4));
}

/// Two octets are those of the integer that is read from them.
proof fn u16_writes_back(s: Seq<u8>, at: int)
    requires
        0 <= at,
        at + 2 <= s.len(),
    ensures
        be16(u16_at(s, at)) == s.subrange(at, at + 2),
{
    assert(be16(u16_at(s, at)) =~= s.subrange(at, at + 2));
}

/// The integer whose four octets, most significant first, stand in `s` from `at` on.
pub(crate) fn read_u32(s: &[u8], at: usize) -> (n: u32)
    requires
        at + 4 <= s@.len(),
    ensures
        n == u32_at(s@, at as int),
{
    s[at] as u32 * 0x100_0000 + s[at + 1] as u32 * 0x1_0000 + s[at + 2] as u32 * 0x100 + s[at
        + 3] as u32
}

/// The integer whose two octets, most significant first, stand in `s` from `at` on.
pub(crate) fn read_u16(s: &[u8], at: usize) -> (n: u16)
    requires
        at + 2 <= s@.len(),
    ensures
        n == u16_at(s@, at as int),
{
    s[at] as u16 * 0x100 + s[at + 1] as u16
}

/// Whether two byte strings are the same.
pub(crate) fn same_octets(a: &[u8], b: &[u8]) -> (same: bool)
    ensures
        same == (a@ == b@),
{
    if a.len() != b.len() {
        return false;
    }
    let mut i: usize = 0;
    while i < a.len()
        invariant
            a@.len() == b@.len(),
            i <= a@.len(),
            forall|j: int| 0 <= j < i ==> a@[j] == b@[j],
        decreases a@.len() - i,
    {
        if a[i] != b[i] {
            return false;
        }
        i += 1;
    }
    assert(a@ =~= b@);
    true
}

/// A copy of a byte string.
pub(crate) fn copy_octets(octets: &[u8]) -> (copy: Vec<u8>)
    ensures
        copy@ == octets@,
{
    let mut copy: Vec<u8> = Vec::with_capacity(octets.len());
    copy.extend_from_slice(octets);
    assert(copy@ =~= octets@);
    copy
}

/// A growable byte buffer of the `bytes` crate.
#[verifier::external_type_specification]
#[verifier::external_body]
pub struct ExBytesMut(bytes::BytesMut);

/// A shared, immutable byte string of the `bytes` crate.
#[verifier::external_type_specification]
#[verifier::external_body]
pub struct ExBytes(bytes::Bytes);

/// What a `BytesMut` holds, front first.
pub uninterp spec fn buffer_contents(buf: bytes::BytesMut) -> Seq<u8>;

/// What a `Bytes` holds, front first.
pub uninterp spec fn bytes_contents(bytes: bytes::Bytes) -> Seq<u8>;

/// `BytesMut::with_capacity`: the new buffer holds nothing. What it has allocated is left
/// unsaid. A capacity over `isize::MAX` would panic.
#[verifier::external_body]
pub(crate) fn buffer_with_capacity(capacity: usize) -> (buf: BytesMut)
    requires
        capacity <= isize::MAX,
    ensures
        buffer_contents(buf) == Seq::<u8>::empty(),
{
    BytesMut::with_capacity(capacity)
}

/// `<BytesMut as Deref>::deref`: the slice holds what the buffer holds.
#[verifier::external_body]
pub(crate) fn buffer_slice(buf: &BytesMut) -> (slice: &[u8])
    ensures
        slice@ == buffer_contents(*buf),
{
    buf
}

/// `Buf::advance` on a `BytesMut`: drops the first `count` octets. It panics where there
/// are fewer.
#[verifier::external_body]
pub(crate) fn buffer_advance(buf: &mut BytesMut, count: usize)
    requires
        count <= buffer_contents(*old(buf)).len(),
    ensures
        buffer_contents(*final(buf)) == buffer_contents(*old(buf)).skip(count as int),
{
    buf.advance(count);
}

/// `BytesMut::reserve`: makes room and leaves the contents alone. It panics where the
/// contents and the room together are more than one allocation can hold.
#[verifier::external_body]
pub(crate) fn buffer_reserve(buf: &mut BytesMut, additional: usize)
    requires
        buffer_contents(*old(buf)).len() + additional <= isize::MAX,
    ensures
        buffer_contents(*final(buf)) == buffer_contents(*old(buf)),
{
    buf.reserve(additional);
}

/// `Buf::copy_to_bytes` on a `BytesMut`: takes the first `count` octets out and hands
/// them over. It panics where there are fewer.
#[verifier::external_body]
pub(crate) fn buffer_copy_to_bytes(buf: &mut BytesMut, count: usize) -> (taken: Bytes)
    requires
        count <= buffer_contents(*old(buf)).len(),
    ensures
        bytes_contents(taken) == buffer_contents(*old(buf)).take(count as int),
        buffer_contents(*final(buf)) == buffer_contents(*old(buf)).skip(count as int),
{
    buf.copy_to_bytes(count)
}

/// `BufMut::put_u8` on a `BytesMut`: appends one octet.
#[verifier::external_body]
pub(crate) fn buffer_put_u8(buf: &mut BytesMut, n: u8)
    requires
        buffer_contents(*old(buf)).len() + 1 <= isize::MAX,
    ensures
        buffer_contents(*final(buf)) == buffer_contents(*old(buf)).push(n),
{
    buf.put_u8(n);
}

/// `BufMut::put_u16` on a `BytesMut`: appends two octets, most significant first.
#[verifier::external_body]
pub(crate) fn buffer_put_u16(buf: &mut BytesMut, n: u16)
    requires
        buffer_contents(*old(buf)).len() + 2 <= isize::MAX,
    ensures
        buffer_contents(*final(buf)) == buffer_contents(*old(buf)) + be16(n),
{
    buf.put_u16(n);
}

/// `BufMut::put_u32` on a `BytesMut`: appends four octets, most significant first.
#[verifier::external_body]
pub(crate) fn buffer_put_u32(buf: &mut BytesMut, n: u32)
    requires
        buffer_contents(*old(buf)).len() + 4 <= isize::MAX,
    ensures
        buffer_contents(*final(buf)) == buffer_contents(*old(buf)) + be32(n),
{
    buf.put_u32(n);
}

/// `BufMut::put_i32` on a `BytesMut`: appends the four octets of the two's complement,
/// most significant first.
#[verifier::external_body]
pub(crate) fn buffer_put_i32(buf: &mut BytesMut, n: i32)
    requires
        buffer_contents(*old(buf)).len() + 4 <= isize::MAX,
    ensures
        buffer_contents(*final(buf)) == buffer_contents(*old(buf)) + be32(twos_complement(n)),
{
    buf.put_i32(n);
}

/// `BufMut::put_u64` on a `BytesMut`: appends eight octets, most significant first.
#[verifier::external_body]
pub(crate) fn buffer_put_u64(buf: &mut BytesMut, n: u64)
    requires
        buffer_contents(*old(buf)).len() + 8 <= isize::MAX,
    ensures
        buffer_contents(*final(buf)) == buffer_contents(*old(buf)) + be64(n),
{
    buf.put_u64(n);
}

/// `BufMut::put_slice` on a `BytesMut`: appends the octets of a slice.
#[verifier::external_body]
pub(crate) fn buffer_put_slice(buf: &mut BytesMut, slice: &[u8])
    requires
        buffer_contents(*old(buf)).len() + slice@.len() <= isize::MAX,
    ensures
        buffer_contents(*final(buf)) == buffer_contents(*old(buf)) + slice@,
{
    buf.put_slice(slice);
}

/// `<Bytes as Clone>::clone`: the copy holds what the byte string holds.
pub assume_specification[ <bytes::Bytes as Clone>::clone ](bytes: &bytes::Bytes) -> (copy:
    bytes::Bytes)
    ensures
        bytes_contents(copy) == bytes_contents(*bytes),
;

/// `Bytes::copy_from_slice`: the new byte string holds what the slice holds.
#[verifier::external_body]
pub(crate) fn bytes_copy(slice: &[u8]) -> (bytes: Bytes)
    ensures
        bytes_contents(bytes) == slice@,
{
    Bytes::copy_from_slice(slice)
}

/// `<Bytes as Deref>::deref`: the slice holds what the byte string holds.
#[verifier::external_body]
pub(crate) fn bytes_slice(bytes: &Bytes) -> (slice: &[u8])
    ensures
        slice@ == bytes_contents(*bytes),
{
    bytes
}

/// `Bytes::slice` with an open end: what stands from `start` on. It panics where the
/// byte string is shorter.
#[verifier::external_body]
pub(crate) fn bytes_from(bytes: &Bytes, start: usize) -> (tail: Bytes)
    requires
        start <= bytes_contents(*bytes).len(),
    ensures
        bytes_contents(tail) == bytes_contents(*bytes).skip(start as int),
{
    bytes.slice(start..)
}

/// `Buf::get_u8` on a slice: takes one octet off its front. It panics where there is none.
#[verifier::external_body]
pub(crate) fn take_u8(octets: &mut &[u8]) -> (n: u8)
    requires
        1 <= (*old(octets))@.len(),
    ensures
        n == (*old(octets))@[0],
        (*final(octets))@ == (*old(octets))@.skip(1),
{
    octets.get_u8()
}

/// `Buf::get_u16` on a slice: takes an integer of two octets, most significant first, off
/// its front. It panics where there are fewer.
#[verifier::external_body]
pub(crate) fn take_u16(octets: &mut &[u8]) -> (n: u16)
    requires
        2 <= (*old(octets))@.len(),
    ensures
        n == u16_at((*old(octets))@, 0),
        (*final(octets))@ == (*old(octets))@.skip(2),
{
    octets.get_u16()
}

/// `Buf::get_u32` on a slice: takes an integer of four octets, most significant first, off
/// its front. It panics where there are fewer.
#[verifier::external_body]
pub(crate) fn take_u32(octets: &mut &[u8]) -> (n: u32)
    requires
        4 <= (*old(octets))@.len(),
    ensures
        n == u32_at((*old(octets))@, 0),
        (*final(octets))@ == (*old(octets))@.skip(4),
{
    octets.get_u32()
}

/// `Buf::get_u64` on a slice: takes an integer of eight octets, most significant first, off
/// its front. It panics where there are fewer.
#[verifier::external_body]
pub(crate) fn take_u64(octets: &mut &[u8]) -> (n: u64)
    requires
        8 <= (*old(octets))@.len(),
    ensures
        n == u64_at((*old(octets))@, 0),
        (*final(octets))@ == (*old(octets))@.skip(8),
{
    octets.get_u64()
}

/// The octets of an integer are its digits to the base 256, most significant first.
pub proof fn octets_are_digits(short: u16, word: u32, long: u64)
    ensures
        be16(short).len() == 2,
        short == be16(short)[0] * 0x100 + be16(short)[1],
        be32(word).len() == 4,
        word == be32(word)[0] * 0x100_0000 + be32(word)[1] * 0x1_0000 + be32(word)[2] * 0x100
            + be32(word)[3],
        be64(long).len() == 8,
        long == be64(long)[0] * 0x100_0000_0000_0000 + be64(long)[1] * 0x1_0000_0000_0000
            + be64(long)[2] * 0x100_0000_0000 + be64(long)[3] * 0x1_0000_0000 + be64(long)[4]
            * 0x100_0000 + be64(long)[5] * 0x1_0000 + be64(long)[6] * 0x100 + be64(long)[7],
{
    let high = be32((long / 0x1_0000_0000) as u32);
    let low = be32((long % 0x1_0000_0000) as u32);
    let whole = be64(long);
    assert(whole[0] == high[0] && whole[1] == high[1] && whole[2] == high[2] && whole[3]
        == high[3]);
    assert(whole[4] == low[0] && whole[5] == low[1] && whole[6] == low[2] && whole[7] == low[3]);
}

/// Octets are read as digits to the base 256, most significant first.
pub proof fn digits_are_read(s: Seq<u8>, at: int)
    ensures
        u16_at(s, at) == s[at] * 0x100 + s[at + 1],
        u32_at(s, at) == s[at] * 0x100_0000 + s[at + 1] * 0x1_0000 + s[at + 2] * 0x100 + s[at + 3],
        u64_at(s, at) == s[at] * 0x100_0000_0000_0000 + s[at + 1] * 0x1_0000_0000_0000 + s[at + 2]
            * 0x100_0000_0000 + s[at + 3] * 0x1_0000_0000 + s[at + 4] * 0x100_0000 + s[at + 5]
            * 0x1_0000 + s[at + 6] * 0x100 + s[at + 7],
{
}

/// A signed integer and its bits differ by a multiple of two to the 32nd.
pub proof fn twos_complement_is_congruent(n: i32)
    ensures
        (twos_complement(n) - n) % 0x1_0000_0000 == 0,
{
}

} // verus!
