//! Big-endian integers and byte runs: the primitives every codec of this crate is built from.
//!
//! Every multi-byte integer of the format is big-endian. The spec functions here say what
//! a field is worth at a position of a buffer and which bytes a value is written as; the
//! executable readers and writers are proved against them.

use vstd::prelude::*;

verus! {

/// `n` bytes starting at `pos` lie inside `s`.
pub open spec fn in_bounds(s: Seq<u8>, pos: int, n: int) -> bool {
    0 <= pos && 0 <= n && pos + n <= s.len()
}

/// The buffer `s` holds exactly the bytes `w` at `pos`.
pub open spec fn has_at(s: Seq<u8>, pos: int, w: Seq<u8>) -> bool {
    in_bounds(s, pos, w.len() as int) && s.subrange(pos, pos + w.len()) == w
}

/// The big-endian `u16` at `pos`.
pub open spec fn u16_at(s: Seq<u8>, pos: int) -> u16 {
    (s[pos] as int * 256 + s[pos + 1] as int) as u16
}

/// The big-endian `u32` at `pos`.
pub open spec fn u32_at(s: Seq<u8>, pos: int) -> u32 {
    (((s[pos] as int * 256 + s[pos + 1] as int) * 256 + s[pos + 2] as int) * 256 + s[pos
        + 3] as int) as u32
}

/// The signed value of a 16-bit two's complement pattern.
pub open spec fn i16_of(u: u16) -> i16 {
    if u < 0x8000 {
        u as i16
    } else {
        (u - 0x1_0000) as i16
    }
}

/// The signed value of a 32-bit two's complement pattern.
pub open spec fn i32_of(u: u32) -> i32 {
    if u < 0x8000_0000 {
        u as i32
    } else {
        (u - 0x1_0000_0000) as i32
    }
}

/// The 16-bit two's complement pattern of a signed value.
pub open spec fn i16_bits(v: i16) -> u16 {
    if v >= 0 {
        v as u16
    } else {
        (v + 0x1_0000) as u16
    }
}

/// The 32-bit two's complement pattern of a signed value.
pub open spec fn i32_bits(v: i32) -> u32 {
    if v >= 0 {
        v as u32
    } else {
        (v + 0x1_0000_0000) as u32
    }
}

/// The two bytes a `u16` is written as.
pub open spec fn u16_wire(v: u16) -> Seq<u8> {
    seq![(v / 256) as u8, (v % 256) as u8]
}

/// The four bytes a `u32` is written as.
pub open spec fn u32_wire(v: u32) -> Seq<u8> {
    seq![
        (v / 0x100_0000) as u8,
        ((v / 0x1_0000) % 256) as u8,
        ((v / 256) % 256) as u8,
        (v % 256) as u8,
    ]
}

/// `n` zero bytes.
pub open spec fn zeros(n: int) -> Seq<u8> {
    Seq::new(n as nat, |i: int| 0u8)
}

/// The bytes a run of `u32` values is written as, one after the other.
pub open spec fn u32s_wire(v: Seq<u32>) -> Seq<u8>
    decreases v.len(),
{
    if v.len() == 0 {
        Seq::empty()
    } else {
        u32s_wire(v.drop_last()) + u32_wire(v.last())
    }
}

/// The `n` big-endian `u32` values that start at `pos`.
pub open spec fn u32s_at(s: Seq<u8>, pos: int, n: int) -> Seq<u32> {
    Seq::new(n as nat, |i: int| u32_at(s, pos + 4 * i))
}

/// The distance from `len` up to the next multiple of four.
pub open spec fn pad4(len: int) -> int {
    (4 - len % 4) % 4
}

/// Padding brings a length to the next multiple of four and is less than four bytes.
pub proof fn lemma_pad4(len: int)
    requires
        len >= 0,
    ensures
        0 <= pad4(len) < 4,
        (len + pad4(len)) % 4 == 0,
{
}

/// The sum of two multiples of four is a multiple of four.
pub proof fn lemma_sum_aligned(a: int, b: int)
    requires
        a % 4 == 0,
        b % 4 == 0,
    ensures
        (a + b) % 4 == 0,
{
}

/// A signed 16-bit value is the value of its pattern.
pub proof fn lemma_i16_bits(v: i16)
    ensures
        i16_of(i16_bits(v)) == v,
{
}

/// A signed 32-bit value is the value of its pattern.
pub proof fn lemma_i32_bits(v: i32)
    ensures
        i32_of(i32_bits(v)) == v,
{
}

/// A 32-bit pattern is the pattern of its signed value.
pub proof fn lemma_i32_of_bits(u: u32)
    ensures
        i32_bits(i32_of(u)) == u,
{
}

/// A buffer that holds `a + b` at `pos` holds `a` at `pos` and `b` right after it, and the
/// other way round.
pub proof fn lemma_has_at_concat(s: Seq<u8>, pos: int, a: Seq<u8>, b: Seq<u8>)
    ensures
        has_at(s, pos, a + b) <==> (has_at(s, pos, a) && has_at(s, pos + a.len(), b)),
{
    if has_at(s, pos, a + b) {
        assert(s.subrange(pos, pos + a.len()) =~= (a + b).subrange(0, a.len() as int));
        assert((a + b).subrange(0, a.len() as int) =~= a);
        assert(s.subrange(pos + a.len(), pos + a.len() + b.len()) =~= (a + b).subrange(
            a.len() as int,
            (a + b).len() as int,
        ));
        assert((a + b).subrange(a.len() as int, (a + b).len() as int) =~= b);
    }
    if has_at(s, pos, a) && has_at(s, pos + a.len(), b) {
        assert(s.subrange(pos, pos + (a + b).len()) =~= s.subrange(pos, pos + a.len())
            + s.subrange(pos + a.len(), pos + a.len() + b.len()));
    }
}

/// Every buffer holds itself at its start.
pub proof fn lemma_has_at_whole(s: Seq<u8>)
    ensures
        has_at(s, 0, s),
{
    assert(s.subrange(0, s.len() as int) =~= s);
}

/// A `u16` is read back from the bytes it was written as.
pub proof fn lemma_u16_round_trip(s: Seq<u8>, pos: int, v: u16)
    requires
        has_at(s, pos, u16_wire(v)),
    ensures
        u16_at(s, pos) == v,
{
    let w = s.subrange(pos, pos + 2);
    assert(w[0] == s[pos] && w[1] == s[pos + 1]);
    assert(w == u16_wire(v));
}

/// A `u32` is read back from the bytes it was written as.
pub proof fn lemma_u32_round_trip(s: Seq<u8>, pos: int, v: u32)
    requires
        has_at(s, pos, u32_wire(v)),
    ensures
        u32_at(s, pos) == v,
{
    let w = s.subrange(pos, pos + 4);
    assert(w[0] == s[pos] && w[1] == s[pos + 1] && w[2] == s[pos + 2] && w[3] == s[pos + 3]);
    assert(w == u32_wire(v));
}

/// The bytes of a `u16` field are the bytes its value is written as.
pub proof fn lemma_u16_wire_of_read(s: Seq<u8>, pos: int)
    requires
        in_bounds(s, pos, 2),
    ensures
        u16_wire(u16_at(s, pos)) == s.subrange(pos, pos + 2),
{
    assert(u16_wire(u16_at(s, pos)) =~= s.subrange(pos, pos + 2));
}

/// The bytes of a `u32` field are the bytes its value is written as.
pub proof fn lemma_u32_wire_of_read(s: Seq<u8>, pos: int)
    requires
        in_bounds(s, pos, 4),
    ensures
        u32_wire(u32_at(s, pos)) == s.subrange(pos, pos + 4),
{
    assert(u32_wire(u32_at(s, pos)) =~= s.subrange(pos, pos + 4));
}

/// A run of `u32` values is written as four bytes for each.
pub proof fn lemma_u32s_wire_len(v: Seq<u32>)
    ensures
        u32s_wire(v).len() == 4 * v.len(),
    decreases v.len(),
{
    if v.len() > 0 {
        lemma_u32s_wire_len(v.drop_last());
    }
}

/// A run of `u32` values is read back from the bytes it was written as.
pub proof fn lemma_u32s_round_trip(s: Seq<u8>, pos: int, v: Seq<u32>)
    requires
        has_at(s, pos, u32s_wire(v)),
    ensures
        u32s_at(s, pos, v.len() as int) == v,
        u32s_wire(v).len() == 4 * v.len(),
    decreases v.len(),
{
    lemma_u32s_wire_len(v);
    if v.len() > 0 {
        let head = v.drop_last();
        lemma_u32s_wire_len(head);
        lemma_has_at_concat(s, pos, u32s_wire(head), u32_wire(v.last()));
        lemma_u32s_round_trip(s, pos, head);
        lemma_u32_round_trip(s, pos + 4 * head.len(), v.last());
        assert forall|i: int| 0 <= i < v.len() implies u32s_at(s, pos, v.len() as int)[i]
            == v[i] by {
            if i < head.len() {
                assert(u32s_at(s, pos, head.len() as int)[i] == head[i]);
            }
        }
    }
    assert(u32s_at(s, pos, v.len() as int) =~= v);
}

/// Reads the byte at `pos`, if there is one.
pub fn read_u8(data: &[u8], pos: usize) -> (r: Option<u8>)
    ensures
        r == (if in_bounds(data@, pos as int, 1) {
            Some(data@[pos as int])
        } else {
            None
        }),
{
    if pos < data.len() {
        Some(data[pos])
    } else {
        None
    }
}

/// Reads the big-endian `u16` at `pos`, if two bytes are there.
pub fn read_u16(data: &[u8], pos: usize) -> (r: Option<u16>)
    ensures
        r == (if in_bounds(data@, pos as int, 2) {
            Some(u16_at(data@, pos as int))
        } else {
            None
        }),
{
    if data.len() < 2 || pos > data.len() - 2 {
        return None;
    }
    let hi: u16 = data[pos] as u16;
    let lo: u16 = data[pos + 1] as u16;
    Some(hi * 256 + lo)
}

/// Reads the big-endian `u32` at `pos`, if four bytes are there.
pub fn read_u32(data: &[u8], pos: usize) -> (r: Option<u32>)
    ensures
        r == (if in_bounds(data@, pos as int, 4) {
            Some(u32_at(data@, pos as int))
        } else {
            None
        }),
{
    if data.len() < 4 || pos > data.len() - 4 {
        return None;
    }
    let b0: u32 = data[pos] as u32;
    let b1: u32 = data[pos + 1] as u32;
    let b2: u32 = data[pos + 2] as u32;
    let b3: u32 = data[pos + 3] as u32;
    Some(((b0 * 256 + b1) * 256 + b2) * 256 + b3)
}

/// Turns a 16-bit pattern into the signed value it stands for.
pub fn i16_from_bits(u: u16) -> (r: i16)
    ensures
        r == i16_of(u),
{
    if u < 0x8000 {
        u as i16
    } else {
        (u as i32 - 0x1_0000) as i16
    }
}

/// Turns a 32-bit pattern into the signed value it stands for.
pub fn i32_from_bits(u: u32) -> (r: i32)
    ensures
        r == i32_of(u),
{
    if u < 0x8000_0000 {
        u as i32
    } else {
        (u as i64 - 0x1_0000_0000) as i32
    }
}

/// Turns a signed 16-bit value into its two's complement pattern.
pub fn i16_to_bits(v: i16) -> (r: u16)
    ensures
        r == i16_bits(v),
{
    if v >= 0 {
        v as u16
    } else {
        (v as i32 + 0x1_0000) as u16
    }
}

/// Turns a signed 32-bit value into its two's complement pattern.
pub fn i32_to_bits(v: i32) -> (r: u32)
    ensures
        r == i32_bits(v),
{
    if v >= 0 {
        v as u32
    } else {
        (v as i64 + 0x1_0000_0000) as u32
    }
}

/// Copies `n` bytes starting at `pos`, if they are there.
pub fn read_bytes(data: &[u8], pos: usize, n: usize) -> (r: Option<Vec<u8>>)
    ensures
        in_bounds(data@, pos as int, n as int) ==> r.is_some() && r.unwrap()@ == data@.subrange(
            pos as int,
            pos + n,
        ),
        !in_bounds(data@, pos as int, n as int) ==> r.is_none(),
{
    if pos > data.len() || n > data.len() - pos {
        return None;
    }
    let mut out: Vec<u8> = Vec::new();
    let mut i: usize = 0;
    while i < n
        invariant
            i <= n,
            pos + n <= data@.len() <= usize::MAX,
            out@ == data@.subrange(pos as int, pos + i),
        decreases n - i,
    {
        out.push(data[pos + i]);
        i += 1;
        assert(out@ =~= data@.subrange(pos as int, pos + i));
    }
    Some(out)
}

/// Reads `n` big-endian `u32` values starting at `pos`, if they are there.
pub fn read_u32s(data: &[u8], pos: usize, n: usize) -> (r: Option<Vec<u32>>)
    ensures
        in_bounds(data@, pos as int, 4 * n) ==> r.is_some() && r.unwrap()@ == u32s_at(
            data@,
            pos as int,
            n as int,
        ),
        !in_bounds(data@, pos as int, 4 * n) ==> r.is_none(),
{
    if pos > data.len() || n > (data.len() - pos) / 4 {
        return None;
    }
    let mut out: Vec<u32> = Vec::new();
    let mut i: usize = 0;
    while i < n
        invariant
            i <= n,
            pos + 4 * n <= data@.len() <= usize::MAX,
            out@ == u32s_at(data@, pos as int, i as int),
        decreases n - i,
    {
        let v = read_u32(data, pos + 4 * i);
        out.push(v.unwrap());
        i += 1;
        assert(out@ =~= u32s_at(data@, pos as int, i as int));
    }
    Some(out)
}

/// Appends one byte.
pub fn push_u8(out: &mut Vec<u8>, v: u8)
    ensures
        final(out)@ == old(out)@ + seq![v],
{
    out.push(v);
    assert(out@ =~= old(out)@ + seq![v]);
}

/// Appends a `u16`, high byte first.
pub fn push_u16(out: &mut Vec<u8>, v: u16)
    ensures
        final(out)@ == old(out)@ + u16_wire(v),
{
    out.push((v / 256) as u8);
    out.push((v % 256) as u8);
    assert(out@ =~= old(out)@ + u16_wire(v));
}

/// Appends a `u32`, highest byte first.
pub fn push_u32(out: &mut Vec<u8>, v: u32)
    ensures
        final(out)@ == old(out)@ + u32_wire(v),
{
    out.push((v / 0x100_0000) as u8);
    out.push(((v / 0x1_0000) % 256) as u8);
    out.push(((v / 256) % 256) as u8);
    out.push((v % 256) as u8);
    assert(out@ =~= old(out)@ + u32_wire(v));
}

/// Appends a run of bytes unchanged.
pub fn push_bytes(out: &mut Vec<u8>, data: &[u8])
    ensures
        final(out)@ == old(out)@ + data@,
{
    let mut i: usize = 0;
    while i < data.len()
        invariant
            i <= data@.len(),
            out@ == old(out)@ + data@.subrange(0, i as int),
        decreases data@.len() - i,
    {
        out.push(data[i]);
        i += 1;
        assert(out@ =~= old(out)@ + data@.subrange(0, i as int));
    }
    assert(data@.subrange(0, data@.len() as int) =~= data@);
}

/// Appends `n` zero bytes.
pub fn push_zeros(out: &mut Vec<u8>, n: usize)
    ensures
        final(out)@ == old(out)@ + zeros(n as int),
{
    let mut i: usize = 0;
    while i < n
        invariant
            i <= n,
            out@ == old(out)@ + zeros(i as int),
        decreases n - i,
    {
        out.push(0u8);
        i += 1;
        assert(out@ =~= old(out)@ + zeros(i as int));
    }
}

/// Appends a run of `u32` values, each highest byte first.
pub fn push_u32s(out: &mut Vec<u8>, v: &[u32])
    ensures
        final(out)@ == old(out)@ + u32s_wire(v@),
{
    let mut i: usize = 0;
    assert(u32s_wire(v@.subrange(0, 0)) =~= Seq::<u8>::empty());
    while i < v.len()
        invariant
            i <= v@.len(),
            out@ == old(out)@ + u32s_wire(v@.subrange(0, i as int)),
        decreases v@.len() - i,
    {
        push_u32(out, v[i]);
        proof {
            let next = v@.subrange(0, i + 1);
            assert(next.drop_last() =~= v@.subrange(0, i as int));
            assert(next.last() == v@[i as int]);
            assert(out@ =~= old(out)@ + u32s_wire(next));
        }
        i += 1;
    }
    assert(v@.subrange(0, v@.len() as int) =~= v@);
}


/// Copies a run of bytes.
pub fn copy_bytes(data: &[u8]) -> (r: Vec<u8>)
    ensures
        r@ == data@,
{
    let mut out: Vec<u8> = Vec::new();
    push_bytes(&mut out, data);
    assert(out@ =~= data@);
    out
}

/// Says whether two runs of bytes are the same.
pub fn bytes_eq(a: &[u8], b: &[u8]) -> (r: bool)
    ensures
        r == (a@ == b@),
{
    if a.len() != b.len() {
        return false;
    }
    let mut i: usize = 0;
    while i < a.len()
        invariant
            i <= a@.len(),
            a@.len() == b@.len(),
            forall|j: int| 0 <= j < i ==> a@[j] == b@[j],
        decreases a@.len() - i,
    {
        if a[i] != b[i] {
            return false;
        }
        i += 1;
    }
    assert(a@ =~= b@);
    true
}

} // verus!
