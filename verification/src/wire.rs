//! Fixed-width integers on the wire: two's-complement bit patterns and
//! big-endian byte order.

use vstd::prelude::*;

verus! {

/// The two's-complement bit pattern of an 8-bit value, as a number.
pub open spec fn unsigned8(v: i8) -> nat {
    if v < 0 {
        (v + 0x100) as nat
    } else {
        v as nat
    }
}

/// The signed value whose bit pattern is the low 8 bits of `u`.
pub open spec fn signed8(u: nat) -> i8 {
    let w = u % 0x100;
    if w >= 0x80 {
        (w - 0x100) as i8
    } else {
        w as i8
    }
}

/// The two's-complement bit pattern of a 16-bit value, as a number.
pub open spec fn unsigned16(v: i16) -> nat {
    if v < 0 {
        (v + 0x1_0000) as nat
    } else {
        v as nat
    }
}

/// The signed value whose bit pattern is the low 16 bits of `u`.
pub open spec fn signed16(u: nat) -> i16 {
    let w = u % 0x1_0000;
    if w >= 0x8000 {
        (w - 0x1_0000) as i16
    } else {
        w as i16
    }
}

/// The two's-complement bit pattern of a 32-bit value, as a number.
pub open spec fn unsigned32(v: i32) -> nat {
    if v < 0 {
        (v + 0x1_0000_0000) as nat
    } else {
        v as nat
    }
}

/// The signed value whose bit pattern is the low 32 bits of `u`.
pub open spec fn signed32(u: nat) -> i32 {
    let w = u % 0x1_0000_0000;
    if w >= 0x8000_0000 {
        (w - 0x1_0000_0000) as i32
    } else {
        w as i32
    }
}

/// The two's-complement bit pattern of a 64-bit value, as a number.
pub open spec fn unsigned64(v: i64) -> nat {
    if v < 0 {
        (v + 0x1_0000_0000_0000_0000) as nat
    } else {
        v as nat
    }
}

/// The signed value whose bit pattern is the low 64 bits of `u`.
pub open spec fn signed64(u: nat) -> i64 {
    let w = u % 0x1_0000_0000_0000_0000;
    if w >= 0x8000_0000_0000_0000 {
        (w - 0x1_0000_0000_0000_0000) as i64
    } else {
        w as i64
    }
}

/// The number that `s` spells in base 256, most significant byte first.
pub open spec fn be_value(s: Seq<u8>) -> nat
    decreases s.len(),
{
    if s.len() == 0 {
        0
    } else {
        be_value(s.drop_last()) * 256 + s.last() as nat
    }
}

/// The `n` low bytes of `u`, most significant first.
pub open spec fn be_bytes(u: nat, n: nat) -> Seq<u8>
    decreases n,
{
    if n == 0 {
        Seq::empty()
    } else {
        be_bytes(u / 256, (n - 1) as nat).push((u % 256) as u8)
    }
}

/// A truth value on the wire: one byte, one for true and zero for false.
pub open spec fn bool_bytes(v: bool) -> Seq<u8> {
    seq![if v { 1u8 } else { 0u8 }]
}

/// A signed byte on the wire.
pub open spec fn byte_bytes(v: i8) -> Seq<u8> {
    seq![unsigned8(v) as u8]
}

/// A signed 16-bit value on the wire.
pub open spec fn short_bytes(v: i16) -> Seq<u8> {
    be_bytes(unsigned16(v), 2)
}

/// A signed 32-bit value on the wire.
pub open spec fn int_bytes(v: i32) -> Seq<u8> {
    be_bytes(unsigned32(v), 4)
}

/// A signed 64-bit value on the wire.
pub open spec fn long_bytes(v: i64) -> Seq<u8> {
    be_bytes(unsigned64(v), 8)
}

/// `256^n`: one more than the largest number that fits in `n` bytes.
pub open spec fn byte_capacity(n: nat) -> nat
    decreases n,
{
    if n == 0 {
        1
    } else {
        256 * byte_capacity((n - 1) as nat)
    }
}

/// The capacities of the widths on the wire.
pub proof fn lemma_byte_capacity_values()
    ensures
        byte_capacity(1) == 0x100,
        byte_capacity(2) == 0x1_0000,
        byte_capacity(4) == 0x1_0000_0000,
        byte_capacity(8) == 0x1_0000_0000_0000_0000,
{
    reveal_with_fuel(byte_capacity, 9);
}

/// `n` bytes are written, whatever the number.
pub proof fn lemma_be_bytes_len(u: nat, n: nat)
    ensures
        be_bytes(u, n).len() == n,
    decreases n,
{
    if n > 0 {
        lemma_be_bytes_len(u / 256, (n - 1) as nat);
    }
}

/// Reading back the bytes of a number that fits gives the number.
pub proof fn lemma_be_round_trip(u: nat, n: nat)
    requires
        u < byte_capacity(n),
    ensures
        be_value(be_bytes(u, n)) == u,
    decreases n,
{
    if n > 0 {
        let head = be_bytes(u / 256, (n - 1) as nat);
        assert(be_bytes(u, n).drop_last() =~= head);
        lemma_be_round_trip(u / 256, (n - 1) as nat);
    }
}

/// What `n` bytes spell stays below the capacity of `n` bytes.
pub proof fn lemma_be_value_bound(s: Seq<u8>)
    ensures
        be_value(s) < byte_capacity(s.len()),
    decreases s.len(),
{
    if s.len() > 0 {
        lemma_be_value_bound(s.drop_last());
    }
}

/// Writing the number that bytes spell gives the bytes.
pub proof fn lemma_be_bytes_of_value(s: Seq<u8>)
    ensures
        be_bytes(be_value(s), s.len()) == s,
    decreases s.len(),
{
    if s.len() > 0 {
        lemma_be_bytes_of_value(s.drop_last());
        assert(be_bytes(be_value(s), s.len()) =~= s);
    }
}

/// What is written as a fixed-width integer is read back as the same
/// value, for each of the widths on the wire.
pub proof fn lemma_fixed_width_round_trip(b: i8, s: i16, i: i32, l: i64)
    ensures
        signed8(unsigned8(b)) == b,
        short_bytes(s).len() == 2 && signed16(be_value(short_bytes(s))) == s,
        int_bytes(i).len() == 4 && signed32(be_value(int_bytes(i))) == i,
        long_bytes(l).len() == 8 && signed64(be_value(long_bytes(l))) == l,
{
    lemma_byte_capacity_values();
    lemma_be_bytes_len(unsigned16(s), 2);
    lemma_be_bytes_len(unsigned32(i), 4);
    lemma_be_bytes_len(unsigned64(l), 8);
    lemma_be_round_trip(unsigned16(s), 2);
    lemma_be_round_trip(unsigned32(i), 4);
    lemma_be_round_trip(unsigned64(l), 8);
}

/// The bit pattern of a 32-bit value.
pub fn pattern32(v: i32) -> (u: u32)
    ensures
        u == unsigned32(v),
{
    let u: u32 = v as u32;
    assert(v < 0 ==> u == v + 0x1_0000_0000) by (bit_vector)
        requires
            u == v as u32,
    ;
    assert(v >= 0 ==> u == v) by (bit_vector)
        requires
            u == v as u32,
    ;
    u
}

/// The bit pattern of a 64-bit value.
pub fn pattern64(v: i64) -> (u: u64)
    ensures
        u == unsigned64(v),
{
    let u: u64 = v as u64;
    assert(v < 0 ==> u == v + 0x1_0000_0000_0000_0000) by (bit_vector)
        requires
            u == v as u64,
    ;
    assert(v >= 0 ==> u == v) by (bit_vector)
        requires
            u == v as u64,
    ;
    u
}

/// The signed 32-bit value with the bit pattern `u`.
pub fn value32(u: u32) -> (v: i32)
    ensures
        v == signed32(u as nat),
        unsigned32(v) == u,
{
    let v: i32 = u as i32;
    assert(u >= 0x8000_0000 ==> v == u - 0x1_0000_0000) by (bit_vector)
        requires
            v == u as i32,
    ;
    assert(u < 0x8000_0000 ==> v == u) by (bit_vector)
        requires
            v == u as i32,
    ;
    v
}

/// The signed 64-bit value with the bit pattern `u`.
pub fn value64(u: u64) -> (v: i64)
    ensures
        v == signed64(u as nat),
        unsigned64(v) == u,
{
    let v: i64 = u as i64;
    assert(u >= 0x8000_0000_0000_0000 ==> v == u - 0x1_0000_0000_0000_0000) by (bit_vector)
        requires
            v == u as i64,
    ;
    assert(u < 0x8000_0000_0000_0000 ==> v == u) by (bit_vector)
        requires
            v == u as i64,
    ;
    v
}

} // verus!
