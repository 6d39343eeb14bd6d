//! The 7-bit-group variable-length integer encoding.
//!
//! A value is cut into groups of seven bits, least significant group first.
//! Every group but the last carries the continuation bit `0x80`. A 32-bit
//! value takes one to five groups, a 64-bit value one to ten. Signed values
//! are encoded through their two's-complement bit pattern, so a negative
//! value always takes the full number of groups.

use vstd::prelude::*;
use crate::error::ProtocolError;
use crate::text::{signed_decimal, signed_decimal_text};
use vstd::std_specs::convert::FromSpecImpl;
use crate::wire::{
    pattern32, pattern64, signed32, signed64, unsigned32, unsigned64, value32, value64,
};

verus! {

/// Most groups a 32-bit value may take.
pub const VARINT_MAX_GROUPS: usize = 5;

/// Most groups a 64-bit value may take.
pub const VARLONG_MAX_GROUPS: usize = 10;

/// The groups of `u`, least significant first, with the continuation bit on
/// all but the last. This is the canonical encoding: it stops at the first
/// point where nothing but zero bits remains.
pub open spec fn encode_groups(u: nat) -> Seq<u8>
    decreases u,
{
    if u < 128 {
        seq![u as u8]
    } else {
        seq![((u % 128) + 128) as u8] + encode_groups(u / 128)
    }
}

/// `128^n`: one more than the largest number that fits in `n` groups.
pub open spec fn group_capacity(n: nat) -> nat
    decreases n,
{
    if n == 0 {
        1
    } else {
        128 * group_capacity((n - 1) as nat)
    }
}

/// The number of groups the canonical encoding of `u` takes.
pub open spec fn groups_needed(u: nat) -> nat
    decreases u,
{
    if u < 128 {
        1
    } else {
        1 + groups_needed(u / 128)
    }
}

/// What reading groups from the front of a byte sequence gives.
pub enum Groups {
    /// A terminating group was found: the number read and how many bytes
    /// it took.
    Value { raw: nat, consumed: nat },
    /// The bytes ran out before a terminating group.
    Incomplete,
    /// `limit` groups went by without a terminating group.
    Malformed,
}

/// Reads at most `limit` groups from the front of `bytes`, one at a time,
/// and stops at the first group without the continuation bit.
pub open spec fn decode_groups(bytes: Seq<u8>, limit: nat) -> Groups
    decreases limit,
{
    if limit == 0 {
        Groups::Malformed
    } else if bytes.len() == 0 {
        Groups::Incomplete
    } else if bytes[0] < 128 {
        Groups::Value { raw: bytes[0] as nat, consumed: 1 }
    } else {
        match decode_groups(bytes.skip(1), (limit - 1) as nat) {
            Groups::Value { raw, consumed } => Groups::Value {
                raw: ((bytes[0] - 128) + 128 * raw) as nat,
                consumed: consumed + 1,
            },
            Groups::Incomplete => Groups::Incomplete,
            Groups::Malformed => Groups::Malformed,
        }
    }
}

/// The canonical encoding of a 32-bit value.
pub open spec fn varint_bytes(v: i32) -> Seq<u8> {
    encode_groups(unsigned32(v))
}

/// The canonical encoding of a 64-bit value.
pub open spec fn varlong_bytes(v: i64) -> Seq<u8> {
    encode_groups(unsigned64(v))
}

/// A 32-bit value together with the number of bytes its encoding takes.
#[derive(Clone, Copy, Debug, PartialEq, Eq, Structural, PartialOrd, Ord, Hash)]
pub struct VarInt {
    pub value: i32,
    pub len: usize,
}

/// The value with the length of its canonical encoding.
pub open spec fn canonical_varint(value: i32) -> VarInt {
    VarInt { value, len: varint_bytes(value).len() as usize }
}

/// Decoding a 32-bit value from the front of `bytes`: the value and the
/// number of bytes it took, or why there is none.
pub open spec fn varint_decode(bytes: Seq<u8>) -> Result<VarInt, ProtocolError> {
    match decode_groups(bytes, 5) {
        Groups::Value { raw, consumed } => Ok(
            VarInt { value: signed32(raw), len: consumed as usize },
        ),
        Groups::Incomplete => Err(ProtocolError::Incomplete),
        Groups::Malformed => Err(ProtocolError::MalformedVarInt),
    }
}

/// Decoding a 64-bit value from the front of `bytes`: the value and the
/// number of bytes it took, or why there is none.
pub open spec fn varlong_decode(bytes: Seq<u8>) -> Result<(i64, usize), ProtocolError> {
    match decode_groups(bytes, 10) {
        Groups::Value { raw, consumed } => Ok((signed64(raw), consumed as usize)),
        Groups::Incomplete => Err(ProtocolError::Incomplete),
        Groups::Malformed => Err(ProtocolError::MalformedVarInt),
    }
}

impl VarInt {
    /// A value with the length of its canonical encoding.
    pub fn new(value: i32) -> (r: VarInt)
        ensures
            r == canonical_varint(value),
            r.len == groups_needed(unsigned32(value)),
            r.well_formed(),
            r.canonical(),
    {
        proof {
            lemma_encode_len(unsigned32(value));
            lemma_length_classes(unsigned32(value));
        }
        let len: usize = if value < 0 {
            5
        } else if value < 0x80 {
            1
        } else if value < 0x4000 {
            2
        } else if value < 0x20_0000 {
            3
        } else if value < 0x1000_0000 {
            4
        } else {
            5
        };
        VarInt { value, len }
    }

    /// A length is between one and five bytes.
    pub open spec fn well_formed(self) -> bool {
        1 <= self.len <= 5
    }

    /// Whether the length is that of the canonical encoding of the value.
    pub open spec fn canonical(self) -> bool {
        self.len == varint_bytes(self.value).len()
    }

    /// The value.
    pub fn to_i32(&self) -> (r: i32)
        ensures
            r == self.value,
    {
        self.value
    }

    /// The number of bytes the encoding takes.
    pub fn length(&self) -> (r: usize)
        ensures
            r == self.len,
    {
        self.len
    }

    /// The value in decimal.
    pub fn to_string(&self) -> (r: String)
        ensures
            r@ == signed_decimal_text(self.value as int),
    {
        signed_decimal(self.value)
    }

    /// The four bytes of the value's bit pattern, least significant first,
    /// followed by the most significant byte once more.
    pub fn to_be_bytes(&self) -> (r: [u8; 5])
        ensures
            r@ == pattern_bytes(self.value),
    {
        let u: u32 = pattern32(self.value);
        let b0: u8 = (u % 256) as u8;
        let b1: u8 = ((u / 0x100) % 256) as u8;
        let b2: u8 = ((u / 0x1_0000) % 256) as u8;
        let b3: u8 = (u / 0x100_0000) as u8;
        let r: [u8; 5] = [b0, b1, b2, b3, b3];
        assert(r@ =~= pattern_bytes(self.value));
        r
    }
}

impl From<i32> for VarInt {
    fn from(value: i32) -> (r: VarInt) {
        VarInt::new(value)
    }
}

impl FromSpecImpl<i32> for VarInt {
    open spec fn obeys_from_spec() -> bool {
        true
    }

    open spec fn from_spec(value: i32) -> VarInt {
        canonical_varint(value)
    }
}

impl From<VarInt> for i32 {
    fn from(varint: VarInt) -> (r: i32) {
        varint.value
    }
}

impl FromSpecImpl<VarInt> for i32 {
    open spec fn obeys_from_spec() -> bool {
        true
    }

    open spec fn from_spec(varint: VarInt) -> i32 {
        varint.value
    }
}

impl Default for VarInt {
    /// Zero, which takes one byte.
    fn default() -> (r: VarInt)
        ensures
            r == canonical_varint(0),
    {
        VarInt::new(0)
    }
}

/// What [`VarInt::to_be_bytes`] returns for `v`.
pub open spec fn pattern_bytes(v: i32) -> Seq<u8> {
    let u = unsigned32(v);
    seq![
        (u % 256) as u8,
        ((u / 0x100) % 256) as u8,
        ((u / 0x1_0000) % 256) as u8,
        (u / 0x100_0000) as u8,
        (u / 0x100_0000) as u8,
    ]
}

/// The canonical encoding has as many bytes as the value needs groups.
pub proof fn lemma_encode_len(u: nat)
    ensures
        encode_groups(u).len() == groups_needed(u),
    decreases u,
{
    if u >= 128 {
        lemma_encode_len(u / 128);
    }
}

/// The length classes: each further seven bits of magnitude cost one byte.
pub proof fn lemma_length_classes(u: nat)
    ensures
        u < 0x80 ==> groups_needed(u) == 1,
        0x80 <= u < 0x4000 ==> groups_needed(u) == 2,
        0x4000 <= u < 0x20_0000 ==> groups_needed(u) == 3,
        0x20_0000 <= u < 0x1000_0000 ==> groups_needed(u) == 4,
        0x1000_0000 <= u < 0x8_0000_0000 ==> groups_needed(u) == 5,
{
    reveal_with_fuel(groups_needed, 6);
}

/// Writes the canonical groups of `u`.
fn write_groups(u: u64) -> (out: Vec<u8>)
    ensures
        out@ == encode_groups(u as nat),
        out.len() == groups_needed(u as nat),
{
    let mut out: Vec<u8> = Vec::new();
    let mut rest: u64 = u;
    while rest >= 128
        invariant
            out@ + encode_groups(rest as nat) == encode_groups(u as nat),
        decreases rest,
    {
        let group: u8 = ((rest % 128) + 128) as u8;
        proof {
            let tail = encode_groups((rest / 128) as nat);
            assert(encode_groups(rest as nat) == seq![group] + tail);
            assert(out@.push(group) + tail =~= out@ + (seq![group] + tail));
        }
        out.push(group);
        rest = rest / 128;
    }
    proof {
        assert(out@.push(rest as u8) =~= out@ + encode_groups(rest as nat));
        lemma_encode_len(u as nat);
    }
    out.push(rest as u8);
    out
}

/// The canonical encoding of a 32-bit value. Never fails.
pub fn encode(value: i32) -> (out: Vec<u8>)
    ensures
        out@ == varint_bytes(value),
        1 <= out.len() <= 5,
        out.len() == groups_needed(unsigned32(value)),
{
    proof {
        lemma_length_classes(unsigned32(value));
    }
    let u: u32 = pattern32(value);
    write_groups(u as u64)
}

/// The canonical encoding of a 64-bit value. Never fails.
pub fn encode_long(value: i64) -> (out: Vec<u8>)
    ensures
        out@ == varlong_bytes(value),
        1 <= out.len() <= 10,
{
    proof {
        lemma_capacity_values();
        lemma_groups_fit(unsigned64(value), 10);
    }
    write_groups(pattern64(value))
}

/// The capacities of one to ten groups.
pub proof fn lemma_capacity_values()
    ensures
        group_capacity(0) == 1,
        group_capacity(1) == 0x80,
        group_capacity(2) == 0x4000,
        group_capacity(3) == 0x20_0000,
        group_capacity(4) == 0x1000_0000,
        group_capacity(5) == 0x8_0000_0000,
        group_capacity(10) == 0x40_0000_0000_0000_0000,
{
    reveal_with_fuel(group_capacity, 11);
}

/// More groups hold more.
pub proof fn lemma_capacity_monotone(a: nat, b: nat)
    requires
        a <= b,
    ensures
        1 <= group_capacity(a) <= group_capacity(b),
    decreases b,
{
    if a < b {
        lemma_capacity_monotone(a, (b - 1) as nat);
    } else if b > 0 {
        lemma_capacity_monotone((b - 1) as nat, (b - 1) as nat);
    }
}

/// A number below the capacity of `n` groups needs at most `n` groups.
pub proof fn lemma_groups_fit(u: nat, n: nat)
    requires
        1 <= n,
        u < group_capacity(n),
    ensures
        1 <= groups_needed(u) <= n,
    decreases n,
{
    reveal_with_fuel(group_capacity, 2);
    if u >= 128 {
        lemma_groups_fit(u / 128, (n - 1) as nat);
    }
}

/// A larger number never needs fewer groups.
pub proof fn lemma_groups_needed_monotone(a: nat, b: nat)
    requires
        a <= b,
    ensures
        groups_needed(a) <= groups_needed(b),
    decreases b,
{
    if a >= 128 {
        lemma_groups_needed_monotone(a / 128, b / 128);
    }
}

/// Decoding stops at the first group without the continuation bit. What
/// was read fits in the bytes that were given and stays below the capacity
/// of the groups consumed. More bytes are asked for only when every byte
/// given is a continuation group and fewer than `limit` were given, and the
/// encoding is malformed only when `limit` continuation groups stand at
/// the front.
pub proof fn lemma_decode_bounds(bytes: Seq<u8>, limit: nat)
    ensures
        match decode_groups(bytes, limit) {
            Groups::Value { raw, consumed } => {
                &&& 1 <= consumed <= limit
                &&& consumed <= bytes.len()
                &&& raw < group_capacity(consumed)
                &&& bytes[consumed - 1] < 128
                &&& forall|j: int| 0 <= j < consumed - 1 ==> bytes[j] >= 128
            },
            Groups::Incomplete => bytes.len() < limit && forall|j: int|
                0 <= j < bytes.len() ==> bytes[j] >= 128,
            Groups::Malformed => limit <= bytes.len() && forall|j: int|
                0 <= j < limit ==> bytes[j] >= 128,
        },
    decreases limit,
{
    reveal_with_fuel(group_capacity, 2);
    if limit > 0 && bytes.len() > 0 && bytes[0] >= 128 {
        let rest = bytes.skip(1);
        lemma_decode_bounds(rest, (limit - 1) as nat);
        match decode_groups(rest, (limit - 1) as nat) {
            Groups::Value { raw, consumed } => {
                assert(bytes[consumed + 1 - 1] == rest[consumed - 1]);
                assert forall|j: int| 0 <= j < consumed + 1 - 1 implies bytes[j] >= 128 by {
                    if j > 0 {
                        assert(bytes[j] == rest[j - 1]);
                    }
                }
            },
            Groups::Incomplete => {
                assert forall|j: int| 0 <= j < bytes.len() implies bytes[j] >= 128 by {
                    if j > 0 {
                        assert(bytes[j] == rest[j - 1]);
                    }
                }
            },
            Groups::Malformed => {
                assert forall|j: int| 0 <= j < limit implies bytes[j] >= 128 by {
                    if j > 0 {
                        assert(bytes[j] == rest[j - 1]);
                    }
                }
            },
        }
    }
}

/// Decoding reads back what encoding wrote, whatever follows it: the
/// number itself, and as many bytes as the encoding has.
pub proof fn lemma_decode_encode(u: nat, limit: nat, rest: Seq<u8>)
    requires
        1 <= limit,
        u < group_capacity(limit),
    ensures
        decode_groups(encode_groups(u) + rest, limit) == (Groups::Value {
            raw: u,
            consumed: encode_groups(u).len(),
        }),
    decreases u,
{
    let bytes = encode_groups(u) + rest;
    reveal_with_fuel(group_capacity, 2);
    if u < 128 {
        assert(bytes[0] == u as u8);
    } else {
        assert(bytes[0] == ((u % 128) + 128) as u8);
        assert(bytes.skip(1) =~= encode_groups(u / 128) + rest);
        lemma_decode_encode(u / 128, (limit - 1) as nat, rest);
    }
}

/// Nothing is decoded from a proper prefix of an encoding: more bytes are
/// asked for.
pub proof fn lemma_decode_prefix_incomplete(u: nat, limit: nat, k: int)
    requires
        1 <= limit,
        u < group_capacity(limit),
        0 <= k < encode_groups(u).len(),
    ensures
        decode_groups(encode_groups(u).take(k), limit) == Groups::Incomplete,
    decreases u,
{
    let bytes = encode_groups(u).take(k);
    reveal_with_fuel(group_capacity, 2);
    if u < 128 {
    } else if k == 0 {
    } else {
        assert(bytes[0] == ((u % 128) + 128) as u8);
        assert(bytes.skip(1) =~= encode_groups(u / 128).take(k - 1));
        lemma_decode_prefix_incomplete(u / 128, (limit - 1) as nat, k - 1);
    }
}

/// Puts `acc`, read from `i` groups already passed, in front of what the
/// remaining bytes decode to.
pub open spec fn prepend_groups(g: Groups, acc: nat, i: nat) -> Groups {
    match g {
        Groups::Value { raw, consumed } => Groups::Value {
            raw: acc + group_capacity(i) * raw,
            consumed: consumed + i,
        },
        Groups::Incomplete => Groups::Incomplete,
        Groups::Malformed => Groups::Malformed,
    }
}

/// One continuation group further: the group joins the number read so far.
proof fn lemma_decode_step(bytes: Seq<u8>, limit: nat, i: nat, acc: nat)
    requires
        i < limit,
        i < bytes.len(),
        bytes[i as int] >= 128,
    ensures
        prepend_groups(decode_groups(bytes.skip(i as int), (limit - i) as nat), acc, i)
            == prepend_groups(
            decode_groups(bytes.skip(i as int + 1), (limit - i - 1) as nat),
            acc + group_capacity(i) * (bytes[i as int] - 128) as nat,
            i + 1,
        ),
{
    let here = bytes.skip(i as int);
    assert(here[0] == bytes[i as int]);
    assert(here.skip(1) =~= bytes.skip(i as int + 1));
    let low = (bytes[i as int] - 128) as nat;
    let c = group_capacity(i);
    assert(group_capacity(i + 1) == 128 * c);
    match decode_groups(bytes.skip(i as int + 1), (limit - i - 1) as nat) {
        Groups::Value { raw, consumed } => {
            assert(acc + c * (low + 128 * raw) == (acc + c * low) + (128 * c) * raw)
                by (nonlinear_arith);
        },
        _ => {},
    }
}

/// Reads at most `limit` groups from the front of `source`.
fn read_groups(source: &[u8], limit: usize) -> (r: Result<(u128, usize), ProtocolError>)
    requires
        1 <= limit <= 10,
    ensures
        match decode_groups(source@, limit as nat) {
            Groups::Value { raw, consumed } => r == Ok::<(u128, usize), ProtocolError>(
                (raw as u128, consumed as usize),
            ) && raw < group_capacity(limit as nat) && 1 <= consumed <= limit && consumed
                <= source@.len(),
            Groups::Incomplete => r == Err::<(u128, usize), ProtocolError>(
                ProtocolError::Incomplete,
            ),
            Groups::Malformed => r == Err::<(u128, usize), ProtocolError>(
                ProtocolError::MalformedVarInt,
            ),
        },
{
    let mut acc: u128 = 0;
    let mut scale: u128 = 1;
    let mut i: usize = 0;
    proof {
        lemma_capacity_values();
        assert(source@.skip(0) =~= source@);
    }
    while i < limit
        invariant
            1 <= limit <= 10,
            i <= limit,
            i <= source@.len(),
            scale == group_capacity(i as nat),
            acc < scale,
            group_capacity(10) == 0x40_0000_0000_0000_0000,
            decode_groups(source@, limit as nat) == prepend_groups(
                decode_groups(source@.skip(i as int), (limit - i) as nat),
                acc as nat,
                i as nat,
            ),
        decreases limit - i,
    {
        proof {
            lemma_capacity_monotone(i as nat, 10);
            lemma_capacity_monotone((i + 1) as nat, 10);
            lemma_capacity_monotone((i + 1) as nat, limit as nat);
        }
        if i >= source.len() {
            return Err(ProtocolError::Incomplete);
        }
        let b: u8 = source[i];
        assert(source@.skip(i as int)[0] == b);
        if b < 128 {
            assert(acc + scale * b < 128 * scale) by (nonlinear_arith)
                requires
                    acc < scale,
                    b < 128,
            ;
            assert(scale * b == b * scale) by (nonlinear_arith);
            return Ok((acc + (b as u128) * scale, i + 1));
        }
        proof {
            lemma_decode_step(source@, limit as nat, i as nat, acc as nat);
            assert(acc + scale * (b - 128) < 128 * scale) by (nonlinear_arith)
                requires
                    acc < scale,
                    128 <= b < 256,
            ;
            assert(scale * (b - 128) == (b - 128) * scale) by (nonlinear_arith);
        }
        acc = acc + ((b - 128) as u128) * scale;
        scale = scale * 128;
        i = i + 1;
    }
    Err(ProtocolError::MalformedVarInt)
}

/// Decodes a 32-bit value from the front of `source`. Reads one group at a
/// time and stops at the first group without the continuation bit. When the
/// bytes run out first the result is `Incomplete`; when five groups go by
/// without an end it is `MalformedVarInt`.
pub fn decode(source: &[u8]) -> (r: Result<VarInt, ProtocolError>)
    ensures
        r == varint_decode(source@),
        r matches Ok(v) ==> v.well_formed() && v.len <= source@.len(),
{
    proof {
        lemma_capacity_values();
    }
    match read_groups(source, VARINT_MAX_GROUPS) {
        Ok((raw, consumed)) => {
            let low: u32 = (raw % 0x1_0000_0000) as u32;
            Ok(VarInt { value: value32(low), len: consumed })
        },
        Err(e) => Err(e),
    }
}

/// Decodes a 64-bit value from the front of `source`, with a limit of ten
/// groups, and says how many bytes it took.
pub fn decode_long(source: &[u8]) -> (r: Result<(i64, usize), ProtocolError>)
    ensures
        r == varlong_decode(source@),
        r matches Ok(v) ==> 1 <= v.1 <= 10 && v.1 <= source@.len(),
{
    proof {
        lemma_capacity_values();
    }
    match read_groups(source, VARLONG_MAX_GROUPS) {
        Ok((raw, consumed)) => {
            let low: u64 = (raw % 0x1_0000_0000_0000_0000) as u64;
            Ok((value64(low), consumed))
        },
        Err(e) => Err(e),
    }
}

/// Decoding an encoded value gives the value back, and the length of its
/// encoding as the number of bytes consumed. Bytes that follow the encoding
/// do not matter.
pub proof fn lemma_varint_round_trip(v: i32, rest: Seq<u8>)
    ensures
        varint_decode(varint_bytes(v) + rest) == Ok::<VarInt, ProtocolError>(
            VarInt { value: v, len: varint_bytes(v).len() as usize },
        ),
        varint_decode(varint_bytes(v)) == Ok::<VarInt, ProtocolError>(
            VarInt { value: v, len: varint_bytes(v).len() as usize },
        ),
        1 <= varint_bytes(v).len() <= 5,
{
    lemma_capacity_values();
    lemma_decode_encode(unsigned32(v), 5, rest);
    lemma_decode_encode(unsigned32(v), 5, Seq::empty());
    assert(varint_bytes(v) + Seq::<u8>::empty() =~= varint_bytes(v));
    lemma_encode_len(unsigned32(v));
    lemma_groups_fit(unsigned32(v), 5);
}

/// The same for 64-bit values.
pub proof fn lemma_varlong_round_trip(v: i64, rest: Seq<u8>)
    ensures
        varlong_decode(varlong_bytes(v) + rest) == Ok::<(i64, usize), ProtocolError>(
            (v, varlong_bytes(v).len() as usize),
        ),
        varlong_decode(varlong_bytes(v)) == Ok::<(i64, usize), ProtocolError>(
            (v, varlong_bytes(v).len() as usize),
        ),
        1 <= varlong_bytes(v).len() <= 10,
{
    lemma_capacity_values();
    lemma_decode_encode(unsigned64(v), 10, rest);
    lemma_decode_encode(unsigned64(v), 10, Seq::empty());
    assert(varlong_bytes(v) + Seq::<u8>::empty() =~= varlong_bytes(v));
    lemma_encode_len(unsigned64(v));
    lemma_groups_fit(unsigned64(v), 10);
}

/// The length of an encoding by the size of the value: each further seven
/// bits cost one byte, and a negative value takes all five.
pub proof fn lemma_varint_length(v: i32)
    ensures
        0 <= v < 0x80 ==> varint_bytes(v).len() == 1,
        0x80 <= v < 0x4000 ==> varint_bytes(v).len() == 2,
        0x4000 <= v < 0x20_0000 ==> varint_bytes(v).len() == 3,
        0x20_0000 <= v < 0x1000_0000 ==> varint_bytes(v).len() == 4,
        0x1000_0000 <= v ==> varint_bytes(v).len() == 5,
        v < 0 ==> varint_bytes(v).len() == 5,
{
    lemma_encode_len(unsigned32(v));
    lemma_length_classes(unsigned32(v));
}

/// The encoding is minimal: no byte sequence that decodes to `v` does so
/// in fewer bytes than the encoding of `v` has.
pub proof fn lemma_varint_minimal(bytes: Seq<u8>, v: VarInt)
    requires
        varint_decode(bytes) == Ok::<VarInt, ProtocolError>(v),
    ensures
        varint_bytes(v.value).len() <= v.len,
{
    lemma_decode_bounds(bytes, 5);
    match decode_groups(bytes, 5) {
        Groups::Value { raw, consumed } => {
            let u = unsigned32(v.value);
            assert(raw % 0x1_0000_0000 == u);
            assert(u <= raw);
            lemma_groups_needed_monotone(u, raw);
            lemma_groups_fit(raw, consumed);
            lemma_encode_len(u);
        },
        _ => {},
    }
}

} // verus!
