//! Field types that know their own place on the wire.
//!
//! A message is a list of fields. Each field type says how it is read from
//! the front of a packet buffer and how it is written to the end of one, so
//! that the codec of a message is its field list and nothing more.

use vstd::prelude::*;
use crate::error::ProtocolError;
use crate::packet_manager::{field_error, string_field, string_field_bytes, PacketManager};
use crate::varint::{varint_bytes, varint_decode, VarInt};
use crate::wire::{
    be_bytes, be_value, bool_bytes, int_bytes, long_bytes, signed16, signed32, signed64,
};
use vstd::utf8::encode_utf8;

verus! {

/// The width of a field that always takes `n` bytes.
pub open spec fn fixed_width(bytes: Seq<u8>, n: nat) -> Result<nat, ProtocolError> {
    if bytes.len() >= n {
        Ok(n)
    } else {
        Err(ProtocolError::BufferUnderflow)
    }
}

/// A type that can be read from the front of a packet buffer.
pub trait Decode: Sized {
    /// The number of bytes that a value of this type takes at the front of
    /// `bytes`, or why there is no value there.
    spec fn width(bytes: Seq<u8>) -> Result<nat, ProtocolError>;

    /// Whether `value` is what the front of `bytes` holds.
    spec fn holds(bytes: Seq<u8>, value: Self) -> bool;

    /// Reads a value. A read that fails takes nothing.
    fn decode(packet: &mut PacketManager) -> (r: Result<Self, ProtocolError>)
        ensures
            match Self::width(old(packet)@) {
                Ok(w) => r matches Ok(v) && Self::holds(old(packet)@, v)
                    && PacketManager::consumed(*old(packet), *final(packet), w),
                Err(e) => r matches Err(f) && f == e && *final(packet) == *old(packet),
            },
    ;
}

/// A type that can be written to the end of a packet buffer.
pub trait Encode {
    /// The bytes of the value on the wire.
    spec fn encoded(&self) -> Seq<u8>;

    /// Whether the value can be written at all. A text can be too long for
    /// its length prefix.
    spec fn encodable(&self) -> bool;

    /// Writes the value.
    fn encode(&self, packet: &mut PacketManager)
        requires
            self.encodable(),
        ensures
            PacketManager::appended(*old(packet), *final(packet), self.encoded()),
    ;
}

impl Decode for bool {
    open spec fn width(bytes: Seq<u8>) -> Result<nat, ProtocolError> {
        fixed_width(bytes, 1)
    }

    open spec fn holds(bytes: Seq<u8>, value: bool) -> bool {
        value == (bytes[0] != 0)
    }

    fn decode(packet: &mut PacketManager) -> (r: Result<bool, ProtocolError>) {
        packet.read_boolean()
    }
}

impl Decode for u8 {
    open spec fn width(bytes: Seq<u8>) -> Result<nat, ProtocolError> {
        fixed_width(bytes, 1)
    }

    open spec fn holds(bytes: Seq<u8>, value: u8) -> bool {
        value == bytes[0]
    }

    fn decode(packet: &mut PacketManager) -> (r: Result<u8, ProtocolError>) {
        packet.read_unsigned_byte()
    }
}

impl Decode for u16 {
    open spec fn width(bytes: Seq<u8>) -> Result<nat, ProtocolError> {
        fixed_width(bytes, 2)
    }

    open spec fn holds(bytes: Seq<u8>, value: u16) -> bool {
        value == be_value(bytes.take(2))
    }

    fn decode(packet: &mut PacketManager) -> (r: Result<u16, ProtocolError>) {
        packet.read_unsigned_short()
    }
}

impl Decode for u32 {
    open spec fn width(bytes: Seq<u8>) -> Result<nat, ProtocolError> {
        fixed_width(bytes, 4)
    }

    open spec fn holds(bytes: Seq<u8>, value: u32) -> bool {
        value == be_value(bytes.take(4))
    }

    fn decode(packet: &mut PacketManager) -> (r: Result<u32, ProtocolError>) {
        packet.read_float_bits()
    }
}

impl Decode for i16 {
    open spec fn width(bytes: Seq<u8>) -> Result<nat, ProtocolError> {
        fixed_width(bytes, 2)
    }

    open spec fn holds(bytes: Seq<u8>, value: i16) -> bool {
        value == signed16(be_value(bytes.take(2)))
    }

    fn decode(packet: &mut PacketManager) -> (r: Result<i16, ProtocolError>) {
        packet.read_short()
    }
}

impl Decode for i32 {
    open spec fn width(bytes: Seq<u8>) -> Result<nat, ProtocolError> {
        fixed_width(bytes, 4)
    }

    open spec fn holds(bytes: Seq<u8>, value: i32) -> bool {
        value == signed32(be_value(bytes.take(4)))
    }

    fn decode(packet: &mut PacketManager) -> (r: Result<i32, ProtocolError>) {
        packet.read_int()
    }
}

impl Decode for i64 {
    open spec fn width(bytes: Seq<u8>) -> Result<nat, ProtocolError> {
        fixed_width(bytes, 8)
    }

    open spec fn holds(bytes: Seq<u8>, value: i64) -> bool {
        value == signed64(be_value(bytes.take(8)))
    }

    fn decode(packet: &mut PacketManager) -> (r: Result<i64, ProtocolError>) {
        packet.read_long()
    }
}

impl Decode for String {
    open spec fn width(bytes: Seq<u8>) -> Result<nat, ProtocolError> {
        match string_field(bytes) {
            Ok((_, w)) => Ok(w),
            Err(e) => Err(e),
        }
    }

    open spec fn holds(bytes: Seq<u8>, value: String) -> bool {
        string_field(bytes) matches Ok((text, _)) && value@ == text
    }

    fn decode(packet: &mut PacketManager) -> (r: Result<String, ProtocolError>) {
        packet.read_string()
    }
}

impl Decode for VarInt {
    open spec fn width(bytes: Seq<u8>) -> Result<nat, ProtocolError> {
        match varint_decode(bytes) {
            Ok(v) => Ok(v.len as nat),
            Err(e) => Err(field_error(e)),
        }
    }

    open spec fn holds(bytes: Seq<u8>, value: VarInt) -> bool {
        varint_decode(bytes) == Ok::<VarInt, ProtocolError>(value)
    }

    fn decode(packet: &mut PacketManager) -> (r: Result<VarInt, ProtocolError>) {
        packet.read_var_int()
    }
}

/// The number of bytes that the first `count` elements of a list take
/// together, when the elements stand one after another from the front of
/// `bytes`; or the error of the first element that cannot be read.
pub open spec fn elements_width<T: Decode>(bytes: Seq<u8>, count: nat) -> Result<
    nat,
    ProtocolError,
>
    decreases count,
{
    if count == 0 {
        Ok(0)
    } else {
        match elements_width::<T>(bytes, (count - 1) as nat) {
            Err(e) => Err(e),
            Ok(before) => match T::width(bytes.skip(before as int)) {
                Err(e) => Err(e),
                Ok(w) => Ok(before + w),
            },
        }
    }
}

/// Whether `value` is the element that stands behind `index` others from
/// the front of `bytes`.
pub open spec fn element_holds<T: Decode>(bytes: Seq<u8>, index: nat, value: T) -> bool {
    &&& elements_width::<T>(bytes, index) is Ok
    &&& T::holds(bytes.skip(elements_width::<T>(bytes, index)->Ok_0 as int), value)
}

/// Whether `values` are the elements that stand one after another from the
/// front of `bytes`.
pub open spec fn elements_hold<T: Decode>(bytes: Seq<u8>, values: Seq<T>) -> bool {
    forall|i: int|
        0 <= i < values.len() ==> #[trigger] element_holds::<T>(bytes, i as nat, values[i])
}

/// One more element that holds, behind elements that hold.
proof fn lemma_elements_hold_push<T: Decode>(bytes: Seq<u8>, values: Seq<T>, next: T)
    requires
        elements_hold::<T>(bytes, values),
        elements_width::<T>(bytes, values.len()) is Ok,
        T::holds(bytes.skip(elements_width::<T>(bytes, values.len())->Ok_0 as int), next),
    ensures
        elements_hold::<T>(bytes, values.push(next)),
{
    let longer = values.push(next);
    assert forall|i: int| 0 <= i < longer.len() implies #[trigger] element_holds::<T>(
        bytes,
        i as nat,
        longer[i],
    ) by {
        if i < values.len() {
            assert(element_holds::<T>(bytes, i as nat, values[i]));
        }
    }
}

/// Where some of the elements cannot be read, more of them cannot either,
/// and for the same reason.
pub proof fn lemma_elements_width_error<T: Decode>(bytes: Seq<u8>, some: nat, more: nat)
    requires
        some <= more,
        elements_width::<T>(bytes, some) is Err,
    ensures
        elements_width::<T>(bytes, more) == elements_width::<T>(bytes, some),
    decreases more,
{
    if some < more {
        lemma_elements_width_error::<T>(bytes, some, (more - 1) as nat);
    }
}

/// A list on the wire: the number of elements as an unsigned 16-bit value,
/// then the elements one after another.
impl<T: Decode> Decode for Vec<T> {
    open spec fn width(bytes: Seq<u8>) -> Result<nat, ProtocolError> {
        if bytes.len() < 2 {
            Err(ProtocolError::BufferUnderflow)
        } else {
            match elements_width::<T>(bytes.skip(2), be_value(bytes.take(2))) {
                Ok(w) => Ok(2 + w),
                Err(e) => Err(e),
            }
        }
    }

    open spec fn holds(bytes: Seq<u8>, value: Vec<T>) -> bool {
        &&& value@.len() == be_value(bytes.take(2))
        &&& elements_hold::<T>(bytes.skip(2), value@)
    }

    /// Reads the count and then that many elements. When one of them
    /// cannot be read, nothing is taken.
    fn decode(packet: &mut PacketManager) -> (r: Result<Vec<T>, ProtocolError>) {
        let total: usize = packet.len();
        let mut work = PacketManager::from_bytes(packet.as_slice());
        let count: u16 = match work.read_unsigned_short() {
            Ok(c) => c,
            Err(e) => {
                return Err(e);
            },
        };
        let ghost body = old(packet)@.skip(2);
        let mut out: Vec<T> = Vec::new();
        let mut i: u16 = 0;
        proof {
            assert(body.skip(0) =~= body);
        }
        while i < count
            invariant
                i <= count,
                old(packet)@.len() >= 2,
                count == be_value(old(packet)@.take(2)),
                body == old(packet)@.skip(2),
                *packet == *old(packet),
                total == old(packet)@.len(),
                elements_width::<T>(body, i as nat) is Ok,
                elements_width::<T>(body, i as nat)->Ok_0 <= body.len(),
                work@ == body.skip(elements_width::<T>(body, i as nat)->Ok_0 as int),
                out@.len() == i,
                elements_hold::<T>(body, out@),
            decreases count - i,
        {
            let ghost before = elements_width::<T>(body, i as nat)->Ok_0;
            let ghost read = out@;
            match T::decode(&mut work) {
                Ok(v) => {
                    proof {
                        let w = T::width(body.skip(before as int))->Ok_0;
                        assert(body.skip(before as int).skip(w as int) =~= body.skip(
                            (before + w) as int,
                        ));
                        lemma_elements_hold_push::<T>(body, read, v);
                    }
                    out.push(v);
                },
                Err(e) => {
                    proof {
                        lemma_elements_width_error::<T>(body, (i + 1) as nat, count as nat);
                    }
                    return Err(e);
                },
            }
            i = i + 1;
        }
        packet.advance(total - work.len());
        Ok(out)
    }
}

impl Encode for bool {
    open spec fn encoded(&self) -> Seq<u8> {
        bool_bytes(*self)
    }

    open spec fn encodable(&self) -> bool {
        true
    }

    fn encode(&self, packet: &mut PacketManager) {
        packet.write_boolean(*self);
    }
}

impl Encode for u8 {
    open spec fn encoded(&self) -> Seq<u8> {
        seq![*self]
    }

    open spec fn encodable(&self) -> bool {
        true
    }

    fn encode(&self, packet: &mut PacketManager) {
        packet.write_unsigned_byte(*self);
    }
}

impl Encode for u16 {
    open spec fn encoded(&self) -> Seq<u8> {
        be_bytes(*self as nat, 2)
    }

    open spec fn encodable(&self) -> bool {
        true
    }

    fn encode(&self, packet: &mut PacketManager) {
        packet.write_unsigned_short(*self);
    }
}

impl Encode for u32 {
    open spec fn encoded(&self) -> Seq<u8> {
        be_bytes(*self as nat, 4)
    }

    open spec fn encodable(&self) -> bool {
        true
    }

    fn encode(&self, packet: &mut PacketManager) {
        packet.write_float_bits(*self);
    }
}

impl Encode for i32 {
    open spec fn encoded(&self) -> Seq<u8> {
        int_bytes(*self)
    }

    open spec fn encodable(&self) -> bool {
        true
    }

    fn encode(&self, packet: &mut PacketManager) {
        packet.write_int(*self);
    }
}

impl Encode for i64 {
    open spec fn encoded(&self) -> Seq<u8> {
        long_bytes(*self)
    }

    open spec fn encodable(&self) -> bool {
        true
    }

    fn encode(&self, packet: &mut PacketManager) {
        packet.write_long(*self);
    }
}

impl Encode for String {
    open spec fn encoded(&self) -> Seq<u8> {
        string_field_bytes(self@)
    }

    open spec fn encodable(&self) -> bool {
        encode_utf8(self@).len() <= i32::MAX
    }

    fn encode(&self, packet: &mut PacketManager) {
        packet.write_string(self.as_str());
    }
}

impl Encode for VarInt {
    open spec fn encoded(&self) -> Seq<u8> {
        varint_bytes(self.value)
    }

    open spec fn encodable(&self) -> bool {
        true
    }

    fn encode(&self, packet: &mut PacketManager) {
        packet.write_var_int(self);
    }
}

} // verus!
