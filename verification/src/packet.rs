//! A typed, sequential binary packet container.
//!
//! A `Packet` owns a growable byte buffer with an independent sequential read
//! cursor. Typed values are appended through [`WriteToPacket`] and decoded
//! back through [`ReadFromPacket`] in a fixed, type-specific wire layout:
//! fixed-width little-endian integers, booleans as a single byte, strings as
//! a 32-bit length prefix followed by that many UTF-8 bytes. Reads and writes
//! are positional: the reader must read fields in exactly the order and with
//! exactly the types the writer used.

use vstd::arithmetic::div_mod::{lemma_div_denominator, lemma_fundamental_div_mod};
use vstd::prelude::*;
use vstd::slice::slice_to_vec;

verus! {

/// The little-endian two-byte layout of a 16-bit value.
pub open spec fn le_bytes_2(v: u16) -> Seq<u8> {
    seq![(v % 256) as u8, (v / 256) as u8]
}

/// The 16-bit value a little-endian two-byte run stands for.
pub open spec fn comb_2(b0: u8, b1: u8) -> u16 {
    (b0 + 256 * b1) as u16
}

/// The little-endian four-byte layout of a 32-bit value.
pub open spec fn le_bytes_4(v: u32) -> Seq<u8> {
    seq![
        (v % 256) as u8,
        ((v / 256) % 256) as u8,
        ((v / 65536) % 256) as u8,
        (v / 16777216) as u8,
    ]
}

/// The 32-bit value a little-endian four-byte run stands for.
pub open spec fn comb_4(b0: u8, b1: u8, b2: u8, b3: u8) -> u32 {
    (b0 + 256 * b1 + 65536 * b2 + 16777216 * b3) as u32
}

/// The two's-complement 16-bit image of a signed value.
pub open spec fn u16_from_i16(v: i16) -> u16 {
    if v >= 0 {
        v as u16
    } else {
        (v + 0x10000) as u16
    }
}

/// The signed value a two's-complement 16-bit image stands for.
pub open spec fn i16_from_u16(v: u16) -> i16 {
    if v < 0x8000 {
        v as i16
    } else {
        (v - 0x10000) as i16
    }
}

/// The two's-complement 32-bit image of a signed value.
pub open spec fn u32_from_i32(v: i32) -> u32 {
    if v >= 0 {
        v as u32
    } else {
        (v + 0x1_0000_0000) as u32
    }
}

/// The signed value a two's-complement 32-bit image stands for.
pub open spec fn i32_from_u32(v: u32) -> i32 {
    if v < 0x8000_0000 {
        v as i32
    } else {
        (v - 0x1_0000_0000) as i32
    }
}

/// The two's-complement byte image of a signed value.
pub open spec fn u8_from_i8(v: i8) -> u8 {
    if v >= 0 {
        v as u8
    } else {
        (v + 0x100) as u8
    }
}

/// The signed value a two's-complement byte stands for.
pub open spec fn i8_from_u8(v: u8) -> i8 {
    if v < 0x80 {
        v as i8
    } else {
        (v - 0x100) as i8
    }
}

/// Decomposing a 16-bit value into its little-endian bytes and recombining
/// them gives the value back.
pub proof fn lemma_le_2_roundtrip(v: u16)
    ensures
        comb_2(le_bytes_2(v)[0], le_bytes_2(v)[1]) == v,
{
    lemma_fundamental_div_mod(v as int, 256);
}

/// Decomposing a 32-bit value into its little-endian bytes and recombining
/// them gives the value back.
pub proof fn lemma_le_4_roundtrip(v: u32)
    ensures
        comb_4(le_bytes_4(v)[0], le_bytes_4(v)[1], le_bytes_4(v)[2], le_bytes_4(v)[3]) == v,
{
    let x = v as int;
    lemma_fundamental_div_mod(x, 256);
    lemma_fundamental_div_mod(x / 256, 256);
    lemma_fundamental_div_mod(x / 65536, 256);
    lemma_div_denominator(x, 256, 256);
    lemma_div_denominator(x, 65536, 256);
    assert(65536 * 256 == 16777216) by (nonlinear_arith);
}

/// An owned, growable byte buffer with a sequential read cursor.
///
/// Created empty; grown by [`Packet::append`] and typed writes; drained by
/// typed reads that advance the cursor and never run past the end of the
/// buffer.
#[derive(Debug)]
pub struct Packet {
    data: Vec<u8>,
    read_pos: usize,
}

impl Packet {
    /// The bytes the packet currently holds.
    pub closed spec fn contents(&self) -> Seq<u8> {
        self.data@
    }

    /// The position of the sequential read cursor.
    pub closed spec fn cursor(&self) -> int {
        self.read_pos as int
    }

    /// The cursor never points past the end of the buffer.
    pub closed spec fn wf(&self) -> bool {
        0 <= self.cursor() <= self.contents().len()
    }

    /// Creates a new, empty packet.
    pub fn create() -> (r: Result<Self, String>)
        ensures
            r is Ok,
            r matches Ok(p) ==> p.wf() && p.contents().len() == 0 && p.cursor() == 0,
    {
        Ok(Self { data: Vec::new(), read_pos: 0 })
    }

    /// Returns an independent deep copy of the packet, buffer and cursor
    /// position alike.
    pub fn copy(&self) -> (r: Result<Self, String>)
        requires
            self.wf(),
        ensures
            r is Ok,
            r matches Ok(p) ==> p.wf() && p.contents() == self.contents() && p.cursor()
                == self.cursor(),
    {
        Ok(Self { data: slice_to_vec(self.data.as_slice()), read_pos: self.read_pos })
    }

    /// Truncates the buffer to empty and resets the read cursor to 0.
    pub fn clear(&mut self)
        ensures
            final(self).wf(),
            final(self).contents().len() == 0,
            final(self).cursor() == 0,
    {
        self.data.clear();
        self.read_pos = 0;
    }

    /// Returns a copy of the bytes the packet holds.
    pub fn get_data(&self) -> (r: Vec<u8>)
        ensures
            r@ == self.contents(),
    {
        slice_to_vec(self.data.as_slice())
    }

    /// Returns how many bytes the packet holds.
    pub fn get_data_size(&self) -> (r: usize)
        ensures
            r == self.contents().len(),
    {
        self.data.len()
    }

    /// Appends raw bytes to the end of the buffer without touching the read
    /// cursor.
    pub fn append(&mut self, data: &[u8]) -> (r: Result<(), String>)
        requires
            old(self).wf(),
        ensures
            final(self).wf(),
            r is Ok,
            final(self).contents() == old(self).contents() + data@,
            final(self).cursor() == old(self).cursor(),
    {
        push_bytes(&mut self.data, data);
        Ok(())
    }

    /// True exactly when the read cursor has reached the end of the buffer.
    pub fn is_at_end(&self) -> (r: bool)
        ensures
            r == (self.cursor() == self.contents().len()),
    {
        self.read_pos == self.data.len()
    }

    /// Decodes the next value of type `T` at the read cursor and advances the
    /// cursor past it. Reading past the end of the buffer is a recoverable
    /// failure that leaves the packet unchanged.
    pub fn read<T: ReadFromPacket>(&mut self) -> (r: Result<T, String>)
        requires
            old(self).wf(),
        ensures
            final(self).wf(),
            final(self).contents() == old(self).contents(),
            r is Ok <==> T::decodable(old(self).contents(), old(self).cursor()),
            r is Err ==> final(self).cursor() == old(self).cursor(),
            r matches Ok(v) ==> v.decoded_as(old(self).contents(), old(self).cursor())
                && final(self).cursor() == old(self).cursor() + v.wire().len(),
    {
        T::read_from_packet(self)
    }

    /// Encodes `value` in its wire layout and appends the encoding to the
    /// buffer; the read cursor does not move.
    pub fn write<T: WriteToPacket>(&mut self, value: T) -> (r: Result<(), String>)
        requires
            old(self).wf(),
            value.wire_fits(),
        ensures
            final(self).wf(),
            r is Ok,
            final(self).contents() == old(self).contents() + value.wire(),
            final(self).cursor() == old(self).cursor(),
    {
        T::write_to_packet(self, value)
    }
}

/// Appends every byte of `src` to `dest`, in order.
fn push_bytes(dest: &mut Vec<u8>, src: &[u8])
    ensures
        final(dest)@ == old(dest)@ + src@,
{
    let mut i: usize = 0;
    while i < src.len()
        invariant
            i <= src@.len(),
            dest@ == old(dest)@ + src@.subrange(0, i as int),
        decreases src@.len() - i,
    {
        let b: u8 = src[i];
        dest.push(b);
        proof {
            assert(old(dest)@ + src@.subrange(0, i as int) + seq![src@[i as int]] =~= old(dest)@
                + src@.subrange(0, i + 1));
        }
        i = i + 1;
    }
    proof {
        assert(src@.subrange(0, src@.len() as int) =~= src@);
    }
}

/// A value with a canonical wire encoding that can be appended to a packet.
pub trait WriteToPacket: Sized {
    /// The canonical wire encoding of this value.
    spec fn wire(self) -> Seq<u8>;

    /// Whether the value respects the wire format's size limits (a string's
    /// byte length must fit the 32-bit length prefix; always true for the
    /// fixed-width types).
    spec fn wire_fits(self) -> bool;

    /// Appends the wire encoding of `value` to the packet's buffer.
    fn write_to_packet(packet: &mut Packet, value: Self) -> (r: Result<(), String>)
        requires
            old(packet).wf(),
            value.wire_fits(),
        ensures
            final(packet).wf(),
            r is Ok,
            final(packet).contents() == old(packet).contents() + value.wire(),
            final(packet).cursor() == old(packet).cursor(),
    ;
}

/// A value that can be decoded back out of a packet's buffer.
pub trait ReadFromPacket: WriteToPacket + DeepView {
    /// Whether `data` holds a complete encoding of a `Self` at `pos`.
    spec fn decodable(data: Seq<u8>, pos: int) -> bool;

    /// Whether this value is a possible result of decoding `data` at `pos`.
    spec fn decoded_as(self, data: Seq<u8>, pos: int) -> bool;

    /// Every decode spans exactly its own wire length, inside the buffer.
    proof fn lemma_decoded_span(self, data: Seq<u8>, pos: int)
        requires
            self.decoded_as(data, pos),
        ensures
            Self::decodable(data, pos),
            0 <= pos,
            pos + self.wire().len() <= data.len(),
            self.wire_fits(),
    ;

    /// Round trip: where a value's wire encoding sits at `pos`, decoding at
    /// `pos` is possible and every decode there agrees with that value (same
    /// wire image and same abstract value).
    proof fn lemma_roundtrip(self, other: Self, data: Seq<u8>, pos: int)
        requires
            0 <= pos,
            pos + self.wire().len() <= data.len(),
            data.subrange(pos, pos + self.wire().len() as int) == self.wire(),
            self.wire_fits(),
        ensures
            Self::decodable(data, pos),
            other.decoded_as(data, pos) ==> other.wire() == self.wire() && other.deep_view()
                == self.deep_view(),
    ;

    /// Decodes a `Self` at the packet's read cursor and advances the cursor
    /// past it; fails, leaving the packet unchanged, exactly when the buffer
    /// holds no complete encoding there.
    fn read_from_packet(packet: &mut Packet) -> (r: Result<Self, String>)
        requires
            old(packet).wf(),
        ensures
            final(packet).wf(),
            final(packet).contents() == old(packet).contents(),
            r is Ok <==> Self::decodable(old(packet).contents(), old(packet).cursor()),
            r is Err ==> final(packet).cursor() == old(packet).cursor(),
            r matches Ok(v) ==> v.decoded_as(old(packet).contents(), old(packet).cursor())
                && final(packet).cursor() == old(packet).cursor() + v.wire().len(),
    ;
}

impl WriteToPacket for u8 {
    open spec fn wire(self) -> Seq<u8> {
        seq![self]
    }

    open spec fn wire_fits(self) -> bool {
        true
    }

    fn write_to_packet(packet: &mut Packet, value: Self) -> (r: Result<(), String>) {
        packet.data.push(value);
        proof {
            assert(final(packet).contents() =~= old(packet).contents() + value.wire());
        }
        Ok(())
    }
}

impl ReadFromPacket for u8 {
    open spec fn decodable(data: Seq<u8>, pos: int) -> bool {
        0 <= pos && pos + 1 <= data.len()
    }

    open spec fn decoded_as(self, data: Seq<u8>, pos: int) -> bool {
        0 <= pos && pos + 1 <= data.len() && self == data[pos]
    }

    proof fn lemma_decoded_span(self, data: Seq<u8>, pos: int) {
    }

    proof fn lemma_roundtrip(self, other: Self, data: Seq<u8>, pos: int) {
        assert(data[pos] == self.wire()[0]);
    }

    fn read_from_packet(packet: &mut Packet) -> (r: Result<Self, String>) {
        let remaining: usize = packet.data.len() - packet.read_pos;
        if remaining >= 1 {
            let b: u8 = packet.data[packet.read_pos];
            packet.read_pos = packet.read_pos + 1;
            Ok(b)
        } else {
            Err("read past the end of the packet".to_owned())
        }
    }
}

impl WriteToPacket for bool {
    open spec fn wire(self) -> Seq<u8> {
        seq![(if self { 1u8 } else { 0u8 })]
    }

    open spec fn wire_fits(self) -> bool {
        true
    }

    fn write_to_packet(packet: &mut Packet, value: Self) -> (r: Result<(), String>) {
        let b: u8 = if value { 1 } else { 0 };
        packet.data.push(b);
        proof {
            assert(final(packet).contents() =~= old(packet).contents() + value.wire());
        }
        Ok(())
    }
}

impl ReadFromPacket for bool {
    open spec fn decodable(data: Seq<u8>, pos: int) -> bool {
        0 <= pos && pos + 1 <= data.len()
    }

    open spec fn decoded_as(self, data: Seq<u8>, pos: int) -> bool {
        0 <= pos && pos + 1 <= data.len() && self == (data[pos] != 0)
    }

    proof fn lemma_decoded_span(self, data: Seq<u8>, pos: int) {
    }

    proof fn lemma_roundtrip(self, other: Self, data: Seq<u8>, pos: int) {
        assert(data[pos] == self.wire()[0]);
    }

    fn read_from_packet(packet: &mut Packet) -> (r: Result<Self, String>) {
        let remaining: usize = packet.data.len() - packet.read_pos;
        if remaining >= 1 {
            let b: u8 = packet.data[packet.read_pos];
            packet.read_pos = packet.read_pos + 1;
            Ok(b != 0)
        } else {
            Err("read past the end of the packet".to_owned())
        }
    }
}

impl WriteToPacket for u16 {
    open spec fn wire(self) -> Seq<u8> {
        le_bytes_2(self)
    }

    open spec fn wire_fits(self) -> bool {
        true
    }

    fn write_to_packet(packet: &mut Packet, value: Self) -> (r: Result<(), String>) {
        packet.data.push((value % 256) as u8);
        packet.data.push((value / 256) as u8);
        proof {
            assert(final(packet).contents() =~= old(packet).contents() + value.wire());
        }
        Ok(())
    }
}

impl ReadFromPacket for u16 {
    open spec fn decodable(data: Seq<u8>, pos: int) -> bool {
        0 <= pos && pos + 2 <= data.len()
    }

    open spec fn decoded_as(self, data: Seq<u8>, pos: int) -> bool {
        0 <= pos && pos + 2 <= data.len() && self == comb_2(data[pos], data[pos + 1])
    }

    proof fn lemma_decoded_span(self, data: Seq<u8>, pos: int) {
    }

    proof fn lemma_roundtrip(self, other: Self, data: Seq<u8>, pos: int) {
        assert(data[pos] == self.wire()[0]);
        assert(data[pos + 1] == self.wire()[1]);
        lemma_le_2_roundtrip(self);
    }

    fn read_from_packet(packet: &mut Packet) -> (r: Result<Self, String>) {
        let remaining: usize = packet.data.len() - packet.read_pos;
        if remaining >= 2 {
            let b0: u8 = packet.data[packet.read_pos];
            let b1: u8 = packet.data[packet.read_pos + 1];
            packet.read_pos = packet.read_pos + 2;
            Ok(b0 as u16 + 256 * (b1 as u16))
        } else {
            Err("read past the end of the packet".to_owned())
        }
    }
}

impl WriteToPacket for u32 {
    open spec fn wire(self) -> Seq<u8> {
        le_bytes_4(self)
    }

    open spec fn wire_fits(self) -> bool {
        true
    }

    fn write_to_packet(packet: &mut Packet, value: Self) -> (r: Result<(), String>) {
        push_u32_le(&mut packet.data, value);
        proof {
            assert(final(packet).contents() =~= old(packet).contents() + value.wire());
        }
        Ok(())
    }
}

impl ReadFromPacket for u32 {
    open spec fn decodable(data: Seq<u8>, pos: int) -> bool {
        0 <= pos && pos + 4 <= data.len()
    }

    open spec fn decoded_as(self, data: Seq<u8>, pos: int) -> bool {
        0 <= pos && pos + 4 <= data.len() && self == comb_4(
            data[pos],
            data[pos + 1],
            data[pos + 2],
            data[pos + 3],
        )
    }

    proof fn lemma_decoded_span(self, data: Seq<u8>, pos: int) {
    }

    proof fn lemma_roundtrip(self, other: Self, data: Seq<u8>, pos: int) {
        assert(data[pos] == self.wire()[0]);
        assert(data[pos + 1] == self.wire()[1]);
        assert(data[pos + 2] == self.wire()[2]);
        assert(data[pos + 3] == self.wire()[3]);
        lemma_le_4_roundtrip(self);
    }

    fn read_from_packet(packet: &mut Packet) -> (r: Result<Self, String>) {
        let remaining: usize = packet.data.len() - packet.read_pos;
        if remaining >= 4 {
            let v: u32 = read_u32_le(&packet.data, packet.read_pos);
            packet.read_pos = packet.read_pos + 4;
            Ok(v)
        } else {
            Err("read past the end of the packet".to_owned())
        }
    }
}

/// Appends the four little-endian bytes of `value` to `dest`.
fn push_u32_le(dest: &mut Vec<u8>, value: u32)
    ensures
        final(dest)@ == old(dest)@ + le_bytes_4(value),
{
    dest.push((value % 256) as u8);
    dest.push((value / 256 % 256) as u8);
    dest.push((value / 65536 % 256) as u8);
    dest.push((value / 16777216) as u8);
    proof {
        assert(final(dest)@ =~= old(dest)@ + le_bytes_4(value));
    }
}

/// Recombines the four little-endian bytes at `pos` into a 32-bit value.
fn read_u32_le(data: &Vec<u8>, pos: usize) -> (r: u32)
    requires
        pos + 4 <= data@.len(),
        data@.len() <= usize::MAX,
    ensures
        r == comb_4(data@[pos as int], data@[pos + 1], data@[pos + 2], data@[pos + 3]),
{
    let b0: u8 = data[pos];
    let b1: u8 = data[pos + 1];
    let b2: u8 = data[pos + 2];
    let b3: u8 = data[pos + 3];
    b0 as u32 + 256 * (b1 as u32) + 65536 * (b2 as u32) + 16777216 * (b3 as u32)
}

impl WriteToPacket for i8 {
    open spec fn wire(self) -> Seq<u8> {
        seq![u8_from_i8(self)]
    }

    open spec fn wire_fits(self) -> bool {
        true
    }

    fn write_to_packet(packet: &mut Packet, value: Self) -> (r: Result<(), String>) {
        let b: u8 = if value >= 0 {
            value as u8
        } else {
            ((value as i16) + 0x100) as u8
        };
        packet.data.push(b);
        proof {
            assert(final(packet).contents() =~= old(packet).contents() + value.wire());
        }
        Ok(())
    }
}

impl ReadFromPacket for i8 {
    open spec fn decodable(data: Seq<u8>, pos: int) -> bool {
        0 <= pos && pos + 1 <= data.len()
    }

    open spec fn decoded_as(self, data: Seq<u8>, pos: int) -> bool {
        0 <= pos && pos + 1 <= data.len() && self == i8_from_u8(data[pos])
    }

    proof fn lemma_decoded_span(self, data: Seq<u8>, pos: int) {
    }

    proof fn lemma_roundtrip(self, other: Self, data: Seq<u8>, pos: int) {
        assert(data[pos] == self.wire()[0]);
    }

    fn read_from_packet(packet: &mut Packet) -> (r: Result<Self, String>) {
        let remaining: usize = packet.data.len() - packet.read_pos;
        if remaining >= 1 {
            let b: u8 = packet.data[packet.read_pos];
            packet.read_pos = packet.read_pos + 1;
            let v: i8 = if b < 0x80 {
                b as i8
            } else {
                ((b as i16) - 0x100) as i8
            };
            Ok(v)
        } else {
            Err("read past the end of the packet".to_owned())
        }
    }
}

impl WriteToPacket for i16 {
    open spec fn wire(self) -> Seq<u8> {
        le_bytes_2(u16_from_i16(self))
    }

    open spec fn wire_fits(self) -> bool {
        true
    }

    fn write_to_packet(packet: &mut Packet, value: Self) -> (r: Result<(), String>) {
        let u: u16 = if value >= 0 {
            value as u16
        } else {
            ((value as i32) + 0x10000) as u16
        };
        packet.data.push((u % 256) as u8);
        packet.data.push((u / 256) as u8);
        proof {
            assert(final(packet).contents() =~= old(packet).contents() + value.wire());
        }
        Ok(())
    }
}

impl ReadFromPacket for i16 {
    open spec fn decodable(data: Seq<u8>, pos: int) -> bool {
        0 <= pos && pos + 2 <= data.len()
    }

    open spec fn decoded_as(self, data: Seq<u8>, pos: int) -> bool {
        0 <= pos && pos + 2 <= data.len() && self == i16_from_u16(comb_2(data[pos], data[pos + 1]))
    }

    proof fn lemma_decoded_span(self, data: Seq<u8>, pos: int) {
    }

    proof fn lemma_roundtrip(self, other: Self, data: Seq<u8>, pos: int) {
        assert(data[pos] == self.wire()[0]);
        assert(data[pos + 1] == self.wire()[1]);
        lemma_le_2_roundtrip(u16_from_i16(self));
    }

    fn read_from_packet(packet: &mut Packet) -> (r: Result<Self, String>) {
        let remaining: usize = packet.data.len() - packet.read_pos;
        if remaining >= 2 {
            let b0: u8 = packet.data[packet.read_pos];
            let b1: u8 = packet.data[packet.read_pos + 1];
            packet.read_pos = packet.read_pos + 2;
            let u: u16 = b0 as u16 + 256 * (b1 as u16);
            let v: i16 = if u < 0x8000 {
                u as i16
            } else {
                ((u as i32) - 0x10000) as i16
            };
            Ok(v)
        } else {
            Err("read past the end of the packet".to_owned())
        }
    }
}

impl WriteToPacket for i32 {
    open spec fn wire(self) -> Seq<u8> {
        le_bytes_4(u32_from_i32(self))
    }

    open spec fn wire_fits(self) -> bool {
        true
    }

    fn write_to_packet(packet: &mut Packet, value: Self) -> (r: Result<(), String>) {
        let u: u32 = if value >= 0 {
            value as u32
        } else {
            ((value as i64) + 0x1_0000_0000) as u32
        };
        push_u32_le(&mut packet.data, u);
        proof {
            assert(final(packet).contents() =~= old(packet).contents() + value.wire());
        }
        Ok(())
    }
}

impl ReadFromPacket for i32 {
    open spec fn decodable(data: Seq<u8>, pos: int) -> bool {
        0 <= pos && pos + 4 <= data.len()
    }

    open spec fn decoded_as(self, data: Seq<u8>, pos: int) -> bool {
        0 <= pos && pos + 4 <= data.len() && self == i32_from_u32(
            comb_4(data[pos], data[pos + 1], data[pos + 2], data[pos + 3]),
        )
    }

    proof fn lemma_decoded_span(self, data: Seq<u8>, pos: int) {
    }

    proof fn lemma_roundtrip(self, other: Self, data: Seq<u8>, pos: int) {
        assert(data[pos] == self.wire()[0]);
        assert(data[pos + 1] == self.wire()[1]);
        assert(data[pos + 2] == self.wire()[2]);
        assert(data[pos + 3] == self.wire()[3]);
        lemma_le_4_roundtrip(u32_from_i32(self));
    }

    fn read_from_packet(packet: &mut Packet) -> (r: Result<Self, String>) {
        let remaining: usize = packet.data.len() - packet.read_pos;
        if remaining >= 4 {
            let u: u32 = read_u32_le(&packet.data, packet.read_pos);
            packet.read_pos = packet.read_pos + 4;
            let v: i32 = if u < 0x8000_0000 {
                u as i32
            } else {
                ((u as i64) - 0x1_0000_0000) as i32
            };
            Ok(v)
        } else {
            Err("read past the end of the packet".to_owned())
        }
    }
}

/// Relies on `String::from_utf8`: the conversion succeeds exactly on valid
/// UTF-8 input and decodes those bytes, without copying or altering them.
#[verifier::external_body]
pub(crate) fn string_from_utf8(bytes: Vec<u8>) -> (r: Option<String>)
    ensures
        r is Some <==> vstd::utf8::valid_utf8(bytes@),
        r matches Some(s) ==> s@ == vstd::utf8::decode_utf8(bytes@),
{
    String::from_utf8(bytes).ok()
}

impl WriteToPacket for String {
    open spec fn wire(self) -> Seq<u8> {
        le_bytes_4(vstd::utf8::encode_utf8(self@).len() as u32) + vstd::utf8::encode_utf8(self@)
    }

    open spec fn wire_fits(self) -> bool {
        vstd::utf8::encode_utf8(self@).len() <= u32::MAX
    }

    fn write_to_packet(packet: &mut Packet, value: Self) -> (r: Result<(), String>) {
        let bytes: &[u8] = value.as_str().as_bytes();
        let n: usize = bytes.len();
        push_u32_le(&mut packet.data, n as u32);
        push_bytes(&mut packet.data, bytes);
        proof {
            assert(final(packet).contents() =~= old(packet).contents() + value.wire());
        }
        Ok(())
    }
}

impl ReadFromPacket for String {
    open spec fn decodable(data: Seq<u8>, pos: int) -> bool {
        &&& 0 <= pos
        &&& pos + 4 <= data.len()
        &&& pos + 4 + comb_4(data[pos], data[pos + 1], data[pos + 2], data[pos + 3])
            <= data.len()
        &&& vstd::utf8::valid_utf8(
            data.subrange(
                pos + 4,
                pos + 4 + comb_4(data[pos], data[pos + 1], data[pos + 2], data[pos + 3]),
            ),
        )
    }

    open spec fn decoded_as(self, data: Seq<u8>, pos: int) -> bool {
        &&& Self::decodable(data, pos)
        &&& self@ == vstd::utf8::decode_utf8(
            data.subrange(
                pos + 4,
                pos + 4 + comb_4(data[pos], data[pos + 1], data[pos + 2], data[pos + 3]),
            ),
        )
    }

    proof fn lemma_decoded_span(self, data: Seq<u8>, pos: int) {
        let n = comb_4(data[pos], data[pos + 1], data[pos + 2], data[pos + 3]) as int;
        let body = data.subrange(pos + 4, pos + 4 + n);
        vstd::utf8::decode_utf8_encode_utf8(body);
    }

    proof fn lemma_roundtrip(self, other: Self, data: Seq<u8>, pos: int) {
        let enc = vstd::utf8::encode_utf8(self@);
        let w = self.wire();
        assert(w.len() == 4 + enc.len());
        assert(data.subrange(pos, pos + w.len() as int)[0] == data[pos]);
        assert(data.subrange(pos, pos + w.len() as int)[1] == data[pos + 1]);
        assert(data.subrange(pos, pos + w.len() as int)[2] == data[pos + 2]);
        assert(data.subrange(pos, pos + w.len() as int)[3] == data[pos + 3]);
        assert(data[pos] == le_bytes_4(enc.len() as u32)[0]);
        assert(data[pos + 1] == le_bytes_4(enc.len() as u32)[1]);
        assert(data[pos + 2] == le_bytes_4(enc.len() as u32)[2]);
        assert(data[pos + 3] == le_bytes_4(enc.len() as u32)[3]);
        lemma_le_4_roundtrip(enc.len() as u32);
        let n = comb_4(data[pos], data[pos + 1], data[pos + 2], data[pos + 3]) as int;
        assert(n == enc.len());
        assert(data.subrange(pos + 4, pos + 4 + n) =~= enc) by {
            assert forall|i: int| 0 <= i < n implies data.subrange(pos + 4, pos + 4 + n)[i]
                == enc[i] by {
                assert(data.subrange(pos, pos + w.len() as int)[4 + i] == data[pos + 4 + i]);
                assert(w[4 + i] == enc[i]);
            }
        }
        vstd::utf8::encode_utf8_valid_utf8(self@);
        vstd::utf8::encode_utf8_decode_utf8(self@);
        if other.decoded_as(data, pos) {
            assert(other@ == self@);
            assert(other.wire() == self.wire());
        }
    }

    fn read_from_packet(packet: &mut Packet) -> (r: Result<Self, String>) {
        let remaining: usize = packet.data.len() - packet.read_pos;
        if remaining < 4 {
            return Err("read past the end of the packet".to_owned());
        }
        let n32: u32 = read_u32_le(&packet.data, packet.read_pos);
        let n: usize = n32 as usize;
        if n > remaining - 4 {
            return Err("read past the end of the packet".to_owned());
        }
        let start: usize = packet.read_pos + 4;
        let body: Vec<u8> = slice_to_vec(
            vstd::slice::slice_subrange(packet.data.as_slice(), start, start + n),
        );
        match string_from_utf8(body) {
            Some(s) => {
                packet.read_pos = start + n;
                proof {
                    vstd::utf8::decode_utf8_encode_utf8(
                        old(packet).contents().subrange(start as int, start + n),
                    );
                }
                Ok(s)
            },
            None => Err("packet does not hold a valid string".to_owned()),
        }
    }
}

/// Round-trip law: wherever a value's wire encoding sits in a packet's
/// buffer — in particular right after `write` put it there — a matching typed
/// read at that position succeeds, consumes exactly the encoding, and every
/// value it can return agrees with the one written. Applied once per field,
/// this extends to any sequence of typed writes read back in the same order
/// with the same types: each read returns the value written, and the cursor
/// reaches the end of the buffer exactly after the last of them.
pub proof fn lemma_typed_roundtrip<T: ReadFromPacket>(v: T, w: T, prefix: Seq<u8>, suffix: Seq<u8>)
    requires
        v.wire_fits(),
    ensures
        T::decodable(prefix + v.wire() + suffix, prefix.len() as int),
        w.decoded_as(prefix + v.wire() + suffix, prefix.len() as int) ==> w.wire() == v.wire()
            && w.deep_view() == v.deep_view(),
{
    let data = prefix + v.wire() + suffix;
    let pos = prefix.len() as int;
    assert(data.subrange(pos, pos + v.wire().len() as int) =~= v.wire());
    v.lemma_roundtrip(w, data, pos);
}

/// A convenience view that owns a packet and pushes typed values into it.
///
/// Obtained from [`Packet::writer`]; [`Writer::into_packet`] gives the packet
/// back once the fields are written.
pub struct Writer {
    packet: Packet,
}

impl Writer {
    /// The packet the writer currently holds.
    pub closed spec fn inner(&self) -> Packet {
        self.packet
    }

    /// Appends the wire encoding of `value` to the held packet.
    pub fn write_data<T: WriteToPacket>(&mut self, value: T) -> (r: Result<(), String>)
        requires
            old(self).inner().wf(),
            value.wire_fits(),
        ensures
            final(self).inner().wf(),
            r is Ok,
            final(self).inner().contents() == old(self).inner().contents() + value.wire(),
            final(self).inner().cursor() == old(self).inner().cursor(),
    {
        self.packet.write(value)
    }

    /// Releases the held packet.
    pub fn into_packet(self) -> (p: Packet)
        ensures
            p == self.inner(),
    {
        self.packet
    }
}

/// A convenience view that owns a packet and pulls typed values out of it.
///
/// Obtained from [`Packet::reader`]; [`Reader::into_packet`] gives the packet
/// back once the fields are read.
pub struct Reader {
    packet: Packet,
}

impl Reader {
    /// The packet the reader currently holds.
    pub closed spec fn inner(&self) -> Packet {
        self.packet
    }

    /// Decodes the next value of type `T` at the held packet's read cursor.
    pub fn read_data<T: ReadFromPacket>(&mut self) -> (r: Result<T, String>)
        requires
            old(self).inner().wf(),
        ensures
            final(self).inner().wf(),
            final(self).inner().contents() == old(self).inner().contents(),
            r is Ok <==> T::decodable(old(self).inner().contents(), old(self).inner().cursor()),
            r is Err ==> final(self).inner().cursor() == old(self).inner().cursor(),
            r matches Ok(v) ==> v.decoded_as(old(self).inner().contents(), old(self).inner().cursor())
                && final(self).inner().cursor() == old(self).inner().cursor() + v.wire().len(),
    {
        self.packet.read()
    }

    /// Fills the front of `buf` with the bytes left before the end of the
    /// packet, raw, advancing the cursor; the rest of `buf` keeps its old
    /// bytes. Returns how many bytes were copied: the whole remainder of the
    /// buffer, or `buf`'s length where the remainder is longer.
    pub fn read(&mut self, buf: &mut Vec<u8>) -> (r: Result<usize, String>)
        requires
            old(self).inner().wf(),
        ensures
            final(self).inner().wf(),
            final(self).inner().contents() == old(self).inner().contents(),
            r is Ok,
            final(buf)@.len() == old(buf)@.len(),
            r matches Ok(count) ==> {
                let avail = old(self).inner().contents().len() - old(self).inner().cursor();
                &&& count == (if old(buf)@.len() <= avail {
                    old(buf)@.len() as int
                } else {
                    avail
                })
                &&& final(self).inner().cursor() == old(self).inner().cursor() + count
                &&& (forall|i: int|
                    0 <= i < count ==> final(buf)@[i] == old(self).inner().contents()[old(
                        self,
                    ).inner().cursor() + i])
                &&& (forall|i: int| count <= i < final(buf)@.len() ==> final(buf)@[i] == old(buf)@[i])
            },
    {
        let total: usize = buf.len();
        let mut out: Vec<u8> = Vec::new();
        let mut i: usize = 0;
        while i < total && self.packet.read_pos < self.packet.data.len()
            invariant
                self.packet.data@ == old(self).inner().contents(),
                old(self).inner().wf(),
                i <= total,
                total == old(buf)@.len(),
                old(self).inner().cursor() <= self.packet.read_pos as int <= self.packet.data@.len(),
                self.packet.read_pos as int == old(self).inner().cursor() + i,
                out@.len() == i as int,
                forall|j: int|
                    0 <= j < i ==> out@[j] == old(self).inner().contents()[old(self).inner().cursor()
                        + j],
            decreases total - i,
        {
            let b: u8 = self.packet.data[self.packet.read_pos];
            self.packet.read_pos = self.packet.read_pos + 1;
            out.push(b);
            i = i + 1;
        }
        let count: usize = i;
        while i < total
            invariant
                count <= i <= total,
                total == buf@.len(),
                out@.len() == i as int,
                forall|j: int|
                    0 <= j < count ==> out@[j] == old(self).inner().contents()[old(
                        self,
                    ).inner().cursor() + j],
                forall|j: int| count <= j < i ==> out@[j] == buf@[j],
            decreases total - i,
        {
            let b: u8 = buf[i];
            out.push(b);
            i = i + 1;
        }
        *buf = out;
        Ok(count)
    }

    /// Releases the held packet.
    pub fn into_packet(self) -> (p: Packet)
        ensures
            p == self.inner(),
    {
        self.packet
    }
}

impl Packet {
    /// Turns the packet into a push-style writer over its buffer.
    pub fn writer(self) -> (w: Writer)
        ensures
            w.inner() == self,
    {
        Writer { packet: self }
    }

    /// Turns the packet into a pull-style reader over its buffer.
    pub fn reader(self) -> (rd: Reader)
        ensures
            rd.inner() == self,
    {
        Reader { packet: self }
    }
}

} // verus!
