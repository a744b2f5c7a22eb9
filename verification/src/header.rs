//! The fixed 12-byte header that opens every DNS message.

use crate::error::{agrees, ErrorCondition, ErrorView};
use crate::wire::{be16, be16_bytes, push_be16, read_be16};
use vstd::prelude::*;

verus! {

/// The header of a DNS message: thirteen fields packed into twelve bytes.
#[derive(Debug, Clone, Copy, PartialEq, Eq, Structural)]
pub struct Header {
    /// Transaction identifier, copied into the response.
    pub id: u16,
    /// `false` for a query, `true` for a response.
    pub qr: bool,
    /// Kind of query; 0 is a standard query. Four bits on the wire.
    pub opcode: u8,
    /// Authoritative answer.
    pub aa: bool,
    /// Truncated message.
    pub tc: bool,
    /// Recursion desired.
    pub rd: bool,
    /// Recursion available.
    pub ra: bool,
    /// Reserved. Three bits on the wire.
    pub z: u8,
    /// Response code; 0 is no error. Four bits on the wire.
    pub rcode: u8,
    /// Number of entries in the question section.
    pub qdcount: u16,
    /// Number of resource records in the answer section.
    pub ancount: u16,
    /// Number of name server records in the authority section.
    pub nscount: u16,
    /// Number of resource records in the additional section.
    pub arcount: u16,
}

impl View for Header {
    type V = Header;

    open spec fn view(&self) -> Header {
        *self
    }
}

/// The number of bytes a header takes on the wire.
pub const HEADER_LEN: usize = 12;

/// A flag as a bit.
pub open spec fn bit(b: bool) -> u8 {
    if b {
        1
    } else {
        0
    }
}

/// What [`Header::from_bytes`] reports for a buffer of fewer than twelve
/// bytes.
pub open spec fn short_header_message() -> Seq<char> {
    "Buffer length is less than header length"@
}

fn flag(b: bool) -> (r: u8)
    ensures
        r == bit(b),
{
    if b {
        1
    } else {
        0
    }
}

impl Header {
    /// Every field fits the bits it has on the wire. Only such a header
    /// survives encoding unchanged.
    pub open spec fn fits(self) -> bool {
        self.opcode < 16 && self.z < 8 && self.rcode < 16
    }

    /// The third byte on the wire: QR, OPCODE, AA, TC and RD.
    pub open spec fn flags_high(self) -> u8 {
        bit(self.qr) << 7 | self.opcode << 3 | bit(self.aa) << 2 | bit(self.tc) << 1 | bit(
            self.rd,
        )
    }

    /// The fourth byte on the wire: RA, Z and RCODE.
    pub open spec fn flags_low(self) -> u8 {
        bit(self.ra) << 7 | self.z << 4 | self.rcode
    }

    /// The twelve bytes that encode this header.
    pub open spec fn wire(self) -> Seq<u8> {
        be16_bytes(self.id) + seq![self.flags_high(), self.flags_low()] + be16_bytes(self.qdcount)
            + be16_bytes(self.ancount) + be16_bytes(self.nscount) + be16_bytes(self.arcount)
    }

    /// The header that the first twelve bytes of `b` encode.
    pub open spec fn of_wire(b: Seq<u8>) -> Header
        recommends
            b.len() >= 12,
    {
        Header {
            id: be16(b[0], b[1]),
            qr: b[2] & 0b1000_0000 != 0,
            opcode: (b[2] & 0b0111_1000) >> 3,
            aa: b[2] & 0b0000_0100 != 0,
            tc: b[2] & 0b0000_0010 != 0,
            rd: b[2] & 0b0000_0001 != 0,
            ra: b[3] & 0b1000_0000 != 0,
            z: (b[3] & 0b0111_1000) >> 4,
            rcode: b[3] & 0b0000_1111,
            qdcount: be16(b[4], b[5]),
            ancount: be16(b[6], b[7]),
            nscount: be16(b[8], b[9]),
            arcount: be16(b[10], b[11]),
        }
    }

    /// What decoding `b` gives: the header in its first twelve bytes, or an
    /// error if it has fewer. Bytes after the twelfth are not read.
    pub open spec fn decode(b: Seq<u8>) -> Result<Header, ErrorView> {
        if b.len() < 12 {
            Err(ErrorView::DeserializationErr(short_header_message()))
        } else {
            Ok(Header::of_wire(b))
        }
    }

    /// In a header that fits, each field has bits of its own in the two flag
    /// bytes, so these are plain sums.
    pub proof fn lemma_flags_as_sums(h: Header)
        requires
            h.fits(),
        ensures
            h.flags_high() == 128 * bit(h.qr) + 8 * h.opcode + 4 * bit(h.aa) + 2 * bit(h.tc) + bit(
                h.rd,
            ),
            h.flags_low() == 128 * bit(h.ra) + 16 * h.z + h.rcode,
    {
        let (q, o, a, t, r) = (bit(h.qr), h.opcode, bit(h.aa), bit(h.tc), bit(h.rd));
        assert((q << 7 | o << 3 | a << 2 | t << 1 | r) == 128 * q + 8 * o + 4 * a + 2 * t + r)
            by (bit_vector)
            requires
                q <= 1,
                o < 16,
                a <= 1,
                t <= 1,
                r <= 1,
        ;
        let (v, z, c) = (bit(h.ra), h.z, h.rcode);
        assert((v << 7 | z << 4 | c) == 128 * v + 16 * z + c) by (bit_vector)
            requires
                v <= 1,
                z < 8,
                c < 16,
        ;
    }

    /// Decoding the twelve bytes that encode a header that fits, whatever
    /// follows them, gives a header equal to it in every field.
    pub proof fn lemma_decode_wire(h: Header, rest: Seq<u8>)
        requires
            h.fits(),
        ensures
            h.wire().len() == 12,
            Header::decode(h.wire() + rest) == Ok::<Header, ErrorView>(h),
    {
        let b = h.wire() + rest;
        let g = Header::of_wire(b);
        assert(forall|i: int| 0 <= i < 12 ==> b[i] == h.wire()[i]);
        let (q, o, a, t, r) = (bit(h.qr), h.opcode, bit(h.aa), bit(h.tc), bit(h.rd));
        let hi = b[2];
        assert(hi == q << 7 | o << 3 | a << 2 | t << 1 | r);
        assert({
            &&& (hi & 0b1000_0000 != 0) == (q == 1)
            &&& (hi & 0b0111_1000) >> 3 == o
            &&& (hi & 0b0000_0100 != 0) == (a == 1)
            &&& (hi & 0b0000_0010 != 0) == (t == 1)
            &&& (hi & 0b0000_0001 != 0) == (r == 1)
        }) by (bit_vector)
            requires
                hi == q << 7 | o << 3 | a << 2 | t << 1 | r,
                q <= 1,
                o < 16,
                a <= 1,
                t <= 1,
                r <= 1,
        ;
        let (v, z, c) = (bit(h.ra), h.z, h.rcode);
        let lo = b[3];
        assert(lo == v << 7 | z << 4 | c);
        assert({
            &&& (lo & 0b1000_0000 != 0) == (v == 1)
            &&& (lo & 0b0111_1000) >> 4 == z
            &&& lo & 0b0000_1111 == c
        }) by (bit_vector)
            requires
                lo == v << 7 | z << 4 | c,
                v <= 1,
                z < 8,
                c < 16,
        ;
        assert(g == h);
    }

    /// Every twelve bytes decode to a header that fits, and encoding that
    /// header reproduces the twelve bytes exactly.
    pub proof fn lemma_wire_of_wire(b: Seq<u8>)
        requires
            b.len() >= 12,
        ensures
            Header::of_wire(b).fits(),
            Header::of_wire(b).wire() == b.subrange(0, 12),
    {
        let h = Header::of_wire(b);
        let (hi, lo) = (b[2], b[3]);
        assert({
            &&& (hi & 0b0111_1000) >> 3 < 16
            &&& (lo & 0b0111_1000) >> 4 < 8
            &&& lo & 0b0000_1111 < 16
        }) by (bit_vector);
        let (q, a, t, r) = (bit(h.qr), bit(h.aa), bit(h.tc), bit(h.rd));
        let o = h.opcode;
        assert(q << 7 | o << 3 | a << 2 | t << 1 | r == hi) by (bit_vector)
            requires
                q == (if hi & 0b1000_0000 != 0 { 1u8 } else { 0u8 }),
                o == (hi & 0b0111_1000) >> 3,
                a == (if hi & 0b0000_0100 != 0 { 1u8 } else { 0u8 }),
                t == (if hi & 0b0000_0010 != 0 { 1u8 } else { 0u8 }),
                r == (if hi & 0b0000_0001 != 0 { 1u8 } else { 0u8 }),
        ;
        let (v, z, c) = (bit(h.ra), h.z, h.rcode);
        assert(v << 7 | z << 4 | c == lo) by (bit_vector)
            requires
                v == (if lo & 0b1000_0000 != 0 { 1u8 } else { 0u8 }),
                z == (lo & 0b0111_1000) >> 4,
                c == lo & 0b0000_1111,
        ;
        crate::wire::lemma_be16_bytes_of(b[0], b[1]);
        crate::wire::lemma_be16_bytes_of(b[4], b[5]);
        crate::wire::lemma_be16_bytes_of(b[6], b[7]);
        crate::wire::lemma_be16_bytes_of(b[8], b[9]);
        crate::wire::lemma_be16_bytes_of(b[10], b[11]);
        assert(h.wire() =~= b.subrange(0, 12));
    }

    /// Encodes the header as twelve bytes.
    pub fn to_bytes(&self) -> (buf: Vec<u8>)
        ensures
            buf@ == self.wire(),
            buf@.len() == 12,
    {
        let mut buf = Vec::with_capacity(HEADER_LEN);
        push_be16(&mut buf, self.id);
        buf.push(
            flag(self.qr) << 7 | self.opcode << 3 | flag(self.aa) << 2 | flag(self.tc) << 1 | flag(
                self.rd,
            ),
        );
        buf.push(flag(self.ra) << 7 | self.z << 4 | self.rcode);
        push_be16(&mut buf, self.qdcount);
        push_be16(&mut buf, self.ancount);
        push_be16(&mut buf, self.nscount);
        push_be16(&mut buf, self.arcount);
        assert(buf@ =~= self.wire());
        buf
    }

    /// Decodes a header from the first twelve bytes of `buf`.
    pub fn from_bytes(buf: &[u8]) -> (r: Result<Header, ErrorCondition>)
        ensures
            agrees(r, Header::decode(buf@)),
    {
        if buf.len() < HEADER_LEN {
            return Err(
                ErrorCondition::DeserializationErr(
                    String::from_str("Buffer length is less than header length"),
                ),
            );
        }
        Ok(
            Header {
                id: read_be16(buf[0], buf[1]),
                qr: (buf[2] & 0b1000_0000) != 0,
                opcode: (buf[2] & 0b0111_1000) >> 3,
                aa: (buf[2] & 0b0000_0100) != 0,
                tc: (buf[2] & 0b0000_0010) != 0,
                rd: (buf[2] & 0b0000_0001) != 0,
                ra: (buf[3] & 0b1000_0000) != 0,
                z: (buf[3] & 0b0111_1000) >> 4,
                rcode: buf[3] & 0b0000_1111,
                qdcount: read_be16(buf[4], buf[5]),
                ancount: read_be16(buf[6], buf[7]),
                nscount: read_be16(buf[8], buf[9]),
                arcount: read_be16(buf[10], buf[11]),
            },
        )
    }
}

} // verus!
