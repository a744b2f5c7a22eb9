//! Record types and query types, with their 16-bit codes.

use crate::error::{agrees, ErrorCondition, ErrorView};
use crate::text::{decimal, numbered};
use crate::wire::{be16, be16_bytes, read_be16};
use vstd::prelude::*;

verus! {

/// The type of a resource record, or the type a query asks for.
#[allow(non_camel_case_types)]
#[derive(Debug, Clone, Copy, PartialEq, Eq, Structural)]
pub enum Type {
    A,
    NS,
    MD,
    MF,
    CNAME,
    SOA,
    MB,
    MG,
    MR,
    NULL,
    WKS,
    PTR,
    HINFO,
    MINFO,
    MX,
    TXT,
    AXFR,
    MAILB,
    MAILA,
    _ALL_,
}

impl View for Type {
    type V = Type;

    open spec fn view(&self) -> Type {
        *self
    }
}

/// What a decoder reports when fewer than two bytes are left for a code.
pub open spec fn short_code_message() -> Seq<char> {
    "Buffer length is less than code length"@
}

/// What [`Type::from_bytes`] reports for a code `n` that no type has.
pub open spec fn unknown_type_message(n: u16) -> Seq<char> {
    "Unknown Question Type "@ + decimal(n as nat)
}

impl Type {
    /// The code that stands for this type on the wire.
    pub open spec fn code(self) -> u16 {
        match self {
            Type::A => 1,
            Type::NS => 2,
            Type::MD => 3,
            Type::MF => 4,
            Type::CNAME => 5,
            Type::SOA => 6,
            Type::MB => 7,
            Type::MG => 8,
            Type::MR => 9,
            Type::NULL => 10,
            Type::WKS => 11,
            Type::PTR => 12,
            Type::HINFO => 13,
            Type::MINFO => 14,
            Type::MX => 15,
            Type::TXT => 16,
            Type::AXFR => 252,
            Type::MAILB => 253,
            Type::MAILA => 254,
            Type::_ALL_ => 255,
        }
    }

    /// The type that `n` stands for, if any: the inverse of [`Type::code`].
    pub open spec fn from_code(n: u16) -> Option<Type> {
        if exists|t: Type| t.code() == n {
            Some(choose|t: Type| t.code() == n)
        } else {
            None
        }
    }

    /// A short description of the type, for diagnostics.
    pub open spec fn describe(self) -> Seq<char> {
        match self {
            Type::A => "a host address"@,
            Type::NS => "an authoritative name server"@,
            Type::MD => "a mail destination (Obsolete - use MX)"@,
            Type::MF => "a mail forwarder (Obsolete - use MX)"@,
            Type::CNAME => "the canonical name for an alias"@,
            Type::SOA => "marks the start of a zone of authority"@,
            Type::MB => "a mailbox domain name (EXPERIMENTAL)"@,
            Type::MG => "a mail group member (EXPERIMENTAL)"@,
            Type::MR => "a mail rename domain name (EXPERIMENTAL)"@,
            Type::NULL => "a null RR (EXPERIMENTAL)"@,
            Type::WKS => "a well known service description"@,
            Type::PTR => "a domain name pointer"@,
            Type::HINFO => "host information"@,
            Type::MINFO => "mailbox or mail list information"@,
            Type::MX => "mail exchange"@,
            Type::TXT => "text strings"@,
            Type::AXFR => "A request for a transfer of an entire zone"@,
            Type::MAILB => "A request for mailbox-related records (MB, MG or MR)"@,
            Type::MAILA => "A request for mail agent RRs (Obsolete - see MX)"@,
            Type::_ALL_ => "A request for all records"@,
        }
    }

    /// What decoding `bytes` gives: the type whose code the first two bytes
    /// hold, big-endian; an error if there are fewer than two bytes or no
    /// type has that code. Bytes after the second are not read.
    pub open spec fn decode(bytes: Seq<u8>) -> Result<Type, ErrorView> {
        if bytes.len() < 2 {
            Err(ErrorView::DeserializationErr(short_code_message()))
        } else {
            match Type::from_code(be16(bytes[0], bytes[1])) {
                Some(t) => Ok(t),
                None => Err(
                    ErrorView::DeserializationErr(unknown_type_message(be16(bytes[0], bytes[1]))),
                ),
            }
        }
    }

    /// The two bytes that encode this type.
    pub open spec fn wire(self) -> Seq<u8> {
        be16_bytes(self.code())
    }

    /// Exactly one type has each mapped code: `from_code` undoes `code`, and
    /// gives a type for `n` only if that type's code is `n`.
    pub proof fn lemma_code_inverse(t: Type, n: u16)
        ensures
            Type::from_code(t.code()) == Some(t),
            Type::from_code(n) == Some(t) <==> t.code() == n,
    {
    }

    /// The mapped codes are 1 to 16 and 252 to 255; every other code is
    /// unmapped.
    pub proof fn lemma_mapped_codes(n: u16)
        ensures
            Type::from_code(n) is Some <==> 1 <= n <= 16 || 252 <= n <= 255,
    {
        if 1 <= n <= 16 || 252 <= n <= 255 {
            let t = if n == 1 {
                Type::A
            } else if n == 2 {
                Type::NS
            } else if n == 3 {
                Type::MD
            } else if n == 4 {
                Type::MF
            } else if n == 5 {
                Type::CNAME
            } else if n == 6 {
                Type::SOA
            } else if n == 7 {
                Type::MB
            } else if n == 8 {
                Type::MG
            } else if n == 9 {
                Type::MR
            } else if n == 10 {
                Type::NULL
            } else if n == 11 {
                Type::WKS
            } else if n == 12 {
                Type::PTR
            } else if n == 13 {
                Type::HINFO
            } else if n == 14 {
                Type::MINFO
            } else if n == 15 {
                Type::MX
            } else if n == 16 {
                Type::TXT
            } else if n == 252 {
                Type::AXFR
            } else if n == 253 {
                Type::MAILB
            } else if n == 254 {
                Type::MAILA
            } else {
                Type::_ALL_
            };
            assert(t.code() == n);
        }
    }

    /// Decoding the two bytes that encode `t`, whatever follows them, gives
    /// `t` back.
    pub proof fn lemma_decode_wire(t: Type, rest: Seq<u8>)
        ensures
            Type::decode(t.wire() + rest) == Ok::<Type, ErrorView>(t),
    {
        let b = t.wire() + rest;
        assert(b[0] == t.wire()[0] && b[1] == t.wire()[1]);
        crate::wire::lemma_be16_of_bytes(t.code());
        Type::lemma_code_inverse(t, t.code());
    }

    /// Decoding fails exactly on a buffer of fewer than two bytes and on an
    /// unmapped code, and then names the length or the code.
    pub proof fn lemma_decode_fails(bytes: Seq<u8>)
        ensures
            Type::decode(bytes) is Err <==> bytes.len() < 2 || !(1 <= be16(bytes[0], bytes[1]) <= 16
                || 252 <= be16(bytes[0], bytes[1]) <= 255),
    {
        if bytes.len() >= 2 {
            Type::lemma_mapped_codes(be16(bytes[0], bytes[1]));
        }
    }

    /// The type that the code `n` stands for.
    pub fn of_code(n: u16) -> (r: Option<Type>)
        ensures
            r == Type::from_code(n),
    {
        let r = match n {
            1 => Some(Type::A),
            2 => Some(Type::NS),
            3 => Some(Type::MD),
            4 => Some(Type::MF),
            5 => Some(Type::CNAME),
            6 => Some(Type::SOA),
            7 => Some(Type::MB),
            8 => Some(Type::MG),
            9 => Some(Type::MR),
            10 => Some(Type::NULL),
            11 => Some(Type::WKS),
            12 => Some(Type::PTR),
            13 => Some(Type::HINFO),
            14 => Some(Type::MINFO),
            15 => Some(Type::MX),
            16 => Some(Type::TXT),
            252 => Some(Type::AXFR),
            253 => Some(Type::MAILB),
            254 => Some(Type::MAILA),
            255 => Some(Type::_ALL_),
            _ => None,
        };
        proof {
            match r {
                Some(t) => {
                    assert(t.code() == n);
                },
                None => {
                    assert(forall|t: Type| t.code() != n);
                },
            }
        }
        r
    }

    /// Decodes a type from the first two bytes of `bytes`.
    pub fn from_bytes(bytes: &[u8]) -> (r: Result<Type, ErrorCondition>)
        ensures
            agrees(r, Type::decode(bytes@)),
    {
        if bytes.len() < 2 {
            return Err(
                ErrorCondition::DeserializationErr(
                    String::from_str("Buffer length is less than code length"),
                ),
            );
        }
        let n = read_be16(bytes[0], bytes[1]);
        match Type::of_code(n) {
            Some(t) => Ok(t),
            None => Err(ErrorCondition::DeserializationErr(numbered("Unknown Question Type ", n))),
        }
    }

    /// The code of this type.
    pub fn to_code(&self) -> (n: u16)
        ensures
            n == self.code(),
    {
        match self {
            Type::A => 1,
            Type::NS => 2,
            Type::MD => 3,
            Type::MF => 4,
            Type::CNAME => 5,
            Type::SOA => 6,
            Type::MB => 7,
            Type::MG => 8,
            Type::MR => 9,
            Type::NULL => 10,
            Type::WKS => 11,
            Type::PTR => 12,
            Type::HINFO => 13,
            Type::MINFO => 14,
            Type::MX => 15,
            Type::TXT => 16,
            Type::AXFR => 252,
            Type::MAILB => 253,
            Type::MAILA => 254,
            Type::_ALL_ => 255,
        }
    }

    /// Encodes this type as its two-byte big-endian code.
    pub fn to_bytes(&self) -> (r: [u8; 2])
        ensures
            r@ == self.wire(),
    {
        let num = self.to_code();
        let r = [(num / 256) as u8, (num % 256) as u8];
        assert(r@ =~= self.wire());
        r
    }

    /// A short description of the type, for diagnostics.
    pub fn description(&self) -> (s: &'static str)
        ensures
            s@ == self.describe(),
    {
        match self {
            Type::A => "a host address",
            Type::NS => "an authoritative name server",
            Type::MD => "a mail destination (Obsolete - use MX)",
            Type::MF => "a mail forwarder (Obsolete - use MX)",
            Type::CNAME => "the canonical name for an alias",
            Type::SOA => "marks the start of a zone of authority",
            Type::MB => "a mailbox domain name (EXPERIMENTAL)",
            Type::MG => "a mail group member (EXPERIMENTAL)",
            Type::MR => "a mail rename domain name (EXPERIMENTAL)",
            Type::NULL => "a null RR (EXPERIMENTAL)",
            Type::WKS => "a well known service description",
            Type::PTR => "a domain name pointer",
            Type::HINFO => "host information",
            Type::MINFO => "mailbox or mail list information",
            Type::MX => "mail exchange",
            Type::TXT => "text strings",
            Type::AXFR => "A request for a transfer of an entire zone",
            Type::MAILB => "A request for mailbox-related records (MB, MG or MR)",
            Type::MAILA => "A request for mail agent RRs (Obsolete - see MX)",
            Type::_ALL_ => "A request for all records",
        }
    }
}

} // verus!
