//! Record classes and query classes, with their 16-bit codes.

use crate::error::{agrees, ErrorCondition, ErrorView};
use crate::rtype::short_code_message;
use crate::text::{decimal, numbered};
use crate::wire::{be16, be16_bytes, read_be16};
use vstd::prelude::*;

verus! {

/// The class of a resource record, or the class a query asks for.
#[allow(non_camel_case_types)]
#[derive(Debug, Clone, Copy, PartialEq, Eq, Structural)]
pub enum Class {
    IN,
    CS,
    CH,
    HS,
    _ALL_,
}

impl View for Class {
    type V = Class;

    open spec fn view(&self) -> Class {
        *self
    }
}

/// What [`Class::from_bytes`] reports for a code `n` that no class has.
pub open spec fn unknown_class_message(n: u16) -> Seq<char> {
    "Unknown Question Class "@ + decimal(n as nat)
}

impl Class {
    /// The code that stands for this class on the wire.
    pub open spec fn code(self) -> u16 {
        match self {
            Class::IN => 1,
            Class::CS => 2,
            Class::CH => 3,
            Class::HS => 4,
            Class::_ALL_ => 255,
        }
    }

    /// The class that `n` stands for, if any: the inverse of [`Class::code`].
    pub open spec fn from_code(n: u16) -> Option<Class> {
        if exists|c: Class| c.code() == n {
            Some(choose|c: Class| c.code() == n)
        } else {
            None
        }
    }

    /// What decoding `bytes` gives: the class whose code the first two bytes
    /// hold, big-endian; an error if there are fewer than two bytes or no
    /// class has that code. Bytes after the second are not read.
    pub open spec fn decode(bytes: Seq<u8>) -> Result<Class, ErrorView> {
        if bytes.len() < 2 {
            Err(ErrorView::DeserializationErr(short_code_message()))
        } else {
            match Class::from_code(be16(bytes[0], bytes[1])) {
                Some(c) => Ok(c),
                None => Err(
                    ErrorView::DeserializationErr(unknown_class_message(be16(bytes[0], bytes[1]))),
                ),
            }
        }
    }

    /// The two bytes that encode this class.
    pub open spec fn wire(self) -> Seq<u8> {
        be16_bytes(self.code())
    }

    /// Exactly one class has each mapped code: `from_code` undoes `code`, and
    /// gives a class for `n` only if that class's code is `n`.
    pub proof fn lemma_code_inverse(c: Class, n: u16)
        ensures
            Class::from_code(c.code()) == Some(c),
            Class::from_code(n) == Some(c) <==> c.code() == n,
    {
    }

    /// The mapped codes are 1 to 4 and 255; every other code is unmapped.
    pub proof fn lemma_mapped_codes(n: u16)
        ensures
            Class::from_code(n) is Some <==> 1 <= n <= 4 || n == 255,
    {
        if 1 <= n <= 4 || n == 255 {
            let c = if n == 1 {
                Class::IN
            } else if n == 2 {
                Class::CS
            } else if n == 3 {
                Class::CH
            } else if n == 4 {
                Class::HS
            } else {
                Class::_ALL_
            };
            assert(c.code() == n);
        }
    }

    /// Decoding the two bytes that encode `c`, whatever follows them, gives
    /// `c` back.
    pub proof fn lemma_decode_wire(c: Class, rest: Seq<u8>)
        ensures
            Class::decode(c.wire() + rest) == Ok::<Class, ErrorView>(c),
    {
        let b = c.wire() + rest;
        assert(b[0] == c.wire()[0] && b[1] == c.wire()[1]);
        crate::wire::lemma_be16_of_bytes(c.code());
        Class::lemma_code_inverse(c, c.code());
    }

    /// Decoding fails exactly on a buffer of fewer than two bytes and on an
    /// unmapped code.
    pub proof fn lemma_decode_fails(bytes: Seq<u8>)
        ensures
            Class::decode(bytes) is Err <==> bytes.len() < 2 || !(1 <= be16(bytes[0], bytes[1]) <= 4
                || be16(bytes[0], bytes[1]) == 255),
    {
        if bytes.len() >= 2 {
            Class::lemma_mapped_codes(be16(bytes[0], bytes[1]));
        }
    }

    /// The class that the code `n` stands for.
    pub fn of_code(n: u16) -> (r: Option<Class>)
        ensures
            r == Class::from_code(n),
    {
        let r = match n {
            1 => Some(Class::IN),
            2 => Some(Class::CS),
            3 => Some(Class::CH),
            4 => Some(Class::HS),
            255 => Some(Class::_ALL_),
            _ => None,
        };
        proof {
            match r {
                Some(c) => {
                    assert(c.code() == n);
                },
                None => {
                    assert(forall|c: Class| c.code() != n);
                },
            }
        }
        r
    }

    /// Decodes a class from the first two bytes of `buf`.
    pub fn from_bytes(buf: &[u8]) -> (r: Result<Class, ErrorCondition>)
        ensures
            agrees(r, Class::decode(buf@)),
    {
        if buf.len() < 2 {
            return Err(
                ErrorCondition::DeserializationErr(
                    String::from_str("Buffer length is less than code length"),
                ),
            );
        }
        let num = read_be16(buf[0], buf[1]);
        match Class::of_code(num) {
            Some(c) => Ok(c),
            None => Err(
                ErrorCondition::DeserializationErr(numbered("Unknown Question Class ", num)),
            ),
        }
    }

    /// The code of this class.
    pub fn to_code(&self) -> (n: u16)
        ensures
            n == self.code(),
    {
        match self {
            Class::IN => 1,
            Class::CS => 2,
            Class::CH => 3,
            Class::HS => 4,
            Class::_ALL_ => 255,
        }
    }

    /// Encodes this class as its two-byte big-endian code.
    pub fn to_bytes(&self) -> (r: [u8; 2])
        ensures
            r@ == self.wire(),
    {
        let num = self.to_code();
        let r = [(num / 256) as u8, (num % 256) as u8];
        assert(r@ =~= self.wire());
        r
    }
}

} // verus!
