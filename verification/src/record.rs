//! Resource records: the entries of the answer section.

use crate::class::Class;
use crate::dotted::{dotted_wire, push_dotted};
use crate::rtype::Type;
use crate::wire::{be16_bytes, be32_bytes, push_all, push_be16, push_be32};
use vstd::prelude::*;

verus! {

/// The largest DNS message without EDNS0, in bytes.
pub const MAX_DNS_MESSAGE_SIZE: usize = 512;

/// One resource record.
///
/// The name is dotted text and is cut into labels when the record is
/// encoded. `rdlength` is written as it stands: it is for whoever builds the
/// record to make it the length of `rdata`.
#[derive(Debug, PartialEq, Eq)]
pub struct ResourceRecord {
    pub name: String,
    pub rtype: Type,
    pub rclass: Class,
    pub ttl: u32,
    pub rdlength: u16,
    pub rdata: Vec<u8>,
}

/// A [`ResourceRecord`] with its name as text and its data as a sequence.
pub struct RecordView {
    pub name: Seq<char>,
    pub rtype: Type,
    pub rclass: Class,
    pub ttl: u32,
    pub rdlength: u16,
    pub rdata: Seq<u8>,
}

impl View for ResourceRecord {
    type V = RecordView;

    open spec fn view(&self) -> RecordView {
        RecordView {
            name: self.name@,
            rtype: self.rtype,
            rclass: self.rclass,
            ttl: self.ttl,
            rdlength: self.rdlength,
            rdata: self.rdata@,
        }
    }
}

impl RecordView {
    /// The bytes that encode the record: the name, the type, the class, the
    /// time to live in four bytes, the data length in two, then the data.
    pub open spec fn wire(self) -> Seq<u8> {
        dotted_wire(self.name) + self.rtype.wire() + self.rclass.wire() + be32_bytes(self.ttl)
            + be16_bytes(self.rdlength) + self.rdata
    }

    /// The data length that the record states is the length of its data.
    pub open spec fn consistent(self) -> bool {
        self.rdlength == self.rdata.len()
    }

    /// The record that answers every question: an address record for
    /// `www.rust-trends.com`, good for a minute.
    pub open spec fn fixed_answer() -> RecordView {
        RecordView {
            name: "www.rust-trends.com"@,
            rtype: Type::A,
            rclass: Class::IN,
            ttl: 60,
            rdlength: 4,
            rdata: seq![172u8, 67u8, 221u8, 148u8],
        }
    }
}

impl Clone for ResourceRecord {
    fn clone(&self) -> (r: Self)
        ensures
            r@ == self@,
    {
        ResourceRecord {
            name: self.name.clone(),
            rtype: self.rtype,
            rclass: self.rclass,
            ttl: self.ttl,
            rdlength: self.rdlength,
            rdata: self.rdata.clone(),
        }
    }
}

impl Default for ResourceRecord {
    fn default() -> (r: Self)
        ensures
            r@ == RecordView::fixed_answer(),
            r@.consistent(),
    {
        let mut rdata: Vec<u8> = Vec::with_capacity(4);
        rdata.push(172);
        rdata.push(67);
        rdata.push(221);
        rdata.push(148);
        assert(rdata@ =~= seq![172u8, 67u8, 221u8, 148u8]);
        ResourceRecord {
            name: String::from_str("www.rust-trends.com"),
            rtype: Type::A,
            rclass: Class::IN,
            ttl: 60,
            rdlength: 4,
            rdata,
        }
    }
}

impl ResourceRecord {
    /// Encodes the record.
    pub fn to_bytes(&self) -> (buf: Vec<u8>)
        ensures
            buf@ == self@.wire(),
    {
        let mut buf = Vec::with_capacity(MAX_DNS_MESSAGE_SIZE);
        push_dotted(&mut buf, self.name.as_str());
        push_all(&mut buf, &self.rtype.to_bytes());
        push_all(&mut buf, &self.rclass.to_bytes());
        push_be32(&mut buf, self.ttl);
        push_be16(&mut buf, self.rdlength);
        push_all(&mut buf, self.rdata.as_slice());
        buf
    }
}

} // verus!
