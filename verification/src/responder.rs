//! The reply to a query: the query's header turned into a response header,
//! the question repeated, and one fixed answer.

use crate::error::{agrees, ErrorCondition, ErrorView};
use crate::header::Header;
use crate::question::{Question, QuestionView};
use crate::record::{RecordView, ResourceRecord};
use crate::wire::push_all;
use vstd::prelude::*;
use vstd::slice::slice_subrange;

verus! {

/// The response code for a kind of query that is not implemented.
pub const RCODE_NOT_IMPLEMENTED: u8 = 4;

/// The header of the reply to a query with header `query`.
///
/// It repeats the identifier, the opcode and the wish for recursion, is
/// marked as a response, and counts one question and one answer. Its
/// response code is 0 for a standard query and "not implemented" for any
/// other.
pub open spec fn reply_header(query: Header) -> Header {
    Header {
        id: query.id,
        qr: true,
        opcode: query.opcode,
        aa: false,
        tc: false,
        rd: query.rd,
        ra: false,
        z: 0,
        rcode: if query.opcode == 0 {
            0
        } else {
            RCODE_NOT_IMPLEMENTED
        },
        qdcount: 1,
        ancount: 1,
        nscount: 0,
        arcount: 0,
    }
}

/// The bytes of a reply: header, question, answer.
pub open spec fn reply_wire(query: Header, question: QuestionView, answer: RecordView) -> Seq<u8> {
    reply_header(query).wire() + question.wire() + answer.wire()
}

/// What [`respond`] gives for the datagram `d`: the reply to the header in
/// its first twelve bytes and the question behind them, with the fixed
/// answer; or the error of whichever of the two does not decode, the header
/// first.
pub open spec fn reply(d: Seq<u8>) -> Result<Seq<u8>, ErrorView> {
    match Header::decode(d) {
        Err(e) => Err(e),
        Ok(h) => match QuestionView::decode(d.skip(12)) {
            Err(e) => Err(e),
            Ok(q) => Ok(reply_wire(h, q, RecordView::fixed_answer())),
        },
    }
}

/// A reply to a decoded query decodes again: to the reply header, and behind
/// it to the question that was asked.
pub proof fn lemma_reply_decodes(d: Seq<u8>)
    ensures
        reply(d) matches Ok(bytes) ==> {
            &&& Header::decode(bytes) == Ok::<Header, ErrorView>(
                reply_header(Header::of_wire(d)),
            )
            &&& QuestionView::decode(bytes.skip(12)) == QuestionView::decode(d.skip(12))
        },
{
    if let Ok(bytes) = reply(d) {
        let h = Header::of_wire(d);
        let q = QuestionView::decode(d.skip(12))->Ok_0;
        let a = RecordView::fixed_answer().wire();
        Header::lemma_wire_of_wire(d);
        let r = reply_header(h);
        assert(r.fits());
        assert(bytes =~= r.wire() + (q.wire() + a));
        Header::lemma_decode_wire(r, q.wire() + a);
        assert(bytes.skip(12) =~= q.wire() + a);
        QuestionView::lemma_wire_decoded(d.skip(12));
        QuestionView::lemma_decode_wire(q, a);
    }
}

/// Makes the header of the reply to a query with header `query`.
pub fn response_header(query: &Header) -> (r: Header)
    ensures
        r == reply_header(*query),
{
    Header {
        id: query.id,
        qr: true,
        opcode: query.opcode,
        aa: false,
        tc: false,
        rd: query.rd,
        ra: false,
        z: 0,
        rcode: if query.opcode == 0 {
            0
        } else {
            RCODE_NOT_IMPLEMENTED
        },
        qdcount: 1,
        ancount: 1,
        nscount: 0,
        arcount: 0,
    }
}

/// Encodes the reply to a decoded query.
pub fn build_response(query: &Header, question: &Question, answer: &ResourceRecord) -> (bytes: Vec<
    u8,
>)
    ensures
        bytes@ == reply_wire(*query, question@, answer@),
{
    let mut response: Vec<u8> = Vec::new();
    push_all(&mut response, response_header(query).to_bytes().as_slice());
    push_all(&mut response, question.to_bytes().as_slice());
    push_all(&mut response, answer.to_bytes().as_slice());
    response
}

/// Answers one datagram: decodes its header and its question and encodes
/// the reply. A datagram that does not decode gets no reply.
pub fn respond(datagram: &[u8]) -> (r: Result<Vec<u8>, ErrorCondition>)
    ensures
        agrees(r, reply(datagram@)),
{
    let header = match Header::from_bytes(datagram) {
        Ok(header) => header,
        Err(e) => {
            return Err(e);
        },
    };
    let question = match Question::from_bytes(slice_subrange(datagram, 12, datagram.len())) {
        Ok(question) => question,
        Err(e) => {
            return Err(e);
        },
    };
    let answer = ResourceRecord::default();
    Ok(build_response(&header, &question, &answer))
}

} // verus!
