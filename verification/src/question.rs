//! The question section of a DNS message: a name, a type and a class.

use crate::class::Class;
use crate::error::{agrees, ErrorCondition, ErrorView};
use crate::label::Label;
use crate::name::{
    lemma_name_wire_parsed, lemma_parse_name_len, lemma_parse_name_wire, lemma_resume_nothing,
    lemma_resume_twice, name_fits, name_wire, parse_name, push_label, resume, ParsedName,
};
use crate::rtype::Type;
use crate::wire::push_all;
use vstd::prelude::*;
use vstd::slice::slice_subrange;

verus! {

/// One question: the name asked about, as a sequence of labels, and the type
/// and class asked for. The zero byte that closes the name on the wire is not
/// among the labels.
#[derive(Debug, PartialEq, Eq)]
pub struct Question {
    pub name: Vec<Label>,
    pub qtype: Type,
    pub qclass: Class,
}

/// A [`Question`] with each label as its text.
pub struct QuestionView {
    pub name: Seq<Seq<char>>,
    pub qtype: Type,
    pub qclass: Class,
}

/// The texts of a sequence of labels.
pub open spec fn texts(labels: Seq<Label>) -> Seq<Seq<char>> {
    Seq::new(labels.len(), |i: int| labels[i]@)
}

impl View for Question {
    type V = QuestionView;

    open spec fn view(&self) -> QuestionView {
        QuestionView { name: texts(self.name@), qtype: self.qtype, qclass: self.qclass }
    }
}

impl QuestionView {
    /// The bytes that encode the question: the name, the type, the class.
    pub open spec fn wire(self) -> Seq<u8> {
        name_wire(self.name) + self.qtype.wire() + self.qclass.wire()
    }

    /// What decoding `b` gives: the name at its front, then the type in the
    /// two bytes behind the name, then the class in the two bytes behind the
    /// type; or the error of the first of these that fails. Bytes behind the
    /// class are not read.
    pub open spec fn decode(b: Seq<u8>) -> Result<QuestionView, ErrorView> {
        match parse_name(b) {
            Err(e) => Err(e),
            Ok(p) => match Type::decode(b.skip(p.len)) {
                Err(e) => Err(e),
                Ok(qtype) => match Class::decode(b.skip(p.len + 2)) {
                    Err(e) => Err(e),
                    Ok(qclass) => Ok(QuestionView { name: p.labels, qtype, qclass }),
                },
            },
        }
    }

    /// Decoding the bytes that encode a question whose labels fit, whatever
    /// follows them, gives an equal question.
    pub proof fn lemma_decode_wire(q: QuestionView, rest: Seq<u8>)
        requires
            name_fits(q.name),
        ensures
            QuestionView::decode(q.wire() + rest) == Ok::<QuestionView, ErrorView>(q),
    {
        let b = q.wire() + rest;
        let n = name_wire(q.name).len() as int;
        assert(b =~= name_wire(q.name) + (q.qtype.wire() + q.qclass.wire() + rest));
        lemma_parse_name_wire(q.name, q.qtype.wire() + q.qclass.wire() + rest);
        assert(b.skip(n) =~= q.qtype.wire() + (q.qclass.wire() + rest));
        Type::lemma_decode_wire(q.qtype, q.qclass.wire() + rest);
        assert(b.skip(n + 2) =~= q.qclass.wire() + rest);
        Class::lemma_decode_wire(q.qclass, rest);
    }

    /// A question that was decoded encodes to the bytes it was decoded from:
    /// the name's bytes and the four behind them.
    pub proof fn lemma_wire_decoded(b: Seq<u8>)
        ensures
            QuestionView::decode(b) matches Ok(q) ==> name_fits(q.name) && q.wire() == b.take(
                q.wire().len() as int,
            ),
    {
        if let Ok(q) = QuestionView::decode(b) {
            let p = parse_name(b)->Ok_0;
            lemma_name_wire_parsed(b);
            lemma_parse_name_len(b);
            let t = b.skip(p.len);
            let c = b.skip(p.len + 2);
            Type::lemma_code_inverse(q.qtype, crate::wire::be16(t[0], t[1]));
            Class::lemma_code_inverse(q.qclass, crate::wire::be16(c[0], c[1]));
            crate::wire::lemma_be16_bytes_of(t[0], t[1]);
            crate::wire::lemma_be16_bytes_of(c[0], c[1]);
            assert(q.wire() =~= b.take(p.len + 4));
        }
    }
}

impl Clone for Question {
    fn clone(&self) -> (r: Self)
        ensures
            r@ == self@,
    {
        let mut name: Vec<Label> = Vec::with_capacity(self.name.len());
        let mut i: usize = 0;
        while i < self.name.len()
            invariant
                i <= self.name.len(),
                name@.len() == i,
                forall|k: int| 0 <= k < i ==> name@[k]@ == self.name@[k]@,
            decreases self.name.len() - i,
        {
            name.push(self.name[i].clone());
            i += 1;
        }
        assert(texts(name@) =~= texts(self.name@));
        Question { name, qtype: self.qtype, qclass: self.qclass }
    }
}

impl Question {
    /// Decodes a question from the front of `buf`.
    pub fn from_bytes(buf: &[u8]) -> (r: Result<Question, ErrorCondition>)
        ensures
            agrees(r, QuestionView::decode(buf@)),
    {
        let mut index: usize = 0;
        let mut labels: Vec<Label> = Vec::new();
        proof {
            assert(buf@.skip(0) =~= buf@);
            assert(texts(labels@) =~= Seq::empty());
            lemma_resume_nothing(parse_name(buf@));
        }
        loop
            invariant
                index <= buf.len(),
                parse_name(buf@) == resume(
                    texts(labels@),
                    index as int,
                    parse_name(buf@.skip(index as int)),
                ),
            ensures
                index < buf.len(),
                parse_name(buf@) == Ok::<ParsedName, ErrorView>(
                    ParsedName { labels: texts(labels@), len: index + 1 },
                ),
            decreases buf.len() - index,
        {
            let ghost rest = buf@.skip(index as int);
            if index >= buf.len() {
                return Err(
                    ErrorCondition::DeserializationErr(
                        String::from_str("Name runs past the end of the buffer"),
                    ),
                );
            }
            let len = buf[index] as usize;
            assert(rest[0] == buf@[index as int]);
            if len == 0 {
                proof {
                    assert(texts(labels@) + Seq::<Seq<char>>::empty() =~= texts(labels@));
                }
                break ;
            }
            if len > buf.len() - index - 1 {
                return Err(
                    ErrorCondition::DeserializationErr(
                        String::from_str("Name runs past the end of the buffer"),
                    ),
                );
            }
            let text = slice_subrange(buf, index + 1, index + 1 + len);
            assert(text@ =~= rest.subrange(1, 1 + len));
            let label = match Label::new(text) {
                Ok(label) => label,
                Err(e) => {
                    return Err(e);
                },
            };
            proof {
                assert(rest.skip(1 + len) =~= buf@.skip(index + 1 + len));
                lemma_resume_twice(
                    texts(labels@),
                    index as int,
                    seq![label@],
                    1 + len,
                    parse_name(buf@.skip(index + 1 + len)),
                );
                assert(texts(labels@.push(label)) =~= texts(labels@) + seq![label@]);
            }
            labels.push(label);
            index = index + 1 + len;
        }
        index += 1;
        let qtype = match Type::from_bytes(slice_subrange(buf, index, buf.len())) {
            Ok(qtype) => qtype,
            Err(e) => {
                return Err(e);
            },
        };
        let qclass = match Class::from_bytes(slice_subrange(buf, index + 2, buf.len())) {
            Ok(qclass) => qclass,
            Err(e) => {
                return Err(e);
            },
        };
        Ok(Question { name: labels, qtype, qclass })
    }

    /// Encodes the question: each label behind its length byte, a zero byte,
    /// then the type and the class.
    pub fn to_bytes(&self) -> (buf: Vec<u8>)
        ensures
            buf@ == self@.wire(),
    {
        let mut buf = Vec::new();
        let ghost all = texts(self.name@);
        let mut i: usize = 0;
        assert(all.skip(0) =~= all);
        while i < self.name.len()
            invariant
                i <= self.name.len(),
                all == texts(self.name@),
                buf@ + name_wire(all.skip(i as int)) == name_wire(all),
            decreases self.name.len() - i,
        {
            let ghost before = buf@;
            push_label(&mut buf, self.name[i].as_str());
            proof {
                let tail = all.skip(i as int);
                assert(tail[0] == self.name@[i as int]@);
                assert(tail.drop_first() =~= all.skip(i + 1));
                assert(buf@ + name_wire(all.skip(i + 1)) =~= before + name_wire(tail));
            }
            i += 1;
        }
        buf.push(0);
        assert(buf@ =~= name_wire(all));
        push_all(&mut buf, &self.qtype.to_bytes());
        push_all(&mut buf, &self.qclass.to_bytes());
        buf
    }
}

} // verus!
