//! Domain names on the wire: length-prefixed labels closed by a zero byte.

use crate::error::ErrorView;
use vstd::prelude::*;
use vstd::utf8::{
    decode_utf8, encode_utf8, encode_utf8_decode_utf8, encode_utf8_valid_utf8, valid_utf8,
};

verus! {

/// The bytes of one label: the length of its text in bytes, reduced to one
/// byte, then the text.
pub open spec fn label_wire(text: Seq<char>) -> Seq<u8> {
    seq![(encode_utf8(text).len() % 256) as u8] + encode_utf8(text)
}

/// The bytes of a name: each label in turn, then a zero byte.
pub open spec fn name_wire(labels: Seq<Seq<char>>) -> Seq<u8>
    decreases labels.len(),
{
    if labels.len() == 0 {
        seq![0u8]
    } else {
        label_wire(labels[0]) + name_wire(labels.drop_first())
    }
}

/// A label that a decoder can find again: its text takes between 1 and 255
/// bytes, so its length byte is exact and is not taken for the end of the
/// name.
pub open spec fn label_fits(text: Seq<char>) -> bool {
    1 <= encode_utf8(text).len() <= 255
}

/// Every label of the name fits.
pub open spec fn name_fits(labels: Seq<Seq<char>>) -> bool {
    forall|i: int| 0 <= i < labels.len() ==> label_fits(#[trigger] labels[i])
}

/// A name read from the front of a buffer, and the number of bytes it took.
pub struct ParsedName {
    pub labels: Seq<Seq<char>>,
    pub len: int,
}

/// What a decoder reports when a name is not closed before the buffer ends.
pub open spec fn overrun_message() -> Seq<char> {
    "Name runs past the end of the buffer"@
}

/// The outcome `r` of reading the rest of a name, after the labels `done`
/// that took `at` bytes.
pub open spec fn resume(done: Seq<Seq<char>>, at: int, r: Result<ParsedName, ErrorView>) -> Result<
    ParsedName,
    ErrorView,
> {
    match r {
        Ok(p) => Ok(ParsedName { labels: done + p.labels, len: at + p.len }),
        Err(e) => Err(e),
    }
}

/// Reads a name from the front of `b`.
///
/// A zero byte closes the name. Any other byte is the length of a label, whose
/// text follows. The first thing amiss decides the error: a length byte or a
/// label that the buffer is too short for is an overrun, a label that is not
/// well-formed UTF-8 is an invalid label.
pub open spec fn parse_name(b: Seq<u8>) -> Result<ParsedName, ErrorView>
    decreases b.len(),
{
    if b.len() == 0 {
        Err(ErrorView::DeserializationErr(overrun_message()))
    } else if b[0] == 0 {
        Ok(ParsedName { labels: Seq::empty(), len: 1 })
    } else if b.len() < 1 + b[0] {
        Err(ErrorView::DeserializationErr(overrun_message()))
    } else if !valid_utf8(b.subrange(1, 1 + b[0])) {
        Err(ErrorView::InvalidLabel)
    } else {
        resume(seq![decode_utf8(b.subrange(1, 1 + b[0]))], 1 + b[0], parse_name(b.skip(1 + b[0])))
    }
}

/// Resuming after nothing changes nothing.
pub proof fn lemma_resume_nothing(r: Result<ParsedName, ErrorView>)
    ensures
        resume(Seq::empty(), 0, r) == r,
{
    if let Ok(p) = r {
        assert(Seq::<Seq<char>>::empty() + p.labels =~= p.labels);
    }
}

/// Resuming twice is resuming once after both parts.
pub proof fn lemma_resume_twice(
    a: Seq<Seq<char>>,
    i: int,
    b: Seq<Seq<char>>,
    j: int,
    r: Result<ParsedName, ErrorView>,
)
    ensures
        resume(a, i, resume(b, j, r)) == resume(a + b, i + j, r),
{
    if let Ok(p) = r {
        assert(a + (b + p.labels) =~= (a + b) + p.labels);
    }
}

/// A name that was read took at least its closing byte and no more than the
/// buffer holds.
pub proof fn lemma_parse_name_len(b: Seq<u8>)
    ensures
        parse_name(b) matches Ok(p) ==> 1 <= p.len <= b.len(),
    decreases b.len(),
{
    if b.len() > 0 && b[0] != 0 && b.len() >= 1 + b[0] {
        lemma_parse_name_len(b.skip(1 + b[0]));
    }
}

/// Reading the bytes of a name whose labels fit, whatever follows them, gives
/// the name back and stops right behind it.
pub proof fn lemma_parse_name_wire(labels: Seq<Seq<char>>, rest: Seq<u8>)
    requires
        name_fits(labels),
    ensures
        parse_name(name_wire(labels) + rest) == Ok::<ParsedName, ErrorView>(
            ParsedName { labels, len: name_wire(labels).len() as int },
        ),
    decreases labels.len(),
{
    let b = name_wire(labels) + rest;
    if labels.len() == 0 {
        assert(labels =~= Seq::empty());
    } else {
        let text = labels[0];
        let tail = labels.drop_first();
        let n = encode_utf8(text).len() as int;
        assert(label_fits(text));
        assert(b[0] == n);
        assert(b.subrange(1, 1 + n) =~= encode_utf8(text));
        assert(b.skip(1 + n) =~= name_wire(tail) + rest);
        encode_utf8_valid_utf8(text);
        encode_utf8_decode_utf8(text);
        assert(name_fits(tail)) by {
            assert forall|i: int| 0 <= i < tail.len() implies label_fits(#[trigger] tail[i]) by {
                assert(tail[i] == labels[i + 1]);
            }
        }
        lemma_parse_name_wire(tail, rest);
        assert(seq![text] + tail =~= labels);
    }
}

/// The bytes that a name was read from are the bytes of that name: reading
/// loses nothing.
pub proof fn lemma_name_wire_parsed(b: Seq<u8>)
    ensures
        parse_name(b) matches Ok(p) ==> name_fits(p.labels) && name_wire(p.labels) == b.take(p.len),
    decreases b.len(),
{
    if let Ok(p) = parse_name(b) {
        lemma_parse_name_len(b);
        if b[0] == 0 {
            assert(name_wire(p.labels) =~= b.take(p.len));
        } else {
            let n = b[0] as int;
            let body = b.subrange(1, 1 + n);
            let text = decode_utf8(body);
            let q = parse_name(b.skip(1 + n))->Ok_0;
            lemma_name_wire_parsed(b.skip(1 + n));
            lemma_parse_name_len(b.skip(1 + n));
            vstd::utf8::decode_utf8_encode_utf8(body);
            assert(p.labels[0] == text);
            assert(p.labels.drop_first() =~= q.labels);
            assert(b.skip(1 + n).take(q.len) =~= b.subrange(1 + n, 1 + n + q.len));
            assert(name_wire(p.labels) =~= b.take(p.len));
            assert forall|i: int| 0 <= i < p.labels.len() implies label_fits(
                #[trigger] p.labels[i],
            ) by {
                if i > 0 {
                    assert(p.labels[i] == q.labels[i - 1]);
                }
            }
        }
    }
}

/// Appends one label to `out`: the length of `text`, reduced to one byte,
/// then `text`.
pub fn push_label(out: &mut Vec<u8>, text: &str)
    ensures
        final(out)@ == old(out)@ + label_wire(text@),
{
    let bytes = text.as_bytes();
    out.push((bytes.len() % 256) as u8);
    out.extend_from_slice(bytes);
    assert(final(out)@ =~= old(out)@ + label_wire(text@));
}

} // verus!
