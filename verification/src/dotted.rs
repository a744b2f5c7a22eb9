//! Names written as dotted text, and their bytes on the wire.
//!
//! A dotted name is cut at every `.`; what lies between two dots, before the
//! first or behind the last is a label, empty ones included.

use crate::name::{label_wire, name_wire};
use vstd::prelude::*;
use vstd::utf8::{encode_scalar, encode_utf8};

verus! {

/// The byte that encodes `.`.
pub const DOT: u8 = 0x2e;

/// The parts of `s` between occurrences of `sep`, in order. There is one part
/// more than there are occurrences: `s` itself if there is none.
pub open spec fn split<T>(s: Seq<T>, sep: T) -> Seq<Seq<T>>
    decreases s.len(),
{
    if s.len() == 0 {
        seq![Seq::empty()]
    } else {
        let rest = split(s.drop_first(), sep);
        if s[0] == sep {
            seq![Seq::empty()] + rest
        } else {
            seq![seq![s[0]] + rest[0]] + rest.drop_first()
        }
    }
}

/// The parts put together again, with `sep` between each two.
pub open spec fn join<T>(parts: Seq<Seq<T>>, sep: T) -> Seq<T>
    decreases parts.len(),
{
    if parts.len() == 0 {
        Seq::empty()
    } else if parts.len() == 1 {
        parts[0]
    } else {
        parts[0] + seq![sep] + join(parts.drop_first(), sep)
    }
}

/// The labels of a dotted name.
pub open spec fn labels_of(name: Seq<char>) -> Seq<Seq<char>> {
    split(name, '.')
}

/// The bytes of a dotted name on the wire: its labels, each behind its length
/// byte, then a zero byte.
pub open spec fn dotted_wire(name: Seq<char>) -> Seq<u8> {
    name_wire(labels_of(name))
}

/// `bytes` behind their length, reduced to one byte.
pub open spec fn prefixed(bytes: Seq<u8>) -> Seq<u8> {
    seq![(bytes.len() % 256) as u8] + bytes
}

/// Each part behind its length byte, then a zero byte.
pub open spec fn packed(parts: Seq<Seq<u8>>) -> Seq<u8>
    decreases parts.len(),
{
    if parts.len() == 0 {
        seq![0u8]
    } else {
        prefixed(parts[0]) + packed(parts.drop_first())
    }
}

/// The UTF-8 encoding of each text.
pub open spec fn encoded(texts: Seq<Seq<char>>) -> Seq<Seq<u8>> {
    Seq::new(texts.len(), |i: int| encode_utf8(texts[i]))
}

/// Splitting always gives at least one part.
pub proof fn lemma_split_len<T>(s: Seq<T>, sep: T)
    ensures
        split(s, sep).len() >= 1,
    decreases s.len(),
{
    if s.len() > 0 {
        lemma_split_len(s.drop_first(), sep);
    }
}

/// No part holds the separator, and joining the parts gives the sequence
/// back: `split` cuts at every separator and nowhere else.
pub proof fn lemma_join_split<T>(s: Seq<T>, sep: T)
    ensures
        join(split(s, sep), sep) == s,
        forall|i: int, j: int|
            0 <= i < split(s, sep).len() && 0 <= j < split(s, sep)[i].len() ==> split(
                s,
                sep,
            )[i][j] != sep,
    decreases s.len(),
{
    let parts = split(s, sep);
    if s.len() == 0 {
        assert(join(parts, sep) =~= s);
    } else {
        let tail = s.drop_first();
        let rest = split(tail, sep);
        lemma_split_len(tail, sep);
        lemma_join_split(tail, sep);
        if s[0] == sep {
            assert(parts.drop_first() =~= rest);
            assert(join(parts, sep) =~= s);
            assert forall|i: int, j: int|
                0 <= i < parts.len() && 0 <= j < parts[i].len() implies parts[i][j] != sep by {
                assert(parts[i] == rest[i - 1]);
            }
        } else {
            if rest.len() == 1 {
                assert(join(parts, sep) =~= s);
            } else {
                assert(parts.drop_first() =~= rest.drop_first());
                assert(join(parts, sep) =~= seq![s[0]] + join(rest, sep));
            }
            assert forall|i: int, j: int|
                0 <= i < parts.len() && 0 <= j < parts[i].len() implies parts[i][j] != sep by {
                if i == 0 {
                    if j > 0 {
                        assert(parts[0][j] == rest[0][j - 1]);
                    }
                } else {
                    assert(parts[i] == rest[i]);
                }
            }
        }
    }
}

/// Where the first separator of `s` stands at `k`, the first part is what
/// lies before `k` and the others are the parts of what lies behind it;
/// where there is none, `s` is the only part.
pub proof fn lemma_split_first<T>(s: Seq<T>, sep: T, k: int)
    requires
        0 <= k <= s.len(),
        forall|i: int| 0 <= i < k ==> s[i] != sep,
        k < s.len() ==> s[k] == sep,
    ensures
        split(s, sep) == if k == s.len() {
            seq![s]
        } else {
            seq![s.take(k)] + split(s.skip(k + 1), sep)
        },
    decreases k,
{
    if k == 0 {
        if s.len() == 0 {
            assert(s =~= Seq::empty());
        } else {
            assert(s.take(0) =~= Seq::empty());
            assert(s.skip(1) =~= s.drop_first());
        }
    } else {
        let tail = s.drop_first();
        let rest = split(tail, sep);
        lemma_split_first(tail, sep, k - 1);
        if k == s.len() {
            assert(seq![s[0]] + tail =~= s);
            assert(split(s, sep) =~= seq![s]);
        } else {
            assert(seq![s[0]] + tail.take(k - 1) =~= s.take(k));
            assert(tail.skip(k) =~= s.skip(k + 1));
            assert(split(s, sep) =~= seq![s.take(k)] + split(s.skip(k + 1), sep));
        }
    }
}

/// Putting a run without separator before a sequence lengthens its first
/// part by that run and leaves the other parts as they are.
pub proof fn lemma_split_prepend<T>(run: Seq<T>, s: Seq<T>, sep: T)
    requires
        forall|i: int| 0 <= i < run.len() ==> run[i] != sep,
    ensures
        split(run + s, sep) == seq![run + split(s, sep)[0]] + split(s, sep).drop_first(),
    decreases run.len(),
{
    lemma_split_len(s, sep);
    let parts = split(s, sep);
    if run.len() == 0 {
        assert(run + s =~= s);
        assert(run + parts[0] =~= parts[0]);
        assert(seq![parts[0]] + parts.drop_first() =~= parts);
    } else {
        let shorter = run.drop_first();
        assert((run + s).drop_first() =~= shorter + s);
        lemma_split_prepend(shorter, s, sep);
        assert(seq![run[0]] + (shorter + parts[0]) =~= run + parts[0]);
        assert((seq![shorter + parts[0]] + parts.drop_first()).drop_first() =~= parts.drop_first());
    }
}

/// The encoding of any character but `.` holds no byte `0x2e`, and the
/// encoding of `.` is that byte alone.
pub proof fn lemma_dot_is_one_byte(c: char)
    ensures
        c == '.' ==> encode_scalar(c as u32) == seq![DOT],
        c != '.' ==> forall|i: int|
            0 <= i < encode_scalar(c as u32).len() ==> #[trigger] encode_scalar(c as u32)[i] != DOT,
{
    let v = c as u32;
    assert({
        &&& v <= 0x7f ==> (((v & 0x7f) as u8 == 0x2e) <==> v == 0x2e)
        &&& 0xC0 | ((v >> 6) & 0x1F) as u8 != 0x2e
        &&& 0xE0 | ((v >> 12) & 0x0F) as u8 != 0x2e
        &&& 0xF0 | ((v >> 18) & 0x7) as u8 != 0x2e
        &&& 0x80 | (v & 0x3F) as u8 != 0x2e
        &&& 0x80 | ((v >> 6) & 0x3F) as u8 != 0x2e
        &&& 0x80 | ((v >> 12) & 0x3F) as u8 != 0x2e
    }) by (bit_vector);
    if c == '.' {
        assert(v == 0x2e);
        assert(encode_scalar(v) =~= seq![DOT]);
    }
}

/// Cutting the encoding of a text at the byte `0x2e` gives the encodings of
/// the parts that cutting the text at `.` gives: no character but `.` has
/// that byte in its encoding.
pub proof fn lemma_split_utf8(s: Seq<char>)
    ensures
        split(encode_utf8(s), DOT) == encoded(split(s, '.')),
    decreases s.len(),
{
    let bytes = encode_utf8(s);
    if s.len() == 0 {
        assert(encode_utf8(Seq::<char>::empty()) =~= Seq::<u8>::empty());
        assert(split(bytes, DOT) =~= encoded(split(s, '.')));
    } else {
        let tail = s.drop_first();
        let rest = split(tail, '.');
        let head = encode_scalar(s[0] as u32);
        lemma_split_utf8(tail);
        lemma_split_len(tail, '.');
        lemma_dot_is_one_byte(s[0]);
        assert(bytes == head + encode_utf8(tail));
        if s[0] == '.' {
            assert(bytes.drop_first() =~= encode_utf8(tail));
            assert(encode_utf8(Seq::<char>::empty()) =~= Seq::<u8>::empty());
            assert(split(bytes, DOT) =~= encoded(split(s, '.')));
        } else {
            lemma_split_prepend(head, encode_utf8(tail), DOT);
            let first = seq![s[0]] + rest[0];
            assert(first.drop_first() =~= rest[0]);
            assert(encode_utf8(first) == head + encode_utf8(rest[0]));
            assert(split(bytes, DOT) =~= encoded(split(s, '.')));
        }
    }
}

/// The bytes of a name are its labels' encodings, packed.
pub proof fn lemma_name_wire_packed(labels: Seq<Seq<char>>)
    ensures
        name_wire(labels) == packed(encoded(labels)),
    decreases labels.len(),
{
    if labels.len() > 0 {
        lemma_name_wire_packed(labels.drop_first());
        assert(encoded(labels).drop_first() =~= encoded(labels.drop_first()));
        assert(label_wire(labels[0]) == prefixed(encoded(labels)[0]));
    }
}

/// Appends `part` behind its length, reduced to one byte.
fn push_prefixed(out: &mut Vec<u8>, part: &[u8])
    ensures
        final(out)@ == old(out)@ + prefixed(part@),
{
    out.push((part.len() % 256) as u8);
    out.extend_from_slice(part);
    assert(final(out)@ =~= old(out)@ + prefixed(part@));
}

/// Appends the wire form of the dotted name `name` to `out`.
pub fn push_dotted(out: &mut Vec<u8>, name: &str)
    ensures
        final(out)@ == old(out)@ + dotted_wire(name@),
{
    let bytes = name.as_bytes();
    let ghost all = packed(split(bytes@, DOT));
    let mut start: usize = 0;
    let mut i: usize = 0;
    assert(bytes@.skip(0) =~= bytes@);
    assert(out@ + all =~= old(out)@ + all);
    while i < bytes.len()
        invariant
            start <= i <= bytes.len(),
            forall|k: int| start <= k < i ==> bytes@[k] != DOT,
            out@ + packed(split(bytes@.skip(start as int), DOT)) == old(out)@ + all,
        decreases bytes.len() - i,
    {
        if bytes[i] == DOT {
            let ghost before = out@;
            let ghost tail = bytes@.skip(start as int);
            push_prefixed(out, vstd::slice::slice_subrange(bytes, start, i));
            proof {
                lemma_split_first(tail, DOT, i - start);
                assert(tail.take(i - start) =~= bytes@.subrange(start as int, i as int));
                assert(tail.skip(i - start + 1) =~= bytes@.skip(i + 1));
                let parts = split(tail, DOT);
                assert(parts.drop_first() =~= split(bytes@.skip(i + 1), DOT));
                assert(out@ + packed(parts.drop_first()) =~= before + packed(parts));
            }
            start = i + 1;
        }
        i += 1;
    }
    let ghost before = out@;
    let ghost tail = bytes@.skip(start as int);
    push_prefixed(out, vstd::slice::slice_subrange(bytes, start, i));
    out.push(0);
    proof {
        lemma_split_first(tail, DOT, i - start);
        assert(tail =~= bytes@.subrange(start as int, i as int));
        let parts = split(tail, DOT);
        assert(parts == seq![tail]);
        assert(packed(parts.drop_first()) == seq![0u8]);
        assert(packed(parts) == prefixed(tail) + seq![0u8]);
        assert(out@ =~= before + packed(parts));
        lemma_split_utf8(name@);
        lemma_name_wire_packed(labels_of(name@));
    }
}

} // verus!
