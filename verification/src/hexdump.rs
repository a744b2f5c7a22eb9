//! A hex dump of a buffer, as ASCII text: sixteen bytes to a line, each line
//! with its offset, the bytes in hexadecimal, and the bytes as characters.

use vstd::prelude::*;

verus! {

/// The number of bytes shown on one line.
pub const WIDTH: usize = 16;

/// ASCII space.
pub const SPACE: u8 = 0x20;

/// ASCII colon.
pub const COLON: u8 = 0x3a;

/// ASCII full stop, shown in place of a byte that has no printable character.
pub const PERIOD: u8 = 0x2e;

/// ASCII line feed.
pub const NEWLINE: u8 = 0x0a;

/// The lower-case hexadecimal digit for `d`, for `0 <= d <= 15`.
pub open spec fn hex_digit(d: int) -> u8 {
    if d < 10 {
        (0x30 + d) as u8
    } else {
        (0x57 + d) as u8
    }
}

/// `n` in hexadecimal, most significant digit first, with zeros before it
/// where it has fewer than `width` digits.
pub open spec fn hex_padded(n: nat, width: nat) -> Seq<u8>
    decreases n, width,
{
    if n < 16 && width <= 1 {
        seq![hex_digit(n as int)]
    } else {
        hex_padded(n / 16, if width > 0 { (width - 1) as nat } else { 0 }).push(
            hex_digit((n % 16) as int),
        )
    }
}

/// One byte as two hexadecimal digits and a space.
pub open spec fn cell(b: u8) -> Seq<u8> {
    seq![hex_digit(b as int / 16), hex_digit(b as int % 16), SPACE]
}

/// The cells of the bytes of `chunk`, in order.
pub open spec fn cells(chunk: Seq<u8>) -> Seq<u8>
    decreases chunk.len(),
{
    if chunk.len() == 0 {
        Seq::empty()
    } else {
        cells(chunk.drop_last()) + cell(chunk.last())
    }
}

/// `n` spaces.
pub open spec fn blanks(n: int) -> Seq<u8> {
    Seq::new(if n > 0 { n as nat } else { 0 }, |i: int| SPACE)
}

/// The character that stands for `b`: itself where it is printable ASCII, a
/// full stop where it is not.
pub open spec fn shown(b: u8) -> u8 {
    if 32 <= b <= 126 {
        b
    } else {
        PERIOD
    }
}

/// The bytes of `chunk` as characters.
pub open spec fn gloss(chunk: Seq<u8>) -> Seq<u8> {
    Seq::new(chunk.len(), |i: int| shown(chunk[i]))
}

/// One line of the dump: the offset in at least eight hexadecimal digits, a
/// colon and a space, a cell for each byte, three spaces for each byte that
/// the line has fewer than sixteen (none where it has more), two spaces, the
/// bytes as characters, and a line feed.
pub open spec fn line(offset: nat, chunk: Seq<u8>) -> Seq<u8> {
    hex_padded(offset, 8) + seq![COLON, SPACE] + cells(chunk) + blanks(3 * (16 - chunk.len()))
        + seq![SPACE, SPACE] + gloss(chunk) + seq![NEWLINE]
}

/// The lines for the bytes of `buf` from `at` on, sixteen bytes to a line.
pub open spec fn dump_from(buf: Seq<u8>, at: nat) -> Seq<u8>
    decreases buf.len() - at,
{
    if at >= buf.len() {
        Seq::empty()
    } else {
        let end = if at + 16 <= buf.len() {
            at + 16
        } else {
            buf.len()
        };
        line(at, buf.subrange(at as int, end as int)) + dump_from(buf, end)
    }
}

/// The dump of `buf`: nothing for an empty buffer.
pub open spec fn dump(buf: Seq<u8>) -> Seq<u8> {
    dump_from(buf, 0)
}

fn digit(d: usize) -> (c: u8)
    requires
        d < 16,
    ensures
        c == hex_digit(d as int),
{
    if d < 10 {
        0x30 + d as u8
    } else {
        0x57 + d as u8
    }
}

/// Appends `n` in hexadecimal, in at least `width` digits.
pub fn push_hex(out: &mut Vec<u8>, n: usize, width: usize)
    ensures
        final(out)@ == old(out)@ + hex_padded(n as nat, width as nat),
    decreases n, width,
{
    if n >= 16 || width > 1 {
        push_hex(out, n / 16, if width > 0 { width - 1 } else { 0 });
    }
    out.push(digit(n % 16));
    assert(final(out)@ =~= old(out)@ + hex_padded(n as nat, width as nat));
}

/// Appends one line of the dump.
pub fn push_line(out: &mut Vec<u8>, offset: usize, chunk: &[u8])
    ensures
        final(out)@ == old(out)@ + line(offset as nat, chunk@),
{
    let ghost start = out@;
    push_hex(out, offset, 8);
    out.push(COLON);
    out.push(SPACE);
    let ghost head = out@;
    let mut i: usize = 0;
    assert(chunk@.take(0) =~= Seq::empty());
    while i < chunk.len()
        invariant
            i <= chunk.len(),
            out@ == head + cells(chunk@.take(i as int)),
        decreases chunk.len() - i,
    {
        let b = chunk[i];
        out.push(digit((b / 16) as usize));
        out.push(digit((b % 16) as usize));
        out.push(SPACE);
        i += 1;
        proof {
            let t = chunk@.take(i as int);
            assert(t.drop_last() =~= chunk@.take(i - 1));
            assert(t.last() == b);
            assert(out@ =~= head + cells(t));
        }
    }
    assert(chunk@.take(i as int) =~= chunk@);
    let ghost body = out@;
    let pad = if chunk.len() < WIDTH {
        3 * (WIDTH - chunk.len())
    } else {
        0
    };
    let mut j: usize = 0;
    while j < pad
        invariant
            j <= pad,
            out@ == body + blanks(j as int),
        decreases pad - j,
    {
        out.push(SPACE);
        j += 1;
        assert(out@ =~= body + blanks(j as int));
    }
    out.push(SPACE);
    out.push(SPACE);
    let ghost padded = out@;
    let mut k: usize = 0;
    while k < chunk.len()
        invariant
            k <= chunk.len(),
            out@ == padded + gloss(chunk@.take(k as int)),
        decreases chunk.len() - k,
    {
        let b = chunk[k];
        out.push(if 32 <= b && b <= 126 { b } else { PERIOD });
        k += 1;
        assert(out@ =~= padded + gloss(chunk@.take(k as int)));
    }
    assert(chunk@.take(k as int) =~= chunk@);
    out.push(NEWLINE);
    assert(out@ =~= start + line(offset as nat, chunk@));
}

/// Renders the dump of `buf`.
pub fn render(buf: &[u8]) -> (text: Vec<u8>)
    ensures
        text@ == dump(buf@),
{
    let mut text: Vec<u8> = Vec::new();
    let mut at: usize = 0;
    assert(text@ + dump_from(buf@, 0) =~= dump(buf@));
    while at < buf.len()
        invariant
            at <= buf.len(),
            text@ + dump_from(buf@, at as nat) == dump(buf@),
        decreases buf.len() - at,
    {
        let ghost before = text@;
        let end = if buf.len() - at >= WIDTH {
            at + WIDTH
        } else {
            buf.len()
        };
        push_line(&mut text, at, vstd::slice::slice_subrange(buf, at, end));
        proof {
            assert(text@ + dump_from(buf@, end as nat) =~= before + dump_from(buf@, at as nat));
        }
        at = end;
    }
    assert(text@ =~= text@ + dump_from(buf@, at as nat));
    text
}

} // verus!
