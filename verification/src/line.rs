//! Line framing for the wire protocol.
//!
//! The protocol exchanges plain text lines over a byte stream; the only
//! framing is a single `\n` delimiter after each line. A logical message
//! never contains an embedded newline. These functions are the computational
//! core of the line channel: what arrives from a socket is a byte buffer,
//! and what goes out is a line's content followed by one delimiter.

use vstd::prelude::*;

verus! {

/// The line delimiter: `\n`.
pub const NEWLINE: u8 = 10;

/// A line's content is well formed when it holds no newline byte:
/// the delimiter is the protocol's only framing, so content must not
/// contain it.
pub open spec fn line_ok(s: Seq<u8>) -> bool {
    forall|i: int| 0 <= i < s.len() ==> s[i] != NEWLINE
}

/// The encoded form of a line: its content followed by one delimiter.
pub open spec fn encoded(content: Seq<u8>) -> Seq<u8> {
    content + seq![NEWLINE]
}

/// A broadcast message as the server formats it: `[<addr>]: <content>`.
pub open spec fn tagged(addr: Seq<u8>, content: Seq<u8>) -> Seq<u8> {
    seq![91u8] + addr + seq![93u8, 58u8, 32u8] + content
}

/// Index of the first newline byte in `buf`, if any.
pub fn find_newline(buf: &Vec<u8>) -> (r: Option<usize>)
    ensures
        match r {
            Some(i) => i < buf@.len() && buf@[i as int] == NEWLINE && line_ok(buf@.subrange(0, i as int)),
            None => line_ok(buf@),
        },
{
    let n = buf.len();
    let mut i: usize = 0;
    while i < n
        invariant
            i <= n,
            n == buf@.len(),
            line_ok(buf@.subrange(0, i as int)),
        decreases n - i,
    {
        if buf[i] == NEWLINE {
            return Some(i);
        }
        assert(buf@.subrange(0, i + 1 as int) == buf@.subrange(0, i as int).push(buf@[i as int]));
        i = i + 1;
    }
    assert(buf@.subrange(0, n as int) == buf@);
    None
}

/// Splits the first complete line off a buffer: returns the content before
/// the first delimiter and the remainder after it, or `None` when the buffer
/// holds no complete line yet.
pub fn split_line(buf: &Vec<u8>) -> (r: Option<(Vec<u8>, Vec<u8>)>)
    ensures
        match r {
            Some(pair) => buf@ == encoded(pair.0@) + pair.1@ && line_ok(pair.0@),
            None => line_ok(buf@),
        },
{
    match find_newline(buf) {
        None => None,
        Some(i) => {
            let mut content: Vec<u8> = Vec::new();
            let mut j: usize = 0;
            while j < i
                invariant
                    j <= i,
                    i < buf@.len(),
                    content@ == buf@.subrange(0, j as int),
                decreases i - j,
            {
                content.push(buf[j]);
                assert(buf@.subrange(0, j + 1 as int) == buf@.subrange(0, j as int).push(buf@[j as int]));
                j = j + 1;
            }
            let total = buf.len();
            let mut rest: Vec<u8> = Vec::new();
            let mut k: usize = i + 1;
            while k < total
                invariant
                    i + 1 <= k <= total,
                    total == buf@.len(),
                    rest@ == buf@.subrange(i + 1 as int, k as int),
                decreases total - k,
            {
                rest.push(buf[k]);
                assert(buf@.subrange(i + 1 as int, k + 1 as int)
                    == buf@.subrange(i + 1 as int, k as int).push(buf@[k as int]));
                k = k + 1;
            }
            assert(buf@ == encoded(content@) + rest@) by {
                assert(content@ == buf@.subrange(0, i as int));
                assert(rest@ == buf@.subrange(i + 1 as int, buf@.len() as int));
                assert(buf@ =~= encoded(buf@.subrange(0, i as int)) + buf@.subrange(i + 1 as int, buf@.len() as int));
            }
            Some((content, rest))
        },
    }
}

/// Encodes one line for the wire: the content followed by a single
/// delimiter, exactly what one `write_line` call puts on the stream.
pub fn encode_line(content: &Vec<u8>) -> (r: Vec<u8>)
    requires
        line_ok(content@),
        content@.len() < usize::MAX,
    ensures
        r@ == encoded(content@),
{
    let mut r = copy_bytes(content);
    r.push(NEWLINE);
    r
}

/// Formats a received line for broadcast, tagging it with the sender's
/// peer address: `[<addr>]: <content>`.
pub fn format_message(addr: &Vec<u8>, content: &Vec<u8>) -> (r: Vec<u8>)
    requires
        addr@.len() + content@.len() + 4 <= usize::MAX,
    ensures
        r@ == tagged(addr@, content@),
{
    let mut r: Vec<u8> = Vec::new();
    r.push(91);
    append_bytes(&mut r, addr);
    r.push(93);
    r.push(58);
    r.push(32);
    append_bytes(&mut r, content);
    assert(r@ =~= tagged(addr@, content@));
    r
}

/// Byte-for-byte copy of a buffer.
pub fn copy_bytes(v: &Vec<u8>) -> (r: Vec<u8>)
    ensures
        r@ == v@,
{
    let mut r: Vec<u8> = Vec::new();
    let n = v.len();
    let mut i: usize = 0;
    while i < n
        invariant
            i <= n,
            n == v@.len(),
            r@ == v@.subrange(0, i as int),
        decreases n - i,
    {
        r.push(v[i]);
        assert(v@.subrange(0, i + 1 as int) == v@.subrange(0, i as int).push(v@[i as int]));
        i = i + 1;
    }
    assert(v@.subrange(0, n as int) == v@);
    r
}

/// Appends `src` to `dst`.
fn append_bytes(dst: &mut Vec<u8>, src: &Vec<u8>)
    requires
        old(dst)@.len() + src@.len() <= usize::MAX,
    ensures
        final(dst)@ == old(dst)@ + src@,
{
    let n = src.len();
    let mut i: usize = 0;
    while i < n
        invariant
            i <= n,
            n == src@.len(),
            dst@ == old(dst)@ + src@.subrange(0, i as int),
        decreases n - i,
    {
        dst.push(src[i]);
        assert(src@.subrange(0, i + 1 as int) == src@.subrange(0, i as int).push(src@[i as int]));
        assert(dst@ =~= old(dst)@ + src@.subrange(0, i + 1 as int));
        i = i + 1;
    }
    assert(src@.subrange(0, n as int) == src@);
}

/// The framing is unambiguous: a byte stream parses as at most one sequence
/// of lines. If one buffer reads both as line `l1` followed by `r1` and as
/// line `l2` followed by `r2`, the two readings agree. This is why two
/// messages written back to back arrive at the reader whole and in order.
pub proof fn lemma_framing_unambiguous(buf: Seq<u8>, l1: Seq<u8>, r1: Seq<u8>, l2: Seq<u8>, r2: Seq<u8>)
    requires
        line_ok(l1),
        line_ok(l2),
        buf == encoded(l1) + r1,
        buf == encoded(l2) + r2,
    ensures
        l1 == l2,
        r1 == r2,
{
    if l1.len() < l2.len() {
        assert(buf[l1.len() as int] == NEWLINE);
        assert(buf[l1.len() as int] == l2[l1.len() as int]);
        assert(false);
    }
    if l2.len() < l1.len() {
        assert(buf[l2.len() as int] == NEWLINE);
        assert(buf[l2.len() as int] == l1[l2.len() as int]);
        assert(false);
    }
    assert(l1 =~= l2) by {
        assert(forall|i: int| 0 <= i < l1.len() ==> l1[i] == buf[i] && l2[i] == buf[i]);
    }
    assert(r1 =~= r2) by {
        assert(buf.len() == l1.len() + 1 + r1.len());
        assert(buf.len() == l2.len() + 1 + r2.len());
        assert forall|i: int| 0 <= i < r1.len() implies r1[i] == r2[i] by {
            assert((encoded(l1) + r1)[l1.len() + 1 + i] == r1[i]);
            assert((encoded(l2) + r2)[l2.len() + 1 + i] == r2[i]);
        }
    }
}

/// A tagged broadcast message carries the original content verbatim: the
/// bytes after `[<addr>]: ` are exactly the line the sender wrote.
pub proof fn lemma_tagged_carries_content(addr: Seq<u8>, content: Seq<u8>)
    ensures
        tagged(addr, content).len() == addr.len() + 4 + content.len(),
        tagged(addr, content).subrange(addr.len() as int + 4, tagged(addr, content).len() as int) == content,
{
    assert(tagged(addr, content).subrange(addr.len() as int + 4, tagged(addr, content).len() as int) =~= content);
}

} // verus!
