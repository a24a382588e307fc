//! Whitespace between the tokens of a payload.
//!
//! A space, tab, line feed or carriage return may stand at either end of a
//! payload and next to a brace or a colon. There it means nothing and is taken
//! out before a payload is read. Anywhere else it parts two bytes of one token
//! and stays, so that such a payload matches no compact form.

use vstd::prelude::*;

verus! {

/// Whether `b` is a space, a tab, a line feed or a carriage return.
pub open spec fn is_space(b: u8) -> bool {
    b == ' ' as u8 || b == '\t' as u8 || b == '\n' as u8 || b == '\r' as u8
}

/// Whether `b` is `{`, `}` or `:`.
pub open spec fn is_punct(b: u8) -> bool {
    b == '{' as u8 || b == '}' as u8 || b == ':' as u8
}

/// `s` without the whitespace at its end.
pub open spec fn trim_end(s: Seq<u8>) -> Seq<u8>
    decreases s.len(),
{
    if s.len() > 0 && is_space(s.last()) {
        trim_end(s.drop_last())
    } else {
        s
    }
}

/// `s` without the whitespace that stands at its start, or before or after a
/// brace or a colon. Whitespace after any other byte is kept until a brace or
/// a colon follows.
pub open spec fn squeezed(s: Seq<u8>) -> Seq<u8>
    decreases s.len(),
{
    if s.len() == 0 {
        s
    } else {
        let head = squeezed(s.drop_last());
        let b = s.last();
        if is_space(b) {
            if head.len() > 0 && !is_punct(head.last()) {
                head.push(b)
            } else {
                head
            }
        } else if is_punct(b) {
            trim_end(head).push(b)
        } else {
            head.push(b)
        }
    }
}

/// `s` without its insignificant whitespace.
pub open spec fn compact(s: Seq<u8>) -> Seq<u8> {
    trim_end(squeezed(s))
}

/// Whether no byte of `s` is whitespace.
pub open spec fn solid(s: Seq<u8>) -> bool {
    forall|i: int| 0 <= i < s.len() ==> !is_space(#[trigger] s[i])
}

/// Bytes without whitespace are their own compact form.
pub proof fn lemma_compact_of_solid(s: Seq<u8>)
    requires
        solid(s),
    ensures
        squeezed(s) == s,
        compact(s) == s,
    decreases s.len(),
{
    if s.len() > 0 {
        let front = s.drop_last();
        assert forall|i: int| 0 <= i < front.len() implies !is_space(#[trigger] front[i]) by {
            assert(front[i] == s[i]);
        }
        lemma_compact_of_solid(front);
        assert(!is_space(s.last()));
        assert(front.push(s.last()) =~= s);
    }
}

/// Whether every byte of `s` is whitespace.
pub open spec fn blank(s: Seq<u8>) -> bool {
    forall|i: int| 0 <= i < s.len() ==> is_space(#[trigger] s[i])
}

/// What is squeezed out of `x + b` depends on `x` only through what is
/// squeezed out of `x`.
pub proof fn lemma_squeezed_extends(x: Seq<u8>, y: Seq<u8>, b: Seq<u8>)
    requires
        squeezed(x) == squeezed(y),
    ensures
        squeezed(x + b) == squeezed(y + b),
    decreases b.len(),
{
    if b.len() == 0 {
        assert(x + b =~= x);
        assert(y + b =~= y);
    } else {
        lemma_squeezed_extends(x, y, b.drop_last());
        assert((x + b).drop_last() =~= x + b.drop_last());
        assert((y + b).drop_last() =~= y + b.drop_last());
        assert((x + b).last() == b.last());
        assert((y + b).last() == b.last());
    }
}

/// Whitespace after `a` leaves nothing behind once the end is trimmed, and
/// nothing at all where `a` is empty or ends in a brace or a colon.
pub proof fn lemma_squeezed_blank_tail(a: Seq<u8>, w: Seq<u8>)
    requires
        blank(w),
    ensures
        trim_end(squeezed(a + w)) == trim_end(squeezed(a)),
        a.len() == 0 || is_punct(a.last()) ==> squeezed(a + w) == squeezed(a),
    decreases w.len(),
{
    if w.len() == 0 {
        assert(a + w =~= a);
    } else {
        let front = w.drop_last();
        assert forall|i: int| 0 <= i < front.len() implies is_space(#[trigger] front[i]) by {
            assert(front[i] == w[i]);
        }
        lemma_squeezed_blank_tail(a, front);
        assert((a + w).drop_last() =~= a + front);
        assert((a + w).last() == w.last());
        assert(is_space(w.last()));
        let head = squeezed(a + front);
        if head.len() > 0 && !is_punct(head.last()) {
            assert(head.push(w.last()).drop_last() =~= head);
        }
    }
}

/// Whitespace means nothing at either end of a payload and next to a brace or
/// a colon: with it or without it, the compact form is the same.
pub proof fn lemma_space_is_insignificant(a: Seq<u8>, w: Seq<u8>, b: Seq<u8>)
    requires
        blank(w),
        a.len() == 0 || b.len() == 0 || is_punct(a.last()) || is_punct(b.first()),
    ensures
        compact(a + w + b) == compact(a + b),
{
    lemma_squeezed_blank_tail(a, w);
    if b.len() == 0 {
        assert(a + w + b =~= a + w);
        assert(a + b =~= a);
    } else if a.len() == 0 || is_punct(a.last()) {
        lemma_squeezed_extends(a + w, a, b);
    } else {
        let p = seq![b.first()];
        let rest = b.subrange(1, b.len() as int);
        assert(b =~= p + rest);
        assert((a + w + p).drop_last() =~= a + w);
        assert((a + p).drop_last() =~= a);
        assert(squeezed(a + w + p) == squeezed(a + p));
        lemma_squeezed_extends(a + w + p, a + p, rest);
        assert(a + w + b =~= a + w + p + rest);
        assert(a + b =~= a + p + rest);
    }
}

/// Whether `b` is a space, a tab, a line feed or a carriage return.
fn space(b: u8) -> (r: bool)
    ensures
        r == is_space(b),
{
    b == ' ' as u8 || b == '\t' as u8 || b == '\n' as u8 || b == '\r' as u8
}

/// Whether `b` is `{`, `}` or `:`.
fn punct(b: u8) -> (r: bool)
    ensures
        r == is_punct(b),
{
    b == '{' as u8 || b == '}' as u8 || b == ':' as u8
}

/// Takes the whitespace off the end of `out`.
fn trim(out: &mut Vec<u8>)
    ensures
        final(out)@ == trim_end(old(out)@),
{
    while out.len() > 0 && space(out[out.len() - 1])
        invariant
            trim_end(out@) == trim_end(old(out)@),
        decreases out.len(),
    {
        out.pop();
    }
}

/// Copies `bytes` without their insignificant whitespace.
pub fn compact_bytes(bytes: &[u8]) -> (out: Vec<u8>)
    ensures
        out@ == compact(bytes@),
{
    let mut out: Vec<u8> = Vec::new();
    let mut i: usize = 0;
    while i < bytes.len()
        invariant
            i <= bytes.len(),
            out@ == squeezed(bytes@.take(i as int)),
        decreases bytes.len() - i,
    {
        let b: u8 = bytes[i];
        proof {
            let next = bytes@.take(i + 1);
            assert(next.drop_last() =~= bytes@.take(i as int));
            assert(next.last() == b);
        }
        if space(b) {
            if out.len() > 0 && !punct(out[out.len() - 1]) {
                out.push(b);
            }
        } else if punct(b) {
            trim(&mut out);
            out.push(b);
        } else {
            out.push(b);
        }
        i += 1;
    }
    proof {
        assert(bytes@.take(i as int) =~= bytes@);
    }
    trim(&mut out);
    out
}

} // verus!
