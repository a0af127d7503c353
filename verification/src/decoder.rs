//! The line decoder: bytes in, decoded lines out, with the bytes of an
//! unfinished line carried over to the next call.

use crate::lines::{
    complete_lines, lemma_division_unbroken, lemma_line_end, lemma_line_feed_completes,
    lemma_unbroken_extends_pending, pending, unbroken, without_carriage_return, CARRIAGE_RETURN,
    LINE_FEED,
};
use vstd::prelude::*;
use vstd::slice::slice_subrange;

verus! {

/// The longest line, in bytes, that the decoder takes.  Up to this length
/// the size of the text buffer that decoding allocates can be computed
/// without overflow.
pub const MAX_LINE_BYTES: usize = usize::MAX / 16;

/// The text that `encoding_rs` decodes `bytes` to as GB18030, with a byte
/// order mark at the start switching to UTF-8 or UTF-16 and dropped, and
/// with U+FFFD in place of each malformed sequence.
pub uninterp spec fn gb18030_decoded(bytes: Seq<u8>) -> Seq<char>;

/// Calls `encoding_rs::Encoding::decode` on `encoding_rs::GB18030` and keeps
/// the text.  Trusted: the text is a function of the bytes alone, named
/// `gb18030_decoded`.  The call panics only where the size of its text
/// buffer overflows; the bound on the length keeps that size, at most six
/// times the length and a few bytes, within range.
#[verifier::external_body]
fn decode_gb18030(bytes: &[u8]) -> (text: String)
    requires
        bytes@.len() <= MAX_LINE_BYTES,
    ensures
        text@ == gb18030_decoded(bytes@),
{
    let (text, _, _) = encoding_rs::GB18030.decode(bytes);
    text.into_owned()
}

/// The text of a line: its bytes decoded, without the carriage return at
/// their end if there is one.
pub open spec fn line_text(line: Seq<u8>) -> Seq<char> {
    gb18030_decoded(without_carriage_return(line))
}

/// Decodes one line, given without its line feed.  Decoding never fails:
/// a malformed sequence becomes U+FFFD.
pub fn decode_line(line: &[u8]) -> (text: String)
    requires
        line@.len() <= MAX_LINE_BYTES,
    ensures
        text@ == line_text(line@),
{
    let n: usize = line.len();
    if n > 0 && line[n - 1] == CARRIAGE_RETURN {
        decode_gb18030(slice_subrange(line, 0, n - 1))
    } else {
        decode_gb18030(line)
    }
}

/// Cuts a byte stream that arrives in pieces into decoded lines.
///
/// The view is what has arrived since the last line feed.  It never holds
/// a line feed and is never longer than `MAX_LINE_BYTES`.
pub struct LineDecoder {
    carry: Vec<u8>,
}

impl View for LineDecoder {
    type V = Seq<u8>;

    closed spec fn view(&self) -> Seq<u8> {
        self.carry@
    }
}

impl LineDecoder {
    #[verifier::type_invariant]
    spec fn carry_is_one_line(self) -> bool {
        unbroken(self.carry@) && self.carry@.len() <= MAX_LINE_BYTES
    }

    /// A decoder that has seen nothing.
    pub fn new() -> (decoder: Self)
        ensures
            decoder@ == Seq::<u8>::empty(),
    {
        LineDecoder { carry: Vec::new() }
    }

    /// The number of bytes carried over.
    pub fn buffered(&self) -> (n: usize)
        ensures
            n == self@.len(),
            n <= MAX_LINE_BYTES,
            unbroken(self@),
    {
        proof {
            use_type_invariant(self);
        }
        self.carry.len()
    }

    /// Whether `incoming` more bytes can be fed: with them the line that
    /// is carried over stays within `MAX_LINE_BYTES`.
    pub fn fits(&self, incoming: usize) -> (fits: bool)
        ensures
            fits == (self@.len() + incoming <= MAX_LINE_BYTES),
    {
        incoming <= MAX_LINE_BYTES && self.buffered() <= MAX_LINE_BYTES - incoming
    }

    /// Takes the next bytes of the stream and returns the lines that they
    /// complete, in order, decoded.  The bytes after the last line feed are
    /// carried over.
    pub fn feed(&mut self, bytes: &[u8]) -> (texts: Vec<String>)
        requires
            old(self)@.len() + bytes@.len() <= MAX_LINE_BYTES,
        ensures
            final(self)@ == pending(old(self)@ + bytes@),
            texts@.len() == complete_lines(old(self)@ + bytes@).len(),
            forall|k: int|
                0 <= k < texts@.len() ==> (#[trigger] texts@[k])@ == line_text(
                    complete_lines(old(self)@ + bytes@)[k],
                ),
    {
        proof {
            use_type_invariant(&*self);
        }
        let mut carry: Vec<u8> = Vec::new();
        std::mem::swap(&mut carry, &mut self.carry);
        let ghost before = carry@;
        proof {
            lemma_line_end(before);
        }
        let mut texts: Vec<String> = Vec::new();
        let mut start: usize = 0;
        let mut i: usize = 0;
        while i < bytes.len()
            invariant
                start <= i <= bytes@.len(),
                before.len() + bytes@.len() <= MAX_LINE_BYTES,
                unbroken(bytes@.subrange(start as int, i as int)),
                carry@ == pending(before + bytes@.take(start as int)),
                carry@.len() <= before.len() + start,
                texts@.len() == complete_lines(before + bytes@.take(start as int)).len(),
                forall|k: int|
                    0 <= k < texts@.len() ==> (#[trigger] texts@[k])@ == line_text(
                        complete_lines(before + bytes@.take(start as int))[k],
                    ),
            decreases bytes@.len() - i,
        {
            let ghost done = before + bytes@.take(start as int);
            let ghost run = bytes@.subrange(start as int, i as int);
            if bytes[i] == LINE_FEED {
                carry.extend_from_slice(slice_subrange(bytes, start, i));
                proof {
                    lemma_unbroken_extends_pending(done, run);
                    lemma_line_feed_completes(done + run);
                    assert(carry@ =~= pending(done) + run);
                    assert(done + run + seq![LINE_FEED] =~= before + bytes@.take(i + 1));
                }
                let text = decode_line(carry.as_slice());
                texts.push(text);
                carry.clear();
                start = i + 1;
            } else {
                assert(unbroken(bytes@.subrange(start as int, i + 1)));
            }
            i += 1;
        }
        let ghost done = before + bytes@.take(start as int);
        let ghost run = bytes@.subrange(start as int, bytes@.len() as int);
        carry.extend_from_slice(slice_subrange(bytes, start, bytes.len()));
        proof {
            lemma_unbroken_extends_pending(done, run);
            assert(carry@ =~= pending(done) + run);
            assert(done + run =~= before + bytes@);
            assert(unbroken(carry@)) by {
                lemma_division_unbroken(before + bytes@);
            }
        }
        self.carry = carry;
        texts
    }

    /// Ends the stream: what was carried over, if anything, is decoded as
    /// a last line without a line feed, and the decoder is empty again.
    pub fn finish(&mut self) -> (last: Option<String>)
        ensures
            final(self)@ == Seq::<u8>::empty(),
            old(self)@.len() == 0 ==> last is None,
            old(self)@.len() > 0 ==> last is Some && last->0@ == line_text(old(self)@),
    {
        proof {
            use_type_invariant(&*self);
        }
        let mut carry: Vec<u8> = Vec::new();
        std::mem::swap(&mut carry, &mut self.carry);
        if carry.len() == 0 {
            None
        } else {
            Some(decode_line(carry.as_slice()))
        }
    }
}

} // verus!
