//! How a byte stream divides into lines.
//!
//! A line ends at a line feed.  Whatever follows the last line feed is
//! pending: it belongs to a line whose end has not arrived.  The functions
//! here are the model that the decoder and the drainer are specified by;
//! the lemmas state that the division loses nothing, is the only one, and
//! does not depend on how the stream was cut into reads.

use vstd::prelude::*;

verus! {

/// The byte that ends a line.
pub const LINE_FEED: u8 = 10;

/// The byte that may stand before the line feed and is then dropped too.
pub const CARRIAGE_RETURN: u8 = 13;

/// Whether no byte of `s` is a line feed.
pub open spec fn unbroken(s: Seq<u8>) -> bool {
    forall|i: int| 0 <= i < s.len() ==> s[i] != LINE_FEED
}

/// The number of bytes before the first line feed of `s`; the length of
/// `s` where it holds none.
pub open spec fn line_end(s: Seq<u8>) -> nat
    decreases s.len(),
{
    if s.len() == 0 || s[0] == LINE_FEED {
        0
    } else {
        1 + line_end(s.skip(1))
    }
}

/// The lines of `s` that are complete, in order, each without its line
/// feed.
pub open spec fn complete_lines(s: Seq<u8>) -> Seq<Seq<u8>>
    decreases s.len(),
{
    let n = line_end(s) as int;
    if n >= s.len() {
        Seq::empty()
    } else {
        seq![s.take(n)] + complete_lines(s.skip(n + 1))
    }
}

/// What follows the last line feed of `s`; all of `s` where it holds none.
pub open spec fn pending(s: Seq<u8>) -> Seq<u8>
    decreases s.len(),
{
    let n = line_end(s) as int;
    if n >= s.len() {
        s
    } else {
        pending(s.skip(n + 1))
    }
}

/// The lines written out again, each followed by a line feed.
pub open spec fn terminated(lines: Seq<Seq<u8>>) -> Seq<u8>
    decreases lines.len(),
{
    if lines.len() == 0 {
        Seq::empty()
    } else {
        lines[0] + seq![LINE_FEED] + terminated(lines.skip(1))
    }
}

/// A line without the carriage return at its end, if it has one.
pub open spec fn without_carriage_return(line: Seq<u8>) -> Seq<u8> {
    if line.len() > 0 && line.last() == CARRIAGE_RETURN {
        line.drop_last()
    } else {
        line
    }
}

/// All the chunks of a stream, one after the other.
pub open spec fn joined(chunks: Seq<Seq<u8>>) -> Seq<u8>
    decreases chunks.len(),
{
    if chunks.len() == 0 {
        Seq::empty()
    } else {
        chunks[0] + joined(chunks.skip(1))
    }
}

/// The lines that come out when a stream arrives chunk by chunk and each
/// chunk is divided together with what the chunks before it left pending.
pub open spec fn lines_by_chunk(carry: Seq<u8>, chunks: Seq<Seq<u8>>) -> Seq<Seq<u8>>
    decreases chunks.len(),
{
    if chunks.len() == 0 {
        Seq::empty()
    } else {
        complete_lines(carry + chunks[0]) + lines_by_chunk(
            pending(carry + chunks[0]),
            chunks.skip(1),
        )
    }
}

/// What is left pending after the last chunk.
pub open spec fn pending_by_chunk(carry: Seq<u8>, chunks: Seq<Seq<u8>>) -> Seq<u8>
    decreases chunks.len(),
{
    if chunks.len() == 0 {
        carry
    } else {
        pending_by_chunk(pending(carry + chunks[0]), chunks.skip(1))
    }
}

/// `line_end` is the index of the first line feed: it lies within `s`, no
/// byte before it is a line feed, and the byte at it, if there is one, is.
pub proof fn lemma_line_end(s: Seq<u8>)
    ensures
        line_end(s) <= s.len(),
        unbroken(s.take(line_end(s) as int)),
        line_end(s) < s.len() ==> s[line_end(s) as int] == LINE_FEED,
        unbroken(s) <==> line_end(s) == s.len(),
    decreases s.len(),
{
    if s.len() > 0 && s[0] != LINE_FEED {
        let t = s.skip(1);
        lemma_line_end(t);
        let n = line_end(s) as int;
        assert forall|i: int| 0 <= i < n implies s.take(n)[i] != LINE_FEED by {
            if i > 0 {
                assert(t.take(n - 1)[i - 1] == s[i]);
            }
        }
        if unbroken(s) {
            assert(unbroken(t));
        }
        if line_end(s) == s.len() {
            assert forall|i: int| 0 <= i < s.len() implies s[i] != LINE_FEED by {
                assert(s.take(n)[i] == s[i]);
            }
        }
    }
}

/// The first line feed of `a + b` is that of `a` where `a` has one, and
/// otherwise lies as far into `b` as the first line feed of `b`.
pub proof fn lemma_line_end_concat(a: Seq<u8>, b: Seq<u8>)
    ensures
        line_end(a) < a.len() ==> line_end(a + b) == line_end(a),
        line_end(a) == a.len() ==> line_end(a + b) == a.len() + line_end(b),
    decreases a.len(),
{
    lemma_line_end(a);
    if a.len() > 0 && a[0] != LINE_FEED {
        assert((a + b).skip(1) =~= a.skip(1) + b);
        lemma_line_end_concat(a.skip(1), b);
    }
}

/// Nothing is lost: the complete lines, each with its line feed, followed
/// by what is pending, are the stream.
pub proof fn lemma_division_reassembles(s: Seq<u8>)
    ensures
        terminated(complete_lines(s)) + pending(s) == s,
    decreases s.len(),
{
    lemma_line_end(s);
    let n = line_end(s) as int;
    if n < s.len() {
        let rest = s.skip(n + 1);
        lemma_division_reassembles(rest);
        let lines = complete_lines(s);
        assert(lines.skip(1) =~= complete_lines(rest));
        assert(s.take(n) + seq![LINE_FEED] + terminated(complete_lines(rest)) + pending(rest)
            =~= s.take(n) + seq![LINE_FEED] + (terminated(complete_lines(rest)) + pending(rest)));
    }
}

/// No complete line holds a line feed, and neither does what is pending.
pub proof fn lemma_division_unbroken(s: Seq<u8>)
    ensures
        forall|k: int| 0 <= k < complete_lines(s).len() ==> unbroken(#[trigger] complete_lines(s)[k]),
        unbroken(pending(s)),
    decreases s.len(),
{
    lemma_line_end(s);
    let n = line_end(s) as int;
    if n < s.len() {
        let rest = s.skip(n + 1);
        lemma_division_unbroken(rest);
        assert forall|k: int| 0 <= k < complete_lines(s).len() implies unbroken(
            #[trigger] complete_lines(s)[k],
        ) by {
            if k > 0 {
                assert(complete_lines(s)[k] == complete_lines(rest)[k - 1]);
            }
        }
    }
}

/// The division is the only one: lines without line feeds, each followed
/// by a line feed, and a rest without line feeds make up a stream only if
/// they are its complete lines and what it leaves pending.
pub proof fn lemma_division_unique(lines: Seq<Seq<u8>>, rest: Seq<u8>)
    requires
        forall|k: int| 0 <= k < lines.len() ==> unbroken(#[trigger] lines[k]),
        unbroken(rest),
    ensures
        complete_lines(terminated(lines) + rest) == lines,
        pending(terminated(lines) + rest) == rest,
    decreases lines.len(),
{
    let s = terminated(lines) + rest;
    if lines.len() == 0 {
        lemma_line_end(rest);
    } else {
        let first = lines[0];
        let tail = lines.skip(1);
        let after = terminated(tail) + rest;
        lemma_line_end(first);
        lemma_line_end_concat(first, seq![LINE_FEED] + after);
        assert(s =~= first + (seq![LINE_FEED] + after));
        let n = line_end(s) as int;
        assert(s.take(n) =~= first);
        assert(s.skip(n + 1) =~= after);
        lemma_division_unique(tail, rest);
    }
}

/// Cutting a stream in two changes nothing: the lines of `a + b` are the
/// lines of `a`, then the lines of what `a` left pending followed by `b`,
/// and the same is left pending.
pub proof fn lemma_division_of_concat(a: Seq<u8>, b: Seq<u8>)
    ensures
        complete_lines(a + b) == complete_lines(a) + complete_lines(pending(a) + b),
        pending(a + b) == pending(pending(a) + b),
    decreases a.len(),
{
    lemma_line_end(a);
    lemma_line_end_concat(a, b);
    let n = line_end(a) as int;
    if n < a.len() {
        let rest = a.skip(n + 1);
        lemma_division_of_concat(rest, b);
        assert((a + b).take(n) =~= a.take(n));
        assert((a + b).skip(n + 1) =~= rest + b);
    }
}

/// A stream that arrives in chunks yields the lines of the whole stream,
/// in the order in which they were written, and leaves pending what the
/// whole stream leaves pending.
pub proof fn lemma_chunks_keep_order(carry: Seq<u8>, chunks: Seq<Seq<u8>>)
    ensures
        complete_lines(carry) + lines_by_chunk(pending(carry), chunks) == complete_lines(
            carry + joined(chunks),
        ),
        pending_by_chunk(pending(carry), chunks) == pending(carry + joined(chunks)),
    decreases chunks.len(),
{
    if chunks.len() == 0 {
        lemma_pending_is_fixed(carry);
    } else {
        let first = chunks[0];
        let tail = chunks.skip(1);
        let next = carry + first;
        lemma_division_of_concat(carry, first);
        lemma_chunks_keep_order(next, tail);
        assert(next + joined(tail) =~= carry + joined(chunks));
        lemma_pending_is_fixed(carry);
        lemma_division_of_concat(pending(carry), first);
    }
}

/// What is pending holds no complete line and is its own pending part.
pub proof fn lemma_pending_is_fixed(s: Seq<u8>)
    ensures
        complete_lines(pending(s)) == Seq::<Seq<u8>>::empty(),
        pending(pending(s)) == pending(s),
{
    lemma_division_unbroken(s);
    lemma_line_end(pending(s));
}

/// A run of bytes without a line feed completes nothing: it is added to
/// what is pending.
pub proof fn lemma_unbroken_extends_pending(s: Seq<u8>, run: Seq<u8>)
    requires
        unbroken(run),
    ensures
        complete_lines(s + run) == complete_lines(s),
        pending(s + run) == pending(s) + run,
{
    lemma_division_of_concat(s, run);
    lemma_division_unbroken(s);
    lemma_line_end(pending(s) + run);
}

/// A line feed completes one line, made of what was pending, and leaves
/// nothing pending.
pub proof fn lemma_line_feed_completes(s: Seq<u8>)
    ensures
        complete_lines(s + seq![LINE_FEED]) == complete_lines(s).push(pending(s)),
        pending(s + seq![LINE_FEED]) == Seq::<u8>::empty(),
{
    let feed = seq![LINE_FEED];
    lemma_division_of_concat(s, feed);
    lemma_division_unbroken(s);
    let p = pending(s);
    lemma_line_end(p);
    lemma_line_end_concat(p, feed);
    let n = p.len() as int;
    assert((p + feed).take(n) =~= p);
    assert((p + feed).skip(n + 1) =~= Seq::<u8>::empty());
    assert(complete_lines(Seq::<u8>::empty()) =~= Seq::<Seq<u8>>::empty());
    assert(pending(Seq::<u8>::empty()) =~= Seq::<u8>::empty());
}

} // verus!
