//! Splitting a text into overlapping character windows.

use vstd::prelude::*;
use crate::text::{string_of, to_chars};

verus! {

/// Where the window that starts at `start` ends: `size` characters on, or at
/// the end of the text if that comes first.
pub open spec fn window_end(start: int, len: int, size: int) -> int {
    if start + size < len {
        start + size
    } else {
        len
    }
}

/// Where the window after the one ending at `end` starts.
pub open spec fn next_start(end: int, overlap: int) -> int {
    if end > overlap {
        end - overlap
    } else {
        0
    }
}

/// The windows cut from a text of `len` characters, beginning with the one
/// that starts at `start`. The run stops with the window that reaches the end
/// of the text, or with the first one after which the start would not advance.
pub open spec fn windows_from(start: int, len: int, size: int, overlap: int) -> Seq<(int, int)>
    decreases len - start,
{
    if start < 0 || start >= len || size <= 0 || overlap < 0 {
        Seq::empty()
    } else {
        let end = window_end(start, len, size);
        let next = next_start(end, overlap);
        if end == len || next <= start {
            seq![(start, end)]
        } else {
            seq![(start, end)] + windows_from(next, len, size, overlap)
        }
    }
}

/// The half-open character spans of the chunks of a text of `len` characters.
pub open spec fn chunk_spans(len: int, size: int, overlap: int) -> Seq<(int, int)> {
    windows_from(0, len, size, overlap)
}

/// The spans recorded in a sequence of chunks.
pub open spec fn spans_of(chunks: Seq<(usize, usize, String)>) -> Seq<(int, int)> {
    Seq::new(chunks.len(), |i: int| (chunks[i].0 as int, chunks[i].1 as int))
}

/// Each chunk carries exactly the characters of `text` that its span names.
pub open spec fn texts_match(chunks: Seq<(usize, usize, String)>, text: Seq<char>) -> bool {
    forall|i: int|
        0 <= i < chunks.len() ==> {
            &&& 0 <= (#[trigger] chunks[i]).0 <= chunks[i].1 <= text.len()
            &&& chunks[i].2@ == text.subrange(chunks[i].0 as int, chunks[i].1 as int)
        }
}

/// Splits `text` into windows of at most `chunk_size` characters, each
/// starting `overlap` characters before the end of the one before it.
/// Characters are counted, not bytes.
pub fn chunk_text(text: &str, chunk_size: usize, overlap: usize) -> (chunks: Vec<
    (usize, usize, String),
>)
    ensures
        spans_of(chunks@) == chunk_spans(text@.len() as int, chunk_size as int, overlap as int),
        texts_match(chunks@, text@),
        text@.len() == 0 || chunk_size == 0 ==> chunks@.len() == 0,
{
    let chars = to_chars(text);
    let len: usize = chars.len();
    let mut chunks: Vec<(usize, usize, String)> = Vec::new();
    if len == 0 || chunk_size == 0 {
        assert(spans_of(chunks@) =~= chunk_spans(len as int, chunk_size as int, overlap as int));
        return chunks;
    }
    let mut start: usize = 0;
    let mut done = false;
    assert(spans_of(chunks@) =~= Seq::<(int, int)>::empty());
    while !done
        invariant
            chars@ == text@,
            len == chars@.len(),
            chunk_size > 0,
            texts_match(chunks@, text@),
            !done ==> start < len,
            !done ==> chunk_spans(len as int, chunk_size as int, overlap as int) == spans_of(
                chunks@,
            ) + windows_from(start as int, len as int, chunk_size as int, overlap as int),
            done ==> chunk_spans(len as int, chunk_size as int, overlap as int) == spans_of(
                chunks@,
            ),
        decreases
            if done { 0 } else { len - start + 1 },
    {
        let end: usize = if chunk_size >= len - start {
            len
        } else {
            start + chunk_size
        };
        let piece = string_of(&chars, start, end);
        let ghost before = chunks@;
        chunks.push((start, end, piece));
        assert(spans_of(chunks@) =~= spans_of(before) + seq![(start as int, end as int)]);
        let next: usize = if end > overlap {
            end - overlap
        } else {
            0
        };
        if end == len || next <= start {
            done = true;
        } else {
            assert(spans_of(before) + (seq![(start as int, end as int)] + windows_from(
                next as int,
                len as int,
                chunk_size as int,
                overlap as int,
            )) =~= spans_of(chunks@) + windows_from(
                next as int,
                len as int,
                chunk_size as int,
                overlap as int,
            ));
            start = next;
        }
    }
    chunks
}

/// How the windows cut from `start` on lie in the text and follow each other.
proof fn lemma_windows(start: int, len: int, size: int, overlap: int)
    requires
        0 <= start < len,
        size > 0,
        overlap >= 0,
    ensures
        ({
            let w = windows_from(start, len, size, overlap);
            &&& w.len() >= 1
            &&& w[0].0 == start
            &&& forall|i: int|
                0 <= i < w.len() ==> {
                    &&& start <= (#[trigger] w[i]).0 < w[i].1 <= len
                    &&& w[i].1 == window_end(w[i].0, len, size)
                }
            &&& forall|i: int|
                0 <= i < w.len() - 1 ==> {
                    &&& (#[trigger] w[i]).1 < len
                    &&& w[i + 1].0 == w[i].1 - overlap
                    &&& w[i].0 < w[i + 1].0
                }
            &&& overlap < size || len - start <= size ==> w[w.len() - 1].1 == len
            &&& overlap >= size ==> w.len() == 1
        }),
    decreases len - start,
{
    let end = window_end(start, len, size);
    let next = next_start(end, overlap);
    let w = windows_from(start, len, size, overlap);
    if end == len || next <= start {
        assert(w =~= seq![(start, end)]);
    } else {
        lemma_windows(next, len, size, overlap);
        let rest = windows_from(next, len, size, overlap);
        assert(w =~= seq![(start, end)] + rest);
        assert(w[0] == (start, end));
        assert forall|i: int| 1 <= i < w.len() implies #[trigger] w[i] == rest[i - 1] by {}
        assert forall|i: int| 0 <= i < w.len() - 1 implies {
            &&& (#[trigger] w[i]).1 < len
            &&& w[i + 1].0 == w[i].1 - overlap
            &&& w[i].0 < w[i + 1].0
        } by {
            if i >= 1 {
                assert(w[i] == rest[i - 1]);
                assert(w[i + 1] == rest[i]);
            } else {
                assert(w[1] == rest[0]);
            }
        }
    }
}

/// A text without characters, or a chunk size of zero, gives no chunk.
pub proof fn law_nothing_to_chunk(len: int, size: int, overlap: int)
    requires
        len == 0 || size == 0,
    ensures
        chunk_spans(len, size, overlap).len() == 0,
{
}

/// Every chunk is a non-empty span inside the text, `size` characters wide
/// unless the end of the text cuts it short, and chunks come in strictly
/// increasing order of their starts, the first one starting at 0.
pub proof fn law_chunk_widths(len: int, size: int, overlap: int)
    requires
        len > 0,
        size > 0,
        overlap >= 0,
    ensures
        ({
            let w = chunk_spans(len, size, overlap);
            &&& w.len() >= 1
            &&& w[0].0 == 0
            &&& forall|i: int|
                0 <= i < w.len() ==> {
                    &&& 0 <= (#[trigger] w[i]).0 < w[i].1 <= len
                    &&& w[i].1 - w[i].0 <= size
                    &&& w[i].1 == window_end(w[i].0, len, size)
                }
            &&& forall|i: int| 0 <= i < w.len() - 1 ==> (#[trigger] w[i]).0 < w[i + 1].0
        }),
{
    lemma_windows(0, len, size, overlap);
}

/// A chunk that has a successor stops short of the end of the text, and the
/// successor starts exactly `overlap` characters before that chunk's end:
/// never after it (no gap), and strictly before it when `overlap > 0`.
pub proof fn law_chunks_overlap(len: int, size: int, overlap: int)
    requires
        len > 0,
        size > 0,
        overlap >= 0,
    ensures
        ({
            let w = chunk_spans(len, size, overlap);
            forall|i: int|
                0 <= i < w.len() - 1 ==> {
                    &&& (#[trigger] w[i]).1 < len
                    &&& w[i + 1].0 == w[i].1 - overlap
                    &&& w[i + 1].0 <= w[i].1
                    &&& overlap > 0 ==> w[i + 1].0 < w[i].1
                }
        }),
{
    lemma_windows(0, len, size, overlap);
}

/// With an overlap smaller than the chunk size, or a text that fits into one
/// chunk, the chunks cover the whole text: the first starts at 0, the last
/// ends at `len`, and each one starts no later than the one before it ends.
pub proof fn law_chunks_cover(len: int, size: int, overlap: int)
    requires
        len > 0,
        size > 0,
        0 <= overlap,
        overlap < size || len <= size,
    ensures
        ({
            let w = chunk_spans(len, size, overlap);
            &&& w.len() >= 1
            &&& w[0].0 == 0
            &&& w[w.len() - 1].1 == len
            &&& forall|i: int| 0 <= i < w.len() - 1 ==> w[i + 1].0 <= (#[trigger] w[i]).1
        }),
{
    lemma_windows(0, len, size, overlap);
}

/// With an overlap smaller than the chunk size the chunks start at the
/// multiples of `size - overlap`.
pub proof fn law_chunk_starts(len: int, size: int, overlap: int, i: int)
    requires
        len > 0,
        size > 0,
        0 <= overlap < size,
        0 <= i < chunk_spans(len, size, overlap).len(),
    ensures
        chunk_spans(len, size, overlap)[i].0 == i * (size - overlap),
    decreases i,
{
    lemma_windows(0, len, size, overlap);
    let w = chunk_spans(len, size, overlap);
    let stride = size - overlap;
    if i > 0 {
        law_chunk_starts(len, size, overlap, i - 1);
        assert(w[i - 1].1 < len);
        assert(w[i - 1].1 == w[i - 1].0 + size);
        assert(w[i - 1 + 1].0 == w[i - 1].1 - overlap);
        assert(i * stride == (i - 1) * stride + stride) by (nonlinear_arith);
    } else {
        assert(i * stride == 0) by (nonlinear_arith)
            requires
                i == 0,
        ;
    }
}

proof fn lemma_start_at_least(len: int, size: int, overlap: int, i: int)
    requires
        len > 0,
        size > 0,
        overlap >= 0,
        0 <= i < chunk_spans(len, size, overlap).len(),
    ensures
        i <= chunk_spans(len, size, overlap)[i].0 < len,
    decreases i,
{
    law_chunk_widths(len, size, overlap);
    let w = chunk_spans(len, size, overlap);
    if i > 0 {
        lemma_start_at_least(len, size, overlap, i - 1);
        assert(w[i - 1].0 < w[i - 1 + 1].0);
    }
}

/// The `i`-th chunk starts at character `i` or later, so a text has no more
/// chunks than characters.
pub proof fn law_chunk_count(len: int, size: int, overlap: int)
    requires
        len > 0,
        size > 0,
        overlap >= 0,
    ensures
        1 <= chunk_spans(len, size, overlap).len() <= len,
        forall|i: int|
            0 <= i < chunk_spans(len, size, overlap).len() ==> i <= (#[trigger] chunk_spans(
                len,
                size,
                overlap,
            )[i]).0,
{
    law_chunk_widths(len, size, overlap);
    let w = chunk_spans(len, size, overlap);
    lemma_start_at_least(len, size, overlap, w.len() - 1);
    assert forall|i: int| 0 <= i < w.len() implies i <= (#[trigger] w[i]).0 by {
        lemma_start_at_least(len, size, overlap, i);
    }
}

/// An overlap as large as the chunk size gives a single chunk: the first
/// `size` characters, or the whole text if it is shorter.
pub proof fn law_degenerate_overlap(len: int, size: int, overlap: int)
    requires
        len > 0,
        size > 0,
        overlap >= size,
    ensures
        chunk_spans(len, size, overlap) == seq![(0int, window_end(0, len, size))],
{
    lemma_windows(0, len, size, overlap);
    assert(chunk_spans(len, size, overlap) =~= seq![(0int, window_end(0, len, size))]);
}

} // verus!
