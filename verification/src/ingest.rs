//! The decisions of an ingestion run: which chunks a document gives, which
//! texts go to the embedder, and how the vectors that come back are attached.

use vstd::prelude::*;
use crate::chunker::{
    chunk_spans, chunk_text, law_chunk_count, law_chunk_widths, spans_of, texts_match,
};
use crate::embedder::{embed_batch, Embedder, EmbeddingError};
use vstd::string::StrSliceExecFns;
use crate::embedder::checked;
use crate::models::{Chunk, Document, PendingChunk, Timestamp};
use crate::rows::{rfc3339_text, StorageError};
use crate::text::{blank, is_blank};

verus! {

/// `id` carries the version and variant marks of a random (version 4) UUID.
pub open spec fn is_random_uuid(id: u128) -> bool {
    id & 0x0000_0000_0000_F000_C000_0000_0000_0000 == 0x0000_0000_0000_4000_8000_0000_0000_0000
}

/// `uuid::Uuid::new_v4` draws 128 random bits from the operating system and
/// stamps them as a version-4 UUID of the RFC variant; nothing else is known
/// of the value. (It panics when the system cannot supply random bytes.)
#[verifier::external_body]
fn fresh_id() -> (id: u128)
    ensures
        is_random_uuid(id),
{
    uuid::Uuid::new_v4().as_u128()
}

/// `chrono::Utc::now` reads the system clock and makes its value with
/// `from_timestamp`, so the value is one that chrono can hold and write;
/// nothing else is known of it. (It panics when the clock stands before the
/// Unix epoch.)
#[verifier::external_body]
fn now() -> (t: Timestamp)
    ensures
        rfc3339_text(t.secs, t.nanos) is Some,
{
    let t = chrono::Utc::now();
    Timestamp { secs: t.timestamp(), nanos: t.timestamp_subsec_nanos() }
}

/// A document record for the file at `path`, with a fresh identifier and the
/// current time as its creation time, which can be written as text.
pub fn new_document(path: String) -> (doc: Document)
    ensures
        doc.path == path,
        is_random_uuid(doc.id),
        rfc3339_text(doc.created_at.secs, doc.created_at.nanos) is Some,
{
    Document { id: fresh_id(), path, created_at: now() }
}

/// A text of `len` characters can be stored: positions and offsets of its
/// chunks are kept in 32 bits, so they must not pass `i32::MAX`.
pub open spec fn fits_offsets(len: nat) -> bool {
    len <= i32::MAX
}

/// Tells whether a text of `chars` characters can be stored.
pub fn check_length(chars: usize) -> (r: Result<(), StorageError>)
    ensures
        fits_offsets(chars as nat) ==> r is Ok,
        !fits_offsets(chars as nat) ==> r == Err::<(), StorageError>(StorageError::TextTooLong),
{
    if chars <= 0x7FFF_FFFF {
        Ok(())
    } else {
        Err(StorageError::TextTooLong)
    }
}

/// `p` is the chunk at position `i` of document `doc_id`, cut from `content`
/// along `span`.
pub open spec fn is_pending(
    p: PendingChunk,
    doc_id: u128,
    content: Seq<char>,
    span: (int, int),
    i: int,
) -> bool {
    &&& p.doc_id == doc_id
    &&& p.chunk_index == i
    &&& p.start_char == span.0
    &&& p.end_char == span.1
    &&& p.text@ == content.subrange(span.0, span.1)
}

/// The stored position of a chunk is not negative, and its offsets are a
/// non-empty span inside the text.
pub proof fn law_pending_offsets(
    p: PendingChunk,
    doc_id: u128,
    content: Seq<char>,
    size: int,
    overlap: int,
    i: int,
)
    requires
        overlap >= 0,
        0 <= i < chunk_spans(content.len() as int, size, overlap).len(),
        is_pending(p, doc_id, content, chunk_spans(content.len() as int, size, overlap)[i], i),
    ensures
        0 <= p.chunk_index,
        0 <= p.start_char < p.end_char <= content.len(),
{
    let len = content.len() as int;
    if len > 0 && size > 0 {
        law_chunk_widths(len, size, overlap);
    }
}

/// The chunks of one document, in order, each with its position and span,
/// waiting for their embeddings. A text too long for its offsets to be
/// stored is refused.
pub fn pending_chunks(doc_id: u128, content: &str, chunk_size: usize, overlap: usize) -> (r: Result<
    Vec<PendingChunk>,
    StorageError,
>)
    ensures
        !fits_offsets(content@.len()) ==> r == Err::<Vec<PendingChunk>, StorageError>(
            StorageError::TextTooLong,
        ),
        fits_offsets(content@.len()) ==> r is Ok && r->Ok_0@.len() == chunk_spans(
            content@.len() as int,
            chunk_size as int,
            overlap as int,
        ).len() && forall|i: int|
            0 <= i < r->Ok_0@.len() ==> is_pending(
                #[trigger] r->Ok_0@[i],
                doc_id,
                content@,
                chunk_spans(content@.len() as int, chunk_size as int, overlap as int)[i],
                i,
            ),
{
    match check_length(content.unicode_len()) {
        Err(e) => {
            return Err(e);
        },
        Ok(_) => {},
    }
    let chunks = chunk_text(content, chunk_size, overlap);
    let ghost spans = chunk_spans(content@.len() as int, chunk_size as int, overlap as int);
    proof {
        if content@.len() > 0 && chunk_size > 0 {
            law_chunk_count(content@.len() as int, chunk_size as int, overlap as int);
        }
    }
    let mut out: Vec<PendingChunk> = Vec::new();
    let mut i: usize = 0;
    while i < chunks.len()
        invariant
            i <= chunks@.len(),
            fits_offsets(content@.len()),
            chunks@.len() <= content@.len(),
            spans_of(chunks@) == spans,
            texts_match(chunks@, content@),
            out@.len() == i,
            forall|k: int|
                0 <= k < i ==> is_pending(#[trigger] out@[k], doc_id, content@, spans[k], k),
        decreases chunks@.len() - i,
    {
        assert(spans_of(chunks@)[i as int] == (chunks@[i as int].0 as int, chunks@[i as int].1 as int));
        let text = chunks[i].2.clone();
        out.push(
            PendingChunk {
                doc_id,
                chunk_index: i as i32,
                start_char: chunks[i].0 as i32,
                end_char: chunks[i].1 as i32,
                text,
            },
        );
        i += 1;
    }
    Ok(out)
}

/// What one file contributes to a run: nothing when its content is empty or
/// all white space, else a new document record and that document's chunks.
/// A text too long for its offsets to be stored is refused.
pub fn plan_document(path: String, content: &str, chunk_size: usize, overlap: usize) -> (plan:
    Result<Option<(Document, Vec<PendingChunk>)>, StorageError>)
    ensures
        blank(content@) ==> plan is Ok && plan->Ok_0 is None,
        !blank(content@) && !fits_offsets(content@.len()) ==> plan == Err::<
            Option<(Document, Vec<PendingChunk>)>,
            StorageError,
        >(StorageError::TextTooLong),
        !blank(content@) && fits_offsets(content@.len()) ==> plan is Ok && plan->Ok_0 is Some,
        plan matches Ok(Some((doc, pending))) ==> {
            &&& doc.path == path
            &&& is_random_uuid(doc.id)
            &&& rfc3339_text(doc.created_at.secs, doc.created_at.nanos) is Some
            &&& pending@.len() == chunk_spans(
                content@.len() as int,
                chunk_size as int,
                overlap as int,
            ).len()
            &&& forall|i: int|
                0 <= i < pending@.len() ==> is_pending(
                    #[trigger] pending@[i],
                    doc.id,
                    content@,
                    chunk_spans(content@.len() as int, chunk_size as int, overlap as int)[i],
                    i,
                )
        },
{
    if is_blank(content) {
        return Ok(None);
    }
    match check_length(content.unicode_len()) {
        Err(e) => {
            return Err(e);
        },
        Ok(_) => {},
    }
    let doc = new_document(path);
    match pending_chunks(doc.id, content, chunk_size, overlap) {
        Ok(pending) => Ok(Some((doc, pending))),
        Err(e) => Err(e),
    }
}

/// `texts` is the batch made of the texts of `pending`, in order.
pub open spec fn is_batch_of(texts: Seq<String>, pending: Seq<PendingChunk>) -> bool {
    &&& texts.len() == pending.len()
    &&& forall|i: int| 0 <= i < texts.len() ==> (#[trigger] texts[i])@ == pending[i].text@
}

/// The texts of the pending chunks, in order: the batch for the embedder.
pub fn batch_texts(pending: &Vec<PendingChunk>) -> (texts: Vec<String>)
    ensures
        is_batch_of(texts@, pending@),
{
    let mut texts: Vec<String> = Vec::new();
    let mut i: usize = 0;
    while i < pending.len()
        invariant
            i <= pending@.len(),
            texts@.len() == i,
            forall|k: int| 0 <= k < i ==> (#[trigger] texts@[k])@ == pending@[k].text@,
        decreases pending@.len() - i,
    {
        texts.push(pending[i].text.clone());
        i += 1;
    }
    texts
}

/// `c` is the pending chunk `p` with the embedding `e` attached.
pub open spec fn is_attached<E>(c: Chunk<E>, p: PendingChunk, e: E) -> bool {
    &&& is_random_uuid(c.id)
    &&& c.doc_id == p.doc_id
    &&& c.chunk_index == p.chunk_index
    &&& c.text@ == p.text@
    &&& c.embedding == e
    &&& c.start_char == p.start_char
    &&& c.end_char == p.end_char
}

/// `r` is what attaching the answer of a backend to the pending chunks
/// gives: the backend's own error when it failed; one chunk per pending
/// chunk, each with the vector at its position, when the answer holds one
/// vector per chunk; and a count mismatch otherwise.
pub open spec fn attaches<V>(
    r: Result<Vec<Chunk<V>>, EmbeddingError>,
    pending: Seq<PendingChunk>,
    answer: Result<Vec<V>, EmbeddingError>,
) -> bool {
    match answer {
        Err(e) => r == Err::<Vec<Chunk<V>>, EmbeddingError>(e),
        Ok(vectors) => if vectors@.len() == pending.len() {
            &&& r is Ok
            &&& r->Ok_0@.len() == pending.len()
            &&& forall|i: int|
                0 <= i < pending.len() ==> is_attached(
                    #[trigger] r->Ok_0@[i],
                    pending[i],
                    vectors@[i],
                )
        } else {
            r == Err::<Vec<Chunk<V>>, EmbeddingError>(
                EmbeddingError::CountMismatch {
                    expected: pending.len() as usize,
                    got: vectors@.len() as usize,
                },
            )
        },
    }
}

/// Attaches to each pending chunk the vector at the same position and gives
/// each chunk a fresh identifier. A batch with another number of vectors than
/// chunks is refused as a whole.
pub fn attach_embeddings<E>(pending: &Vec<PendingChunk>, embeddings: Vec<E>) -> (r: Result<
    Vec<Chunk<E>>,
    EmbeddingError,
>)
    ensures
        pending@.len() == embeddings@.len() ==> r is Ok && r->Ok_0@.len() == pending@.len()
            && forall|i: int|
            0 <= i < pending@.len() ==> is_attached(
                #[trigger] r->Ok_0@[i],
                pending@[i],
                embeddings@[i],
            ),
        pending@.len() != embeddings@.len() ==> r == Err::<Vec<Chunk<E>>, EmbeddingError>(
            EmbeddingError::CountMismatch { expected: pending@.len() as usize, got: embeddings@.len() as usize },
        ),
        attaches(r, pending@, Ok::<Vec<E>, EmbeddingError>(embeddings)),
{
    if pending.len() != embeddings.len() {
        return Err(
            EmbeddingError::CountMismatch { expected: pending.len(), got: embeddings.len() },
        );
    }
    let mut out: Vec<Chunk<E>> = Vec::new();
    for e in it: embeddings.into_iter()
        invariant
            it.seq() == embeddings@,
            pending@.len() == embeddings@.len(),
            out@.len() == it.index(),
            forall|k: int|
                0 <= k < out@.len() ==> is_attached(#[trigger] out@[k], pending@[k], embeddings@[k]),
    {
        let p = &pending[out.len()];
        out.push(
            Chunk {
                id: fresh_id(),
                doc_id: p.doc_id,
                chunk_index: p.chunk_index,
                text: p.text.clone(),
                embedding: e,
                start_char: p.start_char,
                end_char: p.end_char,
            },
        );
    }
    Ok(out)
}

/// An ingestion run: the chunking parameters, and the chunks of the files
/// seen so far that wait for the one embedding call at the end of the run.
pub struct IngestRun {
    pub chunk_size: usize,
    pub overlap: usize,
    pub pending: Vec<PendingChunk>,
}

/// What became of a file that was handed to a run.
#[derive(Debug)]
pub enum FileStep {
    /// The file was empty or all white space: nothing was recorded.
    Skipped,
    /// The file became this document, to be stored; its chunks are pending.
    Planned(Document),
}

impl IngestRun {
    /// A run without pending chunks.
    pub fn new(chunk_size: usize, overlap: usize) -> (run: Self)
        ensures
            run.chunk_size == chunk_size,
            run.overlap == overlap,
            run.pending@.len() == 0,
    {
        IngestRun { chunk_size, overlap, pending: Vec::new() }
    }

    /// Takes the content of one file into the run. A blank file is skipped
    /// and changes nothing; a text too long for its offsets to be stored is
    /// refused and changes nothing; any other file becomes a new document
    /// whose chunks are added, in order, behind the chunks that were pending.
    pub fn add_file(&mut self, path: String, content: &str) -> (step: Result<
        FileStep,
        StorageError,
    >)
        ensures
            final(self).chunk_size == old(self).chunk_size,
            final(self).overlap == old(self).overlap,
            blank(content@) ==> step is Ok && step->Ok_0 is Skipped && final(self).pending@ == old(
                self,
            ).pending@,
            !blank(content@) && !fits_offsets(content@.len()) ==> step == Err::<
                FileStep,
                StorageError,
            >(StorageError::TextTooLong) && final(self).pending@ == old(self).pending@,
            !blank(content@) && fits_offsets(content@.len()) ==> step is Ok
                && step->Ok_0 is Planned && step->Ok_0->Planned_0.path == path && is_random_uuid(
                step->Ok_0->Planned_0.id,
            ) && rfc3339_text(
                step->Ok_0->Planned_0.created_at.secs,
                step->Ok_0->Planned_0.created_at.nanos,
            ) is Some && final(self).pending@.len() == old(self).pending@.len() + chunk_spans(
                content@.len() as int,
                old(self).chunk_size as int,
                old(self).overlap as int,
            ).len() && final(self).pending@.take(old(self).pending@.len() as int) == old(
                self,
            ).pending@ && forall|i: int|
                0 <= i < chunk_spans(
                    content@.len() as int,
                    old(self).chunk_size as int,
                    old(self).overlap as int,
                ).len() ==> is_pending(
                    #[trigger] final(self).pending@[old(self).pending@.len() + i],
                    step->Ok_0->Planned_0.id,
                    content@,
                    chunk_spans(
                        content@.len() as int,
                        old(self).chunk_size as int,
                        old(self).overlap as int,
                    )[i],
                    i,
                ),
    {
        match plan_document(path, content, self.chunk_size, self.overlap) {
            Err(e) => Err(e),
            Ok(None) => Ok(FileStep::Skipped),
            Ok(Some((doc, mut chunks))) => {
                let ghost before = self.pending@;
                let ghost added = chunks@;
                self.pending.append(&mut chunks);
                proof {
                    assert(self.pending@ == before + added);
                    assert(self.pending@.take(before.len() as int) =~= before);
                    assert forall|i: int| 0 <= i < added.len() implies #[trigger] self.pending@[before.len()
                        + i] == added[i] by {}
                }
                Ok(FileStep::Planned(doc))
            },
        }
    }

    /// Ends the run: embeds all pending chunks in one batch and attaches the
    /// vectors, as `embed_pending` does.
    pub fn finish<E: Embedder + ?Sized>(self, embedder: &E) -> (r: Result<
        Vec<Chunk<E::Vector>>,
        EmbeddingError,
    >)
        requires
            self.pending@.len() > 0 ==> forall|texts: Seq<String>| #[trigger]
                is_batch_of(texts, self.pending@) ==> embedder.accepts(texts),
        ensures
            self.pending@.len() == 0 ==> r is Ok && r->Ok_0@.len() == 0,
            self.pending@.len() > 0 ==> exists|
                texts: Seq<String>,
                answer: Result<Vec<E::Vector>, EmbeddingError>,
            |
                is_batch_of(texts, self.pending@) && #[trigger] embedder.answers(texts, answer)
                    && attaches(r, self.pending@, answer),
            r is Ok ==> r->Ok_0@.len() == self.pending@.len() && forall|i: int|
                0 <= i < self.pending@.len() ==> is_attached(
                    #[trigger] r->Ok_0@[i],
                    self.pending@[i],
                    r->Ok_0@[i].embedding,
                ),
    {
        embed_pending(embedder, &self.pending)
    }
}

/// Embeds all pending chunks in one batch and attaches the vectors. Without
/// pending chunks the backend is not called and nothing is made. Else the
/// texts of the chunks go to the backend in one call, and what comes back is
/// attached as `attaches` says: when the backend fails, or answers with
/// another number of vectors than chunks, no chunk is made.
pub fn embed_pending<E: Embedder + ?Sized>(embedder: &E, pending: &Vec<PendingChunk>) -> (r: Result<
    Vec<Chunk<E::Vector>>,
    EmbeddingError,
>)
    requires
        pending@.len() > 0 ==> forall|texts: Seq<String>| #[trigger]
            is_batch_of(texts, pending@) ==> embedder.accepts(texts),
    ensures
        pending@.len() == 0 ==> r is Ok && r->Ok_0@.len() == 0,
        pending@.len() > 0 ==> exists|
            texts: Seq<String>,
            answer: Result<Vec<E::Vector>, EmbeddingError>,
        |
            is_batch_of(texts, pending@) && #[trigger] embedder.answers(texts, answer) && attaches(
                r,
                pending@,
                answer,
            ),
        r is Ok ==> r->Ok_0@.len() == pending@.len() && forall|i: int|
            0 <= i < pending@.len() ==> is_attached(
                #[trigger] r->Ok_0@[i],
                pending@[i],
                r->Ok_0@[i].embedding,
            ),
{
    let texts = batch_texts(pending);
    let taken = embed_batch(embedder, texts.as_slice());
    let ghost answer = if pending@.len() > 0 {
        choose|answer: Result<Vec<E::Vector>, EmbeddingError>| #[trigger]
            embedder.answers(texts@, answer) && taken == checked(texts@.len(), answer)
    } else {
        taken
    };
    let r = match taken {
        Err(e) => Err(e),
        Ok(vectors) => attach_embeddings(pending, vectors),
    };
    proof {
        if pending@.len() > 0 {
            assert(is_batch_of(texts@, pending@) && embedder.answers(texts@, answer) && attaches(
                r,
                pending@,
                answer,
            ));
        }
    }
    r
}

} // verus!
