//! A deterministic, offline embedder: a bag of words hashed into a fixed
//! number of buckets.

use vstd::prelude::*;
use vstd::wrapping::u64_specs::{wrapping_add, wrapping_mul};
use crate::text::{blank, is_space, is_whitespace, string_of, to_chars};

verus! {

/// Why a batch of texts could not be embedded.
#[derive(Debug, Clone, PartialEq, Eq)]
pub enum EmbeddingError {
    /// The backend answered with `got` vectors for `expected` texts.
    CountMismatch { expected: usize, got: usize },
    /// The backend could not be reached, or its answer could not be read.
    Backend { message: String },
}

/// An embedding backend: maps a batch of texts to one vector per text, in
/// the order of the texts.
pub trait Embedder {
    /// What the backend gives for one text.
    type Vector;

    /// The batches that `embed` may be called on: all of them, unless a
    /// backend says otherwise.
    open spec fn accepts(&self, texts: Seq<String>) -> bool {
        true
    }

    /// What a backend promises of its answer `out` to the batch `texts`:
    /// nothing, unless a backend says otherwise.
    open spec fn answers(
        &self,
        texts: Seq<String>,
        out: Result<Vec<Self::Vector>, EmbeddingError>,
    ) -> bool {
        true
    }

    /// The identifier of the backend.
    fn name(&self) -> &'static str;

    /// Embeds a batch. Of the answer only what the backend itself promises
    /// is taken for granted; its length is checked by `embed_batch`.
    fn embed(&self, texts: &[String]) -> (out: Result<Vec<Self::Vector>, EmbeddingError>)
        requires
            self.accepts(texts@),
        ensures
            self.answers(texts@, out),
    ;
}

/// The answer of a backend to a batch of `expected` texts, as it is taken:
/// the backend's own error when it failed, the answer itself when it holds
/// one vector per text, and a count mismatch otherwise.
pub open spec fn checked<V>(expected: nat, answer: Result<Vec<V>, EmbeddingError>) -> Result<
    Vec<V>,
    EmbeddingError,
> {
    match answer {
        Err(e) => Err(e),
        Ok(vectors) => if vectors@.len() == expected {
            Ok(vectors)
        } else {
            Err(
                EmbeddingError::CountMismatch {
                    expected: expected as usize,
                    got: vectors@.len() as usize,
                },
            )
        },
    }
}

/// The answer of a backend to a batch of `expected` texts, accepted only if
/// it holds one vector per text.
pub fn checked_batch<V>(expected: usize, answer: Result<Vec<V>, EmbeddingError>) -> (r: Result<
    Vec<V>,
    EmbeddingError,
>)
    ensures
        r == checked(expected as nat, answer),
{
    match answer {
        Err(e) => Err(e),
        Ok(vectors) => {
            if vectors.len() == expected {
                Ok(vectors)
            } else {
                Err(EmbeddingError::CountMismatch { expected, got: vectors.len() })
            }
        },
    }
}

/// Embeds a batch with any backend. An empty batch gives an empty answer
/// without a call to the backend; any other batch goes to the backend in one
/// call, and what comes back is taken as `checked` says: an answer with
/// another number of vectors than texts is refused.
pub fn embed_batch<E: Embedder + ?Sized>(embedder: &E, texts: &[String]) -> (r: Result<
    Vec<E::Vector>,
    EmbeddingError,
>)
    requires
        texts@.len() > 0 ==> embedder.accepts(texts@),
    ensures
        texts@.len() == 0 ==> r is Ok && r->Ok_0@.len() == 0,
        texts@.len() > 0 ==> exists|answer: Result<Vec<E::Vector>, EmbeddingError>| #[trigger]
            embedder.answers(texts@, answer) && r == checked(texts@.len(), answer),
        r is Ok ==> r->Ok_0@.len() == texts@.len(),
{
    if texts.len() == 0 {
        return Ok(Vec::new());
    }
    let answer = embedder.embed(texts);
    let ghost given = answer;
    let r = checked_batch(texts.len(), answer);
    assert(embedder.answers(texts@, given) && r == checked(texts@.len(), given));
    r
}

/// The rolling hash of a byte string: `h = h * 31 + byte`, in 64 bits with
/// wrap-around, starting from 0.
pub open spec fn hash_bytes(bytes: Seq<u8>) -> u64
    decreases bytes.len(),
{
    if bytes.len() == 0 {
        0
    } else {
        wrapping_add(wrapping_mul(hash_bytes(bytes.drop_last()), 31), bytes.last() as u64)
    }
}

/// The bucket a token falls into: the hash of its UTF-8 bytes, modulo `dim`.
pub open spec fn token_bucket(token: Seq<char>, dim: usize) -> int
    recommends
        dim > 0,
{
    (hash_bytes(vstd::utf8::encode_utf8(token)) as usize) as int % (dim as int)
}

/// The first position at or after `i` that is the end of the text or holds a
/// white-space character.
pub open spec fn run_end(s: Seq<char>, i: int) -> int
    decreases s.len() - i,
{
    if i < 0 || i >= s.len() || is_space(s[i]) {
        i
    } else {
        run_end(s, i + 1)
    }
}

/// A token starts at `i`: a character that is no white space, at the start of
/// the text or right after white space.
pub open spec fn starts_token(s: Seq<char>, i: int) -> bool {
    &&& 0 <= i < s.len()
    &&& !is_space(s[i])
    &&& (i == 0 || is_space(s[i - 1]))
}

/// The token that starts at `i`: the characters up to the next white space.
pub open spec fn token_at(s: Seq<char>, i: int) -> Seq<char> {
    s.subrange(i, run_end(s, i))
}

/// How many of the tokens that start before position `m` fall into `bucket`.
pub open spec fn bucket_count(s: Seq<char>, dim: usize, bucket: int, m: int) -> nat
    decreases m,
{
    if m <= 0 {
        0
    } else {
        let here: nat = if starts_token(s, m - 1) && token_bucket(token_at(s, m - 1), dim)
            == bucket {
            1
        } else {
            0
        };
        bucket_count(s, dim, bucket, m - 1) + here
    }
}

/// The embedding of a text: for each of the `dim` buckets, the number of the
/// text's tokens that fall into it.
pub open spec fn term_counts(s: Seq<char>, dim: usize) -> Seq<nat> {
    Seq::new(dim as nat, |b: int| bucket_count(s, dim, b, s.len() as int))
}

/// `v` holds exactly the counts `term_counts(s, dim)`.
pub open spec fn holds_counts(v: Seq<u64>, s: Seq<char>, dim: usize) -> bool {
    &&& v.len() == dim
    &&& forall|b: int| 0 <= b < dim ==> (#[trigger] v[b]) as nat == term_counts(s, dim)[b]
}

/// No bucket counts more tokens than there are positions before `m`.
proof fn lemma_count_bound(s: Seq<char>, dim: usize, bucket: int, m: int)
    requires
        0 <= m,
    ensures
        bucket_count(s, dim, bucket, m) <= m,
    decreases m,
{
    if m > 0 {
        lemma_count_bound(s, dim, bucket, m - 1);
    }
}

/// Hash-based embedder with a fixed number of buckets.
pub struct LocalEmbedder {
    dim: usize,
}

impl LocalEmbedder {
    /// The number of buckets, which is the length of every vector produced.
    pub closed spec fn dimension(&self) -> usize {
        self.dim
    }

    /// An embedder that produces vectors of `dim` counts.
    pub fn new(dim: usize) -> (e: Self)
        ensures
            e.dimension() == dim,
    {
        Self { dim }
    }

    /// The number of buckets.
    pub fn dim(&self) -> (d: usize)
        ensures
            d == self.dimension(),
    {
        self.dim
    }

    /// The bucket of `token`: the rolling hash of its bytes, modulo the
    /// number of buckets.
    pub fn hash_token(&self, token: &str) -> (idx: usize)
        requires
            self.dimension() > 0,
        ensures
            idx == token_bucket(token@, self.dimension()),
            idx < self.dimension(),
    {
        let bytes = token.as_bytes();
        let mut h: u64 = 0;
        let mut i: usize = 0;
        while i < bytes.len()
            invariant
                i <= bytes@.len(),
                h == hash_bytes(bytes@.take(i as int)),
            decreases bytes@.len() - i,
        {
            assert(bytes@.take(i + 1).drop_last() =~= bytes@.take(i as int));
            h = h.wrapping_mul(31).wrapping_add(bytes[i] as u64);
            i += 1;
        }
        assert(bytes@.take(i as int) =~= bytes@);
        (h as usize) % self.dim
    }

    /// Embeds one text: counts, per bucket, the white-space separated tokens
    /// that fall into it.
    pub fn embed_one(&self, text: &str) -> (v: Vec<u64>)
        requires
            self.dimension() > 0 || blank(text@),
        ensures
            holds_counts(v@, text@, self.dimension()),
    {
        let dim = self.dim;
        let chars = to_chars(text);
        let n: usize = chars.len();
        let mut v: Vec<u64> = Vec::new();
        while v.len() < dim
            invariant
                v@.len() <= dim,
                forall|b: int| 0 <= b < v@.len() ==> v@[b] == 0,
            decreases dim - v@.len(),
        {
            v.push(0);
        }
        let mut p: usize = 0;
        while p < n
            invariant
                p <= n,
                n == chars@.len(),
                chars@ == text@,
                dim == self.dimension(),
                dim > 0 || blank(text@),
                v@.len() == dim,
                forall|b: int|
                    0 <= b < dim ==> (#[trigger] v@[b]) as nat == bucket_count(
                        text@,
                        dim,
                        b,
                        p as int,
                    ),
            decreases n - p,
        {
            let begins = !is_whitespace(chars[p]) && (p == 0 || is_whitespace(chars[p - 1]));
            if begins {
                assert(!is_space(text@[p as int]));
                let mut j: usize = p + 1;
                while j < n && !is_whitespace(chars[j])
                    invariant
                        p < j <= n,
                        n == chars@.len(),
                        chars@ == text@,
                        run_end(text@, p as int) == run_end(text@, j as int),
                    decreases n - j,
                {
                    j += 1;
                }
                let token = string_of(&chars, p, j);
                let idx = self.hash_token(token.as_str());
                proof {
                    assert(token@ == token_at(text@, p as int));
                    lemma_count_bound(text@, dim, idx as int, p as int);
                }
                let count: u64 = v[idx];
                v.set(idx, count + 1);
            }
            p += 1;
        }
        v
    }

}

impl Embedder for LocalEmbedder {
    type Vector = Vec<u64>;

    /// Without buckets there is nothing to hash a token into: such an
    /// embedder takes only texts without tokens.
    open spec fn accepts(&self, texts: Seq<String>) -> bool {
        self.dimension() > 0 || forall|i: int| 0 <= i < texts.len() ==> blank((#[trigger] texts[i])@)
    }

    /// The local embedder never fails, and answers each text with the
    /// counts of its tokens.
    open spec fn answers(&self, texts: Seq<String>, out: Result<Vec<Vec<u64>>, EmbeddingError>) -> bool {
        &&& out is Ok
        &&& out->Ok_0@.len() == texts.len()
        &&& forall|i: int|
            0 <= i < texts.len() ==> holds_counts(
                (#[trigger] out->Ok_0@[i])@,
                texts[i]@,
                self.dimension(),
            )
    }

    fn name(&self) -> (n: &'static str)
        ensures
            n@ == "local-hash-embedding-256"@,
    {
        "local-hash-embedding-256"
    }

    /// Embeds a batch: one vector of counts per text, in the order of the
    /// texts. Never fails.
    fn embed(&self, texts: &[String]) -> (out: Result<Vec<Vec<u64>>, EmbeddingError>)
        ensures
            out is Ok,
            out->Ok_0@.len() == texts@.len(),
            forall|i: int|
                0 <= i < texts@.len() ==> holds_counts(
                    (#[trigger] out->Ok_0@[i])@,
                    texts@[i]@,
                    self.dimension(),
                ),
    {
        let mut all: Vec<Vec<u64>> = Vec::new();
        let mut i: usize = 0;
        while i < texts.len()
            invariant
                i <= texts@.len(),
                self.accepts(texts@),
                all@.len() == i,
                forall|k: int|
                    0 <= k < i ==> holds_counts(
                        (#[trigger] all@[k])@,
                        texts@[k]@,
                        self.dimension(),
                    ),
            decreases texts@.len() - i,
        {
            let v = self.embed_one(texts[i].as_str());
            all.push(v);
            i += 1;
        }
        Ok(all)
    }
}

/// Every embedding has exactly as many entries as the embedder has buckets,
/// whatever the text, the empty one included.
pub proof fn law_embedding_dimension(s: Seq<char>, dim: usize)
    ensures
        term_counts(s, dim).len() == dim,
{
}

/// Embedding is a function of the text and the number of buckets: two
/// vectors that both hold the counts of one text are the same vector.
pub proof fn law_embedding_deterministic(a: Seq<u64>, b: Seq<u64>, s: Seq<char>, dim: usize)
    requires
        holds_counts(a, s, dim),
        holds_counts(b, s, dim),
    ensures
        a == b,
{
    assert(a =~= b);
}

/// A text without tokens counts nothing in any bucket.
pub proof fn law_blank_text_counts(s: Seq<char>, dim: usize, bucket: int, m: int)
    requires
        blank(s),
    ensures
        bucket_count(s, dim, bucket, m) == 0,
    decreases m,
{
    if m > 0 {
        law_blank_text_counts(s, dim, bucket, m - 1);
    }
}

/// No bucket counts more tokens than the text has characters.
pub proof fn law_count_bound(s: Seq<char>, dim: usize, bucket: int)
    ensures
        bucket_count(s, dim, bucket, s.len() as int) <= s.len(),
{
    lemma_count_bound(s, dim, bucket, s.len() as int);
}

} // verus!
