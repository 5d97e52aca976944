//! The query side: the question goes to the embedder as a batch of one.

use vstd::prelude::*;
use vstd::string::StringExecFns;
use crate::embedder::{Embedder, EmbeddingError};
use crate::models::{Chunk, SearchResult};
use crate::ranking::{is_ranking, keys_of, law_ranking_order, rank_scores};

verus! {

/// The single vector of an answer to a batch of one.
pub fn single_vector<V>(answer: Result<Vec<V>, EmbeddingError>) -> (r: Result<V, EmbeddingError>)
    ensures
        r == only_vector(answer),
        answer is Err ==> r is Err && r->Err_0 == answer->Err_0,
        answer is Ok && answer->Ok_0@.len() == 1 ==> r == Ok::<V, EmbeddingError>(
            answer->Ok_0@[0],
        ),
        answer is Ok && answer->Ok_0@.len() != 1 ==> r == Err::<V, EmbeddingError>(
            EmbeddingError::CountMismatch { expected: 1, got: answer->Ok_0@.len() as usize },
        ),
{
    match answer {
        Err(e) => Err(e),
        Ok(mut vectors) => {
            let got = vectors.len();
            if got != 1 {
                return Err(EmbeddingError::CountMismatch { expected: 1, got });
            }
            match vectors.pop() {
                Some(v) => Ok(v),
                None => Err(EmbeddingError::CountMismatch { expected: 1, got }),
            }
        },
    }
}

/// Embeds the question as a single-element batch and returns its vector. A
/// backend that fails, or that answers with another number of vectors than
/// one, gives an error.
pub fn embed_question<E: Embedder + ?Sized>(embedder: &E, question: &str) -> (r: Result<
    E::Vector,
    EmbeddingError,
>)
    requires
        forall|texts: Seq<String>|
            texts.len() == 1 && (#[trigger] texts[0])@ == question@ ==> embedder.accepts(texts),
    ensures
        exists|texts: Seq<String>, answer: Result<Vec<E::Vector>, EmbeddingError>|
            is_question_batch(texts, question@) && #[trigger] embedder.answers(texts, answer) && r
                == only_vector(answer),
{
    let mut batch: Vec<String> = Vec::new();
    batch.push(String::from_str(question));
    assert(batch@.len() == 1 && batch@[0]@ == question@);
    let answer = embedder.embed(batch.as_slice());
    let ghost given = answer;
    let r = single_vector(answer);
    assert(is_question_batch(batch@, question@) && embedder.answers(batch@, given) && r
        == only_vector(given));
    r
}

/// What an answer to a batch of one gives: its single vector when it holds
/// exactly one, the backend's own error when it failed, and a count mismatch
/// otherwise.
pub open spec fn only_vector<V>(answer: Result<Vec<V>, EmbeddingError>) -> Result<
    V,
    EmbeddingError,
> {
    match answer {
        Err(e) => Err(e),
        Ok(vectors) => if vectors@.len() == 1 {
            Ok(vectors@[0])
        } else {
            Err(EmbeddingError::CountMismatch { expected: 1, got: vectors@.len() as usize })
        },
    }
}

/// `texts` is the batch that holds the question and nothing else.
pub open spec fn is_question_batch(texts: Seq<String>, question: Seq<char>) -> bool {
    texts.len() == 1 && texts[0]@ == question
}

/// `r` is the search result for candidate `c` of the corpus.
pub open spec fn is_result_of<E>(
    r: SearchResult<E>,
    corpus: Seq<(Chunk<E>, String)>,
    scores: Seq<u32>,
    c: int,
) -> bool {
    &&& r.chunk == corpus[c].0
    &&& r.document_path == corpus[c].1
    &&& r.score_bits == scores[c]
}

/// `results` are the candidates that `order` names, in that order.
pub open spec fn results_follow<E>(
    results: Seq<SearchResult<E>>,
    corpus: Seq<(Chunk<E>, String)>,
    scores: Seq<u32>,
    order: Seq<usize>,
) -> bool {
    &&& results.len() == order.len()
    &&& forall|i: int|
        0 <= i < results.len() ==> is_result_of(
            #[trigger] results[i],
            corpus,
            scores,
            order[i] as int,
        )
}

/// The best `top_k` chunks of the corpus by score, best first. `scores`
/// holds the score of each chunk of the corpus, at the chunk's position.
pub fn top_results<E>(corpus: Vec<(Chunk<E>, String)>, scores: &[u32], top_k: usize) -> (results:
    Vec<SearchResult<E>>)
    requires
        scores@.len() == corpus@.len(),
    ensures
        exists|order: Seq<usize>|
            is_ranking(keys_of(scores@), top_k as int, order) && results_follow(
                results@,
                corpus@,
                scores@,
                order,
            ),
{
    let order = rank_scores(scores, top_k);
    let ghost items = corpus@;
    let ghost keys = keys_of(scores@);
    proof {
        law_ranking_order(keys, top_k as int, order@);
    }
    let mut slots: Vec<Option<(Chunk<E>, String)>> = Vec::new();
    for item in it: corpus.into_iter()
        invariant
            it.seq() == items,
            slots@.len() == it.index(),
            forall|j: int| 0 <= j < slots@.len() ==> #[trigger] slots@[j] == Some(items[j]),
    {
        slots.push(Some(item));
    }
    let mut results: Vec<SearchResult<E>> = Vec::new();
    let mut i: usize = 0;
    while i < order.len()
        invariant
            i <= order@.len(),
            slots@.len() == items.len(),
            scores@.len() == items.len(),
            keys == keys_of(scores@),
            is_ranking(keys, top_k as int, order@),
            forall|a: int, b: int|
                0 <= a < b < order@.len() ==> #[trigger] order@[a] != #[trigger] order@[b],
            forall|j: int|
                0 <= j < slots@.len() && (forall|m: int| 0 <= m < i ==> #[trigger] order@[m] != j)
                    ==> #[trigger] slots@[j] == Some(items[j]),
            results@.len() == i,
            forall|m: int|
                0 <= m < i ==> is_result_of(#[trigger] results@[m], items, scores@, order@[m] as int),
        decreases order@.len() - i,
    {
        let idx = order[i];
        assert(forall|m: int| 0 <= m < i ==> #[trigger] order@[m] != idx);
        slots.push(None);
        let taken = slots.swap_remove(idx);
        match taken {
            Some((chunk, document_path)) => {
                results.push(SearchResult { chunk, document_path, score_bits: scores[idx] });
            },
            None => {
                assert(false);
            },
        }
        i += 1;
    }
    assert(results_follow(results@, items, scores@, order@));
    results
}

} // verus!
