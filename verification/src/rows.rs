//! The text forms in which records are stored: identifiers as hyphenated
//! UUIDs, creation times as RFC 3339 strings. The database itself is the
//! caller's business; these functions turn records into column values and
//! column values back into records.

use vstd::prelude::*;
use crate::models::{Chunk, Document, Timestamp};

verus! {

/// The error of `uuid::Uuid::parse_str`, carried through as it is.
#[verifier::external_type_specification]
#[verifier::external_body]
pub struct ExUuidError(uuid::Error);

/// The error of `chrono::DateTime::parse_from_rfc3339`, carried through as it is.
#[verifier::external_type_specification]
#[verifier::external_body]
pub struct ExParseError(chrono::ParseError);

/// Why a record could not be written to, or read from, its stored form.
#[derive(Debug, Clone, Copy, PartialEq, Eq, Structural)]
pub enum StorageError {
    /// A stored identifier is no UUID.
    MalformedId,
    /// A stored creation time is no RFC 3339 date and time.
    MalformedTimestamp,
    /// A creation time lies outside the range of dates that can be written.
    UnrepresentableTimestamp,
    /// A row count could not be read, or is no number of rows.
    UnreadableCount,
    /// A text has more characters than a stored offset can count.
    TextTooLong,
}

/// The lower-case hexadecimal digit for `n < 16`.
pub open spec fn hex_digit(n: u128) -> char {
    seq!['0', '1', '2', '3', '4', '5', '6', '7', '8', '9', 'a', 'b', 'c', 'd', 'e', 'f'][n as int]
}

/// The `k`-th of the 32 hexadecimal digits of `id`, most significant first.
pub open spec fn nibble(id: u128, k: int) -> u128 {
    (id >> ((124 - 4 * k) as u128)) & 0xf
}

/// The hyphenated form of a UUID: 32 lower-case hexadecimal digits, most
/// significant first, in groups of 8, 4, 4, 4 and 12 with a hyphen between
/// the groups.
pub open spec fn hyphenated(id: u128) -> Seq<char> {
    Seq::new(
        36,
        |i: int|
            if i == 8 || i == 13 || i == 18 || i == 23 {
                '-'
            } else if i < 8 {
                hex_digit(nibble(id, i))
            } else if i < 13 {
                hex_digit(nibble(id, i - 1))
            } else if i < 18 {
                hex_digit(nibble(id, i - 2))
            } else if i < 23 {
                hex_digit(nibble(id, i - 3))
            } else {
                hex_digit(nibble(id, i - 4))
            },
    )
}

/// The UUID that `uuid::Uuid::parse_str` reads from a text, if it reads one.
pub uninterp spec fn parsed_uuid(s: Seq<char>) -> Option<u128>;

/// The RFC 3339 text that chrono writes for a point in time, if chrono can
/// hold that point in time at all.
pub uninterp spec fn rfc3339_text(secs: i64, nanos: u32) -> Option<Seq<char>>;

/// The point in time that `chrono::DateTime::parse_from_rfc3339` reads from a
/// text, if it reads one: seconds since the epoch and nanoseconds.
pub uninterp spec fn rfc3339_value(s: Seq<char>) -> Option<(i64, u32)>;

/// `uuid::Uuid::to_string` writes the UUID in its hyphenated lower-case form.
#[verifier::external_body]
fn id_text(id: u128) -> (s: String)
    ensures
        s@ == hyphenated(id),
{
    uuid::Uuid::from_u128(id).to_string()
}

/// `uuid::Uuid::parse_str` reads a UUID from any of the forms the crate
/// knows, or refuses the text. What it reads depends on the text alone.
#[verifier::external_body]
fn parse_id(s: &str) -> (r: Result<u128, uuid::Error>)
    ensures
        r is Ok <==> parsed_uuid(s@) is Some,
        r is Ok ==> parsed_uuid(s@) == Some(r->Ok_0),
{
    match uuid::Uuid::parse_str(s) {
        Ok(u) => Ok(u.as_u128()),
        Err(e) => Err(e),
    }
}

/// `chrono::DateTime::from_timestamp` accepts the point in time or not, and
/// `to_rfc3339` then writes it. What is written depends on the seconds and
/// nanoseconds alone.
#[verifier::external_body]
fn timestamp_text(t: Timestamp) -> (s: Option<String>)
    ensures
        s is Some <==> rfc3339_text(t.secs, t.nanos) is Some,
        s is Some ==> rfc3339_text(t.secs, t.nanos) == Some(s->Some_0@),
{
    match chrono::DateTime::from_timestamp(t.secs, t.nanos) {
        Some(d) => Some(d.to_rfc3339()),
        None => None,
    }
}

/// `chrono::DateTime::parse_from_rfc3339` reads a date and time with its
/// offset, or refuses the text; the result is taken in UTC. What it reads
/// depends on the text alone.
#[verifier::external_body]
fn parse_timestamp(s: &str) -> (r: Result<Timestamp, chrono::ParseError>)
    ensures
        r is Ok <==> rfc3339_value(s@) is Some,
        r is Ok ==> rfc3339_value(s@) == Some((r->Ok_0.secs, r->Ok_0.nanos)),
{
    match chrono::DateTime::parse_from_rfc3339(s) {
        Ok(d) => {
            let u = d.with_timezone(&chrono::Utc);
            Ok(Timestamp { secs: u.timestamp(), nanos: u.timestamp_subsec_nanos() })
        },
        Err(e) => Err(e),
    }
}

/// The stored form of a document.
#[derive(Debug, Clone)]
pub struct DocumentRow {
    pub id: String,
    pub path: String,
    pub created_at: String,
}

/// The row made of a document's columns, once its creation time is written
/// (`None` when it cannot be written).
pub fn row_of_document(id: String, path: String, created_at: Option<String>) -> (r: Result<
    DocumentRow,
    StorageError,
>)
    ensures
        created_at is None ==> r == Err::<DocumentRow, StorageError>(
            StorageError::UnrepresentableTimestamp,
        ),
        created_at is Some ==> r is Ok && r->Ok_0.id == id && r->Ok_0.path == path
            && r->Ok_0.created_at == created_at->Some_0,
{
    match created_at {
        Some(c) => Ok(DocumentRow { id, path, created_at: c }),
        None => Err(StorageError::UnrepresentableTimestamp),
    }
}

/// The stored form of `doc`: its identifier hyphenated, its path, and its
/// creation time in RFC 3339.
pub fn document_row(doc: &Document) -> (r: Result<DocumentRow, StorageError>)
    ensures
        rfc3339_text(doc.created_at.secs, doc.created_at.nanos) is None ==> r == Err::<
            DocumentRow,
            StorageError,
        >(StorageError::UnrepresentableTimestamp),
        rfc3339_text(doc.created_at.secs, doc.created_at.nanos) is Some ==> r is Ok
            && r->Ok_0.id@ == hyphenated(doc.id) && r->Ok_0.path == doc.path && Some(
            r->Ok_0.created_at@,
        ) == rfc3339_text(doc.created_at.secs, doc.created_at.nanos),
{
    row_of_document(id_text(doc.id), doc.path.clone(), timestamp_text(doc.created_at))
}

/// The two identifiers of a chunk in their stored form: its own, then its
/// document's.
pub fn chunk_keys<E>(chunk: &Chunk<E>) -> (keys: (String, String))
    ensures
        keys.0@ == hyphenated(chunk.id),
        keys.1@ == hyphenated(chunk.doc_id),
{
    (id_text(chunk.id), id_text(chunk.doc_id))
}

/// What reading an identifier gave, in the library's own terms.
pub fn id_read(r: Result<u128, uuid::Error>) -> (id: Result<u128, StorageError>)
    ensures
        r is Ok ==> id == Ok::<u128, StorageError>(r->Ok_0),
        r is Err ==> id == Err::<u128, StorageError>(StorageError::MalformedId),
{
    match r {
        Ok(v) => Ok(v),
        Err(_) => Err(StorageError::MalformedId),
    }
}

/// Reads a stored identifier.
pub fn read_id(s: &str) -> (id: Result<u128, StorageError>)
    ensures
        parsed_uuid(s@) is Some ==> id == Ok::<u128, StorageError>(parsed_uuid(s@)->Some_0),
        parsed_uuid(s@) is None ==> id == Err::<u128, StorageError>(StorageError::MalformedId),
{
    id_read(parse_id(s))
}

/// What reading a creation time gave, in the library's own terms.
pub fn timestamp_read(r: Result<Timestamp, chrono::ParseError>) -> (t: Result<
    Timestamp,
    StorageError,
>)
    ensures
        r is Ok ==> t == Ok::<Timestamp, StorageError>(r->Ok_0),
        r is Err ==> t == Err::<Timestamp, StorageError>(StorageError::MalformedTimestamp),
{
    match r {
        Ok(v) => Ok(v),
        Err(_) => Err(StorageError::MalformedTimestamp),
    }
}

/// Reads a stored creation time.
pub fn read_timestamp(s: &str) -> (t: Result<Timestamp, StorageError>)
    ensures
        rfc3339_value(s@) is Some ==> t is Ok && (t->Ok_0.secs, t->Ok_0.nanos) == rfc3339_value(
            s@,
        )->Some_0,
        rfc3339_value(s@) is None ==> t == Err::<Timestamp, StorageError>(
            StorageError::MalformedTimestamp,
        ),
{
    timestamp_read(parse_timestamp(s))
}

/// `c` is the chunk with these identifiers and columns.
pub open spec fn is_chunk_of<E>(
    c: Chunk<E>,
    id: u128,
    doc_id: u128,
    chunk_index: i32,
    text: String,
    embedding: E,
    start_char: i32,
    end_char: i32,
) -> bool {
    &&& c.id == id
    &&& c.doc_id == doc_id
    &&& c.chunk_index == chunk_index
    &&& c.text == text
    &&& c.embedding == embedding
    &&& c.start_char == start_char
    &&& c.end_char == end_char
}

/// The chunk made of a row's columns, once its two identifiers are read. A
/// malformed identifier refuses the row, the chunk's own before the
/// document's.
pub fn chunk_of_columns<E>(
    id: Result<u128, StorageError>,
    doc_id: Result<u128, StorageError>,
    chunk_index: i32,
    text: String,
    embedding: E,
    start_char: i32,
    end_char: i32,
) -> (r: Result<Chunk<E>, StorageError>)
    ensures
        id is Err ==> r is Err && r->Err_0 == id->Err_0,
        id is Ok && doc_id is Err ==> r is Err && r->Err_0 == doc_id->Err_0,
        id is Ok && doc_id is Ok ==> r is Ok && is_chunk_of(
            r->Ok_0,
            id->Ok_0,
            doc_id->Ok_0,
            chunk_index,
            text,
            embedding,
            start_char,
            end_char,
        ),
{
    match id {
        Err(e) => Err(e),
        Ok(id) => match doc_id {
            Err(e) => Err(e),
            Ok(doc_id) => Ok(
                Chunk { id, doc_id, chunk_index, text, embedding, start_char, end_char },
            ),
        },
    }
}

/// Reads a chunk from its stored columns.
pub fn chunk_from_row<E>(
    id: &str,
    doc_id: &str,
    chunk_index: i32,
    text: String,
    embedding: E,
    start_char: i32,
    end_char: i32,
) -> (r: Result<Chunk<E>, StorageError>)
    ensures
        parsed_uuid(id@) is None || parsed_uuid(doc_id@) is None ==> r == Err::<
            Chunk<E>,
            StorageError,
        >(StorageError::MalformedId),
        parsed_uuid(id@) is Some && parsed_uuid(doc_id@) is Some ==> r is Ok && is_chunk_of(
            r->Ok_0,
            parsed_uuid(id@)->Some_0,
            parsed_uuid(doc_id@)->Some_0,
            chunk_index,
            text,
            embedding,
            start_char,
            end_char,
        ),
{
    chunk_of_columns(
        read_id(id),
        read_id(doc_id),
        chunk_index,
        text,
        embedding,
        start_char,
        end_char,
    )
}

/// A row count was read and is a number of rows: it is there, it is not
/// negative, and it fits the machine's word.
pub open spec fn readable(n: Option<i64>) -> bool {
    n is Some && 0 <= n->Some_0 <= usize::MAX
}

/// What a count query gave, as a number of rows.
pub fn count_read(n: Option<i64>) -> (r: Result<usize, StorageError>)
    ensures
        readable(n) ==> r is Ok && r->Ok_0 as int == n->Some_0 as int,
        !readable(n) ==> r == Err::<usize, StorageError>(StorageError::UnreadableCount),
{
    match n {
        Some(v) => {
            if v < 0 || v as u64 > usize::MAX as u64 {
                Err(StorageError::UnreadableCount)
            } else {
                Ok(v as usize)
            }
        },
        None => Err(StorageError::UnreadableCount),
    }
}

/// The statistics of a corpus, from what the three queries gave. A count
/// that could not be read fails the whole, before anything is said of the
/// creation time; the latest creation time is absent when there is no
/// document.
pub fn stats_of(
    doc_count: Option<i64>,
    chunk_count: Option<i64>,
    latest: Option<Result<Timestamp, StorageError>>,
) -> (r: Result<(usize, usize, Option<Timestamp>), StorageError>)
    ensures
        !readable(doc_count) || !readable(chunk_count) ==> r == Err::<
            (usize, usize, Option<Timestamp>),
            StorageError,
        >(StorageError::UnreadableCount),
        readable(doc_count) && readable(chunk_count) && latest is Some && latest->Some_0 is Err
            ==> r is Err && r->Err_0 == latest->Some_0->Err_0,
        readable(doc_count) && readable(chunk_count) && !(latest is Some && latest->Some_0 is Err)
            ==> r is Ok && r->Ok_0.0 as int == doc_count->Some_0 as int && r->Ok_0.1 as int
            == chunk_count->Some_0 as int && r->Ok_0.2 == (match latest {
            Some(t) => Some(t->Ok_0),
            None => None,
        }),
{
    let docs: usize = match count_read(doc_count) {
        Ok(n) => n,
        Err(e) => {
            return Err(e);
        },
    };
    let chunks: usize = match count_read(chunk_count) {
        Ok(n) => n,
        Err(e) => {
            return Err(e);
        },
    };
    match latest {
        None => Ok((docs, chunks, None)),
        Some(Ok(t)) => Ok((docs, chunks, Some(t))),
        Some(Err(e)) => Err(e),
    }
}

/// The statistics of a corpus: the number of documents, the number of
/// chunks, and the latest creation time, read from its stored text. A count
/// that could not be read, or a creation time that is no RFC 3339 text,
/// fails the whole.
pub fn corpus_stats(
    doc_count: Option<i64>,
    chunk_count: Option<i64>,
    latest_created: Option<String>,
) -> (r: Result<(usize, usize, Option<Timestamp>), StorageError>)
    ensures
        !readable(doc_count) || !readable(chunk_count) ==> r == Err::<
            (usize, usize, Option<Timestamp>),
            StorageError,
        >(StorageError::UnreadableCount),
        readable(doc_count) && readable(chunk_count) && latest_created is Some && rfc3339_value(
            latest_created->Some_0@,
        ) is None ==> r == Err::<(usize, usize, Option<Timestamp>), StorageError>(
            StorageError::MalformedTimestamp,
        ),
        readable(doc_count) && readable(chunk_count) && latest_created is None ==> r is Ok
            && r->Ok_0.0 as int == doc_count->Some_0 as int && r->Ok_0.1 as int
            == chunk_count->Some_0 as int && r->Ok_0.2 is None,
        readable(doc_count) && readable(chunk_count) && latest_created is Some && rfc3339_value(
            latest_created->Some_0@,
        ) is Some ==> r is Ok && r->Ok_0.0 as int == doc_count->Some_0 as int && r->Ok_0.1 as int
            == chunk_count->Some_0 as int && r->Ok_0.2 is Some && (
            r->Ok_0.2->Some_0.secs,
            r->Ok_0.2->Some_0.nanos,
        ) == rfc3339_value(latest_created->Some_0@)->Some_0,
{
    let latest = match &latest_created {
        Some(s) => Some(read_timestamp(s.as_str())),
        None => None,
    };
    stats_of(doc_count, chunk_count, latest)
}

} // verus!
