use tapssp_project::ingest::new_document;
use tapssp_project::models::{Chunk, Document, Timestamp};
use tapssp_project::rows::{
    chunk_from_row, chunk_keys, chunk_of_columns, corpus_stats, count_read, document_row, id_read,
    read_id, read_timestamp, row_of_document, stats_of, timestamp_read, StorageError,
};

const ID: u128 = 0xa1a2a3a4b1b2c1c2d1d2d3d4d5d6d7d8;

#[test]
fn document_row_writes_id_and_time_as_text() {
    let doc = Document {
        id: ID,
        path: String::from("docs/a.txt"),
        created_at: Timestamp { secs: 0, nanos: 0 },
    };
    let row = document_row(&doc).unwrap();
    assert_eq!(row.id, "a1a2a3a4-b1b2-c1c2-d1d2-d3d4d5d6d7d8");
    assert_eq!(row.path, "docs/a.txt");
    assert_eq!(row.created_at, "1970-01-01T00:00:00+00:00");

    let doc = Document {
        id: 0x0f,
        path: String::new(),
        created_at: Timestamp { secs: 851042397, nanos: 250_000_000 },
    };
    let row = document_row(&doc).unwrap();
    assert_eq!(row.id, "00000000-0000-0000-0000-00000000000f");
    assert_eq!(row.created_at, "1996-12-20T00:39:57.250+00:00");
}

#[test]
fn document_row_refuses_a_time_out_of_range() {
    let doc = Document {
        id: ID,
        path: String::from("a"),
        created_at: Timestamp { secs: i64::MAX, nanos: 0 },
    };
    assert_eq!(document_row(&doc).err(), Some(StorageError::UnrepresentableTimestamp));
    let doc = Document {
        id: ID,
        path: String::from("a"),
        created_at: Timestamp { secs: 0, nanos: 2_000_000_000 },
    };
    assert_eq!(document_row(&doc).err(), Some(StorageError::UnrepresentableTimestamp));
}

#[test]
fn row_of_document_needs_a_written_time() {
    let r = row_of_document(String::from("i"), String::from("p"), None);
    assert_eq!(r.err(), Some(StorageError::UnrepresentableTimestamp));
    let row = row_of_document(String::from("i"), String::from("p"), Some(String::from("t")))
        .unwrap();
    assert_eq!((row.id.as_str(), row.path.as_str(), row.created_at.as_str()), ("i", "p", "t"));
}

#[test]
fn document_row_of_a_new_document_reads_back() {
    let doc = new_document(String::from("x.txt"));
    let row = document_row(&doc).unwrap();
    assert_eq!(row.id, uuid::Uuid::from_u128(doc.id).to_string());
    assert_eq!(read_id(&row.id), Ok(doc.id));
    let t = read_timestamp(&row.created_at).unwrap();
    assert_eq!(t, doc.created_at);
}

#[test]
fn read_id_accepts_uuids_and_refuses_the_rest() {
    assert_eq!(read_id("a1a2a3a4-b1b2-c1c2-d1d2-d3d4d5d6d7d8"), Ok(ID));
    assert_eq!(read_id("A1A2A3A4B1B2C1C2D1D2D3D4D5D6D7D8"), Ok(ID));
    assert_eq!(read_id(""), Err(StorageError::MalformedId));
    assert_eq!(read_id("not-a-uuid"), Err(StorageError::MalformedId));
    assert_eq!(read_id("a1a2a3a4-b1b2-c1c2-d1d2-d3d4d5d6d7"), Err(StorageError::MalformedId));
}

#[test]
fn id_read_maps_the_outcome() {
    assert_eq!(id_read(Ok(7)), Ok(7));
    let e = uuid::Uuid::parse_str("zz").unwrap_err();
    assert_eq!(id_read(Err(e)), Err(StorageError::MalformedId));
}

#[test]
fn read_timestamp_reads_rfc3339_in_utc() {
    assert_eq!(
        read_timestamp("1996-12-19T16:39:57-08:00"),
        Ok(Timestamp { secs: 851042397, nanos: 0 })
    );
    assert_eq!(
        read_timestamp("1970-01-01T00:00:01.500Z"),
        Ok(Timestamp { secs: 1, nanos: 500_000_000 })
    );
    assert_eq!(read_timestamp("yesterday"), Err(StorageError::MalformedTimestamp));
    assert_eq!(read_timestamp(""), Err(StorageError::MalformedTimestamp));
    assert_eq!(read_timestamp("1996-12-19 16:39"), Err(StorageError::MalformedTimestamp));
}

#[test]
fn timestamp_read_maps_the_outcome() {
    let t = Timestamp { secs: 5, nanos: 6 };
    assert_eq!(timestamp_read(Ok(t)), Ok(t));
    let e = chrono::DateTime::parse_from_rfc3339("x").unwrap_err();
    assert_eq!(timestamp_read(Err(e)), Err(StorageError::MalformedTimestamp));
}

#[test]
fn chunk_keys_are_the_two_hyphenated_ids() {
    let chunk = Chunk {
        id: ID,
        doc_id: 1,
        chunk_index: 0,
        text: String::from("t"),
        embedding: vec![0.5f32],
        start_char: 0,
        end_char: 1,
    };
    let (id, doc_id) = chunk_keys(&chunk);
    assert_eq!(id, "a1a2a3a4-b1b2-c1c2-d1d2-d3d4d5d6d7d8");
    assert_eq!(doc_id, "00000000-0000-0000-0000-000000000001");
}

#[test]
fn chunk_from_row_reads_the_columns() {
    let c = chunk_from_row(
        "a1a2a3a4-b1b2-c1c2-d1d2-d3d4d5d6d7d8",
        "00000000-0000-0000-0000-000000000001",
        3,
        String::from("text"),
        vec![1.5f32, -2.0],
        21,
        25,
    )
    .unwrap();
    assert_eq!(c.id, ID);
    assert_eq!(c.doc_id, 1);
    assert_eq!(c.chunk_index, 3);
    assert_eq!(c.text, "text");
    assert_eq!(c.embedding, vec![1.5f32, -2.0]);
    assert_eq!((c.start_char, c.end_char), (21, 25));
}

#[test]
fn chunk_from_row_refuses_malformed_ids() {
    let good = "00000000-0000-0000-0000-000000000001";
    let r = chunk_from_row("nope", good, 0, String::new(), 0u8, 0, 0);
    assert_eq!(r.err(), Some(StorageError::MalformedId));
    let r = chunk_from_row(good, "nope", 0, String::new(), 0u8, 0, 0);
    assert_eq!(r.err(), Some(StorageError::MalformedId));
}

#[test]
fn chunk_of_columns_reports_the_first_failure() {
    let r = chunk_of_columns(
        Err(StorageError::MalformedId),
        Err(StorageError::MalformedTimestamp),
        0,
        String::new(),
        0u8,
        0,
        0,
    );
    assert_eq!(r.err(), Some(StorageError::MalformedId));
    let r = chunk_of_columns(
        Ok(1),
        Err(StorageError::MalformedTimestamp),
        0,
        String::new(),
        0u8,
        0,
        0,
    );
    assert_eq!(r.err(), Some(StorageError::MalformedTimestamp));
    let c = chunk_of_columns(Ok(1), Ok(2), 3, String::from("t"), 9u8, 4, 5).unwrap();
    assert_eq!((c.id, c.doc_id, c.chunk_index, c.embedding), (1, 2, 3, 9));
    assert_eq!((c.text.as_str(), c.start_char, c.end_char), ("t", 4, 5));
}

#[test]
fn stats_of_an_empty_corpus() {
    assert_eq!(stats_of(Some(0), Some(0), None), Ok((0, 0, None)));
    assert_eq!(corpus_stats(Some(0), Some(0), None), Ok((0, 0, None)));
}

#[test]
fn stats_of_counts_and_latest_time() {
    let t = Timestamp { secs: 10, nanos: 0 };
    assert_eq!(stats_of(Some(2), Some(7), Some(Ok(t))), Ok((2, 7, Some(t))));
    assert_eq!(
        stats_of(Some(2), Some(7), Some(Err(StorageError::MalformedTimestamp))),
        Err(StorageError::MalformedTimestamp)
    );
    assert_eq!(
        corpus_stats(Some(1), Some(4), Some(String::from("1970-01-01T00:00:10+00:00"))),
        Ok((1, 4, Some(t)))
    );
    assert_eq!(
        corpus_stats(Some(1), Some(4), Some(String::from("garbage"))),
        Err(StorageError::MalformedTimestamp)
    );
}

#[test]
fn count_read_takes_only_numbers_of_rows() {
    assert_eq!(count_read(Some(0)), Ok(0));
    assert_eq!(count_read(Some(41)), Ok(41));
    assert_eq!(count_read(None), Err(StorageError::UnreadableCount));
    assert_eq!(count_read(Some(-1)), Err(StorageError::UnreadableCount));
    assert_eq!(count_read(Some(i64::MIN)), Err(StorageError::UnreadableCount));
}

#[test]
fn stats_fail_when_a_count_could_not_be_read() {
    let t = Timestamp { secs: 10, nanos: 0 };
    let unreadable = Err(StorageError::UnreadableCount);
    assert_eq!(stats_of(None, None, None), unreadable);
    assert_eq!(stats_of(None, Some(7), Some(Ok(t))), unreadable);
    assert_eq!(stats_of(Some(2), None, Some(Ok(t))), unreadable);
    assert_eq!(stats_of(Some(-3), Some(7), None), unreadable);
    assert_eq!(corpus_stats(None, Some(0), None), unreadable);
    assert_eq!(corpus_stats(Some(0), None, None), unreadable);
    assert_eq!(
        corpus_stats(Some(1), None, Some(String::from("1970-01-01T00:00:10+00:00"))),
        unreadable
    );
    // an unreadable count is reported before a malformed creation time
    assert_eq!(corpus_stats(None, Some(4), Some(String::from("garbage"))), unreadable);
    assert_eq!(
        stats_of(None, Some(7), Some(Err(StorageError::MalformedTimestamp))),
        unreadable
    );
}
