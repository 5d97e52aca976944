use tapssp_project::chunker::chunk_text;
use tapssp_project::text::{is_blank, is_whitespace, string_of, to_chars};

#[test]
fn chunk_text_respects_overlap() {
    let text = "abcdefghijklmnopqrstuvwxyz"; // 26 chars
    let chunks = chunk_text(text, 10, 3);

    assert!(!chunks.is_empty());
    for w in chunks.windows(2) {
        let (_, end_prev, _) = &w[0];
        let (start_next, _, _) = &w[1];
        assert!(start_next < end_prev, "chunks should overlap");
    }
}

#[test]
fn chunk_text_exact_windows() {
    let chunks = chunk_text("abcdefghijklmnopqrstuvwxyz", 10, 3);
    assert_eq!(
        chunks,
        vec![
            (0, 10, String::from("abcdefghij")),
            (7, 17, String::from("hijklmnopq")),
            (14, 24, String::from("opqrstuvwx")),
            (21, 26, String::from("vwxyz")),
        ]
    );
}

#[test]
fn chunk_text_without_overlap_tiles_the_text() {
    let chunks = chunk_text("abcdefgh", 3, 0);
    assert_eq!(
        chunks,
        vec![
            (0, 3, String::from("abc")),
            (3, 6, String::from("def")),
            (6, 8, String::from("gh")),
        ]
    );
}

#[test]
fn chunk_text_stops_at_the_window_that_reaches_the_end() {
    // the second window ends exactly at the end: no trailing third window
    let chunks = chunk_text("abcdefg", 4, 1);
    assert_eq!(chunks, vec![(0, 4, String::from("abcd")), (3, 7, String::from("defg"))]);
    let chunks = chunk_text("abcd", 4, 1);
    assert_eq!(chunks, vec![(0, 4, String::from("abcd"))]);
}

#[test]
fn chunk_text_empty_inputs_give_nothing() {
    assert!(chunk_text("", 10, 3).is_empty());
    assert!(chunk_text("abc", 0, 0).is_empty());
    assert!(chunk_text("abc", 0, 5).is_empty());
    assert!(chunk_text("", 0, 0).is_empty());
}

#[test]
fn chunk_text_overlap_not_below_size_gives_one_chunk() {
    let chunks = chunk_text("abcdefghij", 4, 4);
    assert_eq!(chunks, vec![(0, 4, String::from("abcd"))]);
    let chunks = chunk_text("abcdefghij", 4, 9);
    assert_eq!(chunks, vec![(0, 4, String::from("abcd"))]);
    let chunks = chunk_text("ab", 4, 9);
    assert_eq!(chunks, vec![(0, 2, String::from("ab"))]);
}

#[test]
fn chunk_text_counts_characters_not_bytes() {
    let text = "h\u{e9}llo w\u{f6}rld \u{1f980} ok";
    let chunks = chunk_text(text, 5, 2);
    let chars: Vec<char> = text.chars().collect();
    assert_eq!(chunks[0], (0, 5, String::from("h\u{e9}llo")));
    for (start, end, piece) in &chunks {
        let expected: String = chars[*start..*end].iter().collect();
        assert_eq!(piece, &expected);
        assert!(end - start <= 5);
    }
    assert_eq!(chunks.last().unwrap().1, chars.len());
}

#[test]
fn chunk_text_huge_size_does_not_overflow() {
    let chunks = chunk_text("abc", usize::MAX, usize::MAX);
    assert_eq!(chunks, vec![(0, 3, String::from("abc"))]);
    let chunks = chunk_text("abc", usize::MAX, 1);
    assert_eq!(chunks, vec![(0, 3, String::from("abc"))]);
}

#[test]
fn chunk_text_covers_the_text_for_many_shapes() {
    let text: String = (0..57).map(|i| char::from(b'a' + (i % 26) as u8)).collect();
    for size in 1..12usize {
        for overlap in 0..size {
            let chunks = chunk_text(&text, size, overlap);
            assert_eq!(chunks[0].0, 0);
            assert_eq!(chunks.last().unwrap().1, 57);
            for (i, c) in chunks.iter().enumerate() {
                assert_eq!(c.0, i * (size - overlap));
                assert_eq!(c.1, usize::min(c.0 + size, 57));
                assert_eq!(c.2, text[c.0..c.1]);
            }
            for w in chunks.windows(2) {
                assert!(w[1].0 <= w[0].1);
                assert!(w[0].1 < 57);
                if overlap > 0 {
                    assert!(w[1].0 < w[0].1);
                }
            }
        }
    }
}

#[test]
fn whitespace_agrees_with_the_standard_library() {
    for u in 0..=0x10FFFFu32 {
        if let Some(c) = char::from_u32(u) {
            assert_eq!(is_whitespace(c), c.is_whitespace(), "U+{:04X}", u);
        }
    }
}

#[test]
fn blank_texts() {
    assert!(is_blank(""));
    assert!(is_blank(" \t\r\n\u{a0}\u{3000}"));
    assert!(!is_blank("  x  "));
    assert!(!is_blank("\u{200b}"));
}

#[test]
fn chars_and_strings_round_trip() {
    let chars = to_chars("a\u{e9}\u{1f980}z");
    assert_eq!(chars, vec!['a', '\u{e9}', '\u{1f980}', 'z']);
    assert_eq!(string_of(&chars, 1, 3), "\u{e9}\u{1f980}");
    assert_eq!(string_of(&chars, 2, 2), "");
    assert_eq!(string_of(&chars, 0, 4), "a\u{e9}\u{1f980}z");
}
