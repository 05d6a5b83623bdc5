use usr_backend::Batcher;
use usr_backend::chunk_messages;

fn batch(entries: &[(u32, &str)]) -> Vec<(u32, String)> {
    entries.iter().map(|(k, m)| (*k, m.to_string())).collect()
}

#[test]
fn empty_batch_sends_nothing() {
    let chunks = chunk_messages(&Vec::new(), "\n", 2000);
    assert!(chunks.is_empty());
}

#[test]
fn both_messages_share_one_chunk() {
    // two short messages within the window travel as a single chunk
    let chunks = chunk_messages(&batch(&[(1, "A"), (2, "B")]), "\n", 2000);
    assert_eq!(chunks, vec!["A\nB".to_string()]);
}

#[test]
fn three_long_messages_three_chunks() {
    // 1900 + separator + 1900 exceeds 2000, so each message goes alone
    let long = "x".repeat(1900);
    let chunks = chunk_messages(&batch(&[(1, &long), (2, &long), (3, &long)]), "\n", 2000);
    assert_eq!(chunks.len(), 3);
    for chunk in &chunks {
        assert_eq!(*chunk, long);
    }
}

#[test]
fn greedy_packing_respects_budget() {
    let chunks = chunk_messages(&batch(&[(1, "aaaa"), (2, "bbbb"), (3, "cc")]), "\n", 10);
    assert_eq!(chunks, vec!["aaaa\nbbbb".to_string(), "cc".to_string()]);
}

#[test]
fn chunk_may_fill_budget_exactly() {
    let chunks = chunk_messages(&batch(&[(1, "aaa"), (2, "bb")]), "\n", 6);
    assert_eq!(chunks, vec!["aaa\nbb".to_string()]);
}

#[test]
fn oversized_message_is_its_own_chunk_unmodified() {
    let huge = "y".repeat(3000);
    let chunks = chunk_messages(&batch(&[(1, &huge)]), "\n", 2000);
    assert_eq!(chunks, vec![huge]);
}

#[test]
fn every_chunk_fits_unless_it_is_one_oversized_message() {
    let oversized = "z".repeat(2500);
    let entries = batch(&[(1, "first"), (2, &oversized), (3, "third"), (4, "fourth")]);
    let messages: Vec<String> = entries.iter().map(|(_, m)| m.clone()).collect();
    let chunks = chunk_messages(&entries, "\n", 2000);
    let mut seen = 0;
    for chunk in &chunks {
        assert!(chunk.chars().count() <= 2000 || messages.contains(chunk));
        seen += chunk.split('\n').count();
    }
    // every message lands in exactly one chunk, none lost, none doubled
    assert_eq!(seen, messages.len());
    assert!(chunks.contains(&oversized));
}

#[test]
fn multibyte_messages_count_characters_not_bytes() {
    // four two-byte characters per message; both messages fit nine characters
    let chunks = chunk_messages(&batch(&[(1, "ääää"), (2, "öööö")]), "\n", 9);
    assert_eq!(chunks, vec!["ääää\nöööö".to_string()]);
}

#[test]
fn batcher_chunks_with_its_own_configuration() {
    let mut b = Batcher::new(300, 10, "\n".to_string());
    b.enqueue(1, "aaaa".to_string(), 0);
    b.enqueue(2, "bbbb".to_string(), 1);
    b.enqueue(3, "cc".to_string(), 2);
    let (_, generation) = b.snapshot().unwrap();
    let drained = b.try_drain(generation).unwrap();
    let chunks = b.chunk_batch(&drained);
    assert_eq!(chunks, vec!["aaaa\nbbbb".to_string(), "cc".to_string()]);
}
