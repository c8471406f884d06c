use tags_lsp::location::Location;
use tags_lsp::location::Position;
use tags_lsp::location::Range;
use tags_lsp::stream::append_capped;
use tags_lsp::stream::stream_in_batches;
use tags_lsp::stream::StreamBatcher;
use tags_lsp::stream::PARTIAL_CHUNK;
use tags_lsp::stream::RECORD_LIMIT;
use tags_lsp::symbols::SymbolInformation;
use tags_lsp::symbols::SymbolKind;

fn info(n: usize) -> SymbolInformation {
    let p = Position { line: n as u32, character: 0 };
    SymbolInformation {
        name: format!("sym{}", n),
        kind: SymbolKind::Function,
        location: Location { path: String::from("/p/a.c"), range: Range { start: p, end: p } },
    }
}

fn infos(n: usize) -> Vec<SymbolInformation> {
    (0..n).map(info).collect()
}

#[test]
fn forty_results_make_three_chunks() {
    // 40 matches stream as exactly three partial results: 16, 16 and 8.
    let chunks = stream_in_batches(&infos(40));
    assert_eq!(chunks.len(), 3);
    assert_eq!(chunks[0].len(), 16);
    assert_eq!(chunks[1].len(), 16);
    assert_eq!(chunks[2].len(), 8);
    assert!(chunks.iter().all(|c| !c.is_empty()));
    let flat: Vec<SymbolInformation> = chunks.into_iter().flatten().collect();
    assert_eq!(flat, infos(40));
}

#[test]
fn zero_results_emit_nothing() {
    assert!(stream_in_batches(&infos(0)).is_empty());
}

#[test]
fn exact_multiples_suppress_the_empty_flush() {
    let chunks = stream_in_batches(&infos(32));
    assert_eq!(chunks.len(), 2);
    assert_eq!(chunks[0].len(), 16);
    assert_eq!(chunks[1].len(), 16);
    let chunks = stream_in_batches(&infos(16));
    assert_eq!(chunks.len(), 1);
}

#[test]
fn short_scans_flush_once() {
    let chunks = stream_in_batches(&infos(5));
    assert_eq!(chunks.len(), 1);
    assert_eq!(chunks[0].len(), 5);
}

#[test]
fn batcher_emits_on_every_sixteenth_push() {
    let mut b = StreamBatcher::new();
    let mut emitted = 0;
    for k in 0..40 {
        if let Some(chunk) = b.push(info(k)) {
            emitted += 1;
            assert_eq!(chunk.len(), PARTIAL_CHUNK);
        }
    }
    assert_eq!(emitted, 2);
    let last = b.finish().unwrap();
    assert_eq!(last.len(), 8);
}

#[test]
fn synchronous_answers_cap_at_ninety_nine() {
    let mut acc = Vec::new();
    let full = append_capped(&mut acc, &infos(150));
    assert!(full);
    assert_eq!(acc.len(), RECORD_LIMIT);
    // A full answer stays as it is.
    let full = append_capped(&mut acc, &infos(10));
    assert!(full);
    assert_eq!(acc.len(), RECORD_LIMIT);
}

#[test]
fn partial_answers_keep_accumulating() {
    let mut acc = Vec::new();
    let full = append_capped(&mut acc, &infos(50));
    assert!(!full);
    let full = append_capped(&mut acc, &infos(30));
    assert!(!full);
    assert_eq!(acc.len(), 80);
    let full = append_capped(&mut acc, &infos(30));
    assert!(full);
    assert_eq!(acc.len(), 99);
}
