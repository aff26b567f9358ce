use buildops40::db::models::import::{
    ChunkStrategy, DocumentMetadata, ExtractedDocument, ExtractedSection,
};
use buildops40::error::AppError;
use buildops40::services::document_chunker::{
    assemble_chunks, chunk_by_sections, chunk_document, chunk_document_with, chunk_multi_pass,
    chunk_sections_counted, extract_last_paragraph, group_sections, join_group,
    merge_multi_file_content, plan_multi_pass, section_text, section_texts, select_strategy,
    single_pass, ChunkerConfig, Tokenizer,
};

fn section(heading: &str, content: &str) -> ExtractedSection {
    ExtractedSection {
        heading: heading.to_string(),
        level: 1,
        content: content.to_string(),
        page_number: 1,
        has_code: false,
        has_list: false,
        estimated_complexity: 1,
    }
}

fn document(name: &str, raw_text: &str, sections: Vec<ExtractedSection>) -> ExtractedDocument {
    ExtractedDocument {
        file_name: name.to_string(),
        total_pages: 3,
        raw_text: raw_text.to_string(),
        sections,
        code_blocks: vec![],
        metadata: DocumentMetadata {
            title: Some(name.to_string()),
            author: None,
            page_count: 3,
            word_count: 10,
            detected_languages: vec![],
            detected_topics: vec![],
        },
    }
}

fn all_refs(chunks: &[buildops40::db::models::import::DocumentChunk]) -> Vec<usize> {
    chunks.iter().flat_map(|c| c.section_refs.clone()).collect()
}

#[test]
fn two_sections_of_200_tokens_under_a_budget_of_300_make_two_groups() {
    let (groups, sums) = group_sections(&vec![200, 200], 300);
    assert_eq!(groups, vec![vec![0], vec![1]]);
    assert_eq!(sums, vec![200, 200]);
}

#[test]
fn two_sections_of_200_tokens_under_a_budget_of_300_make_two_chunks() {
    let doc = document("guide.pdf", "raw", vec![section("A", "alpha"), section("B", "beta")]);
    let chunked = chunk_sections_counted(&doc, &vec![200, 200], 300).ok().unwrap();
    assert!(matches!(chunked.chunk_strategy, ChunkStrategy::SectionBased));
    assert_eq!(chunked.chunks.len(), 2);
    assert_eq!(chunked.chunks[0].section_refs, vec![0]);
    assert_eq!(chunked.chunks[1].section_refs, vec![1]);
    assert_eq!(chunked.chunks[0].index, 0);
    assert_eq!(chunked.chunks[1].index, 1);
    assert!(!chunked.chunks[0].is_continuation);
    assert!(chunked.chunks[1].is_continuation);
    assert_eq!(chunked.chunks[0].content, "\n\n## A\n\nalpha");
    assert_eq!(chunked.chunks[1].content, "\n\n## B\n\nbeta");
    assert_eq!(chunked.chunks[0].token_count, 200);
    assert_eq!(chunked.chunks[1].token_count, 200);
    assert_eq!(chunked.total_tokens, 400);
}

#[test]
fn group_sections_fills_groups_greedily() {
    let (groups, sums) = group_sections(&vec![100, 100, 100, 250, 10, 400, 5, 5], 300);
    assert_eq!(groups, vec![vec![0, 1, 2], vec![3, 4], vec![5], vec![6, 7]]);
    assert_eq!(sums, vec![300, 260, 400, 10]);
}

#[test]
fn group_sections_keeps_an_oversized_section_whole() {
    let (groups, sums) = group_sections(&vec![1000], 300);
    assert_eq!(groups, vec![vec![0]]);
    assert_eq!(sums, vec![1000]);
    let (groups, _) = group_sections(&vec![usize::MAX, usize::MAX, 1], 10);
    assert_eq!(groups, vec![vec![0], vec![1], vec![2]]);
}

#[test]
fn group_sections_of_nothing_is_nothing() {
    let (groups, sums) = group_sections(&vec![], 300);
    assert!(groups.is_empty());
    assert!(sums.is_empty());
}

#[test]
fn group_sections_with_empty_sections_and_zero_budget() {
    let (groups, _) = group_sections(&vec![0, 0, 0], 0);
    assert_eq!(groups, vec![vec![0, 1, 2]]);
    let (groups, _) = group_sections(&vec![1, 0, 1], 0);
    assert_eq!(groups, vec![vec![0], vec![1], vec![2]]);
}

#[test]
fn groups_partition_the_sections_in_order() {
    let counts: Vec<usize> = (0..57).map(|i| (i * 37 + 11) % 211).collect();
    for budget in [0, 1, 50, 210, 211, 500, 100_000] {
        let (groups, sums) = group_sections(&counts, budget);
        let flat: Vec<usize> = groups.iter().flatten().copied().collect();
        assert_eq!(flat, (0..counts.len()).collect::<Vec<usize>>());
        for (g, s) in groups.iter().zip(&sums) {
            assert!(!g.is_empty());
            assert_eq!(*s, g.iter().map(|i| counts[*i]).sum::<usize>());
            assert!(g.len() == 1 || *s <= budget);
        }
        assert_eq!(sums.iter().sum::<usize>(), counts.iter().sum::<usize>());
        for i in 0..groups.len().saturating_sub(1) {
            assert!(sums[i] + counts[groups[i + 1][0]] > budget);
        }
    }
}

#[test]
fn section_text_sets_the_heading_off() {
    assert_eq!(section_text(&section("Intro", "Hello")), "\n\n## Intro\n\nHello");
    let doc = document("d", "", vec![section("A", "1"), section("B", "2")]);
    assert_eq!(section_texts(&doc), vec!["\n\n## A\n\n1", "\n\n## B\n\n2"]);
    let texts = vec!["a".to_string(), "b".to_string(), "c".to_string()];
    assert_eq!(join_group(&texts, &vec![0, 2]), "ac");
    assert_eq!(join_group(&texts, &vec![]), "");
}

#[test]
fn assemble_chunks_fails_where_the_total_overflows() {
    let r = assemble_chunks(
        vec!["a".to_string(), "b".to_string()],
        &vec![usize::MAX, 1],
        vec![vec![0], vec![1]],
        ChunkStrategy::SectionBased,
    );
    assert!(matches!(r, Err(AppError::Internal(_))));
}

#[test]
fn assemble_chunks_numbers_the_chunks() {
    let doc = assemble_chunks(
        vec!["a".to_string(), "b".to_string(), "c".to_string()],
        &vec![1, 2, 3],
        vec![vec![0], vec![1, 2], vec![3]],
        ChunkStrategy::MultiPass,
    )
    .ok()
    .unwrap();
    assert!(matches!(doc.chunk_strategy, ChunkStrategy::MultiPass));
    assert_eq!(doc.total_tokens, 6);
    for (i, c) in doc.chunks.iter().enumerate() {
        assert_eq!(c.index, i);
        assert_eq!(c.is_continuation, i > 0);
    }
    assert_eq!(doc.chunks[1].content, "b");
    assert_eq!(doc.chunks[1].token_count, 2);
    assert_eq!(doc.chunks[1].section_refs, vec![1, 2]);
}

#[test]
fn extract_last_paragraph_takes_the_last_three_lines() {
    assert_eq!(extract_last_paragraph("one\ntwo\nthree\nfour\n\n"), "two three four");
    assert_eq!(extract_last_paragraph("  only line  "), "only line");
    assert_eq!(extract_last_paragraph("a\nb"), "a b");
    assert_eq!(extract_last_paragraph(""), "");
    assert_eq!(extract_last_paragraph("a\n\nb"), "a  b");
    assert_eq!(extract_last_paragraph("a\r\nb\r\nc\r\nd"), "b c d");
}

#[test]
fn extract_last_paragraph_keeps_at_most_200_characters() {
    let long = "é".repeat(150) + "\n" + &"x".repeat(150);
    let got = extract_last_paragraph(&long);
    assert_eq!(got.chars().count(), 200);
    assert_eq!(got, "é".repeat(150) + " " + &"x".repeat(49));
}

#[test]
fn plan_multi_pass_opens_later_chunks_with_a_note() {
    let doc = document(
        "guide.pdf",
        "raw",
        vec![section("A", "alpha\nline two"), section("B", "beta"), section("C", "gamma")],
    );
    let (contents, groups) = plan_multi_pass(&doc, &vec![200, 200, 50], 300);
    assert_eq!(groups, vec![vec![0], vec![1, 2]]);
    assert_eq!(contents[0], "\n\n## A\n\nalpha\nline two");
    assert_eq!(
        contents[1],
        "This is chunk 2/2 of document 'guide.pdf'. Previous context:  alpha line two\n\n\n\n## B\n\nbeta\n\n## C\n\ngamma"
    );
}

#[test]
fn plan_multi_pass_fills_in_the_number_of_chunks_everywhere() {
    let doc = document(
        "d.txt",
        "TBD",
        vec![section("A", "TBD"), section("B", "b"), section("C", "c")],
    );
    let (contents, groups) = plan_multi_pass(&doc, &vec![10, 10, 10], 5);
    assert_eq!(groups.len(), 3);
    assert_eq!(contents[0], "\n\n## A\n\nTBD");
    assert!(contents[1].starts_with("This is chunk 2/3 of document 'd.txt'. Previous context: ## A  TBD\n\n"));
    assert!(contents[2].starts_with("This is chunk 3/3 of document 'd.txt'. Previous context: ## B  b\n\n"));
}

#[test]
fn select_strategy_goes_by_the_thresholds() {
    let config = ChunkerConfig::default();
    assert_eq!(config.single_pass_limit, 150_000);
    assert_eq!(config.section_based_limit, 500_000);
    assert_eq!(config.section_chunk_budget, 100_000);
    assert_eq!(config.multi_pass_budget, 80_000);
    assert!(matches!(select_strategy(0, &config), ChunkStrategy::SinglePass));
    assert!(matches!(select_strategy(149_999, &config), ChunkStrategy::SinglePass));
    assert!(matches!(select_strategy(150_000, &config), ChunkStrategy::SectionBased));
    assert!(matches!(select_strategy(499_999, &config), ChunkStrategy::SectionBased));
    assert!(matches!(select_strategy(500_000, &config), ChunkStrategy::MultiPass));
    assert!(matches!(select_strategy(usize::MAX, &config), ChunkStrategy::MultiPass));
}

#[test]
fn single_pass_is_one_chunk_over_every_section() {
    let doc = document("d", "the whole text", vec![section("A", "1"), section("B", "2")]);
    let chunked = single_pass(&doc, 42);
    assert!(matches!(chunked.chunk_strategy, ChunkStrategy::SinglePass));
    assert_eq!(chunked.chunks.len(), 1);
    assert_eq!(chunked.chunks[0].content, "the whole text");
    assert_eq!(chunked.chunks[0].token_count, 42);
    assert_eq!(chunked.chunks[0].section_refs, vec![0, 1]);
    assert_eq!(chunked.chunks[0].index, 0);
    assert!(!chunked.chunks[0].is_continuation);
    assert_eq!(chunked.total_tokens, 42);
}

#[test]
fn tokenizer_counts_tokens() {
    let tokenizer = Tokenizer::cl100k().ok().unwrap();
    assert_eq!(tokenizer.count_tokens("").ok().unwrap(), 0);
    assert_eq!(tokenizer.count_tokens("hello world").ok().unwrap(), 2);
    assert_eq!(tokenizer.count_tokens("<|endoftext|>").ok().unwrap(), 1);
    let counts =
        tokenizer.count_all(&vec!["hello".to_string(), "hello world".to_string()]).ok().unwrap();
    assert_eq!(counts, vec![1, 2]);
}

#[test]
fn chunk_document_of_a_small_document_is_a_single_pass() {
    let doc = document(
        "small.md",
        "A small study guide about Rust.",
        vec![section("A", "1"), section("B", "2"), section("C", "3")],
    );
    let chunked = chunk_document(&doc).ok().unwrap();
    assert!(matches!(chunked.chunk_strategy, ChunkStrategy::SinglePass));
    assert_eq!(chunked.chunks.len(), 1);
    assert_eq!(chunked.chunks[0].content, "A small study guide about Rust.");
    assert_eq!(chunked.chunks[0].section_refs, vec![0, 1, 2]);
    assert_eq!(chunked.chunks[0].token_count, chunked.total_tokens);
    assert!(chunked.total_tokens > 0 && chunked.total_tokens < 20);
}

#[test]
fn chunk_document_with_small_limits_chunks_by_sections() {
    let tokenizer = Tokenizer::cl100k().ok().unwrap();
    let body = "word ".repeat(40);
    let sections: Vec<ExtractedSection> =
        (0..6).map(|i| section(&format!("S{}", i), &body)).collect();
    let doc = document("big.txt", &"word ".repeat(300), sections);
    let config = ChunkerConfig {
        single_pass_limit: 10,
        section_based_limit: 100_000,
        section_chunk_budget: 100,
        multi_pass_budget: 100,
    };
    let chunked = chunk_document_with(&doc, &tokenizer, &config).ok().unwrap();
    assert!(matches!(chunked.chunk_strategy, ChunkStrategy::SectionBased));
    assert!(chunked.chunks.len() > 1);
    assert_eq!(all_refs(&chunked.chunks), vec![0, 1, 2, 3, 4, 5]);
    let sum: usize = chunked.chunks.iter().map(|c| c.token_count).sum();
    assert_eq!(chunked.total_tokens, sum);
    for c in &chunked.chunks {
        assert!(c.section_refs.len() == 1 || c.token_count <= 100);
        assert_eq!(tokenizer.count_tokens(&c.content).ok().unwrap() > 0, true);
    }
}

#[test]
fn chunk_by_sections_counts_each_section_text() {
    let tokenizer = Tokenizer::cl100k().ok().unwrap();
    let doc = document("d", "", vec![section("A", "hello world"), section("B", "hello")]);
    let chunked = chunk_by_sections(&doc, &tokenizer, 1).ok().unwrap();
    assert_eq!(chunked.chunks.len(), 2);
    let first = tokenizer.count_tokens("\n\n## A\n\nhello world").ok().unwrap();
    let second = tokenizer.count_tokens("\n\n## B\n\nhello").ok().unwrap();
    assert_eq!(chunked.chunks[0].token_count, first);
    assert_eq!(chunked.chunks[1].token_count, second);
    assert_eq!(chunked.total_tokens, first + second);
}

#[test]
fn chunk_multi_pass_counts_the_whole_content_of_each_chunk() {
    let tokenizer = Tokenizer::cl100k().ok().unwrap();
    let doc = document(
        "notes.txt",
        "",
        vec![section("A", "first part"), section("B", "second part"), section("C", "third")],
    );
    let chunked = chunk_multi_pass(&doc, &tokenizer, 1).ok().unwrap();
    assert!(matches!(chunked.chunk_strategy, ChunkStrategy::MultiPass));
    assert_eq!(chunked.chunks.len(), 3);
    assert_eq!(all_refs(&chunked.chunks), vec![0, 1, 2]);
    assert_eq!(chunked.chunks[0].content, "\n\n## A\n\nfirst part");
    assert_eq!(
        chunked.chunks[2].content,
        "This is chunk 3/3 of document 'notes.txt'. Previous context: ## B  second part\n\n\n\n## C\n\nthird"
    );
    let mut total = 0;
    for c in &chunked.chunks {
        assert_eq!(c.token_count, tokenizer.count_tokens(&c.content).ok().unwrap());
        total += c.token_count;
    }
    assert_eq!(chunked.total_tokens, total);
}

#[test]
fn chunk_by_sections_of_a_document_without_sections_has_no_chunks() {
    let tokenizer = Tokenizer::cl100k().ok().unwrap();
    let doc = document("d", "text", vec![]);
    let chunked = chunk_by_sections(&doc, &tokenizer, 100).ok().unwrap();
    assert!(chunked.chunks.is_empty());
    assert_eq!(chunked.total_tokens, 0);
}

#[test]
fn merge_multi_file_content_joins_documents() {
    let mut a = document("a.md", "Alpha", vec![section("A1", "x"), section("A2", "y")]);
    a.total_pages = 2;
    a.metadata.word_count = 5;
    a.metadata.detected_languages = vec!["rust".to_string(), "css".to_string()];
    a.metadata.detected_topics = vec!["testing".to_string()];
    let mut b = document("b.txt", "Beta", vec![section("B1", "z")]);
    b.total_pages = 7;
    b.metadata.word_count = 11;
    b.metadata.detected_languages = vec!["python".to_string(), "css".to_string()];
    b.metadata.detected_topics = vec!["api".to_string(), "testing".to_string()];
    let merged = merge_multi_file_content(vec![a, b]);
    assert_eq!(merged.file_name, "Multi-file Import");
    assert_eq!(
        merged.raw_text,
        "\n\n=== FILE: a.md (2 pages) ===\n\nAlpha\n\n=== FILE: b.txt (7 pages) ===\n\nBeta"
    );
    let headings: Vec<&str> = merged.sections.iter().map(|s| s.heading.as_str()).collect();
    assert_eq!(headings, vec!["A1", "A2", "B1"]);
    assert_eq!(merged.total_pages, 9);
    assert_eq!(merged.metadata.page_count, 9);
    assert_eq!(merged.metadata.word_count, 16);
    assert_eq!(merged.metadata.title, Some("Multi-file Import".to_string()));
    assert_eq!(merged.metadata.author, None);
    assert_eq!(merged.metadata.detected_languages, vec!["css", "python", "rust"]);
    assert_eq!(merged.metadata.detected_topics, vec!["api", "testing"]);
}

#[test]
fn merge_multi_file_content_of_nothing_is_empty() {
    let merged = merge_multi_file_content(vec![]);
    assert_eq!(merged.file_name, "Multi-file Import");
    assert_eq!(merged.raw_text, "");
    assert!(merged.sections.is_empty());
    assert_eq!(merged.total_pages, 0);
    assert_eq!(merged.metadata.word_count, 0);
}

#[test]
fn a_failed_load_is_an_external_service_error() {
    match Tokenizer::from_loaded(Err("bad vocabulary".to_string())) {
        Err(AppError::ExternalService(m)) => {
            assert_eq!(m, "Failed to initialize tokenizer: bad vocabulary")
        },
        _ => panic!("a failed load is an error"),
    }
}

#[test]
fn a_loaded_tokenizer_is_handed_on() {
    let loaded = Tokenizer::cl100k().ok().unwrap();
    let tokenizer = Tokenizer::from_loaded(Ok(loaded)).ok().unwrap();
    assert_eq!(tokenizer.count_tokens("hello world").ok().unwrap(), 2);
}

#[test]
fn chunk_multi_pass_of_a_document_without_sections_has_no_chunks() {
    let tokenizer = Tokenizer::cl100k().ok().unwrap();
    let doc = document("d", "text", vec![]);
    let chunked = chunk_multi_pass(&doc, &tokenizer, 100).ok().unwrap();
    assert!(matches!(chunked.chunk_strategy, ChunkStrategy::MultiPass));
    assert!(chunked.chunks.is_empty());
    assert_eq!(chunked.total_tokens, 0);
}

#[test]
fn chunk_document_with_picks_the_strategy_by_the_thresholds() {
    let tokenizer = Tokenizer::cl100k().ok().unwrap();
    let doc = document("d", "one two three four five", vec![section("A", "one two")]);
    let tokens = tokenizer.count_tokens(&doc.raw_text).ok().unwrap();
    assert_eq!(tokens, 5);
    let config = |single, sections| ChunkerConfig {
        single_pass_limit: single,
        section_based_limit: sections,
        section_chunk_budget: 100,
        multi_pass_budget: 100,
    };
    let strategy = |single, sections| {
        chunk_document_with(&doc, &tokenizer, &config(single, sections)).ok().unwrap().chunk_strategy
    };
    assert!(matches!(strategy(6, 10), ChunkStrategy::SinglePass));
    assert!(matches!(strategy(5, 6), ChunkStrategy::SectionBased));
    assert!(matches!(strategy(5, 5), ChunkStrategy::MultiPass));
    assert!(matches!(strategy(0, 0), ChunkStrategy::MultiPass));
    assert!(matches!(strategy(6, 0), ChunkStrategy::SinglePass));
}
