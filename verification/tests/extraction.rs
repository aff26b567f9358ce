use buildops40::error::AppError;
use buildops40::services::pdf_extractor::{
    detect_heading_level, detect_language, estimate_complexity, extract_markdown,
    extract_markdown_events, extract_pdf, extract_text, extract_text_file, extract_topics,
    format_for_extension, is_heading_heuristic, known_format, section_score, word_count,
    DocumentFormat,
    MarkdownEvent,
};

#[test]
fn is_heading_heuristic_knows_headings() {
    assert!(is_heading_heuristic("INTRODUCTION TO RUST 101"));
    assert!(is_heading_heuristic("  CHAPTER ONE  "));
    assert!(is_heading_heuristic("Chapter 3 is here"));
    assert!(is_heading_heuristic("Section 2.1"));
    assert!(is_heading_heuristic("Part II"));
    assert!(is_heading_heuristic("Things to remember:"));
    assert!(is_heading_heuristic("42"));
}

#[test]
fn is_heading_heuristic_knows_other_lines() {
    assert!(!is_heading_heuristic(""));
    assert!(!is_heading_heuristic("   \t "));
    assert!(!is_heading_heuristic("This is a sentence."));
    assert!(!is_heading_heuristic("Chapter"));
    assert!(!is_heading_heuristic("chapter 3"));
    assert!(!is_heading_heuristic("HELLO, WORLD"));
    let long = "x".repeat(59) + ":";
    assert!(!is_heading_heuristic(&long));
    let short = "x".repeat(58) + ":";
    assert!(is_heading_heuristic(&short));
    let accented = "é".repeat(40) + ":";
    assert!(is_heading_heuristic(&accented));
}

#[test]
fn detect_heading_level_reads_marks_and_capitals() {
    assert_eq!(detect_heading_level("# Title"), 1);
    assert_eq!(detect_heading_level("## Title"), 2);
    assert_eq!(detect_heading_level("### Title"), 3);
    assert_eq!(detect_heading_level("#### Title"), 2);
    assert_eq!(detect_heading_level("MAIN TITLE"), 1);
    assert_eq!(detect_heading_level("MAIN TITLE 2"), 2);
    assert_eq!(detect_heading_level("Chapter 1"), 2);
    assert_eq!(detect_heading_level(""), 1);
}

#[test]
fn detect_language_sniffs_keywords() {
    assert_eq!(detect_language("fn main() {}"), Some("rust".to_string()));
    assert_eq!(detect_language("impl Foo for Bar"), Some("rust".to_string()));
    assert_eq!(detect_language("const x = 1;"), Some("javascript".to_string()));
    assert_eq!(detect_language("function go() {}"), Some("javascript".to_string()));
    assert_eq!(detect_language("def go():\n    pass"), Some("python".to_string()));
    assert_eq!(detect_language("import os"), Some("python".to_string()));
    assert_eq!(detect_language("<script>x</script>"), Some("svelte".to_string()));
    assert_eq!(detect_language("a { color: red }"), Some("css".to_string()));
    assert_eq!(detect_language("a { color red }"), None);
    assert_eq!(detect_language("plain words"), None);
    assert_eq!(detect_language("pub fn let def"), Some("rust".to_string()));
}

#[test]
fn section_score_adds_one_for_each_mark() {
    assert_eq!(section_score(0, false, false), 1);
    assert_eq!(section_score(0, true, false), 2);
    assert_eq!(section_score(2000, false, false), 1);
    assert_eq!(section_score(2001, false, false), 2);
    assert_eq!(section_score(5000, false, false), 2);
    assert_eq!(section_score(5001, false, false), 3);
    assert_eq!(section_score(5001, true, false), 4);
    assert_eq!(section_score(5001, true, true), 5);
    assert_eq!(section_score(10, false, true), 2);
}

#[test]
fn estimate_complexity_scores_content() {
    assert_eq!(estimate_complexity("short text", false), 1);
    assert_eq!(estimate_complexity("short text", true), 2);
    assert_eq!(estimate_complexity("An ALGORITHM for sorting", false), 2);
    assert_eq!(estimate_complexity("uses async and await", true), 3);
    let long = "a ".repeat(1500);
    assert_eq!(estimate_complexity(&long, false), 2);
    let longer = "a ".repeat(3000) + "generic";
    assert_eq!(estimate_complexity(&longer, true), 5);
}

#[test]
fn extract_topics_finds_topics_once_each() {
    assert_eq!(
        extract_topics("Rust and RUST again, with Testing of an API in Python."),
        vec!["rust", "python", "api", "testing"]
    );
    assert!(extract_topics("nothing of note").is_empty());
    assert_eq!(extract_topics("JavaScript"), vec!["javascript"]);
}

#[test]
fn word_count_counts_runs() {
    let count = |s: &str| word_count(&s.chars().collect());
    for s in ["", " ", "one", " one  two\tthree\n", "a\u{a0}b", "x y z "] {
        assert_eq!(count(s), s.split_whitespace().count(), "input {:?}", s);
    }
}

#[test]
fn format_for_extension_accepts_four_extensions() {
    assert!(matches!(format_for_extension("pdf"), Ok(DocumentFormat::Pdf)));
    assert!(matches!(format_for_extension("PDF"), Ok(DocumentFormat::Pdf)));
    assert!(matches!(format_for_extension("md"), Ok(DocumentFormat::Markdown)));
    assert!(matches!(format_for_extension("Markdown"), Ok(DocumentFormat::Markdown)));
    assert!(matches!(format_for_extension("txt"), Ok(DocumentFormat::PlainText)));
}

#[test]
fn format_for_extension_rejects_other_extensions() {
    match format_for_extension("DOCX") {
        Err(AppError::Validation(m)) => assert_eq!(m, "Unsupported file type: docx"),
        _ => panic!("docx is not accepted"),
    }
    match format_for_extension("") {
        Err(AppError::Validation(m)) => assert_eq!(m, "Unsupported file type: "),
        _ => panic!("the empty extension is not accepted"),
    }
    assert!(matches!(format_for_extension(".pdf"), Err(AppError::Validation(_))));
}

#[test]
fn extract_pdf_builds_sections_and_code_blocks() {
    let text = "Welcome to the guide\n\
                \n\
                CHAPTER ONE\n\
                Rust has functions.\n\
                \x20   fn main() {\n\
                \x20       println!();\n\
                \x20   }\n\
                After the code.\n\
                - a bullet\n\
                Summary:\n\
                The end of the testing chapter.\n";
    let doc = extract_pdf(text, "guide.pdf").ok().unwrap();
    assert_eq!(doc.file_name, "guide.pdf");
    assert_eq!(doc.raw_text, text);
    assert_eq!(doc.sections.len(), 3);

    assert_eq!(doc.sections[0].heading, "Introduction");
    assert_eq!(doc.sections[0].level, 1);
    assert_eq!(doc.sections[0].content, "Welcome to the guide");
    assert_eq!(doc.sections[0].page_number, 1);
    assert!(!doc.sections[0].has_code);
    assert!(!doc.sections[0].has_list);
    assert_eq!(doc.sections[0].estimated_complexity, 1);

    assert_eq!(doc.sections[1].heading, "CHAPTER ONE");
    assert_eq!(doc.sections[1].level, 1);
    assert_eq!(
        doc.sections[1].content,
        "Rust has functions.\n    fn main() {\n        println!();\n    }\nAfter the code.\n- a bullet"
    );
    assert_eq!(doc.sections[1].page_number, 2);
    assert!(doc.sections[1].has_code);
    assert!(doc.sections[1].has_list);
    assert_eq!(doc.sections[1].estimated_complexity, 2);

    assert_eq!(doc.sections[2].heading, "Summary:");
    assert_eq!(doc.sections[2].level, 2);
    assert_eq!(doc.sections[2].content, "The end of the testing chapter.");
    assert_eq!(doc.sections[2].page_number, 3);

    assert_eq!(doc.code_blocks.len(), 1);
    assert_eq!(doc.code_blocks[0].language, Some("rust".to_string()));
    assert_eq!(doc.code_blocks[0].content, "fn main() {\nprintln!();\n}\n");
    assert_eq!(doc.code_blocks[0].context_heading, "CHAPTER ONE");
    assert_eq!(doc.code_blocks[0].page_number, 2);

    assert_eq!(doc.total_pages, 3);
    assert_eq!(doc.metadata.page_count, 3);
    assert_eq!(doc.metadata.title, Some("guide.pdf".to_string()));
    assert_eq!(doc.metadata.author, None);
    assert_eq!(doc.metadata.word_count, text.split_whitespace().count());
    assert_eq!(doc.metadata.detected_languages, vec!["rust"]);
    assert_eq!(doc.metadata.detected_topics, vec!["rust", "testing"]);
}

#[test]
fn extract_pdf_of_nothing_has_no_sections() {
    let doc = extract_pdf("", "empty.pdf").ok().unwrap();
    assert!(doc.sections.is_empty());
    assert!(doc.code_blocks.is_empty());
    assert_eq!(doc.total_pages, 1);
    assert_eq!(doc.metadata.word_count, 0);
}

#[test]
fn extract_pdf_drops_a_code_run_that_nothing_follows() {
    let doc = extract_pdf("Text\n    let x = 1;\n", "d.pdf").ok().unwrap();
    assert!(doc.code_blocks.is_empty());
    assert_eq!(doc.sections.len(), 1);
    assert_eq!(doc.sections[0].content, "Text\n    let x = 1;");
    assert!(doc.sections[0].has_code);
}

#[test]
fn extract_text_file_splits_at_blank_lines() {
    let text = "FIRST THINGS\n\
                The opening paragraph\n\
                with two lines.\n\
                \n\
                \n\
                SECOND THINGS\n\
                * item one\n\
                \x20   indented code\n\
                \n\
                Closing words about the database";
    let doc = extract_text_file(text, "notes.txt").ok().unwrap();
    assert_eq!(doc.sections.len(), 3);
    assert_eq!(doc.sections[0].heading, "FIRST THINGS");
    assert_eq!(doc.sections[0].content, "The opening paragraph\nwith two lines.");
    assert_eq!(doc.sections[0].page_number, 1);
    assert_eq!(doc.sections[0].level, 1);
    assert_eq!(doc.sections[1].heading, "SECOND THINGS");
    assert_eq!(doc.sections[1].content, "* item one\n    indented code");
    assert_eq!(doc.sections[1].page_number, 2);
    assert!(doc.sections[1].has_list);
    assert!(doc.sections[1].has_code);
    assert_eq!(doc.sections[2].heading, "SECOND THINGS");
    assert_eq!(doc.sections[2].content, "Closing words about the database");
    assert_eq!(doc.sections[2].page_number, 3);
    assert!(doc.code_blocks.is_empty());
    assert!(doc.metadata.detected_languages.is_empty());
    assert_eq!(doc.metadata.detected_topics, vec!["database"]);
    assert_eq!(doc.total_pages, 3);
    assert_eq!(doc.raw_text, text);
}

#[test]
fn extract_markdown_reads_headings_from_the_markup() {
    let text = "# Getting Started\n\nSome text with `code`.\n\n## Details\n\n- a list item\n\n```rust\nfn main() {}\n```\n\n    indented\n";
    let doc = extract_markdown(text, "readme.md").ok().unwrap();
    assert_eq!(doc.file_name, "readme.md");
    assert_eq!(doc.raw_text, text);
    assert_eq!(doc.sections.len(), 2);
    assert_eq!(doc.sections[0].heading, "Getting Started");
    assert_eq!(doc.sections[0].level, 1);
    assert_eq!(doc.sections[0].content, "Some text with `code`.");
    assert_eq!(doc.sections[0].page_number, 2);
    assert_eq!(doc.sections[1].heading, "Details");
    assert_eq!(doc.sections[1].level, 2);
    assert_eq!(doc.sections[1].content, "a list itemfn main() {}\nindented");
    assert_eq!(doc.sections[1].page_number, 3);
    assert_eq!(doc.code_blocks.len(), 2);
    assert_eq!(doc.code_blocks[0].language, Some("rust".to_string()));
    assert_eq!(doc.code_blocks[0].content, "");
    assert_eq!(doc.code_blocks[0].context_heading, "Details");
    assert_eq!(doc.code_blocks[1].language, None);
    assert_eq!(doc.metadata.detected_languages, vec!["rust"]);
    assert_eq!(doc.total_pages, 3);
}

#[test]
fn extract_markdown_heads_each_section_by_its_own_heading() {
    let text = "# A\ntext a\n## B\ntext b\n";
    let doc = extract_markdown(text, "two.md").ok().unwrap();
    assert_eq!(doc.sections.len(), 2);
    assert_eq!(doc.sections[0].heading, "A");
    assert_eq!(doc.sections[0].level, 1);
    assert_eq!(doc.sections[0].content, "text a");
    assert_eq!(doc.sections[1].heading, "B");
    assert_eq!(doc.sections[1].level, 2);
    assert_eq!(doc.sections[1].content, "text b");
    assert_eq!(doc.raw_text, text);
}

#[test]
fn extract_markdown_keeps_text_before_the_first_heading() {
    let text = "Some words first.\n\n### Deep `code` heading\n\nAnd more.\n\n# Empty\n";
    let doc = extract_markdown(text, "intro.md").ok().unwrap();
    assert_eq!(doc.sections.len(), 2);
    assert_eq!(doc.sections[0].heading, "Introduction");
    assert_eq!(doc.sections[0].level, 1);
    assert_eq!(doc.sections[0].content, "Some words first.");
    assert_eq!(doc.sections[0].page_number, 1);
    assert_eq!(doc.sections[1].heading, "Deep `code` heading");
    assert_eq!(doc.sections[1].level, 3);
    assert_eq!(doc.sections[1].content, "And more.");
    assert_eq!(doc.sections[1].page_number, 2);
    assert_eq!(doc.total_pages, 3);
}

#[test]
fn extract_markdown_events_folds_events() {
    let events = vec![
        MarkdownEvent::Text("Preface. ".to_string()),
        MarkdownEvent::Code("x".to_string()),
        MarkdownEvent::Other,
        MarkdownEvent::HeadingStart(3),
        MarkdownEvent::Text("Deep ".to_string()),
        MarkdownEvent::Code("y".to_string()),
        MarkdownEvent::HeadingEnd,
        MarkdownEvent::FencedCode(String::new()),
        MarkdownEvent::FencedCode("js".to_string()),
        MarkdownEvent::FencedCode("js".to_string()),
        MarkdownEvent::IndentedCode,
        MarkdownEvent::Text("- tail ```".to_string()),
        MarkdownEvent::HeadingStart(1),
        MarkdownEvent::Text("Last".to_string()),
        MarkdownEvent::HeadingEnd,
    ];
    let doc = extract_markdown_events(&events, "ignored", "e.md").ok().unwrap();
    assert_eq!(doc.sections.len(), 2);
    assert_eq!(doc.sections[0].heading, "Introduction");
    assert_eq!(doc.sections[0].level, 1);
    assert_eq!(doc.sections[0].content, "Preface. `x`");
    assert_eq!(doc.sections[0].page_number, 1);
    assert!(!doc.sections[0].has_code);
    assert_eq!(doc.sections[1].heading, "Deep `y`");
    assert_eq!(doc.sections[1].level, 3);
    assert_eq!(doc.sections[1].content, "- tail ```");
    assert_eq!(doc.sections[1].page_number, 2);
    assert!(doc.sections[1].has_code);
    assert!(doc.sections[1].has_list);
    assert_eq!(doc.code_blocks.len(), 4);
    assert_eq!(doc.code_blocks[0].language, Some(String::new()));
    assert_eq!(doc.code_blocks[0].context_heading, "Deep `y`");
    assert_eq!(doc.code_blocks[3].language, None);
    assert_eq!(doc.code_blocks[3].page_number, 2);
    assert_eq!(doc.metadata.detected_languages, vec!["", "js"]);
    assert_eq!(doc.total_pages, 3);
    assert_eq!(doc.raw_text, "ignored");
}

#[test]
fn extract_text_dispatches_by_format() {
    let text = "# Title\n\nBody\n";
    let md = extract_text(DocumentFormat::Markdown, text, "f").ok().unwrap();
    assert_eq!(md.sections[0].heading, "Title");
    let pdf = extract_text(DocumentFormat::Pdf, text, "f").ok().unwrap();
    assert_eq!(pdf.sections[0].heading, "Introduction");
    assert_eq!(pdf.sections[0].content, "# Title\nBody");
    let txt = extract_text(DocumentFormat::PlainText, text, "f").ok().unwrap();
    assert_eq!(txt.sections.len(), 2);
    assert_eq!(txt.sections[0].content, "# Title");
    assert_eq!(txt.sections[1].content, "Body");
}

#[test]
fn known_format_takes_lower_case_only() {
    assert_eq!(known_format("pdf"), Some(DocumentFormat::Pdf));
    assert_eq!(known_format("md"), Some(DocumentFormat::Markdown));
    assert_eq!(known_format("markdown"), Some(DocumentFormat::Markdown));
    assert_eq!(known_format("txt"), Some(DocumentFormat::PlainText));
    assert_eq!(known_format("PDF"), None);
    assert_eq!(known_format(""), None);
}
