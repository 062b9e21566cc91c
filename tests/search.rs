use code_index::command::{parse_command, Command};
use code_index::index::{search_index, Index};
use code_index::search::{summary_matches, word_occurs};

fn sample_index() -> Index {
    let mut index = Index::new();
    index.insert("a.rs".to_string(), "Handles network retries".to_string());
    index.insert("b.md".to_string(), "Explains setup".to_string());
    index
}

fn sorted_paths(results: &[(String, String)]) -> Vec<String> {
    let mut paths: Vec<String> = results.iter().map(|(p, _)| p.clone()).collect();
    paths.sort();
    paths
}

#[test]
fn query_with_two_words_hits_both_entries() {
    let index = sample_index();
    let results = search_index(&index, "retries setup");
    assert_eq!(sorted_paths(&results), vec!["a.rs".to_string(), "b.md".to_string()]);
    for (path, summary) in &results {
        assert_eq!(index.get(path), Some(summary.clone()));
    }
}

#[test]
fn empty_query_hits_nothing() {
    let index = sample_index();
    assert!(search_index(&index, "").is_empty());
    assert!(search_index(&index, "   \t ").is_empty());
}

#[test]
fn word_that_is_not_a_substring_hits_nothing() {
    let index = sample_index();
    assert!(search_index(&index, "RETRY").is_empty());
}

#[test]
fn partial_word_is_a_substring_hit() {
    let index = sample_index();
    let results = search_index(&index, "retr");
    assert_eq!(
        results,
        vec![("a.rs".to_string(), "Handles network retries".to_string())]
    );
}

#[test]
fn matching_ignores_case() {
    assert!(summary_matches("Handles NETWORK retries", "network"));
    assert!(summary_matches("handles network retries", "NETWORK"));
    assert!(!summary_matches("Explains setup", "network"));
}

#[test]
fn word_inside_another_word_matches() {
    assert!(word_occurs("a rapid start", "api"));
    assert!(!word_occurs("a rapid start", "apix"));
}

#[test]
fn words_are_split_on_any_white_space() {
    assert!(word_occurs("setup", "foo\tsetup\nbar"));
    assert!(word_occurs("bar", "foo\tsetup\nbar"));
    assert!(!word_occurs("foo setup", "xyz\u{3000}bar"));
    assert!(word_occurs("foo setup", "xx\u{3000}oo"));
}

#[test]
fn empty_index_finds_nothing() {
    let index = Index::new();
    assert!(search_index(&index, "anything").is_empty());
    assert_eq!(index.len(), 0);
}

#[test]
fn prompt_commands() {
    assert_eq!(parse_command("quit\n"), Command::Quit);
    assert_eq!(parse_command("  QUIT "), Command::Quit);
    assert_eq!(parse_command("Print Index"), Command::PrintIndex);
    assert_eq!(parse_command(" network setup \n"), Command::Search("network setup".to_string()));
    assert_eq!(parse_command("quitting"), Command::Search("quitting".to_string()));
}

#[test]
fn white_space_characters() {
    for c in [' ', '\t', '\n', '\r', '\u{0b}', '\u{0c}', '\u{85}', '\u{a0}', '\u{2003}', '\u{3000}'] {
        assert!(code_index::text::char_is_whitespace(c), "{:?}", c);
    }
    for c in ['a', '_', '\u{200b}', '\u{feff}'] {
        assert!(!code_index::text::char_is_whitespace(c), "{:?}", c);
    }
}
