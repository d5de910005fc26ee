use agerus::executor::ToolError;
use agerus::results::{
    doc_output, list_output, page_output, read_output, render_outcome, search_output,
    shell_output, write_output, Anchor, DirEntry,
};

fn anchor(texts: &[&str], href: Option<&str>) -> Anchor {
    Anchor {
        texts: texts.iter().map(|t| t.to_string()).collect(),
        href: href.map(|h| h.to_string()),
    }
}

#[test]
fn shell_output_ends_every_line() {
    assert_eq!(shell_output(&vec!["a".to_string(), "b".to_string()]), "a\nb\n");
    assert_eq!(shell_output(&vec![]), "");
    assert_eq!(shell_output(&vec![String::new()]), "\n");
}

#[test]
fn shell_output_is_capped_at_5000_bytes() {
    let lines: Vec<String> = (0..600).map(|_| "0123456789".to_string()).collect();
    let whole: String = lines.iter().map(|l| format!("{}\n", l)).collect();
    assert_eq!(whole.len(), 6600);
    let expected = format!("{}\n...[Output Truncated]", &whole[..5000]);
    assert_eq!(shell_output(&lines), expected);
}

#[test]
fn shell_output_of_exactly_5000_bytes_is_kept() {
    let lines = vec!["x".repeat(4999)];
    let out = shell_output(&lines);
    assert_eq!(out.len(), 5000);
    assert!(!out.contains("Truncated"));
    let over = shell_output(&vec!["x".repeat(5000)]);
    assert_eq!(over, format!("{}\n...[Output Truncated]", "x".repeat(5000)));
}

#[test]
fn shell_output_is_cut_between_characters() {
    let line = format!("a{}", "é".repeat(3000));
    let out = shell_output(&vec![line]);
    let expected = format!("a{}\n...[Output Truncated]", "é".repeat(2499));
    assert_eq!(out, expected);
}

#[test]
fn write_confirmation() {
    assert_eq!(write_output("src/a.rs"), "Successfully wrote to src/a.rs");
}

#[test]
fn read_of_a_missing_file_is_a_note() {
    assert_eq!(read_output("nope.txt", None), "File not found: nope.txt");
}

#[test]
fn read_returns_short_content_unchanged() {
    assert_eq!(read_output("a", Some("one\r\ntwo\n\n")), "one\r\ntwo\n\n");
    assert_eq!(read_output("a", Some("")), "");
    let exactly: String = (0..300).map(|i| format!("line {}\n", i)).collect();
    assert_eq!(read_output("a", Some(&exactly)), exactly);
}

#[test]
fn read_caps_long_content_at_300_lines() {
    let long: String = (0..301).map(|i| format!("line {}\n", i)).collect();
    let first: Vec<String> = (0..300).map(|i| format!("line {}", i)).collect();
    let expected = format!("{}\n... [File too long, first 300 lines shown]", first.join("\n"));
    assert_eq!(read_output("a", Some(&long)), expected);
}

#[test]
fn listing_tags_directories_and_files() {
    let entries = vec![
        DirEntry { name: "src".to_string(), is_dir: true },
        DirEntry { name: "Cargo.toml".to_string(), is_dir: false },
    ];
    assert_eq!(list_output(".", Some(&entries)), "[DIR] src\n[FILE] Cargo.toml");
    assert_eq!(list_output(".", Some(&vec![])), "");
    assert_eq!(list_output("gone", None), "Directory not found: gone");
}

#[test]
fn page_is_trimmed_and_capped() {
    assert_eq!(page_output("  Hello world \n"), "Hello world");
    let long = format!(" {} ", "w".repeat(8001));
    assert_eq!(page_output(&long), format!("{}\n...[Webpage truncated]", "w".repeat(8000)));
    let fits = "w".repeat(8000);
    assert_eq!(page_output(&fits), fits);
}

#[test]
fn documentation_is_capped() {
    assert_eq!(doc_output(" tar -xf \n"), " tar -xf \n");
    let long = "d".repeat(9000);
    assert_eq!(doc_output(&long), format!("{}\n...[Documentation truncated]", "d".repeat(8000)));
}

#[test]
fn search_results_list_title_and_address() {
    let anchors = vec![
        anchor(&[" Rust ", "Book "], Some("https://doc.rust-lang.org/book/")),
        anchor(&["Relative"], Some("/l/?uddg=x")),
        anchor(&["No link"], None),
        anchor(&["Verus"], Some("http://verus.example/")),
    ];
    assert_eq!(
        search_output(&anchors),
        "Title: Rust  Book\nURL: https://doc.rust-lang.org/book/\n\n---\nTitle: Verus\nURL: http://verus.example/\n"
    );
}

#[test]
fn search_without_results_says_so() {
    assert_eq!(search_output(&vec![]), "No results found.");
    assert_eq!(search_output(&vec![anchor(&["x"], Some("/relative"))]), "No results found.");
}

#[test]
fn search_looks_at_the_first_ten_anchors_only() {
    let mut anchors: Vec<Anchor> = (0..10).map(|_| anchor(&["skip"], None)).collect();
    anchors.push(anchor(&["late"], Some("https://late.example/")));
    assert_eq!(search_output(&anchors), "No results found.");
    let many: Vec<Anchor> = (0..12)
        .map(|i| anchor(&[&format!("t{}", i)], Some(&format!("https://e{}.example/", i))))
        .collect();
    let out = search_output(&many);
    assert_eq!(out.matches("Title: ").count(), 10);
    assert!(out.contains("https://e9.example/"));
    assert!(!out.contains("https://e10.example/"));
}

#[test]
fn failure_becomes_text() {
    assert_eq!(render_outcome(Ok("fine".to_string())), "fine");
    assert_eq!(
        render_outcome(Err(ToolError::UnknownTool("x".to_string()))),
        "Tool Execution Error: Unknown tool: x"
    );
    assert_eq!(
        render_outcome(Err(ToolError::Filesystem("permission denied".to_string()))),
        "Tool Execution Error: permission denied"
    );
}
