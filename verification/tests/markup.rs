use agerus::markup::{
    fetch_output, find_result_links, lookup_output, replace_all, search_page_output,
    strip_colour, strip_markup,
};
use agerus::results::Anchor;

#[test]
fn replace_all_replaces_every_match() {
    assert_eq!(replace_all("a+", "caaandaa", "-"), "c-nd-");
    assert_eq!(replace_all("x", "abc", "-"), "abc");
}

#[test]
fn replace_all_keeps_the_text_when_the_pattern_is_broken() {
    assert_eq!(replace_all("(", "a(b", "-"), "a(b");
}

#[test]
fn markup_is_stripped() {
    let html = "<html><head><style>p { color: red; }</style><script type=\"text/javascript\">var x = \"<b>\";\n</script></head><body><p>Hello   <b>world</b></p>\n<P>again</P></body></html>";
    assert_eq!(strip_markup(html), " Hello world again ");
    assert_eq!(fetch_output(html), "Hello world again");
}

#[test]
fn script_and_style_match_without_regard_to_case() {
    assert_eq!(strip_markup("a<SCRIPT>x</SCRIPT>b<Style>y</Style>c"), "abc");
}

#[test]
fn fetched_page_is_capped() {
    let html = format!("<p>{}</p>", "z".repeat(9000));
    assert_eq!(fetch_output(&html), format!("{}\n...[Webpage truncated]", "z".repeat(8000)));
}

#[test]
fn colour_codes_are_stripped() {
    let text = "\u{1b}[31mred\u{1b}[0m plain \u{1b}[1;32mbold\u{1b}[m";
    assert_eq!(strip_colour(text), "red plain bold");
    assert_eq!(lookup_output(text), "red plain bold");
    assert_eq!(strip_colour("no codes"), "no codes");
}

#[test]
fn result_links_are_found_in_document_order() {
    let html = "<html><body><a class=\"result__a\" href=\"https://one.example/\">One <b>bold</b></a><a href=\"https://other.example/\">other</a><div><a class=\"result__a extra\">Two</a></div></body></html>";
    assert_eq!(
        find_result_links(html),
        vec![
            Anchor {
                texts: vec!["One ".to_string(), "bold".to_string()],
                href: Some("https://one.example/".to_string()),
            },
            Anchor { texts: vec!["Two".to_string()], href: None },
        ]
    );
}

#[test]
fn search_page_becomes_a_list() {
    let html = "<a class=\"result__a\" href=\"https://one.example/\"> One </a><a class=\"result__a\" href=\"//relative\">Rel</a>";
    assert_eq!(search_page_output(html), "Title: One\nURL: https://one.example/\n");
    assert_eq!(search_page_output("<p>nothing</p>"), "No results found.");
}
