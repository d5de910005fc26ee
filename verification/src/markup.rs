//! Stripping markup and colour codes from fetched text, and picking the
//! result links out of a search page. Pattern matching and HTML parsing are
//! done by the `regex` and `scraper` crates.

use vstd::prelude::*;
use vstd::string::*;
use crate::lines::texts;
use crate::results::{
    anchors_view, doc_output, doc_text, page_output, page_text, search_output, search_text,
    Anchor, AnchorView,
};

verus! {

/// What `Regex::new(pattern)` followed by `replace_all(text, with)` returns:
/// `None` where the pattern does not compile, else `text` with every match
/// replaced.
pub uninterp spec fn regex_replaced(pattern: Seq<char>, text: Seq<char>, with: Seq<char>) -> Option<Seq<char>>;

/// What parsing `html` with `Html::parse_document` and selecting with the
/// CSS selector `selector` gives: for each matching element, in document
/// order, its descendant text nodes and the value of its attribute `attr`.
/// Empty where the selector does not parse.
pub uninterp spec fn selected(html: Seq<char>, selector: Seq<char>, attr: Seq<char>) -> Seq<AnchorView>;

/// Compiles `pattern` with `regex::Regex::new` and replaces every match in
/// `text` with `Regex::replace_all`. The contract names the result and
/// claims nothing else of it.
#[verifier::external_body]
fn regex_replace_all(pattern: &str, text: &str, with: &str) -> (out: Option<String>)
    ensures
        match out {
            Some(s) => regex_replaced(pattern@, text@, with@) == Some(s@),
            None => regex_replaced(pattern@, text@, with@) is None,
        },
{
    match regex::Regex::new(pattern) {
        Ok(re) => Some(re.replace_all(text, with).into_owned()),
        Err(_) => None,
    }
}

/// Parses `html` with `scraper::Html::parse_document`, selects with
/// `scraper::Selector::parse` and `Html::select`, and copies out of each
/// element its text nodes (`ElementRef::text`) and one attribute
/// (`Element::attr`). The contract names the result and claims nothing else
/// of it.
#[verifier::external_body]
fn select_elements(html: &str, selector: &str, attr: &str) -> (found: Vec<Anchor>)
    ensures
        anchors_view(found@) == selected(html@, selector@, attr@),
{
    let document = scraper::Html::parse_document(html);
    match scraper::Selector::parse(selector) {
        Ok(sel) => document.select(&sel).map(
            |e| Anchor {
                texts: e.text().map(str::to_string).collect(),
                href: e.value().attr(attr).map(str::to_string),
            },
        ).collect(),
        Err(_) => Vec::new(),
    }
}

/// `text` with every match of `pattern` replaced by `with`; `text` itself
/// where the pattern does not compile.
pub open spec fn replaced(pattern: Seq<char>, text: Seq<char>, with: Seq<char>) -> Seq<char> {
    match regex_replaced(pattern, text, with) {
        Some(out) => out,
        None => text,
    }
}

/// `html` without scripts, styles and tags, and with every run of white
/// space collapsed to one blank.
pub open spec fn stripped_markup(html: Seq<char>) -> Seq<char> {
    let no_script = replaced("(?si)<script.*?>.*?</script>"@, html, ""@);
    let no_style = replaced("(?si)<style.*?>.*?</style>"@, no_script, ""@);
    let no_tags = replaced("<[^>]*>"@, no_style, " "@);
    replaced("\\s+"@, no_tags, " "@)
}

/// `text` without terminal colour escape sequences.
pub open spec fn stripped_colour(text: Seq<char>) -> Seq<char> {
    replaced("\\x1B\\[([0-9]{1,2}(;[0-9]{1,2})*)?m"@, text, ""@)
}

/// The result links of a search page, in document order.
pub open spec fn result_links(html: Seq<char>) -> Seq<AnchorView> {
    selected(html, ".result__a"@, "href"@)
}

/// `text` with every match of `pattern` replaced by `with`.
pub fn replace_all(pattern: &str, text: &str, with: &str) -> (out: String)
    ensures
        out@ == replaced(pattern@, text@, with@),
{
    match regex_replace_all(pattern, text, with) {
        Some(out) => out,
        None => text.to_owned(),
    }
}

/// `html` without scripts, styles and tags, and with every run of white
/// space collapsed to one blank.
pub fn strip_markup(html: &str) -> (out: String)
    ensures
        out@ == stripped_markup(html@),
{
    let no_script = replace_all("(?si)<script.*?>.*?</script>", html, "");
    let no_style = replace_all("(?si)<style.*?>.*?</style>", no_script.as_str(), "");
    let no_tags = replace_all("<[^>]*>", no_style.as_str(), " ");
    replace_all("\\s+", no_tags.as_str(), " ")
}

/// `text` without terminal colour escape sequences.
pub fn strip_colour(text: &str) -> (out: String)
    ensures
        out@ == stripped_colour(text@),
{
    replace_all("\\x1B\\[([0-9]{1,2}(;[0-9]{1,2})*)?m", text, "")
}

/// The result links of a search page, in document order.
pub fn find_result_links(html: &str) -> (found: Vec<Anchor>)
    ensures
        anchors_view(found@) == result_links(html@),
{
    select_elements(html, ".result__a", "href")
}

/// Result of fetching a page, from its body.
pub fn fetch_output(body: &str) -> (text: String)
    ensures
        text@ == page_text(stripped_markup(body@)),
{
    let stripped = strip_markup(body);
    page_output(stripped.as_str())
}

/// Result of a documentation lookup, from the body of the page.
pub fn lookup_output(body: &str) -> (text: String)
    ensures
        text@ == doc_text(stripped_colour(body@)),
{
    let stripped = strip_colour(body);
    doc_output(stripped.as_str())
}

/// Result of a web search, from the body of the answer page.
pub fn search_page_output(body: &str) -> (text: String)
    ensures
        text@ == search_text(result_links(body@)),
{
    let found = find_result_links(body);
    search_output(&found)
}

} // verus!
