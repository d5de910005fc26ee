//! From what the driver brought back to the plain text that is fed to the
//! model: aggregation, markup stripping, caps and their markers. A failure
//! never leaves the executor as an error: it becomes text.

use vstd::prelude::*;
use vstd::string::*;
use crate::clip::{clip, clip_text};
use crate::executor::{ToolError, ToolErrorView};
use crate::lines::{join, join_strings, lines, split_lines, texts};
use crate::text::{starts_with, starts_with_text, trim, trim_string};

verus! {

/// Most bytes of shell output that are passed on.
pub const SHELL_OUTPUT_CAP: usize = 5000;

/// Most lines of a file that are passed on.
pub const FILE_LINE_CAP: usize = 300;

/// Most bytes of a fetched page that are passed on.
pub const PAGE_CAP: usize = 8000;

/// Most search results that are looked at.
pub const SEARCH_CAP: usize = 10;

/// An entry of a directory.
#[derive(Clone, Debug, PartialEq, Eq)]
pub struct DirEntry {
    pub name: String,
    pub is_dir: bool,
}

/// A link found in a page: the texts inside it, in document order, and the
/// address it points to, if it has one.
#[derive(Clone, Debug, PartialEq, Eq)]
pub struct Anchor {
    pub texts: Vec<String>,
    pub href: Option<String>,
}

pub struct AnchorView {
    pub texts: Seq<Seq<char>>,
    pub href: Option<Seq<char>>,
}

impl View for Anchor {
    type V = AnchorView;

    open spec fn view(&self) -> AnchorView {
        AnchorView {
            texts: texts(self.texts@),
            href: match self.href {
                Some(h) => Some(h@),
                None => None,
            },
        }
    }
}

/// The views of a list of anchors.
pub open spec fn anchors_view(anchors: Seq<Anchor>) -> Seq<AnchorView> {
    anchors.map_values(|a: Anchor| a@)
}

/// Every line followed by a line feed.
pub open spec fn terminated(lines: Seq<Seq<char>>) -> Seq<char>
    decreases lines.len(),
{
    if lines.len() == 0 {
        Seq::empty()
    } else {
        terminated(lines.drop_last()) + lines.last() + "\n"@
    }
}

/// Result of a shell command: its lines, each ended by a line feed, capped.
pub open spec fn shell_text(lines: Seq<Seq<char>>) -> Seq<char> {
    clip(terminated(lines), SHELL_OUTPUT_CAP as nat, "\n...[Output Truncated]"@)
}

/// Result of writing the file `path`.
pub open spec fn write_text(path: Seq<char>) -> Seq<char> {
    "Successfully wrote to "@ + path
}

/// Result of reading the file `path`: a note when it does not exist, its
/// content when that has no more lines than the cap, else its first lines
/// and a marker.
pub open spec fn read_text(path: Seq<char>, content: Option<Seq<char>>) -> Seq<char> {
    match content {
        None => "File not found: "@ + path,
        Some(text) => if lines(text).len() > FILE_LINE_CAP {
            join(lines(text).take(FILE_LINE_CAP as int), "\n"@)
                + "\n... [File too long, first 300 lines shown]"@
        } else {
            text
        },
    }
}

/// The line for one directory entry.
pub open spec fn entry_text(name: Seq<char>, is_dir: bool) -> Seq<char> {
    if is_dir {
        "[DIR] "@ + name
    } else {
        "[FILE] "@ + name
    }
}

/// The lines for the entries of a directory.
pub open spec fn entry_lines(entries: Seq<DirEntry>) -> Seq<Seq<char>> {
    entries.map_values(|e: DirEntry| entry_text(e.name@, e.is_dir))
}

/// Result of listing the directory `path`: a note when it does not exist,
/// else one line for each entry.
pub open spec fn list_text(path: Seq<char>, entries: Option<Seq<DirEntry>>) -> Seq<char> {
    match entries {
        None => "Directory not found: "@ + path,
        Some(list) => join(entry_lines(list), "\n"@),
    }
}

/// Result of fetching a page whose markup has been stripped already:
/// trimmed and capped.
pub open spec fn page_text(stripped: Seq<char>) -> Seq<char> {
    clip(trim(stripped), PAGE_CAP as nat, "\n...[Webpage truncated]"@)
}

/// Result of a documentation lookup whose colour codes have been stripped
/// already: capped.
pub open spec fn doc_text(stripped: Seq<char>) -> Seq<char> {
    clip(stripped, PAGE_CAP as nat, "\n...[Documentation truncated]"@)
}

/// Whether an anchor counts as a search result: it points to a web address.
pub open spec fn is_result(anchor: AnchorView) -> bool {
    anchor.href matches Some(h) && starts_with(h, "http"@)
}

/// The entry for one search result.
pub open spec fn result_entry(anchor: AnchorView) -> Seq<char> {
    "Title: "@ + trim(join(anchor.texts, " "@)) + "\nURL: "@ + anchor.href->0 + "\n"@
}

/// The entries for those of `anchors` that count as results, in order.
pub open spec fn result_entries(anchors: Seq<AnchorView>) -> Seq<Seq<char>>
    decreases anchors.len(),
{
    if anchors.len() == 0 {
        Seq::empty()
    } else if is_result(anchors.last()) {
        result_entries(anchors.drop_last()).push(result_entry(anchors.last()))
    } else {
        result_entries(anchors.drop_last())
    }
}

/// Result of a web search, from the result anchors of the answer page:
/// only the first anchors up to the cap are looked at.
pub open spec fn search_text(anchors: Seq<AnchorView>) -> Seq<char> {
    let looked_at = if anchors.len() > SEARCH_CAP {
        anchors.take(SEARCH_CAP as int)
    } else {
        anchors
    };
    if result_entries(looked_at).len() == 0 {
        "No results found."@
    } else {
        join(result_entries(looked_at), "\n---\n"@)
    }
}

/// Result of a shell command: its lines, each ended by a line feed, capped.
pub fn shell_output(output: &Vec<String>) -> (text: String)
    ensures
        text@ == shell_text(texts(output@)),
{
    let mut all = String::new();
    let mut i: usize = 0;
    assert(texts(output@).take(0) =~= Seq::empty());
    while i < output.len()
        invariant
            i <= output.len(),
            all@ == terminated(texts(output@).take(i as int)),
        decreases output.len() - i,
    {
        all.append(output[i].as_str());
        all.append("\n");
        i += 1;
        proof {
            let now = texts(output@).take(i as int);
            assert(now.drop_last() =~= texts(output@).take(i - 1));
            assert(now.last() == output[i - 1]@);
        }
    }
    assert(texts(output@).take(output.len() as int) =~= texts(output@));
    clip_text(all.as_str(), SHELL_OUTPUT_CAP, "\n...[Output Truncated]")
}

/// Result of writing the file `path`.
pub fn write_output(path: &str) -> (text: String)
    ensures
        text@ == write_text(path@),
{
    let mut text = String::from_str("Successfully wrote to ");
    text.append(path);
    text
}

/// Result of reading the file `path`, whose content is `content` if the file
/// exists.
pub fn read_output(path: &str, content: Option<&str>) -> (text: String)
    ensures
        text@ == read_text(
            path@,
            match content {
                Some(c) => Some(c@),
                None => None,
            },
        ),
{
    match content {
        None => {
            let mut text = String::from_str("File not found: ");
            text.append(path);
            text
        },
        Some(body) => {
            let mut all = split_lines(body);
            if all.len() > FILE_LINE_CAP {
                let ghost whole = texts(all@);
                all.truncate(FILE_LINE_CAP);
                assert(texts(all@) =~= whole.take(FILE_LINE_CAP as int));
                let mut text = join_strings(&all, "\n");
                text.append("\n... [File too long, first 300 lines shown]");
                text
            } else {
                body.to_owned()
            }
        },
    }
}

/// Result of listing the directory `path`, whose entries are `entries` if
/// the directory exists.
pub fn list_output(path: &str, entries: Option<&Vec<DirEntry>>) -> (text: String)
    ensures
        text@ == list_text(
            path@,
            match entries {
                Some(e) => Some(e@),
                None => None,
            },
        ),
{
    match entries {
        None => {
            let mut text = String::from_str("Directory not found: ");
            text.append(path);
            text
        },
        Some(list) => {
            let mut shown: Vec<String> = Vec::new();
            let mut i: usize = 0;
            while i < list.len()
                invariant
                    i <= list.len(),
                    texts(shown@) == entry_lines(list@.take(i as int)),
                decreases list.len() - i,
            {
                let mut line = if list[i].is_dir {
                    String::from_str("[DIR] ")
                } else {
                    String::from_str("[FILE] ")
                };
                line.append(list[i].name.as_str());
                let ghost before = texts(shown@);
                assert(line@ == entry_text(list[i as int].name@, list[i as int].is_dir));
                shown.push(line);
                i += 1;
                proof {
                    let now = entry_lines(list@.take(i as int));
                    assert(texts(shown@) =~= before.push(line@));
                    assert(now.len() == i);
                    assert forall|k: int| 0 <= k < i implies texts(shown@)[k] == now[k] by {
                        if k < i - 1 {
                            assert(before[k] == entry_lines(list@.take(i - 1))[k]);
                        }
                    }
                }
                assert(texts(shown@) =~= entry_lines(list@.take(i as int)));
            }
            assert(list@.take(list.len() as int) =~= list@);
            join_strings(&shown, "\n")
        },
    }
}

/// Result of fetching a page, from its text with the markup stripped.
pub fn page_output(stripped: &str) -> (text: String)
    ensures
        text@ == page_text(stripped@),
{
    let trimmed = trim_string(stripped);
    clip_text(trimmed.as_str(), PAGE_CAP, "\n...[Webpage truncated]")
}

/// Result of a documentation lookup, from its text with the colour codes
/// stripped.
pub fn doc_output(stripped: &str) -> (text: String)
    ensures
        text@ == doc_text(stripped@),
{
    clip_text(stripped, PAGE_CAP, "\n...[Documentation truncated]")
}

/// Result of a web search, from the result anchors of the answer page.
pub fn search_output(anchors: &Vec<Anchor>) -> (text: String)
    ensures
        text@ == search_text(anchors_view(anchors@)),
{
    let limit: usize = if anchors.len() > SEARCH_CAP {
        SEARCH_CAP
    } else {
        anchors.len()
    };
    let ghost looked_at = anchors_view(anchors@).take(limit as int);
    assert(anchors.len() <= SEARCH_CAP ==> looked_at =~= anchors_view(anchors@));
    let mut found: Vec<String> = Vec::new();
    let mut i: usize = 0;
    assert(looked_at.take(0) =~= Seq::empty());
    while i < limit
        invariant
            i <= limit <= anchors.len(),
            looked_at == anchors_view(anchors@).take(limit as int),
            texts(found@) == result_entries(looked_at.take(i as int)),
        decreases limit - i,
    {
        let anchor = &anchors[i];
        let ghost before = texts(found@);
        proof {
            let now = looked_at.take(i + 1);
            assert(now.drop_last() =~= looked_at.take(i as int));
            assert(now.last() == anchor@);
        }
        match &anchor.href {
            Some(href) => {
                if starts_with_text(href.as_str(), "http") {
                    let title = join_strings(&anchor.texts, " ");
                    let mut entry = String::from_str("Title: ");
                    entry.append(trim_string(title.as_str()).as_str());
                    entry.append("\nURL: ");
                    entry.append(href.as_str());
                    entry.append("\n");
                    found.push(entry);
                    assert(texts(found@) =~= before.push(result_entry(anchor@)));
                }
            },
            None => {},
        }
        i += 1;
    }
    assert(looked_at.take(limit as int) =~= looked_at);
    if found.len() == 0 {
        String::from_str("No results found.")
    } else {
        join_strings(&found, "\n---\n")
    }
}

/// What is fed back to the model for a call: the result, or the error put
/// into words.
pub open spec fn observation(outcome: Result<Seq<char>, ToolErrorView>) -> Seq<char> {
    match outcome {
        Ok(text) => text,
        Err(e) => "Tool Execution Error: "@ + e.message(),
    }
}

/// What is fed back to the model for a call: the result, or the error put
/// into words.
pub fn render_outcome(outcome: Result<String, ToolError>) -> (text: String)
    ensures
        text@ == observation(
            match outcome {
                Ok(t) => Ok(t@),
                Err(e) => Err(e@),
            },
        ),
{
    match outcome {
        Ok(text) => text,
        Err(e) => {
            let mut text = String::from_str("Tool Execution Error: ");
            text.append(e.message().as_str());
            text
        },
    }
}

} // verus!
