//! The tool executor's decisions: which arguments a call must carry, what the
//! driver has to do for it, and which error a malformed call gets. The driver
//! performs the plan against the sandbox, the file store or the network and
//! hands the outcome to the formatting functions of `results`.

use vstd::prelude::*;
use vstd::string::*;
use crate::json::{Json, JsonView};
use crate::text::{slice_string, text_eq, to_chars};

verus! {

/// A call of a tool, as the model produced it.
#[derive(Clone, Debug, PartialEq, Eq)]
pub struct ToolCall {
    pub name: String,
    pub arguments: Json,
}

pub struct ToolCallView {
    pub name: Seq<char>,
    pub arguments: JsonView,
}

impl View for ToolCall {
    type V = ToolCallView;

    open spec fn view(&self) -> ToolCallView {
        ToolCallView { name: self.name@, arguments: self.arguments@ }
    }
}

/// Why a tool call produced no result.
#[derive(Clone, Debug, PartialEq, Eq)]
pub enum ToolError {
    /// No tool has this name.
    UnknownTool(String),
    /// The argument of this name is missing or is not text.
    MissingArgument(String),
    /// The file store failed, with its message.
    Filesystem(String),
    /// The network failed, with its message.
    Network(String),
    /// The shell could not be reached, with its message.
    Subprocess(String),
}

pub enum ToolErrorView {
    UnknownTool(Seq<char>),
    MissingArgument(Seq<char>),
    Filesystem(Seq<char>),
    Network(Seq<char>),
    Subprocess(Seq<char>),
}

impl View for ToolError {
    type V = ToolErrorView;

    open spec fn view(&self) -> ToolErrorView {
        match self {
            ToolError::UnknownTool(n) => ToolErrorView::UnknownTool(n@),
            ToolError::MissingArgument(k) => ToolErrorView::MissingArgument(k@),
            ToolError::Filesystem(m) => ToolErrorView::Filesystem(m@),
            ToolError::Network(m) => ToolErrorView::Network(m@),
            ToolError::Subprocess(m) => ToolErrorView::Subprocess(m@),
        }
    }
}

impl ToolErrorView {
    /// The error in words.
    pub open spec fn message(self) -> Seq<char> {
        match self {
            ToolErrorView::UnknownTool(n) => "Unknown tool: "@ + n,
            ToolErrorView::MissingArgument(k) => if k == "command"@ {
                "Missing 'command'"@
            } else {
                "Missing "@ + k
            },
            ToolErrorView::Filesystem(m) => m,
            ToolErrorView::Network(m) => m,
            ToolErrorView::Subprocess(m) => m,
        }
    }
}

impl ToolError {
    /// The error in words.
    pub fn message(&self) -> (text: String)
        ensures
            text@ == self@.message(),
    {
        match self {
            ToolError::UnknownTool(n) => {
                let mut text = String::from_str("Unknown tool: ");
                text.append(n.as_str());
                text
            },
            ToolError::MissingArgument(k) => {
                if text_eq(k.as_str(), "command") {
                    String::from_str("Missing 'command'")
                } else {
                    let mut text = String::from_str("Missing ");
                    text.append(k.as_str());
                    text
                }
            },
            ToolError::Filesystem(m) => m.clone(),
            ToolError::Network(m) => m.clone(),
            ToolError::Subprocess(m) => m.clone(),
        }
    }
}

/// What the driver has to do for a call.
#[derive(Clone, Debug, PartialEq, Eq)]
pub enum ToolPlan {
    /// Run `cmd` in the shell session and capture its output lines.
    RunShell { cmd: String },
    /// Create the parent directories of `target` and write `content` there,
    /// replacing what was there.
    WriteFile { path: String, target: String, content: String },
    /// Read the file at `target`, if it exists.
    ReadFile { path: String, target: String },
    /// List the directory at `target`, if it exists.
    ListDir { path: String, target: String },
    /// Fetch `url`.
    FetchUrl { url: String },
    /// Post the form field `q` with the value `query` to `url`.
    WebSearch { url: String, query: String },
    /// Fetch the documentation page at `url`.
    FetchDoc { url: String },
}

pub enum ToolPlanView {
    RunShell { cmd: Seq<char> },
    WriteFile { path: Seq<char>, target: Seq<char>, content: Seq<char> },
    ReadFile { path: Seq<char>, target: Seq<char> },
    ListDir { path: Seq<char>, target: Seq<char> },
    FetchUrl { url: Seq<char> },
    WebSearch { url: Seq<char>, query: Seq<char> },
    FetchDoc { url: Seq<char> },
}

impl View for ToolPlan {
    type V = ToolPlanView;

    open spec fn view(&self) -> ToolPlanView {
        match self {
            ToolPlan::RunShell { cmd } => ToolPlanView::RunShell { cmd: cmd@ },
            ToolPlan::WriteFile { path, target, content } => ToolPlanView::WriteFile {
                path: path@,
                target: target@,
                content: content@,
            },
            ToolPlan::ReadFile { path, target } => ToolPlanView::ReadFile {
                path: path@,
                target: target@,
            },
            ToolPlan::ListDir { path, target } => ToolPlanView::ListDir {
                path: path@,
                target: target@,
            },
            ToolPlan::FetchUrl { url } => ToolPlanView::FetchUrl { url: url@ },
            ToolPlan::WebSearch { url, query } => ToolPlanView::WebSearch {
                url: url@,
                query: query@,
            },
            ToolPlan::FetchDoc { url } => ToolPlanView::FetchDoc { url: url@ },
        }
    }
}

/// Number of leading slashes of `path`.
pub open spec fn leading_slashes(path: Seq<char>) -> int
    decreases path.len(),
{
    if path.len() > 0 && path[0] == '/' {
        1 + leading_slashes(path.drop_first())
    } else {
        0
    }
}

/// Where `path` lies under `root`: every path is taken relative to the root,
/// whether or not it begins with a slash.
pub open spec fn resolve(root: Seq<char>, path: Seq<char>) -> Seq<char> {
    root + "/"@ + path.skip(leading_slashes(path))
}

/// The text argument `key`, or the error for its absence.
pub open spec fn argument(args: JsonView, key: Seq<char>) -> Result<Seq<char>, ToolErrorView> {
    match args.text_field(key) {
        Some(text) => Ok(text),
        None => Err(ToolErrorView::MissingArgument(key)),
    }
}

/// Address of the documentation page for `query`.
pub open spec fn doc_url(query: Seq<char>) -> Seq<char> {
    "https://cht.sh/"@ + query + "?T"@
}

/// Address that search queries are posted to.
pub open spec fn search_url() -> Seq<char> {
    "https://html.duckduckgo.com/html/"@
}

/// The plan for the call of `name` with `args` in a sandbox rooted at
/// `root`, or the error that the call gets.
pub open spec fn plan_of(root: Seq<char>, name: Seq<char>, args: JsonView) -> Result<
    ToolPlanView,
    ToolErrorView,
> {
    if name == "run_command"@ {
        match argument(args, "command"@) {
            Ok(cmd) => Ok(ToolPlanView::RunShell { cmd }),
            Err(e) => Err(e),
        }
    } else if name == "write_file"@ {
        match argument(args, "path"@) {
            Ok(path) => match argument(args, "content"@) {
                Ok(content) => Ok(
                    ToolPlanView::WriteFile { path, target: resolve(root, path), content },
                ),
                Err(e) => Err(e),
            },
            Err(e) => Err(e),
        }
    } else if name == "read_file"@ {
        match argument(args, "path"@) {
            Ok(path) => Ok(ToolPlanView::ReadFile { path, target: resolve(root, path) }),
            Err(e) => Err(e),
        }
    } else if name == "list_files"@ {
        let path = match args.text_field("path"@) {
            Some(path) => path,
            None => "."@,
        };
        Ok(ToolPlanView::ListDir { path, target: resolve(root, path) })
    } else if name == "fetch_url"@ {
        match argument(args, "url"@) {
            Ok(url) => Ok(ToolPlanView::FetchUrl { url }),
            Err(e) => Err(e),
        }
    } else if name == "web_search"@ {
        match argument(args, "query"@) {
            Ok(query) => Ok(ToolPlanView::WebSearch { url: search_url(), query }),
            Err(e) => Err(e),
        }
    } else if name == "consult_documentation"@ {
        match argument(args, "query"@) {
            Ok(query) => Ok(ToolPlanView::FetchDoc { url: doc_url(query) }),
            Err(e) => Err(e),
        }
    } else {
        Err(ToolErrorView::UnknownTool(name))
    }
}

/// Leading slashes end where the first other character stands.
proof fn lemma_leading_slashes_is(path: Seq<char>, n: int)
    requires
        0 <= n <= path.len(),
        n < path.len() ==> path[n] != '/',
        forall|i: int| 0 <= i < n ==> path[i] == '/',
    ensures
        leading_slashes(path) == n,
    decreases path.len(),
{
    if path.len() > 0 && n > 0 {
        let rest = path.drop_first();
        assert forall|i: int| 0 <= i < n - 1 implies rest[i] == '/' by {
            assert(rest[i] == path[i + 1]);
        }
        lemma_leading_slashes_is(rest, n - 1);
    }
}

/// Where `path` lies under `root`.
pub fn resolve_path(root: &str, path: &str) -> (target: String)
    ensures
        target@ == resolve(root@, path@),
{
    let chars = to_chars(path);
    let mut n: usize = 0;
    while n < chars.len() && chars[n] == '/'
        invariant
            n <= chars.len(),
            forall|i: int| 0 <= i < n ==> chars[i] == '/',
        decreases chars.len() - n,
    {
        n += 1;
    }
    proof {
        lemma_leading_slashes_is(chars@, n as int);
    }
    let rest = slice_string(&chars, n, chars.len());
    let mut target = root.to_owned();
    target.append("/");
    target.append(rest.as_str());
    target
}

/// The text argument `key` of a call, or the error for its absence.
pub fn text_argument(args: &Json, key: &str) -> (found: Result<String, ToolError>)
    ensures
        match found {
            Ok(text) => argument(args@, key@) == Ok::<Seq<char>, ToolErrorView>(text@),
            Err(e) => argument(args@, key@) == Err::<Seq<char>, ToolErrorView>(e@),
        },
{
    match args.text_field(key) {
        Some(text) => Ok(text),
        None => Err(ToolError::MissingArgument(key.to_owned())),
    }
}

/// Decides what has to be done for `call` in a sandbox rooted at `root`.
/// A call of an unknown tool, or without an argument that its tool needs, gets
/// the error that says so.
pub fn plan_tool(root: &str, call: &ToolCall) -> (planned: Result<ToolPlan, ToolError>)
    ensures
        match planned {
            Ok(plan) => plan_of(root@, call.name@, call.arguments@) == Ok::<
                ToolPlanView,
                ToolErrorView,
            >(plan@),
            Err(e) => plan_of(root@, call.name@, call.arguments@) == Err::<
                ToolPlanView,
                ToolErrorView,
            >(e@),
        },
{
    let name = call.name.as_str();
    let args = &call.arguments;
    if text_eq(name, "run_command") {
        match text_argument(args, "command") {
            Ok(cmd) => Ok(ToolPlan::RunShell { cmd }),
            Err(e) => Err(e),
        }
    } else if text_eq(name, "write_file") {
        match text_argument(args, "path") {
            Ok(path) => match text_argument(args, "content") {
                Ok(content) => {
                    let target = resolve_path(root, path.as_str());
                    Ok(ToolPlan::WriteFile { path, target, content })
                },
                Err(e) => Err(e),
            },
            Err(e) => Err(e),
        }
    } else if text_eq(name, "read_file") {
        match text_argument(args, "path") {
            Ok(path) => {
                let target = resolve_path(root, path.as_str());
                Ok(ToolPlan::ReadFile { path, target })
            },
            Err(e) => Err(e),
        }
    } else if text_eq(name, "list_files") {
        let path = match args.text_field("path") {
            Some(path) => path,
            None => String::from_str("."),
        };
        let target = resolve_path(root, path.as_str());
        Ok(ToolPlan::ListDir { path, target })
    } else if text_eq(name, "fetch_url") {
        match text_argument(args, "url") {
            Ok(url) => Ok(ToolPlan::FetchUrl { url }),
            Err(e) => Err(e),
        }
    } else if text_eq(name, "web_search") {
        match text_argument(args, "query") {
            Ok(query) => Ok(
                ToolPlan::WebSearch {
                    url: String::from_str("https://html.duckduckgo.com/html/"),
                    query,
                },
            ),
            Err(e) => Err(e),
        }
    } else if text_eq(name, "consult_documentation") {
        match text_argument(args, "query") {
            Ok(query) => {
                let mut url = String::from_str("https://cht.sh/");
                url.append(query.as_str());
                url.append("?T");
                Ok(ToolPlan::FetchDoc { url })
            },
            Err(e) => Err(e),
        }
    } else {
        Err(ToolError::UnknownTool(call.name.clone()))
    }
}

} // verus!
