//! The tool server: it lists the tools, turns a call into a plan, and turns
//! the outcome that the driver brings back into the text for the model.

use vstd::prelude::*;
use vstd::string::*;
use crate::config::Config;
use crate::executor::{
    plan_of, plan_tool, ToolCall, ToolError, ToolErrorView, ToolPlan, ToolPlanView,
};
use crate::json::Json;
use crate::lines::texts;
use crate::markup::{
    fetch_output, lookup_output, result_links, search_page_output, stripped_colour,
    stripped_markup,
};
use crate::results::{
    doc_text, list_output, list_text, observation, page_text, read_output, read_text,
    render_outcome, search_text, shell_output, shell_text, write_output, write_text, DirEntry,
};
use crate::tools::{catalog, definitions_view, list_tools, ToolDefinition};

verus! {

/// What the driver brought back for a plan.
#[derive(Clone, Debug, PartialEq, Eq)]
pub enum ToolOutcome {
    /// The output lines of the shell command.
    Lines(Vec<String>),
    /// The file was written.
    Written,
    /// The content of the file, or `None` where no file is there.
    Content(Option<String>),
    /// The entries of the directory, or `None` where no directory is there.
    Entries(Option<Vec<DirEntry>>),
    /// The body of the answer to a request.
    Body(String),
    /// The attempt failed.
    Failed(ToolError),
}

pub enum ToolOutcomeView {
    Lines(Seq<Seq<char>>),
    Written,
    Content(Option<Seq<char>>),
    Entries(Option<Seq<DirEntry>>),
    Body(Seq<char>),
    Failed(ToolErrorView),
}

impl View for ToolOutcome {
    type V = ToolOutcomeView;

    open spec fn view(&self) -> ToolOutcomeView {
        match self {
            ToolOutcome::Lines(l) => ToolOutcomeView::Lines(texts(l@)),
            ToolOutcome::Written => ToolOutcomeView::Written,
            ToolOutcome::Content(c) => ToolOutcomeView::Content(
                match c {
                    Some(text) => Some(text@),
                    None => None,
                },
            ),
            ToolOutcome::Entries(e) => ToolOutcomeView::Entries(
                match e {
                    Some(list) => Some(list@),
                    None => None,
                },
            ),
            ToolOutcome::Body(b) => ToolOutcomeView::Body(b@),
            ToolOutcome::Failed(e) => ToolOutcomeView::Failed(e@),
        }
    }
}

/// The result of a call from its plan and what the driver brought back. A
/// failure is the call's error; an outcome of the wrong kind for the plan is
/// an error too.
pub open spec fn finish_of(plan: ToolPlanView, outcome: ToolOutcomeView) -> Result<
    Seq<char>,
    ToolErrorView,
> {
    match (plan, outcome) {
        (_, ToolOutcomeView::Failed(e)) => Err(e),
        (ToolPlanView::RunShell { .. }, ToolOutcomeView::Lines(l)) => Ok(shell_text(l)),
        (ToolPlanView::WriteFile { path, .. }, ToolOutcomeView::Written) => Ok(write_text(path)),
        (ToolPlanView::ReadFile { path, .. }, ToolOutcomeView::Content(c)) => Ok(
            read_text(path, c),
        ),
        (ToolPlanView::ListDir { path, .. }, ToolOutcomeView::Entries(e)) => Ok(
            list_text(path, e),
        ),
        (ToolPlanView::FetchUrl { .. }, ToolOutcomeView::Body(b)) => Ok(
            page_text(stripped_markup(b)),
        ),
        (ToolPlanView::WebSearch { .. }, ToolOutcomeView::Body(b)) => Ok(
            search_text(result_links(b)),
        ),
        (ToolPlanView::FetchDoc { .. }, ToolOutcomeView::Body(b)) => Ok(
            doc_text(stripped_colour(b)),
        ),
        _ => Err(ToolErrorView::Subprocess("Outcome does not fit the call"@)),
    }
}

/// The error for an outcome of the wrong kind.
fn misfit() -> (e: ToolError)
    ensures
        e@ == ToolErrorView::Subprocess("Outcome does not fit the call"@),
{
    ToolError::Subprocess(String::from_str("Outcome does not fit the call"))
}

/// The result of a call from its plan and what the driver brought back.
pub fn finish_tool(plan: &ToolPlan, outcome: ToolOutcome) -> (result: Result<String, ToolError>)
    ensures
        match result {
            Ok(text) => finish_of(plan@, outcome@) == Ok::<Seq<char>, ToolErrorView>(text@),
            Err(e) => finish_of(plan@, outcome@) == Err::<Seq<char>, ToolErrorView>(e@),
        },
{
    match outcome {
        ToolOutcome::Failed(e) => Err(e),
        ToolOutcome::Lines(l) => match plan {
            ToolPlan::RunShell { .. } => Ok(shell_output(&l)),
            _ => Err(misfit()),
        },
        ToolOutcome::Written => match plan {
            ToolPlan::WriteFile { path, .. } => Ok(write_output(path.as_str())),
            _ => Err(misfit()),
        },
        ToolOutcome::Content(c) => match plan {
            ToolPlan::ReadFile { path, .. } => match &c {
                Some(text) => Ok(read_output(path.as_str(), Some(text.as_str()))),
                None => Ok(read_output(path.as_str(), None)),
            },
            _ => Err(misfit()),
        },
        ToolOutcome::Entries(e) => match plan {
            ToolPlan::ListDir { path, .. } => match &e {
                Some(list) => Ok(list_output(path.as_str(), Some(list))),
                None => Ok(list_output(path.as_str(), None)),
            },
            _ => Err(misfit()),
        },
        ToolOutcome::Body(b) => match plan {
            ToolPlan::FetchUrl { .. } => Ok(fetch_output(b.as_str())),
            ToolPlan::WebSearch { .. } => Ok(search_page_output(b.as_str())),
            ToolPlan::FetchDoc { .. } => Ok(lookup_output(b.as_str())),
            _ => Err(misfit()),
        },
    }
}

/// A request to the tool server.
#[derive(Clone, Debug, PartialEq, Eq)]
pub enum McpRequest {
    /// List the tools.
    ListTools,
    /// Call the tool `name` with `arguments`.
    CallTool { name: String, arguments: Json },
}

/// The tool server's answer to a request.
#[derive(Debug, PartialEq, Eq)]
pub enum McpReply {
    /// The tools on offer.
    Tools(Vec<ToolDefinition>),
    /// What has to be done for the call, or the call's error.
    Plan(Result<ToolPlan, ToolError>),
}

/// The tool server. It knows the sandbox root of the run.
#[derive(Clone, Debug, PartialEq, Eq)]
pub struct McpServer {
    config: Config,
}

impl McpServer {
    /// A tool server for the sandbox that `config` names.
    pub fn start(config: Config) -> (server: McpServer)
        ensures
            server.root() == config.workspace_path@,
    {
        McpServer { config }
    }

    /// The sandbox root that file tools resolve paths against.
    pub closed spec fn root(&self) -> Seq<char> {
        self.config.workspace_path@
    }

    /// What has to be done for the call of `name` with `args`.
    pub fn execute_tool(&self, name: String, args: Json) -> (planned: Result<ToolPlan, ToolError>)
        ensures
            match planned {
                Ok(plan) => plan_of(self.root(), name@, args@) == Ok::<
                    ToolPlanView,
                    ToolErrorView,
                >(plan@),
                Err(e) => plan_of(self.root(), name@, args@) == Err::<
                    ToolPlanView,
                    ToolErrorView,
                >(e@),
            },
    {
        let call = ToolCall { name, arguments: args };
        plan_tool(self.config.workspace_path.as_str(), &call)
    }

    /// Answers one request: the tools on offer, or the plan for a call.
    pub fn handle_request(&self, req: McpRequest) -> (reply: McpReply)
        ensures
            match req {
                McpRequest::ListTools => reply matches McpReply::Tools(tools) && definitions_view(
                    tools@,
                ) == catalog(),
                McpRequest::CallTool { name, arguments } => reply matches McpReply::Plan(planned)
                    && match planned {
                    Ok(plan) => plan_of(self.root(), name@, arguments@) == Ok::<
                        ToolPlanView,
                        ToolErrorView,
                    >(plan@),
                    Err(e) => plan_of(self.root(), name@, arguments@) == Err::<
                        ToolPlanView,
                        ToolErrorView,
                    >(e@),
                },
            },
    {
        match req {
            McpRequest::ListTools => McpReply::Tools(list_tools()),
            McpRequest::CallTool { name, arguments } => McpReply::Plan(
                self.execute_tool(name, arguments),
            ),
        }
    }

    /// The text that is fed back to the model for a call, from its plan (or
    /// its error) and what the driver brought back. Always text: a failure
    /// is put into words.
    pub fn complete(planned: Result<ToolPlan, ToolError>, outcome: ToolOutcome) -> (text: String)
        ensures
            text@ == observation(
                match planned {
                    Ok(plan) => finish_of(plan@, outcome@),
                    Err(e) => Err(e@),
                },
            ),
    {
        match planned {
            Ok(plan) => render_outcome(finish_tool(&plan, outcome)),
            Err(e) => render_outcome(Err(e)),
        }
    }
}

} // verus!
