use std::collections::HashMap;

use agerus::config::Config;
use agerus::executor::{ToolError, ToolPlan};
use agerus::json::{Json, Member};
use agerus::mcp::{finish_tool, McpReply, McpRequest, McpServer, ToolOutcome};
use agerus::results::DirEntry;
use agerus::tools::list_tools;

fn server() -> McpServer {
    let mut config = Config::default();
    config.workspace_path = "/sandbox".to_string();
    McpServer::start(config)
}

fn perform(store: &mut HashMap<String, String>, plan: &ToolPlan) -> ToolOutcome {
    match plan {
        ToolPlan::WriteFile { target, content, .. } => {
            store.insert(target.clone(), content.clone());
            ToolOutcome::Written
        }
        ToolPlan::ReadFile { target, .. } => ToolOutcome::Content(store.get(target).cloned()),
        _ => ToolOutcome::Failed(ToolError::Filesystem("not a file operation".to_string())),
    }
}

fn call(server: &McpServer, store: &mut HashMap<String, String>, name: &str, args: Json) -> String {
    let planned = server.execute_tool(name.to_string(), args);
    let outcome = match &planned {
        Ok(plan) => perform(store, plan),
        Err(_) => ToolOutcome::Written,
    };
    McpServer::complete(planned, outcome)
}

#[test]
fn list_request_is_answered_with_the_tools() {
    assert_eq!(server().handle_request(McpRequest::ListTools), McpReply::Tools(list_tools()));
}

#[test]
fn call_request_is_answered_with_a_plan() {
    let reply = server().handle_request(McpRequest::CallTool {
        name: "read_file".to_string(),
        arguments: Json::object(vec![Member::text("path", "notes.md")]),
    });
    assert_eq!(
        reply,
        McpReply::Plan(Ok(ToolPlan::ReadFile {
            path: "notes.md".to_string(),
            target: "/sandbox/notes.md".to_string(),
        }))
    );
    let unknown =
        server().handle_request(McpRequest::CallTool { name: "nope".to_string(), arguments: Json::Null });
    assert_eq!(unknown, McpReply::Plan(Err(ToolError::UnknownTool("nope".to_string()))));
}

#[test]
fn write_then_read_returns_what_was_written() {
    let server = server();
    let mut store = HashMap::new();
    let content = "fn main() {\n    println!(\"hé\");\n}\n";
    let wrote = call(
        &server,
        &mut store,
        "write_file",
        Json::object(vec![Member::text("path", "src/main.rs"), Member::text("content", content)]),
    );
    assert_eq!(wrote, "Successfully wrote to src/main.rs");
    let read = call(
        &server,
        &mut store,
        "read_file",
        Json::object(vec![Member::text("path", "src/main.rs")]),
    );
    assert_eq!(read, content);
}

#[test]
fn write_replaces_what_was_there() {
    let server = server();
    let mut store = HashMap::new();
    for content in ["old", "new"] {
        call(
            &server,
            &mut store,
            "write_file",
            Json::object(vec![Member::text("path", "f"), Member::text("content", content)]),
        );
    }
    let read = call(&server, &mut store, "read_file", Json::object(vec![Member::text("path", "f")]));
    assert_eq!(read, "new");
}

#[test]
fn read_of_a_path_that_is_not_there_is_text_not_an_error() {
    let server = server();
    let mut store = HashMap::new();
    let read =
        call(&server, &mut store, "read_file", Json::object(vec![Member::text("path", "ghost")]));
    assert_eq!(read, "File not found: ghost");
}

#[test]
fn malformed_call_becomes_text() {
    let server = server();
    let mut store = HashMap::new();
    assert_eq!(
        call(&server, &mut store, "read_file", Json::object(vec![])),
        "Tool Execution Error: Missing path"
    );
    assert_eq!(
        call(&server, &mut store, "teleport", Json::Null),
        "Tool Execution Error: Unknown tool: teleport"
    );
}

#[test]
fn each_plan_is_finished_by_its_kind_of_outcome() {
    let shell = ToolPlan::RunShell { cmd: "ls".to_string() };
    assert_eq!(
        finish_tool(&shell, ToolOutcome::Lines(vec!["a".to_string()])),
        Ok("a\n".to_string())
    );
    let list = ToolPlan::ListDir { path: ".".to_string(), target: "/ws/.".to_string() };
    assert_eq!(
        finish_tool(
            &list,
            ToolOutcome::Entries(Some(vec![DirEntry { name: "x".to_string(), is_dir: false }]))
        ),
        Ok("[FILE] x".to_string())
    );
    assert_eq!(
        finish_tool(&list, ToolOutcome::Entries(None)),
        Ok("Directory not found: .".to_string())
    );
    let fetch = ToolPlan::FetchUrl { url: "https://e.example".to_string() };
    assert_eq!(
        finish_tool(&fetch, ToolOutcome::Body("<p>Hi</p>".to_string())),
        Ok("Hi".to_string())
    );
    let search = ToolPlan::WebSearch { url: "u".to_string(), query: "q".to_string() };
    assert_eq!(
        finish_tool(&search, ToolOutcome::Body("<html></html>".to_string())),
        Ok("No results found.".to_string())
    );
    let doc = ToolPlan::FetchDoc { url: "https://cht.sh/tar?T".to_string() };
    assert_eq!(
        finish_tool(&doc, ToolOutcome::Body("\u{1b}[1mtar\u{1b}[0m".to_string())),
        Ok("tar".to_string())
    );
}

#[test]
fn failure_and_misfit_are_errors() {
    let shell = ToolPlan::RunShell { cmd: "ls".to_string() };
    assert_eq!(
        finish_tool(&shell, ToolOutcome::Failed(ToolError::Subprocess("shell closed".to_string()))),
        Err(ToolError::Subprocess("shell closed".to_string()))
    );
    assert_eq!(
        finish_tool(&shell, ToolOutcome::Written),
        Err(ToolError::Subprocess("Outcome does not fit the call".to_string()))
    );
    assert_eq!(
        McpServer::complete(
            Ok(shell),
            ToolOutcome::Failed(ToolError::Network("offline".to_string()))
        ),
        "Tool Execution Error: offline"
    );
}
