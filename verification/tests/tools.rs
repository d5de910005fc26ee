use agerus::executor::{plan_tool, resolve_path, text_argument, ToolCall, ToolError, ToolPlan};
use agerus::json::{Json, Member};
use agerus::tools::list_tools;

fn call(name: &str, fields: Vec<Member>) -> ToolCall {
    ToolCall { name: name.to_string(), arguments: Json::object(fields) }
}

#[test]
fn seven_tools_in_a_fixed_order() {
    let names: Vec<String> = list_tools().into_iter().map(|t| t.name).collect();
    assert_eq!(
        names,
        vec![
            "run_command",
            "write_file",
            "read_file",
            "list_files",
            "fetch_url",
            "web_search",
            "consult_documentation",
        ]
    );
}

#[test]
fn tool_list_is_the_same_on_every_call() {
    assert_eq!(list_tools(), list_tools());
}

#[test]
fn tool_names_are_unique() {
    let tools = list_tools();
    for i in 0..tools.len() {
        for j in 0..i {
            assert_ne!(tools[i].name, tools[j].name);
        }
    }
}

#[test]
fn schema_of_write_file() {
    let tools = list_tools();
    let tool = &tools[1];
    assert_eq!(tool.description, "Write content to a file in the workspace.");
    let param = |about: &str| {
        Json::object(vec![Member::text("type", "string"), Member::text("description", about)])
    };
    let expected = Json::object(vec![
        Member::text("type", "object"),
        Member::new(
            "properties",
            Json::object(vec![
                Member::new("path", param("Relative path")),
                Member::new("content", param("Content")),
            ]),
        ),
        Member::new("required", Json::array(vec![Json::text("path"), Json::text("content")])),
    ]);
    assert_eq!(tool.input_schema, expected);
}

#[test]
fn schema_of_list_files_requires_nothing() {
    let tools = list_tools();
    let tool = &tools[3];
    assert_eq!(tool.name, "list_files");
    assert!(!tool.input_schema.has_key("required"));
    assert!(tool.input_schema.get("properties").unwrap().has_key("path"));
}

#[test]
fn run_command_plan() {
    let planned = plan_tool("/ws", &call("run_command", vec![Member::text("command", "ls -la")]));
    assert_eq!(planned, Ok(ToolPlan::RunShell { cmd: "ls -la".to_string() }));
}

#[test]
fn write_file_plan_resolves_under_the_root() {
    let planned = plan_tool(
        "/ws",
        &call("write_file", vec![Member::text("path", "src/a.rs"), Member::text("content", "fn a() {}")]),
    );
    assert_eq!(
        planned,
        Ok(ToolPlan::WriteFile {
            path: "src/a.rs".to_string(),
            target: "/ws/src/a.rs".to_string(),
            content: "fn a() {}".to_string(),
        })
    );
}

#[test]
fn read_and_list_plans() {
    assert_eq!(
        plan_tool("./workspace", &call("read_file", vec![Member::text("path", "a.txt")])),
        Ok(ToolPlan::ReadFile {
            path: "a.txt".to_string(),
            target: "./workspace/a.txt".to_string(),
        })
    );
    assert_eq!(
        plan_tool("./workspace", &call("list_files", vec![])),
        Ok(ToolPlan::ListDir { path: ".".to_string(), target: "./workspace/.".to_string() })
    );
    assert_eq!(
        plan_tool("./workspace", &call("list_files", vec![Member::text("path", "src")])),
        Ok(ToolPlan::ListDir { path: "src".to_string(), target: "./workspace/src".to_string() })
    );
}

#[test]
fn network_plans() {
    assert_eq!(
        plan_tool("/ws", &call("fetch_url", vec![Member::text("url", "https://example.com")])),
        Ok(ToolPlan::FetchUrl { url: "https://example.com".to_string() })
    );
    assert_eq!(
        plan_tool("/ws", &call("web_search", vec![Member::text("query", "rust verus")])),
        Ok(ToolPlan::WebSearch {
            url: "https://html.duckduckgo.com/html/".to_string(),
            query: "rust verus".to_string(),
        })
    );
    assert_eq!(
        plan_tool("/ws", &call("consult_documentation", vec![Member::text("query", "rust/hashmap")])),
        Ok(ToolPlan::FetchDoc { url: "https://cht.sh/rust/hashmap?T".to_string() })
    );
}

#[test]
fn unknown_tool_is_an_error() {
    let planned = plan_tool("/ws", &call("launch", vec![]));
    assert_eq!(planned, Err(ToolError::UnknownTool("launch".to_string())));
    assert_eq!(planned.unwrap_err().message(), "Unknown tool: launch");
}

#[test]
fn missing_or_mistyped_argument_is_an_error() {
    let missing = plan_tool("/ws", &call("run_command", vec![]));
    assert_eq!(missing, Err(ToolError::MissingArgument("command".to_string())));
    assert_eq!(missing.unwrap_err().message(), "Missing 'command'");
    let mistyped = plan_tool(
        "/ws",
        &call("read_file", vec![Member::new("path", Json::Number("3".to_string()))]),
    );
    assert_eq!(mistyped, Err(ToolError::MissingArgument("path".to_string())));
    assert_eq!(mistyped.unwrap_err().message(), "Missing path");
    let half = plan_tool("/ws", &call("write_file", vec![Member::text("path", "a")]));
    assert_eq!(half, Err(ToolError::MissingArgument("content".to_string())));
    let none = plan_tool("/ws", &call("write_file", vec![Member::text("content", "a")]));
    assert_eq!(none, Err(ToolError::MissingArgument("path".to_string())));
    for (tool, key) in [("fetch_url", "url"), ("web_search", "query"), ("consult_documentation", "query")] {
        assert_eq!(
            plan_tool("/ws", &call(tool, vec![])),
            Err(ToolError::MissingArgument(key.to_string()))
        );
    }
    let not_an_object = ToolCall { name: "run_command".to_string(), arguments: Json::Null };
    assert_eq!(
        plan_tool("/ws", &not_an_object),
        Err(ToolError::MissingArgument("command".to_string()))
    );
}

#[test]
fn other_errors_speak_with_their_message() {
    assert_eq!(ToolError::Filesystem("disk full".to_string()).message(), "disk full");
    assert_eq!(ToolError::Network("timed out".to_string()).message(), "timed out");
    assert_eq!(ToolError::Subprocess("channel closed".to_string()).message(), "channel closed");
}

#[test]
fn paths_are_always_taken_relative_to_the_root() {
    assert_eq!(resolve_path("/ws", "a.txt"), "/ws/a.txt");
    assert_eq!(resolve_path("/ws", "/etc/passwd"), "/ws/etc/passwd");
    assert_eq!(resolve_path("/ws", "///x"), "/ws/x");
    assert_eq!(resolve_path("/ws", ""), "/ws/");
    assert_eq!(resolve_path("/ws", "/"), "/ws/");
    assert_eq!(resolve_path("", "a"), "/a");
}

#[test]
fn text_argument_reads_text_only() {
    let args = Json::object(vec![Member::text("a", "x"), Member::new("b", Json::Bool(true))]);
    assert_eq!(text_argument(&args, "a"), Ok("x".to_string()));
    assert_eq!(text_argument(&args, "b"), Err(ToolError::MissingArgument("b".to_string())));
    assert_eq!(text_argument(&args, "c"), Err(ToolError::MissingArgument("c".to_string())));
}
