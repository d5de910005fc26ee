//! The tool registry: the tools offered to the model, and how a call is
//! turned into a plan that the executor's driver carries out.

use vstd::prelude::*;
use vstd::string::*;
use crate::json::{members_view, values_view, Json, JsonView, Member, MemberView};

verus! {

/// A tool as it is offered to the model.
#[derive(Clone, Debug, PartialEq, Eq)]
pub struct ToolDefinition {
    pub name: String,
    pub description: String,
    /// Schema of the arguments: an object of text parameters.
    pub input_schema: Json,
}

pub struct ToolDefinitionView {
    pub name: Seq<char>,
    pub description: Seq<char>,
    pub input_schema: JsonView,
}

impl View for ToolDefinition {
    type V = ToolDefinitionView;

    open spec fn view(&self) -> ToolDefinitionView {
        ToolDefinitionView {
            name: self.name@,
            description: self.description@,
            input_schema: self.input_schema@,
        }
    }
}

/// The views of a list of tool definitions.
pub open spec fn definitions_view(tools: Seq<ToolDefinition>) -> Seq<ToolDefinitionView> {
    tools.map_values(|t: ToolDefinition| t@)
}

/// Schema entry of one text parameter.
pub open spec fn param(name: Seq<char>, description: Seq<char>) -> MemberView {
    MemberView {
        key: name,
        value: JsonView::Object(
            seq![
                MemberView { key: "type"@, value: JsonView::Text("string"@) },
                MemberView { key: "description"@, value: JsonView::Text(description) },
            ],
        ),
    }
}

/// Schema of an object with the parameters `params`, of which `required`
/// must be given. Without required parameters the schema names none.
pub open spec fn schema(params: Seq<MemberView>, required: Seq<Seq<char>>) -> JsonView {
    let head = seq![
        MemberView { key: "type"@, value: JsonView::Text("object"@) },
        MemberView { key: "properties"@, value: JsonView::Object(params) },
    ];
    if required.len() == 0 {
        JsonView::Object(head)
    } else {
        JsonView::Object(
            head.push(
                MemberView {
                    key: "required"@,
                    value: JsonView::Array(required.map_values(|r: Seq<char>| JsonView::Text(r))),
                },
            ),
        )
    }
}

/// The tools, in the order in which they are listed.
pub open spec fn catalog() -> Seq<ToolDefinitionView> {
    seq![
        ToolDefinitionView {
            name: "run_command"@,
            description: "Run a shell command in the Docker container."@,
            input_schema: schema(
                seq![param("command"@, "Command to run"@)],
                seq!["command"@],
            ),
        },
        ToolDefinitionView {
            name: "write_file"@,
            description: "Write content to a file in the workspace."@,
            input_schema: schema(
                seq![param("path"@, "Relative path"@), param("content"@, "Content"@)],
                seq!["path"@, "content"@],
            ),
        },
        ToolDefinitionView {
            name: "read_file"@,
            description: "Read a file."@,
            input_schema: schema(seq![param("path"@, "Path"@)], seq!["path"@]),
        },
        ToolDefinitionView {
            name: "list_files"@,
            description: "List files in a directory."@,
            input_schema: schema(seq![param("path"@, "Directory path"@)], Seq::empty()),
        },
        ToolDefinitionView {
            name: "fetch_url"@,
            description: "Fetch and read a URL (web browsing)."@,
            input_schema: schema(seq![param("url"@, "URL"@)], seq!["url"@]),
        },
        ToolDefinitionView {
            name: "web_search"@,
            description: "Search the web (DuckDuckGo). Returns title and URL."@,
            input_schema: schema(seq![param("query"@, "Search query"@)], seq!["query"@]),
        },
        ToolDefinitionView {
            name: "consult_documentation"@,
            description: "Lookup documentation/cheatsheets for commands or languages. Examples: 'rust/vectors', 'python/requests', 'tar', 'git/commit'."@,
            input_schema: schema(
                seq![param("query"@, "Subject to lookup (e.g. 'rust/hashmap' or 'tar')"@)],
                seq!["query"@],
            ),
        },
    ]
}

/// Schema entry of one text parameter.
fn text_param(name: &str, description: &str) -> (member: Member)
    ensures
        member@ == param(name@, description@),
{
    let mut fields: Vec<Member> = Vec::new();
    fields.push(Member::text("type", "string"));
    fields.push(Member::text("description", description));
    assert(members_view(fields@) =~= seq![
        MemberView { key: "type"@, value: JsonView::Text("string"@) },
        MemberView { key: "description"@, value: JsonView::Text(description@) },
    ]);
    Member::new(name, Json::object(fields))
}

/// Schema of an object with the parameters `params`, of which `required`
/// must be given.
fn object_schema(params: Vec<Member>, required: Vec<Json>, Ghost(names): Ghost<Seq<Seq<char>>>) -> (json: Json)
    requires
        values_view(required@) == names.map_values(|r: Seq<char>| JsonView::Text(r)),
    ensures
        json@ == schema(members_view(params@), names),
{
    let mut fields: Vec<Member> = Vec::new();
    fields.push(Member::text("type", "object"));
    fields.push(Member::new("properties", Json::object(params)));
    let ghost head = seq![
        MemberView { key: "type"@, value: JsonView::Text("object"@) },
        MemberView { key: "properties"@, value: JsonView::Object(members_view(params@)) },
    ];
    assert(members_view(fields@) =~= head);
    assert(values_view(required@).len() == required.len());
    assert(names.map_values(|r: Seq<char>| JsonView::Text(r)).len() == names.len());
    if required.len() > 0 {
        fields.push(Member::new("required", Json::array(required)));
        assert(members_view(fields@) =~= head.push(
            MemberView {
                key: "required"@,
                value: JsonView::Array(names.map_values(|r: Seq<char>| JsonView::Text(r))),
            },
        ));
    }
    Json::object(fields)
}

/// A tool with one text parameter, required or not.
fn tool_with_one(
    name: &str,
    description: &str,
    key: &str,
    about: &str,
    required: bool,
) -> (tool: ToolDefinition)
    ensures
        tool@ == (ToolDefinitionView {
            name: name@,
            description: description@,
            input_schema: schema(
                seq![param(key@, about@)],
                if required {
                    seq![key@]
                } else {
                    Seq::empty()
                },
            ),
        }),
{
    let mut params: Vec<Member> = Vec::new();
    params.push(text_param(key, about));
    assert(members_view(params@) =~= seq![param(key@, about@)]);
    let mut names: Vec<Json> = Vec::new();
    let ghost wanted = if required {
        seq![key@]
    } else {
        Seq::empty()
    };
    if required {
        names.push(Json::text(key));
    }
    assert(values_view(names@) =~= wanted.map_values(|r: Seq<char>| JsonView::Text(r)));
    ToolDefinition {
        name: name.to_owned(),
        description: description.to_owned(),
        input_schema: object_schema(params, names, Ghost(wanted)),
    }
}

/// A tool with two required text parameters.
fn tool_with_two(
    name: &str,
    description: &str,
    first: &str,
    about_first: &str,
    second: &str,
    about_second: &str,
) -> (tool: ToolDefinition)
    ensures
        tool@ == (ToolDefinitionView {
            name: name@,
            description: description@,
            input_schema: schema(
                seq![param(first@, about_first@), param(second@, about_second@)],
                seq![first@, second@],
            ),
        }),
{
    let mut params: Vec<Member> = Vec::new();
    params.push(text_param(first, about_first));
    params.push(text_param(second, about_second));
    assert(members_view(params@) =~= seq![
        param(first@, about_first@),
        param(second@, about_second@),
    ]);
    let mut names: Vec<Json> = Vec::new();
    names.push(Json::text(first));
    names.push(Json::text(second));
    let ghost wanted = seq![first@, second@];
    assert(values_view(names@) =~= wanted.map_values(|r: Seq<char>| JsonView::Text(r)));
    ToolDefinition {
        name: name.to_owned(),
        description: description.to_owned(),
        input_schema: object_schema(params, names, Ghost(wanted)),
    }
}

/// The tools offered to the model. The list is the same on every call.
pub fn list_tools() -> (tools: Vec<ToolDefinition>)
    ensures
        definitions_view(tools@) == catalog(),
{
    let mut tools: Vec<ToolDefinition> = Vec::new();
    tools.push(
        tool_with_one(
            "run_command",
            "Run a shell command in the Docker container.",
            "command",
            "Command to run",
            true,
        ),
    );
    tools.push(
        tool_with_two(
            "write_file",
            "Write content to a file in the workspace.",
            "path",
            "Relative path",
            "content",
            "Content",
        ),
    );
    tools.push(tool_with_one("read_file", "Read a file.", "path", "Path", true));
    tools.push(
        tool_with_one("list_files", "List files in a directory.", "path", "Directory path", false),
    );
    tools.push(
        tool_with_one("fetch_url", "Fetch and read a URL (web browsing).", "url", "URL", true),
    );
    tools.push(
        tool_with_one(
            "web_search",
            "Search the web (DuckDuckGo). Returns title and URL.",
            "query",
            "Search query",
            true,
        ),
    );
    tools.push(
        tool_with_one(
            "consult_documentation",
            "Lookup documentation/cheatsheets for commands or languages. Examples: 'rust/vectors', 'python/requests', 'tar', 'git/commit'.",
            "query",
            "Subject to lookup (e.g. 'rust/hashmap' or 'tar')",
            true,
        ),
    );
    assert(definitions_view(tools@) =~= catalog());
    tools
}

} // verus!
