//! Laws of the tool executor, stated over a file store that keeps what was
//! written to it.

use vstd::prelude::*;
use crate::executor::{plan_of, resolve, ToolErrorView, ToolPlanView};
use crate::json::JsonView;
use crate::lines::lines;
use crate::mcp::{finish_of, ToolOutcomeView};
use crate::results::{observation, write_text, FILE_LINE_CAP};
use crate::tools::catalog;

verus! {

/// A file store: the content of each file that exists, by its place.
pub type Store = Map<Seq<char>, Seq<char>>;

/// What a driver over the store `store` does for a file plan: writing puts
/// the content in its place, reading brings back what is there. Other plans
/// do not touch the store.
pub open spec fn perform(store: Store, plan: ToolPlanView) -> (Store, ToolOutcomeView) {
    match plan {
        ToolPlanView::WriteFile { target, content, .. } => (
            store.insert(target, content),
            ToolOutcomeView::Written,
        ),
        ToolPlanView::ReadFile { target, .. } => (
            store,
            ToolOutcomeView::Content(
                if store.contains_key(target) {
                    Some(store[target])
                } else {
                    None
                },
            ),
        ),
        _ => (
            store,
            ToolOutcomeView::Failed(ToolErrorView::Filesystem("not a file operation"@)),
        ),
    }
}

/// The names of the tools differ from one another.
pub proof fn lemma_tool_names_differ()
    ensures
        "run_command"@ != "write_file"@,
        "run_command"@ != "read_file"@,
        "write_file"@ != "read_file"@,
        forall|i: int, j: int|
            0 <= i < j < catalog().len() ==> catalog()[i].name != catalog()[j].name,
{
    reveal_strlit("run_command");
    reveal_strlit("write_file");
    reveal_strlit("read_file");
    reveal_strlit("list_files");
    reveal_strlit("fetch_url");
    reveal_strlit("web_search");
    reveal_strlit("consult_documentation");
    assert("run_command"@[0] == 'r');
    assert("write_file"@[0] == 'w');
    assert("read_file"@[1] == 'e');
    assert("run_command"@[1] == 'u');
    assert("list_files"@[0] == 'l');
    assert("fetch_url"@[0] == 'f');
    assert("web_search"@[1] == 'e');
    assert("write_file"@[1] == 'r');
    assert("consult_documentation"@[0] == 'c');
    let names = catalog();
    assert(names.len() == 7);
    assert(names[0].name[0] == 'r' && names[0].name[1] == 'u');
    assert(names[1].name[0] == 'w' && names[1].name[1] == 'r');
    assert(names[2].name[0] == 'r' && names[2].name[1] == 'e');
    assert(names[3].name[0] == 'l');
    assert(names[4].name[0] == 'f');
    assert(names[5].name[0] == 'w' && names[5].name[1] == 'e');
    assert(names[6].name[0] == 'c');
}

/// A write and a read that name the same path are planned for the same
/// place under the root.
pub proof fn lemma_same_path_same_target(
    root: Seq<char>,
    write_args: JsonView,
    read_args: JsonView,
)
    requires
        write_args.text_field("path"@) is Some,
        write_args.text_field("content"@) is Some,
        read_args.text_field("path"@) == write_args.text_field("path"@),
    ensures
        plan_of(root, "write_file"@, write_args) == Ok::<ToolPlanView, ToolErrorView>(
            ToolPlanView::WriteFile {
                path: write_args.text_field("path"@)->0,
                target: resolve(root, write_args.text_field("path"@)->0),
                content: write_args.text_field("content"@)->0,
            },
        ),
        plan_of(root, "read_file"@, read_args) == Ok::<ToolPlanView, ToolErrorView>(
            ToolPlanView::ReadFile {
                path: write_args.text_field("path"@)->0,
                target: resolve(root, write_args.text_field("path"@)->0),
            },
        ),
{
    lemma_tool_names_differ();
}

/// Writing a file and then reading the same path gives back exactly what
/// was written, as long as the content has no more lines than the cap on
/// file output.
pub proof fn lemma_write_then_read(
    store: Store,
    root: Seq<char>,
    write_args: JsonView,
    read_args: JsonView,
)
    requires
        write_args.text_field("path"@) is Some,
        write_args.text_field("content"@) is Some,
        read_args.text_field("path"@) == write_args.text_field("path"@),
        lines(write_args.text_field("content"@)->0).len() <= FILE_LINE_CAP,
    ensures
        ({
            let path = write_args.text_field("path"@)->0;
            let content = write_args.text_field("content"@)->0;
            let write = plan_of(root, "write_file"@, write_args)->Ok_0;
            let read = plan_of(root, "read_file"@, read_args)->Ok_0;
            let written = perform(store, write);
            let brought = perform(written.0, read);
            &&& plan_of(root, "write_file"@, write_args) is Ok
            &&& plan_of(root, "read_file"@, read_args) is Ok
            &&& finish_of(write, written.1) == Ok::<Seq<char>, ToolErrorView>(write_text(path))
            &&& finish_of(read, brought.1) == Ok::<Seq<char>, ToolErrorView>(content)
            &&& observation(finish_of(read, brought.1)) == content
        }),
{
    lemma_same_path_same_target(root, write_args, read_args);
}

/// Reading a path where no file is gives a note that says so: a result,
/// not an error.
pub proof fn lemma_read_missing(store: Store, root: Seq<char>, read_args: JsonView)
    requires
        read_args.text_field("path"@) is Some,
        !store.contains_key(resolve(root, read_args.text_field("path"@)->0)),
    ensures
        ({
            let path = read_args.text_field("path"@)->0;
            let read = plan_of(root, "read_file"@, read_args)->Ok_0;
            &&& plan_of(root, "read_file"@, read_args) is Ok
            &&& finish_of(read, perform(store, read).1) == Ok::<Seq<char>, ToolErrorView>(
                "File not found: "@ + path,
            )
        }),
{
    lemma_tool_names_differ();
}

/// Whatever a call comes to, the model is fed text: a result as it is, an
/// error put into words that begin by saying that the tool failed.
pub proof fn lemma_failure_becomes_text(error: ToolErrorView)
    ensures
        observation(Err(error)) == "Tool Execution Error: "@ + error.message(),
{
}

} // verus!
