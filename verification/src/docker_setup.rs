//! Setting up the sandbox container, as a sequence of decisions. The driver
//! runs the commands and reports what came of each.

use vstd::prelude::*;
use vstd::string::*;
use crate::lines::texts;
use crate::text::{text_eq, trim, trim_string};

verus! {

/// The usual name of the sandbox container.
pub const CONTAINER_NAME: &'static str = "ollama_dev_env";

/// What the driver reports.
#[derive(Clone, Debug, PartialEq, Eq)]
pub enum SetupEvent {
    /// Setup begins; whether the workspace directory exists.
    Begin { workspace_exists: bool },
    /// The workspace directory was created.
    WorkspaceCreated,
    /// The names of the running containers that match the sandbox's name.
    Listing(String),
    /// A stopped container of the sandbox's name was removed, if there was
    /// one.
    Removed,
    /// Whether the container started.
    RunStatus(bool),
    /// Whether the compiler answered inside the container; `None` where
    /// the question could not be put.
    CargoStatus(Option<bool>),
    /// Whether the tools were installed.
    InstallStatus(bool),
}

/// What the driver must do next.
#[derive(Clone, Debug, PartialEq, Eq)]
pub enum SetupStep {
    CreateWorkspace,
    QueryContainer,
    RemoveContainer,
    RunContainer,
    CheckCargo,
    InstallTools,
    /// The sandbox is ready; with a warning where the tools are missing.
    Done { warning: bool },
    /// Setup failed.
    Fail(String),
}

pub enum SetupEventView {
    Begin { workspace_exists: bool },
    WorkspaceCreated,
    Listing(Seq<char>),
    Removed,
    RunStatus(bool),
    CargoStatus(Option<bool>),
    InstallStatus(bool),
}

pub enum SetupStepView {
    CreateWorkspace,
    QueryContainer,
    RemoveContainer,
    RunContainer,
    CheckCargo,
    InstallTools,
    Done { warning: bool },
    Fail(Seq<char>),
}

impl View for SetupEvent {
    type V = SetupEventView;

    open spec fn view(&self) -> SetupEventView {
        match self {
            SetupEvent::Begin { workspace_exists } => SetupEventView::Begin {
                workspace_exists: *workspace_exists,
            },
            SetupEvent::WorkspaceCreated => SetupEventView::WorkspaceCreated,
            SetupEvent::Listing(l) => SetupEventView::Listing(l@),
            SetupEvent::Removed => SetupEventView::Removed,
            SetupEvent::RunStatus(ok) => SetupEventView::RunStatus(*ok),
            SetupEvent::CargoStatus(ok) => SetupEventView::CargoStatus(*ok),
            SetupEvent::InstallStatus(ok) => SetupEventView::InstallStatus(*ok),
        }
    }
}

impl View for SetupStep {
    type V = SetupStepView;

    open spec fn view(&self) -> SetupStepView {
        match self {
            SetupStep::CreateWorkspace => SetupStepView::CreateWorkspace,
            SetupStep::QueryContainer => SetupStepView::QueryContainer,
            SetupStep::RemoveContainer => SetupStepView::RemoveContainer,
            SetupStep::RunContainer => SetupStepView::RunContainer,
            SetupStep::CheckCargo => SetupStepView::CheckCargo,
            SetupStep::InstallTools => SetupStepView::InstallTools,
            SetupStep::Done { warning } => SetupStepView::Done { warning: *warning },
            SetupStep::Fail(m) => SetupStepView::Fail(m@),
        }
    }
}

/// The step that follows an event. The container is started only when it
/// does not run yet; the tools are installed only when the compiler does not
/// answer.
pub open spec fn next_step(container: Seq<char>, event: SetupEventView) -> SetupStepView {
    match event {
        SetupEventView::Begin { workspace_exists } => if workspace_exists {
            SetupStepView::QueryContainer
        } else {
            SetupStepView::CreateWorkspace
        },
        SetupEventView::WorkspaceCreated => SetupStepView::QueryContainer,
        SetupEventView::Listing(names) => if trim(names) == container {
            SetupStepView::CheckCargo
        } else {
            SetupStepView::RemoveContainer
        },
        SetupEventView::Removed => SetupStepView::RunContainer,
        SetupEventView::RunStatus(ok) => if ok {
            SetupStepView::CheckCargo
        } else {
            SetupStepView::Fail("Failed to start Docker container. Is Docker running?"@)
        },
        SetupEventView::CargoStatus(ok) => if ok == Some(true) {
            SetupStepView::Done { warning: false }
        } else {
            SetupStepView::InstallTools
        },
        SetupEventView::InstallStatus(ok) => SetupStepView::Done { warning: !ok },
    }
}

/// The workspace directory: the one that the environment names, or the
/// directory `workspace` below the working directory.
pub fn get_workspace_path(named: Option<String>) -> (path: String)
    ensures
        path@ == match named {
            Some(p) => p@,
            None => "./workspace"@,
        },
{
    match named {
        Some(p) => p,
        None => String::from_str("./workspace"),
    }
}

/// The step that follows an event in setting up the container `container`.
pub fn ensure_docker_env(container: &str, event: &SetupEvent) -> (step: SetupStep)
    ensures
        step@ == next_step(container@, event@),
{
    match event {
        SetupEvent::Begin { workspace_exists } => if *workspace_exists {
            SetupStep::QueryContainer
        } else {
            SetupStep::CreateWorkspace
        },
        SetupEvent::WorkspaceCreated => SetupStep::QueryContainer,
        SetupEvent::Listing(names) => {
            let trimmed = trim_string(names.as_str());
            if text_eq(trimmed.as_str(), container) {
                SetupStep::CheckCargo
            } else {
                SetupStep::RemoveContainer
            }
        },
        SetupEvent::Removed => SetupStep::RunContainer,
        SetupEvent::RunStatus(ok) => if *ok {
            SetupStep::CheckCargo
        } else {
            SetupStep::Fail(
                String::from_str("Failed to start Docker container. Is Docker running?"),
            )
        },
        SetupEvent::CargoStatus(ok) => match ok {
            Some(true) => SetupStep::Done { warning: false },
            _ => SetupStep::InstallTools,
        },
        SetupEvent::InstallStatus(ok) => SetupStep::Done { warning: !*ok },
    }
}

/// The arguments that a step's command is run with; none where the step
/// runs no command.
pub open spec fn step_arguments(
    step: SetupStepView,
    container: Seq<char>,
    workspace: Seq<char>,
) -> Seq<Seq<char>> {
    match step {
        SetupStepView::QueryContainer => seq![
            "ps"@,
            "--filter"@,
            "name="@ + container,
            "--format"@,
            "{{.Names}}"@,
        ],
        SetupStepView::RemoveContainer => seq!["rm"@, "-f"@, container],
        SetupStepView::RunContainer => seq![
            "run"@,
            "-d"@,
            "--name"@,
            container,
            "-v"@,
            workspace + ":/workspace"@,
            "-w"@,
            "/workspace"@,
            "ubuntu:latest"@,
            "tail"@,
            "-f"@,
            "/dev/null"@,
        ],
        SetupStepView::CheckCargo => seq![
            "exec"@,
            container,
            "bash"@,
            "-l"@,
            "-c"@,
            "cargo --version"@,
        ],
        SetupStepView::InstallTools => seq![
            "exec"@,
            container,
            "bash"@,
            "-c"@,
            "apt-get update && apt-get install -y curl git vim nano wget build-essential && curl --proto '=https' --tlsv1.2 -sSf https://sh.rustup.rs | sh -s -- -y"@,
        ],
        _ => Seq::empty(),
    }
}

/// The arguments that a step's command is run with, for the container
/// `container` and the workspace at the absolute path `workspace`.
pub fn docker_arguments(step: &SetupStep, container: &str, workspace: &str) -> (args: Vec<String>)
    ensures
        texts(args@) == step_arguments(step@, container@, workspace@),
{
    let mut args: Vec<String> = Vec::new();
    match step {
        SetupStep::QueryContainer => {
            let mut filter = String::from_str("name=");
            filter.append(container);
            args.push(String::from_str("ps"));
            args.push(String::from_str("--filter"));
            args.push(filter);
            args.push(String::from_str("--format"));
            args.push(String::from_str("{{.Names}}"));
        },
        SetupStep::RemoveContainer => {
            args.push(String::from_str("rm"));
            args.push(String::from_str("-f"));
            args.push(container.to_owned());
        },
        SetupStep::RunContainer => {
            let mut volume = workspace.to_owned();
            volume.append(":/workspace");
            args.push(String::from_str("run"));
            args.push(String::from_str("-d"));
            args.push(String::from_str("--name"));
            args.push(container.to_owned());
            args.push(String::from_str("-v"));
            args.push(volume);
            args.push(String::from_str("-w"));
            args.push(String::from_str("/workspace"));
            args.push(String::from_str("ubuntu:latest"));
            args.push(String::from_str("tail"));
            args.push(String::from_str("-f"));
            args.push(String::from_str("/dev/null"));
        },
        SetupStep::CheckCargo => {
            args.push(String::from_str("exec"));
            args.push(container.to_owned());
            args.push(String::from_str("bash"));
            args.push(String::from_str("-l"));
            args.push(String::from_str("-c"));
            args.push(String::from_str("cargo --version"));
        },
        SetupStep::InstallTools => {
            args.push(String::from_str("exec"));
            args.push(container.to_owned());
            args.push(String::from_str("bash"));
            args.push(String::from_str("-c"));
            args.push(
                String::from_str(
                    "apt-get update && apt-get install -y curl git vim nano wget build-essential && curl --proto '=https' --tlsv1.2 -sSf https://sh.rustup.rs | sh -s -- -y",
                ),
            );
        },
        _ => {},
    }
    assert(texts(args@) =~= step_arguments(step@, container@, workspace@));
    args
}

/// The arguments that the persistent shell is started with inside the
/// container `container`.
pub fn shell_arguments(container: &str) -> (args: Vec<String>)
    ensures
        texts(args@) == seq!["exec"@, "-i"@, container@, "bash"@, "-l"@],
{
    let mut args: Vec<String> = Vec::new();
    args.push(String::from_str("exec"));
    args.push(String::from_str("-i"));
    args.push(container.to_owned());
    args.push(String::from_str("bash"));
    args.push(String::from_str("-l"));
    assert(texts(args@) =~= seq!["exec"@, "-i"@, container@, "bash"@, "-l"@]);
    args
}

} // verus!
