use agerus::audio::AudioPlayer;
use agerus::docker_setup::{
    docker_arguments, ensure_docker_env, get_workspace_path, shell_arguments, SetupEvent,
    SetupStep, CONTAINER_NAME,
};
use agerus::json::{Json, Member};
use agerus::lines::split_words;
use agerus::session::{session_of, text_le, SessionManager};

const CONTAINER: &str = CONTAINER_NAME;

#[test]
fn sessions_directory() {
    assert_eq!(
        SessionManager::new(Some("/home/u/.config".to_string())).sessions_dir,
        "/home/u/.config/agerus/sessions"
    );
    assert_eq!(SessionManager::new(None).sessions_dir, "./agerus/sessions");
}

#[test]
fn session_file_path() {
    let manager = SessionManager { sessions_dir: "/s".to_string() };
    assert_eq!(manager.session_file("chat_1"), "/s/chat_1.json");
}

#[test]
fn session_of_a_file_name() {
    assert_eq!(session_of("chat.json"), Some("chat".to_string()));
    assert_eq!(session_of("a.b.json"), Some("a.b".to_string()));
    assert_eq!(session_of(".json"), None);
    assert_eq!(session_of("chat.JSON"), None);
    assert_eq!(session_of("chat.json.bak"), None);
    assert_eq!(session_of("json"), None);
    assert_eq!(session_of(""), None);
}

#[test]
fn sessions_are_listed_in_order() {
    let files: Vec<String> = ["b.json", "notes.txt", "a.json", "ab.json", "B.json", ".json", "a.json"]
        .iter()
        .map(|f| f.to_string())
        .collect();
    assert_eq!(SessionManager::list_sessions(&files), vec!["B", "a", "a", "ab", "b"]);
    assert_eq!(SessionManager::list_sessions(&vec![]), Vec::<String>::new());
}

#[test]
fn listing_agrees_with_the_standard_sort() {
    let stems = ["zeta", "é", "e", "", "Ω", "alpha", "alp", "😀", "z", "a b"];
    let files: Vec<String> = stems.iter().filter(|s| !s.is_empty()).map(|s| format!("{}.json", s)).collect();
    let mut expected: Vec<String> = stems.iter().filter(|s| !s.is_empty()).map(|s| s.to_string()).collect();
    expected.sort();
    assert_eq!(SessionManager::list_sessions(&files), expected);
}

#[test]
fn dictionary_order() {
    assert!(text_le("", ""));
    assert!(text_le("", "a"));
    assert!(!text_le("a", ""));
    assert!(text_le("a", "a"));
    assert!(text_le("a", "ab"));
    assert!(!text_le("ab", "a"));
    assert!(text_le("ab", "b"));
    assert!(!text_le("b", "ab"));
    assert!(text_le("Z", "a"));
}

#[test]
fn words_are_runs_without_white_space() {
    assert_eq!(split_words("  /load   my session \t"), vec!["/load", "my", "session"]);
    assert_eq!(split_words(""), Vec::<String>::new());
    assert_eq!(split_words(" \n "), Vec::<String>::new());
    assert_eq!(split_words("one"), vec!["one"]);
    for text in ["a b", " a  b ", "\u{3000}x\u{a0}y", "tab\tsep\nline"] {
        let expected: Vec<String> = text.split_whitespace().map(|w| w.to_string()).collect();
        assert_eq!(split_words(text), expected);
    }
}

#[test]
fn workspace_path_from_the_environment_or_default() {
    assert_eq!(get_workspace_path(Some("/data/ws".to_string())), "/data/ws");
    assert_eq!(get_workspace_path(None), "./workspace");
}

#[test]
fn setup_steps_follow_the_events() {
    let step = |event: SetupEvent| ensure_docker_env(CONTAINER, &event);
    assert_eq!(step(SetupEvent::Begin { workspace_exists: false }), SetupStep::CreateWorkspace);
    assert_eq!(step(SetupEvent::Begin { workspace_exists: true }), SetupStep::QueryContainer);
    assert_eq!(step(SetupEvent::WorkspaceCreated), SetupStep::QueryContainer);
    assert_eq!(step(SetupEvent::Listing("ollama_dev_env\n".to_string())), SetupStep::CheckCargo);
    assert_eq!(step(SetupEvent::Listing("".to_string())), SetupStep::RemoveContainer);
    assert_eq!(
        step(SetupEvent::Listing("ollama_dev_env_2\n".to_string())),
        SetupStep::RemoveContainer
    );
    assert_eq!(step(SetupEvent::Removed), SetupStep::RunContainer);
    assert_eq!(step(SetupEvent::RunStatus(true)), SetupStep::CheckCargo);
    assert_eq!(
        step(SetupEvent::RunStatus(false)),
        SetupStep::Fail("Failed to start Docker container. Is Docker running?".to_string())
    );
    assert_eq!(step(SetupEvent::CargoStatus(Some(true))), SetupStep::Done { warning: false });
    assert_eq!(step(SetupEvent::CargoStatus(Some(false))), SetupStep::InstallTools);
    assert_eq!(step(SetupEvent::CargoStatus(None)), SetupStep::InstallTools);
    assert_eq!(step(SetupEvent::InstallStatus(true)), SetupStep::Done { warning: false });
    assert_eq!(step(SetupEvent::InstallStatus(false)), SetupStep::Done { warning: true });
}

#[test]
fn setup_commands() {
    assert_eq!(
        docker_arguments(&SetupStep::QueryContainer, CONTAINER, "/abs/ws"),
        vec!["ps", "--filter", "name=ollama_dev_env", "--format", "{{.Names}}"]
    );
    assert_eq!(
        docker_arguments(&SetupStep::RemoveContainer, CONTAINER, "/abs/ws"),
        vec!["rm", "-f", "ollama_dev_env"]
    );
    assert_eq!(
        docker_arguments(&SetupStep::RunContainer, CONTAINER, "/abs/ws"),
        vec![
            "run", "-d", "--name", "ollama_dev_env", "-v", "/abs/ws:/workspace", "-w",
            "/workspace", "ubuntu:latest", "tail", "-f", "/dev/null",
        ]
    );
    assert_eq!(
        docker_arguments(&SetupStep::CheckCargo, CONTAINER, "/abs/ws"),
        vec!["exec", "ollama_dev_env", "bash", "-l", "-c", "cargo --version"]
    );
    let install = docker_arguments(&SetupStep::InstallTools, CONTAINER, "/abs/ws");
    assert_eq!(install[..4], ["exec", "ollama_dev_env", "bash", "-c"]);
    assert!(install[4].starts_with("apt-get update && apt-get install -y curl git"));
    assert!(docker_arguments(&SetupStep::Done { warning: false }, CONTAINER, "/abs/ws").is_empty());
    assert!(docker_arguments(&SetupStep::CreateWorkspace, CONTAINER, "/abs/ws").is_empty());
}

#[test]
fn shell_is_started_inside_the_container() {
    assert_eq!(CONTAINER_NAME, "ollama_dev_env");
    assert_eq!(
        shell_arguments(CONTAINER_NAME),
        vec!["exec", "-i", "ollama_dev_env", "bash", "-l"]
    );
}

#[test]
fn speech_is_asked_for_only_when_enabled_and_not_blank() {
    let on = AudioPlayer::new("http://127.0.0.1:5000/tts".to_string(), true);
    assert_eq!(on.play_text("hello"), Some(Json::object(vec![Member::text("text", "hello")])));
    assert_eq!(on.play_text("  \n"), None);
    assert_eq!(on.play_text(""), None);
    let off = AudioPlayer::new("http://127.0.0.1:5000/tts".to_string(), false);
    assert_eq!(off.play_text("hello"), None);
    assert_eq!(off.endpoint, "http://127.0.0.1:5000/tts");
}
