use agerus::config::{default_voice_url, Config};

#[test]
fn default_voice_url_is_local_tts() {
    assert_eq!(default_voice_url(), "http://127.0.0.1:5000/tts");
}

#[test]
fn default_config_values() {
    let config = Config::default();
    assert_eq!(config.model, "qwen2.5-coder:latest");
    assert_eq!(config.workspace_path, "./workspace");
    assert_eq!(config.ollama_url, "http://localhost:11434/api/chat");
    assert_eq!(config.voice_server_url, "http://127.0.0.1:5000/tts");
    assert!(!config.voice_enabled);
}
