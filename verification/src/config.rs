//! Settings shared by every component: model identity, service endpoints and
//! the sandbox root.

use vstd::prelude::*;
use vstd::string::*;

verus! {

/// Runtime settings of the assistant.
#[derive(Clone, Debug, PartialEq, Eq)]
pub struct Config {
    /// Name of the model requested from the service.
    pub model: String,
    /// Root directory that file tools resolve relative paths against.
    pub workspace_path: String,
    /// Endpoint of the chat service.
    pub ollama_url: String,
    /// Endpoint of the speech service.
    pub voice_server_url: String,
    /// Whether answers are read aloud.
    pub voice_enabled: bool,
}

/// Endpoint of the speech service used when the settings name none.
pub fn default_voice_url() -> (url: String)
    ensures
        url@ == "http://127.0.0.1:5000/tts"@,
{
    String::from_str("http://127.0.0.1:5000/tts")
}

impl Default for Config {
    fn default() -> (config: Config)
        ensures
            config.model@ == "qwen2.5-coder:latest"@,
            config.workspace_path@ == "./workspace"@,
            config.ollama_url@ == "http://localhost:11434/api/chat"@,
            config.voice_server_url@ == "http://127.0.0.1:5000/tts"@,
            !config.voice_enabled,
    {
        Config {
            model: String::from_str("qwen2.5-coder:latest"),
            workspace_path: String::from_str("./workspace"),
            ollama_url: String::from_str("http://localhost:11434/api/chat"),
            voice_server_url: default_voice_url(),
            voice_enabled: false,
        }
    }
}

} // verus!
