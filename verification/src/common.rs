//! Shared configuration enums and logging settings.

use vstd::prelude::*;

verus! {

/// Browser automation stealth level.
#[derive(Debug, Clone, Copy, PartialEq, Eq, Structural)]
pub enum StealthLevel {
    Lightweight,
    Balanced,
    Maximum,
}

/// Approval behavior for actions that may require user consent.
#[derive(Debug, Clone, Copy, PartialEq, Eq, Structural)]
pub enum ApprovalMode {
    /// Ask for approval.
    Interactive,
    /// Auto-approve safe operations.
    Automatic,
    /// Auto-approve with logging.
    Supervised,
}

/// Preferred output format for reports and exports.
#[derive(Debug, Clone, Copy, PartialEq, Eq, Structural)]
pub enum OutputFormat {
    Json,
    Yaml,
    Html,
    Csv,
}

/// Output encoding for structured logs.
#[derive(Debug, Clone, Copy, PartialEq, Eq, Structural)]
pub enum LogFormat {
    Text,
    Json,
}

/// Configuration for the logging initialiser.
#[derive(Debug, Clone)]
pub struct LogConfig {
    /// Logical name of the component, used for defaults and file names.
    pub app_name: &'static str,
    /// Explicit directory for log output; the initialiser falls back to
    /// the environment and then to a per-user data directory.
    pub log_dir: Option<String>,
    /// Whether to duplicate events to standard error as well.
    pub emit_stderr: bool,
    /// Preferred log encoding.
    pub format: LogFormat,
    /// Filter applied when the environment sets none.
    pub default_filter: &'static str,
}

impl Default for LogConfig {
    /// The stock configuration: component `nowhere`, no explicit
    /// directory, file sink only, text encoding, `info` filtering.
    fn default() -> (r: LogConfig)
        ensures
            r.app_name@ == "nowhere"@,
            r.log_dir is None,
            !r.emit_stderr,
            r.format == LogFormat::Text,
            r.default_filter@ == "info"@,
    {
        LogConfig {
            app_name: "nowhere",
            log_dir: None,
            emit_stderr: false,
            format: LogFormat::Text,
            default_filter: "info",
        }
    }
}

/// Credentials for the search adapter.
#[derive(Debug, Clone)]
pub struct TwitterConfig {
    pub auth_token: String,
}

/// The hosted completion endpoint assumed when none is configured.
pub fn default_openai_endpoint() -> (r: String)
    ensures
        r@ == "https://api.openai.com/v1"@,
{
    "https://api.openai.com/v1".to_owned()
}

/// The local model endpoint assumed when none is configured.
pub fn default_ollama_endpoint() -> (r: String)
    ensures
        r@ == "http://localhost:11434"@,
{
    "http://localhost:11434".to_owned()
}

} // verus!
