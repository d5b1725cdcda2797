pub mod client;
pub mod json;
pub mod ollama_types;
pub mod prompts;

pub use client::analysis_request;
pub use client::project_names;
pub use client::reconcile;
pub use client::repair;
pub use client::scores_from_response;
pub use client::ScoringError;
pub use json::JsonField;
pub use json::JsonMember;
pub use ollama_types::OllamaAgentOutput;
pub use ollama_types::OllamaNameInput;
pub use ollama_types::OllamaRequest;
pub use ollama_types::OllamaResourceUsageInput;
pub use ollama_types::OllamaResponse;
pub use ollama_types::Options;
pub use ollama_types::ProcessInfo;
pub use ollama_types::ProcessScore;
pub use prompts::get_resource_verification_prompt;
pub use prompts::PROCESS_ANALYSIS_PROMPT;
pub use prompts::RESOURCE_SYSTEM_MESSAGE;
pub use prompts::RESOURCE_USER_PROMPT;
