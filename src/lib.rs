//! A prompt and response gateway for large-language-model services.
//!
//! The library holds the logic of the gateway: the text sanitizer applied to
//! generated code, the prompts and conversations sent to the model, the
//! outbound HTTP requests of the relay endpoints with their idempotency keys,
//! the interpretation of relay outcomes, and the response-shaping hook.
//! Awaiting the model or the HTTP transport is left to the caller.

pub mod project;
pub mod prompts;
pub mod relay;
pub mod sanitize;
pub mod text;

pub use project::{get_project_examples, project_examples, SimpleProject};
pub use prompts::{code_prompt, config_prompt, question_messages, readme_prompt, ChatMessage, Role};
pub use relay::{
    generate_reply, generate_request, review_reply, review_request, transform, HttpHeader,
    HttpMethod, HttpResponse, OutboundRequest, RejectionCode, RelayOutcome, TransformArgs,
    RELAY_CYCLES,
};
pub use sanitize::{clean_code_response, sanitized};
