pub mod clock;
pub mod conversation;
pub mod hgie;
pub mod logging;
pub mod memory;
pub mod model;
pub mod model_runtime;
pub mod prompt_translator;
pub mod text;
pub mod tools;

pub use conversation::{
    BootstrapState, ChatMessage, ContextLevel, CoreCallbacks, InputSource, MessageContentType,
    ModelReasoningConfig, NoopCallbacks,
};
