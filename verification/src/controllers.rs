//! The endpoints, one file for each group of them.

pub mod chat_completion;
pub mod completion;
pub mod embed;
pub mod models;

pub use chat_completion::{ChatEvent, ChatMessage, ChatRequest, ChatResponse};
pub use completion::{GenerateEvent, GenerateRequest, GenerateResponse};
pub use embed::{EmbedInput, EmbedRequest, EmbedResponse};
pub use models::{
    CopyModelRequest, DeleteModelRequest, ListLocalModelsResponse, LocalModel, ModelInfo,
    ModelInfoRequest, PullModelEvent, PullModelEventView, PullModelRequest, PullModelResponse,
};
