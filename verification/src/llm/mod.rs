//! Model providers: choosing one by name, the scripted model, and the
//! settings of an OpenAI-compatible endpoint.

pub mod openai;
pub mod registry;
pub mod scripted;

pub use openai::ChatEndpoint;
pub use registry::ProviderRegistry;
pub use scripted::ScriptedLlm;
