pub mod document;
pub mod json;
pub mod llama_cpp;
pub mod pipeline;
pub mod prober;
pub mod protocol;
pub mod status;
pub mod store;
