//! A local autoregressive text-generation engine: the model variant registry,
//! the incremental token decoder, the generation planner and the chat prompt
//! rules, with their contracts.

pub mod model;
pub mod tokenizer_check;
pub mod token_output_stream;
pub mod text_generation;
pub mod openai_types;
pub mod server;
pub mod utils;
