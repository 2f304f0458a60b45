pub use crate::config::GenerationConfig;
