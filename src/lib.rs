//! A small conversational-response engine: keyword-based sentiment and theme
//! classification, a fixed registry of character personas, reply composition,
//! an aphorism selector and a task optimizer with a mood state.
pub mod text;
pub mod trusted;
pub mod nlp;
pub mod character_ai;
pub mod ai_engine;
pub mod perfection;
pub mod ordered;
