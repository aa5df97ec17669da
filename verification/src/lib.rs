//! Image-delivery audit library: finds `<img>` and JSX `<Image>` problems in
//! markup, applies text patches and interprets model suggestions.

pub mod text;
pub mod app;
pub mod attrs;
pub mod checks;
pub mod config;
pub mod llm;
pub mod patch;
pub mod paths;
pub mod prompt;
pub mod scanner;
pub mod tags;
pub mod types;
