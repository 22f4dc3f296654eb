pub mod text;
pub mod reflow;
pub mod json;
pub mod arguments;
pub mod table;
pub mod movement;
pub mod messages;
pub mod tools;
pub mod paragraph;
pub mod config;
pub mod session;
pub mod registry;
pub mod highlights;
pub mod events;
pub mod edit;
pub mod query;
pub mod lsp_frame;
pub mod conversation;
pub mod status;
