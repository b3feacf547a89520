//! The rules of a task agent: it carries a task to its end by asking a model what to do and by
//! running the tools that the model calls.
//!
//! The library decides, and the program around it acts. A [`chat::Session`] says what to do next;
//! [`tools`] holds each call against its arguments and [`security`] holds destructive commands
//! back; [`reports`] puts what came of an action into words for the model.

pub mod call_laws;
pub mod chat;
pub mod chat_laws;
pub mod cli;
pub mod command_laws;
pub mod ids;
pub mod inline;
pub mod inline_laws;
pub mod json;
pub mod llm;
pub mod llm_laws;
pub mod order;
pub mod paths;
pub mod records;
pub mod report_laws;
pub mod reports;
pub mod schemas;
pub mod screen_laws;
pub mod security;
pub mod state;
pub mod task_laws;
pub mod text;
pub mod text_laws;
pub mod todo;
pub mod tool_laws;
pub mod tools;
pub mod tui;

pub use chat::{Config, Outcome, Session};
pub use llm::{Message, RealLlmClient, ToolCall};
pub use state::{load_state, state_dir, task_path, TaskState};
pub use todo::{TodoItem, TodoStatus};
pub use tools::{run_tool, tool_schemas, ToolContext};
