pub mod text;
pub mod hashline;
pub mod edit;
pub mod event;
pub mod read;
pub mod typeahead;
pub mod commands;
pub mod mentions;
pub mod typeahead_state;
pub mod tui_typeahead;
pub mod models;
pub mod session_dialog;
pub mod tui_session_dialog;
pub mod bash;
pub mod write;
pub mod skill;
pub mod auth;
pub mod oauth;
pub mod auth_manager;
pub mod openai;
pub mod screen;
pub mod layout;
pub mod model_spec;
pub mod paths;
pub mod input_box;
pub mod registry;
pub mod codex;
pub mod session_db;
pub mod cli;
pub mod stream;
pub mod session_store;
pub mod thread;
pub mod credential_store;
pub mod prompt;
pub mod tool_errors;
pub mod openai_headers;
pub mod typeahead_provider;
pub mod openai_events;
pub mod order;
pub mod conversation;
pub mod openai_request;
pub mod agent_loop;
pub mod history;
pub mod agent_turn;
pub mod tui_app;
pub mod gitignore;
