use vstd::prelude::*;

pub mod auth;
pub mod collection_store;
pub mod cookies;
pub mod domain;
pub mod error_classifier;
pub mod history_view;
pub mod http_method;
pub mod ids;
pub mod item_key;
pub mod kv_table;
pub mod preflight;
pub mod recovery;
pub mod repos;
pub mod request_body;
pub mod request_draft;
pub mod request_editor_state;
pub mod request_execution;
pub mod request_inputs;
pub mod response_view;
pub mod secret_manager;
pub mod session_restore;
pub mod sidebar;
pub mod stored_variables;
pub mod tab_manager;
pub mod url_params;
pub mod variable_resolution;
pub mod workspace_loader;
pub mod workspace_session;
pub mod workspace_tree;
pub mod text;

verus! {
}
