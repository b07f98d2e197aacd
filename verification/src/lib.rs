pub mod text;
pub mod workspace_path;
pub mod model;
pub mod plan_package;
pub mod front_matter;
pub mod plan_parse;
pub mod pyscan;
pub mod refs;
pub mod registry;
pub mod scope;
pub mod tool_policy;
pub mod json_args;
pub mod model_contract;
pub mod sorted;
pub mod cadquery_args;
pub mod plan_result;
pub mod file_write;
pub mod file_tools;
pub mod file_read;
pub mod watch;
pub mod web_search;
pub mod tool_runtime;
pub mod preview;
pub mod runner;
pub mod chat_store;
pub mod chat_index;
pub mod llm_config;
pub mod settings;
pub mod readonly;
pub mod executor;
pub mod selection;
pub mod turn;
pub mod sse;
pub mod semantic;
pub mod skills;
pub mod mesh_refs;
pub mod model_registry;
