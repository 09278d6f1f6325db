//! The runtime: session history, model context, compaction, runs and sessions.

pub mod activate_skill;
pub mod active_path;
pub mod active_path_laws;
pub mod budget;
pub mod compaction;
pub mod compaction_laws;
pub mod compaction_run;
pub mod context_laws;
pub mod event_bus;
pub mod history;
pub mod history_laws;
pub mod llm_context;
pub mod path_laws;
pub mod prompt;
pub mod request_laws;
pub mod run_step_laws;
pub mod runner;
pub mod runner_laws;
pub mod runner_pool;
pub mod session_laws;
pub mod session_manager;
pub mod session_runner;
pub mod session_view_repository;
pub mod system_prompt;
pub mod view_laws;
