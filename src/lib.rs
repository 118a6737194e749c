// Model of the configuration: projects, pipelines, stages and procedures.
pub mod config;
pub mod pipeline;
pub mod procedure;
pub mod project;

// Decisions of the daemon: polling, supervision of pipelines and procedures,
// preemption of running tasks.
pub mod channel;
pub mod pipeline_manager;
pub mod procedure_manager;
pub mod updater;

// Text the daemon produces and reads: Git command lines and output, log lines.
pub mod log_render;
pub mod logger;
pub mod system_cmd;
