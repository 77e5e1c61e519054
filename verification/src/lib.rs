pub mod alias;
pub mod cli;
pub mod config;
pub mod history;
pub mod hooks;
pub mod ipc;
pub mod job_control;
pub mod parser;
pub mod paths;
pub mod plugins;
pub mod shell;
pub mod sort;
pub mod strmap;
pub mod term;
pub mod table;
pub mod text;
pub mod zle;
