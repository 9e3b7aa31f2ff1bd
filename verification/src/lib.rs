//! Verified core of a small AI-agent runtime and the `depbot` helpers built on it.
pub mod agent;
pub mod depbot_config;
pub mod doctor;
pub mod fs_tools;
pub mod llm;
pub mod observe;
pub mod openai;
pub mod paths;
pub mod shell_tools;
pub mod skills;
pub mod text;
pub mod tools;
pub mod wire;
