//! Mochi: memory, skills, tools and pet logic of a local-first terminal companion.
pub mod agent;
pub mod cli;
pub mod commands;
pub mod llama_server;
pub mod memory;
pub mod memory_capture;
pub mod memory_judge;
pub mod memory_query;
pub mod memory_laws;
pub mod pet;
pub mod repl;
pub mod session;
pub mod skills;
pub mod slash;
pub mod text;
pub mod tokens;
pub mod tools;
