//! toolmind: the decision core of a tool-using terminal agent.

pub mod agent;
pub mod ask;
pub mod bytes;
pub mod chain;
pub mod codec;
pub mod command;
pub mod config;
pub mod extract;
pub mod files;
pub mod gh;
pub mod git;
pub mod gui;
pub mod host;
pub mod journal;
pub mod json;
pub mod numbers;
pub mod order;
pub mod panel;
pub mod paths;
pub mod plan;
pub mod playbook;
pub mod prompt;
pub mod registry;
pub mod reply;
pub mod retry;
pub mod split;
pub mod stream;
pub mod text;
pub mod thinking;
pub mod tools;
pub mod vision;
pub mod websocket;
