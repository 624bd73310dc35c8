//! Verified decision core of the Kennedy conversation orchestrator.

pub mod text;
pub mod json;
pub mod ids;
pub mod arguments;
pub mod plan;
pub mod media;
pub mod delivery;
pub mod transcript;
pub mod input;
pub mod clock;
pub mod prompts;
pub mod render;
pub mod order;
pub mod json_text;
pub mod session;
pub mod digest;
pub mod agent_loop;
pub mod objects;
pub mod box_texts;
pub mod tools;
pub mod groups;
pub mod turns;
pub mod subagents;
pub mod snapshot;
pub mod errors;
pub mod records;
pub mod scheduling;
pub mod commands;
pub mod launch;
pub mod telegram;
pub mod replies;
pub mod group_context;
pub mod providers;
pub mod responses;
pub mod registry;
pub mod libraries;
pub mod services;
pub mod sources;
pub mod uploads;
pub mod operations;
pub mod provider_turns;
pub mod freeform;
pub mod context;
pub mod generated;
