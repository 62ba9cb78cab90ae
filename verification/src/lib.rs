//! Verified core of a web front for smart-home devices.

pub mod answers;
pub mod answers_laws;
pub mod cache;
pub mod catalog;
pub mod charts;
pub mod config;
pub mod config_laws;
pub mod control;
pub mod control_laws;
pub mod dict;
pub mod graph;
pub mod graph_laws;
pub mod groups;
pub mod health;
pub mod health_laws;
pub mod json;
pub mod json_laws;
pub mod listener;
pub mod listing;
pub mod mesh;
pub mod mesh_job;
pub mod mesh_laws;
pub mod model_laws;
pub mod push;
pub mod push_laws;
pub mod reply;
pub mod reply_laws;
pub mod run_laws;
pub mod shape;
pub mod state;
pub mod state_laws;
pub mod status;
pub mod subprocess;
pub mod text;
pub mod text_laws;
pub mod validate;
pub mod validate_laws;
pub mod view_laws;
pub mod wire;
