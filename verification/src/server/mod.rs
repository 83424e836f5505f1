//! The server: model slots, sessions, and what its routes decide.
pub mod answer_laws;
pub mod download;
pub mod error;
pub mod extract;
pub mod extract_run;
pub mod hf;
pub mod insert;
pub mod jobs;
pub mod laws;
pub mod lql;
pub mod lql_session;
pub mod progress;
pub mod route_laws;
pub mod slot;
pub mod state_laws;
pub mod vindexes;
