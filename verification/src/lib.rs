//! Core logic of the nuphus desktop agent: proxy selection and bypass rules,
//! user preferences, and the session-level signal state.

pub mod text;
pub mod proxy;
pub mod proxy_laws;
pub mod state;
pub mod preferences;
