//! Progflow: a workspace manager that bundles an editor command, background
//! services and web resources into named "flows".  This crate holds the
//! verified core: the flow configuration model and its validation, the paths
//! where flows live, the decisions made when a flow is started or stopped,
//! and the text the tool shows.

pub mod text;
pub mod error;
pub mod config;
pub mod paths;
pub mod listing;
pub mod clock;
pub mod commands;
pub mod platform;
pub mod tips;
pub mod json;
