//! The decisions and texts of the tool's commands; the commands themselves,
//! which read files and start processes, stand around these.

pub mod stats;
pub mod on;
pub mod new;
pub mod edit;
pub mod off;
pub mod list;
pub mod aliases;
pub mod update;
pub mod matrix;
pub mod delete;
