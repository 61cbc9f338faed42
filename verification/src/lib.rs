//! Text-correction core: prompt assembly, output cleaning, word diffs,
//! settings normalisation and the decisions around a correction request.

pub mod text;
pub mod postprocess;
pub mod diff;
pub mod fix;
pub mod language;
pub mod persona;
pub mod speed;
pub mod provider;
pub mod prompt;
pub mod capabilities;
pub mod platform;
pub mod providers;
pub mod history;
pub mod settings;
pub mod errors;
pub mod commands;
pub mod feedback;
pub mod updates;
pub mod flow;
pub mod logging;
pub mod paths;
