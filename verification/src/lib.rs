//! The decisions and the words of a desktop film downloader, verified.

pub mod chase;
pub mod checks;
pub mod desktop_entry;
pub mod disk;
pub mod finishing;
pub mod json;
pub mod library;
pub mod log;
pub mod messages;
pub mod orchestrator;
pub mod paths;
pub mod progress;
pub mod settings_file;
pub mod starting;
pub mod supervisor;
pub mod std_calls;
pub mod text;
pub mod updater;
pub mod words;
