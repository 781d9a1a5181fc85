//! Installing community localizations into Tanks Blitz: finding game
//! installations, choosing and obtaining language packages, copying their
//! files with backups, recording what was installed, and undoing it.
pub mod text;
pub mod version;
pub mod digest;
pub mod xml;
pub mod paths;
pub mod backups;
pub mod instance;
pub mod model;
pub mod install;
pub mod install_flow;
pub mod download;
pub mod download_flow;
pub mod settings;
