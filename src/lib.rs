//! First-run installation and resource location for the desktop shell: where
//! the resource bundle lives, how it is completed, and when the application
//! relocates itself to its canonical install root.
pub mod bundle;
pub mod fsmodel;
pub mod materialize;
pub mod materialize_laws;
pub mod orchestrator;
pub mod path;
pub mod platform;
pub mod relocation_laws;
pub mod resolver;
pub mod script;
