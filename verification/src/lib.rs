//! The verified engine of the ccomidi plugin, which turns rows of settings into
//! MIDI Control Change and Program Change events.
//!
//! - [`command`], [`encode`]: what a row can be set to, and the messages that it
//!   stands for.
//! - [`model`], [`sender`], [`sender_laws`], [`receiver_laws`]: the engine that decides what to
//!   emit, its mathematical model, and what it promises.
//! - [`params`], [`plugin`]: the parameter values, and what happens in one audio
//!   block.
//! - [`voicegroup`], [`instrument`], [`state_path`], [`editor`]: the voicegroup
//!   state file, the instruments in it, where to look for it, and the state of
//!   the editor window.
//! - [`install`]: the decisions of the command that installs the plugin.
//! - [`text`]: small text operations.

pub mod command;
pub mod editor;
pub mod encode;
pub mod install;
pub mod instrument;
pub mod model;
pub mod params;
pub mod plugin;
pub mod receiver_laws;
pub mod sender;
pub mod sender_laws;
pub mod state_path;
pub mod text;
pub mod voicegroup;
