//! Global hotkey bindings and the platform actions they trigger.

pub mod app_control;
pub mod combo;
pub mod hotkey;
pub mod hotkey_proofs;
pub mod manager;
pub mod platform;
pub mod settings;
pub mod text;
pub mod wifi;
