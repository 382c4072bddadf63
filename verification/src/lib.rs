//! Verified core of a portable "websites as desktop apps" manager: the
//! persisted app/subspace configuration and its editing operations, the
//! window/webview naming scheme, per-window runtime state (tabs, locks,
//! background apps), site lookup and the small text and icon helpers these
//! rely on.
pub mod text;
pub mod layout;
pub mod models;
pub mod naming;
pub mod config;
pub mod ids;
pub mod groups;
pub mod reorder;
pub mod store;
pub mod keyed;
pub mod state;
pub mod remember;
pub mod site;
pub mod paths;
pub mod icons;
pub mod lock;
pub mod launch;
pub mod launchers;
pub mod views;
pub mod toasts;
pub mod info;
pub mod pages;
