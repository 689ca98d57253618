//! The logic of a keyboard launcher.

pub mod about_window;
pub mod app;
pub mod config;
pub mod display;
pub mod fonts;
pub mod history;
pub mod hotkey;
pub mod i18n;
pub mod launch;
pub mod native_window;
pub mod plugin_api;
pub mod plugin_example;
pub mod search;
pub mod settings_window;
pub mod single_instance;
pub mod spike;
pub mod text;
pub mod text_input;
pub mod tools;
pub mod tray;
pub mod ui_chrome;
pub mod wide;
