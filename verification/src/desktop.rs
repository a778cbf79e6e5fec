//! The logic of the desktop application: archive selection and format
//! choices, message catalogs, password answers and preferences.

pub mod archive;
pub mod browser;
pub mod controls;
pub mod i18n;
pub mod password;
pub mod settings;
pub mod state;
pub mod workspace;
