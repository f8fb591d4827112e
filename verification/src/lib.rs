pub mod text;
pub mod json;
pub mod config;
pub mod widgets;
pub mod desktop;
pub mod bluetooth;
pub mod tray;
pub mod sort;
pub mod windows;
pub mod workspaces;
pub mod categories;
pub mod actions;
pub mod launcher;
pub mod greeter;
pub mod sysmon;
pub mod netspeed;
pub mod readings;
pub mod settings;
pub mod icons;
pub mod settings_file;
pub mod pages;
