//! Settings, configuration formats and decisions for a handheld game launcher.
pub mod backlight;
pub mod config_map;
pub mod cpu;
pub mod daemon;
pub mod display_menu;
pub mod display_settings;
pub mod framebuffer;
pub mod game_info;
pub mod input;
pub mod menu;
pub mod number;
pub mod osd;
pub mod override_menu;
pub mod ota;
pub mod performance;
pub mod power;
pub mod power_menu;
pub mod retroarch_config;
pub mod retroarch_options;
pub mod state_file;
pub mod text;
pub mod wifi;
