//! The decision-making core of the tablero status bar.

pub mod bars;
pub mod blit;
pub mod command;
pub mod config;
pub mod config_reload;
pub mod face;
pub mod fixed;
pub mod hypridle;
pub mod icon;
pub mod indexed;
pub mod input;
pub mod message;
pub mod networkmanager;
pub mod notifications;
pub mod number;
pub mod order;
pub mod outputs;
pub mod performance;
pub mod pointer;
pub mod popup;
pub mod power_profiles;
pub mod probe;
pub mod redraw;
pub mod render;
pub mod row;
pub mod scale;
pub mod shell;
pub mod sni;
pub mod sources;
pub mod surface;
pub mod table;
pub mod template;
pub mod text;
pub mod time;
pub mod tray;
pub mod upower;
pub mod volume;
pub mod widget;
