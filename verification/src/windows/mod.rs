//! Logic behind the Windows bridges of the shell.
pub mod app_icons;
pub mod appbar;
pub mod apps;
pub mod audio;
pub mod bluetooth;
pub mod brightness;
pub mod desktop_presentation;
pub mod display;
pub mod frame;
pub mod frame_overlay;
pub mod frame_recovery;
pub mod handle_map;
pub mod hotkeys;
pub mod input;
pub mod panel;
pub mod power;
pub mod radio_pause;
pub mod screenshot;
pub mod thumbnails;
pub mod virtual_desktop;
pub mod wifi;
pub mod window_events;
pub mod windows_list;
