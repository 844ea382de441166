//! The same bridge entry points on systems other than Windows, where each
//! reports that the feature is unavailable or does nothing.
pub mod appbar;
pub mod apps;
pub mod audio;
pub mod display;
pub mod frame;
pub mod panel;
pub mod virtual_desktop;
pub mod wifi;
pub mod windows_list;
