pub mod text;
pub mod web_view;
pub mod callbacks;
pub mod xaml_events;
pub mod children;
pub mod select;
pub mod menu;
pub mod drag_drop;
pub mod file_picker;
pub mod xaml_app;
pub mod build_support;
pub mod tray_icon;
pub mod material;
pub mod navigation;
pub mod web_view_state;
