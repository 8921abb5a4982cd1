pub mod layout;
pub mod input_layout;
pub mod history;
pub mod scroll_data;
pub mod ansi;
pub mod top_area;
pub mod user_interface;
pub mod window;
pub mod input_rows;
pub mod headless_screen;
pub mod command;
pub mod split_screen;
pub mod reader_screen;
pub mod help_handler;
pub mod scroll_view;
pub mod status_area;
pub mod top_render;
