//! Logic of the application's pages.
pub mod connecting;
pub mod home;
pub mod session_panel;
pub mod terminal_view;
