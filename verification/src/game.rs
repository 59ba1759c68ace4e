pub mod capture;
pub mod gamescope_wayland;
pub mod live_window;
pub mod mangoapp;
pub mod steam;
