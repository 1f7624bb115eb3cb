pub mod config;
pub mod media;
pub mod ndi;
pub mod text;
pub mod ui;
