pub mod text;
pub mod profile;
pub mod capture;
pub mod settings;
pub mod encoder;
pub mod latency;
pub mod adaptive;
pub mod ffmpeg;
pub mod stream;
pub mod gui;
pub mod host;
