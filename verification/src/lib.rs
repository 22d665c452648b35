//! Streams a screen capture to browsers: everything that the server decides and
//! computes.
pub mod app_state;
pub mod ffmpeg_encoder;
pub mod html;
pub mod log_buffer;
pub mod nal;
pub mod net;
pub mod pw_source;
pub mod routes;
pub mod rtp;
pub mod session;
pub mod signaling;
pub mod text;
