//! Window and workspace state of the niri compositor, rebuilt from its IPC event stream.

pub mod model;
pub mod id_map;
pub mod niri;
pub mod stream;
pub mod laws;
pub mod launcher;
pub mod outputs;
