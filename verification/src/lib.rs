//! Verified protocol, firmware and rendering logic for the ROG X870E motherboard LCD panel.
pub mod catalog;
pub mod firmware;
pub mod flash;
pub mod hwmon;
pub mod imaging;
pub mod media;
pub mod netdev;
pub mod patches;
pub mod picture;
pub mod protocol;
pub mod renderer;
pub mod session;
pub mod stream;
pub mod text;

