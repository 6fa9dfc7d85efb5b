//! Brightness control and output enumeration over the text printed by the
//! `xrandr` display-configuration tool.
//!
//! The caller runs the tool and hands each operation what came back: either
//! the reason the process could not be started, or its exit status and the
//! text of its two output streams. The operations decide what that means.

pub mod text;
pub mod process;
pub mod outputs;
pub mod brightness;
