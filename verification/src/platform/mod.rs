//! What each desktop decides; its system calls are made elsewhere.
pub mod linux;
pub mod macos;
pub mod macos_clipboard;
pub mod macos_local_clipboard;
