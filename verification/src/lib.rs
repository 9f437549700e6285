//! Voice dictation logic: what a held key, a microphone, a provider and a clipboard
//! may do to one another, stated as contracts and proved.
pub mod capture;
pub mod config;
pub mod dictation;
pub mod indicator;
pub mod insertion;
pub mod json;
pub mod local_clipboard;
pub mod local_delivery;
pub mod platform;
pub mod remote;
pub mod remote_clipboard;
pub mod remote_review;
pub mod resample;
pub mod space_hotkey;
pub mod streaming;
pub mod text;
pub mod transcript;
