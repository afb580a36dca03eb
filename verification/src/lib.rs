//! Verified decision logic of a systemless root daemon for Android.

pub mod bootstages;
pub mod bytes;
pub mod daemon;
pub mod init;
pub mod inject;
pub mod mount;
pub mod num;
pub mod text;
pub mod zygisk;
