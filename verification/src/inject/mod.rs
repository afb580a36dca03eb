//! The code that is injected into zygotes.

pub mod companion;
pub mod elf;
pub mod fd;
pub mod hook_context;
pub mod hooks;
pub mod ipc;
pub mod jni_env;
pub mod memory;
pub mod module;
pub mod module_api;
pub mod platform;
pub mod plt;
pub mod solist;
pub mod unload;
