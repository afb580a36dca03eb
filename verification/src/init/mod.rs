//! Taking the place of `init`.

pub mod boot;
pub mod env_detect;
