//! Verified core of the Kotlin language support for the Zed editor and of its
//! companion stdio proxy.

pub mod text;
pub mod sidecar;
pub mod dap;
pub mod platform;
pub mod install;
pub mod lsp;
pub mod proxy;
pub mod kotlin;
pub mod forward;
