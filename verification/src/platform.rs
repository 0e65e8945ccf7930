//! The host platform as the extension sees it.

use vstd::prelude::*;

verus! {

/// An operating system.
#[derive(Clone, Copy, Debug, PartialEq, Eq, Structural)]
pub enum Os {
    /// macOS.
    Mac,
    /// Linux.
    Linux,
    /// Windows.
    Windows,
}

/// A platform architecture.
#[derive(Clone, Copy, Debug, PartialEq, Eq, Structural)]
pub enum Architecture {
    /// AArch64 (e.g., Apple Silicon).
    Aarch64,
    /// x86.
    X86,
    /// x86-64.
    X8664,
}

/// The archive format of a downloaded file.
#[derive(Clone, Copy, Debug, PartialEq, Eq, Structural)]
pub enum DownloadedFileType {
    /// A gzipped file (`.gz`).
    Gzip,
    /// A gzipped tar archive (`.tar.gz`).
    GzipTar,
    /// A ZIP file (`.zip`).
    Zip,
    /// An uncompressed file.
    Uncompressed,
}

} // verus!
