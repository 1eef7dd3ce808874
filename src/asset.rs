//! What an asset declares about itself, and what decodes it.
use vstd::prelude::*;

verus! {

/// Names a kind of loader, for diagnostics.
pub trait AssetLoaderKind {
    /// Human-readable name of the loader kind.
    fn loader_kind() -> &'static str;
}

/// Decodes assets of type `A` from raw bytes. `F` carries what the decoding
/// needs besides the bytes (options, a layout). A loader that decodes
/// several asset types or formats implements this once for each pair.
pub trait AssetLoader<A, F>: AssetLoaderKind {
    /// Error reported when the bytes cannot be decoded.
    type Error;

    /// What the loader, as it stands, decodes from `data` with `format`.
    /// Implementations state it; nothing is known of it otherwise.
    closed spec fn decodes(&self, format: F, data: Seq<u8>) -> Result<A, Self::Error> {
        arbitrary()
    }

    /// Decodes `data` with `format`. The loader is borrowed exclusively, so
    /// it may hold and use mutable decoding resources.
    fn load(&mut self, format: F, data: &[u8]) -> (r: Result<A, Self::Error>)
        ensures
            r == old(self).decodes(format, data@),
    ;
}

/// A type that can be loaded as an asset.
pub trait Asset: Sized {
    /// The loader that decodes this asset type.
    type Loader;

    /// The kind name that `kind` returns. Implementations state it;
    /// nothing is known of it otherwise.
    closed spec fn kind_spec() -> &'static str {
        arbitrary()
    }

    /// Human-readable name of the asset kind, for diagnostics.
    fn kind() -> (r: &'static str)
        ensures
            r == Self::kind_spec(),
    ;
}

} // verus!
