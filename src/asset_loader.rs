//! The loader capability: decoding a file into an asset.
use vstd::prelude::*;

use crate::Asset;

verus! {

#[verifier::external_type_specification]
#[verifier::external_body]
pub struct ExAnyhowError(anyhow::Error);

/// Decodes files into assets of type `A`, borrowing what it needs from the
/// application context `C`.
///
/// Loaders are implemented by users of the library; a storage consults them
/// in the order they were registered and uses the first whose extension list
/// holds the extension of the requested file.
pub trait AssetLoader<A: Asset, C>: Send + Sync + 'static {
    /// Decodes the file at `path`.
    fn load_path(&self, context: &C, path: &str) -> Result<A, anyhow::Error>;

    /// The file extensions, without the leading dot, that this loader reads.
    fn extensions(&self) -> &[&str];
}

} // verus!
