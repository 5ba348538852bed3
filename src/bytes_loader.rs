//! A loader for assets that are plain bytes.

use std::sync::Arc;

use vstd::prelude::*;
use vstd::slice::slice_to_vec;

use crate::handle::Handle;

verus! {

/// Loads an asset as the bytes it holds, unchanged.
#[derive(Clone, Debug)]
pub struct BytesLoader {}

impl BytesLoader {
    /// Creates a loader.
    pub fn new() -> (r: Self) {
        BytesLoader {}
    }

    /// Turns the bytes read for asset `_handle` into the loader's
    /// intermediate form: a copy of them.
    pub fn load(&self, _handle: Handle, bytes: &[u8]) -> (r: Vec<u8>)
        ensures
            r@ == bytes@,
    {
        slice_to_vec(bytes)
    }

    /// Turns the intermediate form into the shared resource.
    pub fn create(&self, _handle: Handle, item: Vec<u8>) -> (r: Arc<Vec<u8>>)
        ensures
            *r == item,
    {
        Arc::new(item)
    }
}

} // verus!
