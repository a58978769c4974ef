//! Operating-system adapters behind contracts owned by the inner layers.

use vstd::prelude::*;

use crate::path::NativePath;
use crate::trash::{TrashBackend, TrashBackendError};

verus! {

/// The trash adapter for platforms without system trash integration, which
/// are all but macOS: it answers every request as unsupported and touches
/// nothing. Like every trash backend, it offers no permanent delete.
#[derive(Clone, Copy, Debug, Default)]
pub struct SystemTrashAdapter;

impl TrashBackend for SystemTrashAdapter {
    fn move_to_trash(&self, path: &NativePath) -> (result: Result<(), TrashBackendError>)
        ensures
            result == Err::<(), TrashBackendError>(TrashBackendError::Unsupported),
    {
        Err(TrashBackendError::Unsupported)
    }
}

} // verus!
