use vstd::prelude::*;

use crate::error::ConfigError;

verus! {

/// Validates the root drawable id that the display server handed back when
/// the connection was opened: the server's sentinel for "no window" is zero,
/// and a run must not proceed on it.
pub fn check_root_window(root: u64) -> (result: Result<u64, ConfigError>)
    ensures
        match result {
            Ok(r) => root != 0 && r == root,
            Err(e) => e == ConfigError::Other && root == 0,
        },
{
    if root == 0 {
        Err(ConfigError::Other)
    } else {
        Ok(root)
    }
}

} // verus!
