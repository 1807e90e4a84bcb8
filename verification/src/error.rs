use vstd::prelude::*;

verus! {

/// The failure kinds of a configuration run. Every failure aborts the whole
/// run; there is no local recovery and no retry.
#[derive(Clone, Copy, Debug, PartialEq, Eq, Structural)]
pub enum ConfigError {
    /// The display server is unreachable, or a query for the root surface's
    /// resources, snapshot or raw refresh-rate list came back null or empty.
    NotFound,
    /// The root surface resolved to the sentinel "no window" id, or a native
    /// width/height did not fit in an unsigned 32-bit value.
    Other,
    /// A mode descriptor was requested at an index beyond the catalog's
    /// reported count.
    InvalidInput,
    /// More size-matching mode descriptors than raw refresh-rate values: the
    /// two server lists are not in the assumed one-to-one correspondence.
    InvalidData,
    /// The resolution catalog enumerated zero usable sizes.
    Unsupported,
}

} // verus!
