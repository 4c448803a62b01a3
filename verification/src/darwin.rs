//! The kernel audit token that identifies the peer of a Unix socket on macOS.
use vstd::prelude::*;

verus! {

/// The eight words of a Darwin `audit_token_t`.
#[allow(non_camel_case_types)]
#[derive(Debug, Clone, Copy)]
pub struct audit_token_t {
    pub val: [u32; 8],
}

} // verus!
