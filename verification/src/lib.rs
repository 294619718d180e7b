//! A dotfiles synchronizer core: tracked-file registry, symmetric
//! encryption with a mnemonic-derived key, path normalization, and the
//! six-step bidirectional sync protocol, all with verified contracts.

use vstd::prelude::*;

pub mod config;
pub mod crypto;
pub mod mackup;
pub mod paths;
pub mod protocol;
pub mod stubdb;
pub mod sync;
pub mod text;

verus! {

/// Byte-exact comparison of two contents.
pub fn bytes_equal(a: &Vec<u8>, b: &Vec<u8>) -> (r: bool)
    ensures
        r == (a@ == b@),
{
    if a.len() != b.len() {
        assert(a@ != b@);
        return false;
    }
    let mut i: usize = 0;
    while i < a.len()
        invariant
            i <= a.len(),
            a@.len() == b@.len(),
            forall|j: int| 0 <= j < i ==> a@[j] == b@[j],
        decreases a.len() - i,
    {
        if a[i] != b[i] {
            return false;
        }
        i += 1;
    }
    assert(a@ =~= b@);
    true
}

} // verus!
