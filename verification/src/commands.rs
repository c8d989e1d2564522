//! Operator key-management command selection.

use vstd::prelude::*;

verus! {

/// Which family of delegate keys an operator key command addresses: the
/// destination-chain account keys or the external-chain signing keys.
#[derive(Clone, Copy, Debug, PartialEq, Eq, Structural)]
pub enum KeysCmd {
    CosmosKeysCmd,
    EthKeysCmd,
}

} // verus!
