use vstd::prelude::*;

verus! {

/// The point in time against which a deadline is evaluated: the height and
/// time of the current block, as handed over by the chain's runtime.
#[derive(Clone, Debug, PartialEq, Eq)]
pub struct BlockInfo {
    /// Height of the block.
    pub height: u64,
    /// Time of the block, in seconds since the UNIX epoch.
    pub time: u64,
    /// Identifier of the chain the block belongs to.
    pub chain_id: String,
}

} // verus!
