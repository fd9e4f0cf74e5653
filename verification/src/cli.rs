use vstd::prelude::*;

verus! {

/// The number of blocks walked when the command line names none.
pub const DEFAULT_LIMIT: usize = 10;

/// What the command line asks for.
#[derive(Clone, Debug, PartialEq, Eq)]
pub struct Cli {
    /// The address to analyse, as text.
    pub address: String,
    /// The number of latest blocks to walk.
    pub limit: usize,
}

impl Cli {
    /// The request for `address` with the given number of blocks, or with
    /// the default number when none is given.
    pub fn new(address: String, limit: Option<usize>) -> (r: Cli)
        ensures
            r.address == address,
            r.limit == match limit {
                Some(n) => n,
                None => DEFAULT_LIMIT,
            },
    {
        let limit = match limit {
            Some(n) => n,
            None => DEFAULT_LIMIT,
        };
        Cli { address, limit }
    }
}

} // verus!
