//! The responses to requests for blocks that are kept: under which key, and how much each weighs.
use vstd::prelude::*;

verus! {

/// What a response depends on.
#[derive(Clone, Debug, Hash, PartialEq, Eq, Structural)]
pub struct BlockResponseCacheKey {
    pub slot: u64,
    pub encoding: u8,
    pub transaction_details: u8,
    pub show_rewards: bool,
    pub max_supported_transaction_version: Option<u8>,
}

/// Whether responses are kept at all: not where no bytes are allowed for them.
pub fn enabled(max_bytes: u64) -> (r: bool)
    ensures
        r == (max_bytes > 0),
{
    max_bytes > 0
}

/// What a response weighs: its bytes, as far as they can be counted.
pub fn response_weight(len: usize) -> (r: u32)
    ensures
        r == (if len <= u32::MAX {
            len as int
        } else {
            u32::MAX as int
        }),
{
    if len <= u32::MAX as usize {
        len as u32
    } else {
        u32::MAX
    }
}

/// How a request for a kept response came out.
#[derive(Clone, Copy, Debug, PartialEq, Eq, Structural)]
pub enum CacheAccess {
    /// The response was kept.
    Hit,
    /// It was not.
    Miss,
    /// It was made by this request.
    Insert,
    /// Another request made it at the same time.
    Coalesced,
}

impl CacheAccess {
    /// How a lookup came out.
    pub fn of_lookup(found: bool) -> (r: CacheAccess)
        ensures
            r == (if found {
                CacheAccess::Hit
            } else {
                CacheAccess::Miss
            }),
    {
        if found {
            CacheAccess::Hit
        } else {
            CacheAccess::Miss
        }
    }

    /// How a request came out that makes the response where it is not kept.
    pub fn of_insert(evaluated: bool) -> (r: CacheAccess)
        ensures
            r == (if evaluated {
                CacheAccess::Insert
            } else {
                CacheAccess::Coalesced
            }),
    {
        if evaluated {
            CacheAccess::Insert
        } else {
            CacheAccess::Coalesced
        }
    }

    /// The name under which it is counted.
    pub fn label(self) -> (r: &'static str)
        ensures
            r@ == (match self {
                CacheAccess::Hit => "hit"@,
                CacheAccess::Miss => "miss"@,
                CacheAccess::Insert => "insert"@,
                CacheAccess::Coalesced => "coalesced"@,
            }),
    {
        match self {
            CacheAccess::Hit => "hit",
            CacheAccess::Miss => "miss",
            CacheAccess::Insert => "insert",
            CacheAccess::Coalesced => "coalesced",
        }
    }
}

} // verus!
