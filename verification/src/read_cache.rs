//! Flags of the index (`read-cache-ll.h`).
use vstd::prelude::*;

verus! {

/// Flag of `write_locked_index`: commit the lock file after writing.
pub const COMMIT_LOCK: u32 = 1;

/// The `ADD_CACHE_*` options of `add_index_entry`.
#[derive(Debug, Clone, Copy, PartialEq, Eq, Structural)]
pub enum AddCache {
    /// Ok to add
    OkToAdd,
    /// Ok to replace file/directory
    OkToReplace,
    /// Ok to skip DF conflict checks
    SkipDFCheck,
    /// Append only
    JustAppend,
    /// Do not replace existing ones
    NewOnly,
    /// Do not invalidate cache-tree
    KeepCacheTree,
    /// Pass along HASH_RENORMALIZE
    Renormalize,
}

impl AddCache {
    /// The bit that stands for this option.
    pub open spec fn spec_value(self) -> i32 {
        match self {
            AddCache::OkToAdd => 1,
            AddCache::OkToReplace => 2,
            AddCache::SkipDFCheck => 4,
            AddCache::JustAppend => 8,
            AddCache::NewOnly => 16,
            AddCache::KeepCacheTree => 32,
            AddCache::Renormalize => 64,
        }
    }

    /// The bit that stands for this option.
    pub fn value(&self) -> (v: i32)
        ensures
            v == self.spec_value(),
    {
        match self {
            AddCache::OkToAdd => 1,
            AddCache::OkToReplace => 2,
            AddCache::SkipDFCheck => 4,
            AddCache::JustAppend => 8,
            AddCache::NewOnly => 16,
            AddCache::KeepCacheTree => 32,
            AddCache::Renormalize => 64,
        }
    }
}

/// Each option is a distinct single bit, so options combine by `|` without
/// overlapping.
pub proof fn lemma_add_cache_single_bits(a: AddCache, b: AddCache)
    ensures
        a.spec_value() > 0,
        a.spec_value() & ((a.spec_value() - 1) as i32) == 0,
        a != b ==> a.spec_value() & b.spec_value() == 0,
{
    let x = a.spec_value();
    let y = b.spec_value();
    assert(x & ((x - 1) as i32) == 0) by (bit_vector)
        requires
            x == 1 || x == 2 || x == 4 || x == 8 || x == 16 || x == 32 || x == 64,
    ;
    if a != b {
        assert(x & y == 0) by (bit_vector)
            requires
                x == 1 || x == 2 || x == 4 || x == 8 || x == 16 || x == 32 || x == 64,
                y == 1 || y == 2 || y == 4 || y == 8 || y == 16 || y == 32 || y == 64,
                x != y,
        ;
    }
}

} // verus!
