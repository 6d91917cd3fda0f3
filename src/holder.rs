use std::sync::Arc;
use vstd::prelude::*;

verus! {

/// The table's state for one slot.
pub struct AssetHolder<P> {
    /// Current payload, shared with every reader that fetched it.
    pub data: Arc<P>,
    /// Strong handles that the table has been told of; at least 1 while the slot lives.
    pub ref_count: u64,
    /// Number of payload replacements, modulo 2^32.
    pub version: u32,
    /// Set when a dependent system asked for derived state to be rebuilt.
    pub needs_rebuild: bool,
}

impl<P> AssetHolder<P> {
    /// A slot just created for one strong handle.
    pub open spec fn fresh(data: Arc<P>) -> Self {
        AssetHolder { data, ref_count: 1, version: 0, needs_rebuild: false }
    }

    /// The slot after one more strong handle was reported (saturating).
    pub open spec fn counted_up(self) -> Self {
        AssetHolder {
            ref_count: if self.ref_count < u64::MAX { (self.ref_count + 1) as u64 } else { self.ref_count },
            ..self
        }
    }

    /// The slot after one strong handle was reported gone (never below zero).
    pub open spec fn counted_down(self) -> Self {
        AssetHolder {
            ref_count: if self.ref_count > 0 { (self.ref_count - 1) as u64 } else { 0 },
            ..self
        }
    }

    /// The version that follows `v`, wrapping at the top of `u32`.
    pub open spec fn next_version(v: u32) -> u32 {
        if v == u32::MAX { 0 } else { (v + 1) as u32 }
    }

    /// The slot after its payload was replaced by `data`.
    pub open spec fn replaced(self, data: Arc<P>) -> Self {
        AssetHolder { data, version: Self::next_version(self.version), ..self }
    }

    /// The slot with its rebuild flag set to `flag`.
    pub open spec fn flagged(self, flag: bool) -> Self {
        AssetHolder { needs_rebuild: flag, ..self }
    }

    pub fn new(data: Arc<P>) -> (r: Self)
        ensures
            r == Self::fresh(data),
    {
        AssetHolder { data, ref_count: 1, version: 0, needs_rebuild: false }
    }

    pub fn inc_counter(&mut self)
        ensures
            *final(self) == old(self).counted_up(),
    {
        if self.ref_count < u64::MAX {
            self.ref_count = self.ref_count + 1;
        }
    }

    pub fn dec_counter(&mut self)
        ensures
            *final(self) == old(self).counted_down(),
    {
        if self.ref_count > 0 {
            self.ref_count = self.ref_count - 1;
        }
    }

    pub fn update_data(&mut self, data: Arc<P>)
        ensures
            *final(self) == old(self).replaced(data),
    {
        self.data = data;
        self.version = if self.version == u32::MAX { 0 } else { self.version + 1 };
    }

    pub fn set_rebuild(&mut self, flag: bool)
        ensures
            *final(self) == old(self).flagged(flag),
    {
        self.needs_rebuild = flag;
    }

    pub fn get(&self) -> (r: &Arc<P>)
        ensures
            *r == self.data,
    {
        &self.data
    }

    pub fn get_version(&self) -> (r: u32)
        ensures
            r == self.version,
    {
        self.version
    }
}

} // verus!
