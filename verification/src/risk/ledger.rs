//! Shared session-owned cached views for HVWS risk contracts.
//!
//! A slot owns a byte store; staging copies bytes into it and cuts a
//! view over the whole store, recording its length and the slot's
//! generation. Rebuilding compacts the store but leaves the view's
//! record as it was, so a view can outlast the bytes it was cut over.

use vstd::prelude::*;

verus! {

/// What a slot holds.
pub struct SlotView {
    pub storage: Seq<u8>,
    pub has_view: bool,
    pub len: usize,
    pub generation: u32,
    pub view_generation: u32,
}

/// One cached-view slot.
#[derive(Clone, Debug)]
pub struct RiskViewSlot {
    pub storage: Vec<u8>,
    /// Whether a view has been cut over the store.
    pub has_view: bool,
    /// The length the view was cut with.
    pub len: usize,
    pub generation: u32,
    pub view_generation: u32,
}

impl View for RiskViewSlot {
    type V = SlotView;

    open spec fn view(&self) -> SlotView {
        SlotView {
            storage: self.storage@,
            has_view: self.has_view,
            len: self.len,
            generation: self.generation,
            view_generation: self.view_generation,
        }
    }
}

/// An empty slot with no view.
pub open spec fn empty_slot() -> SlotView {
    SlotView { storage: Seq::empty(), has_view: false, len: 0, generation: 0, view_generation: 0 }
}

impl Default for RiskViewSlot {
    fn default() -> (r: Self)
        ensures
            r@ == empty_slot(),
    {
        Self { storage: Vec::new(), has_view: false, len: 0, generation: 0, view_generation: 0 }
    }
}

/// The slots of a session.
pub struct RiskSessionState {
    pub slots: Vec<RiskViewSlot>,
}

impl View for RiskSessionState {
    type V = Seq<SlotView>;

    open spec fn view(&self) -> Seq<SlotView> {
        self.slots@.map_values(|s: RiskViewSlot| s@)
    }
}

impl Default for RiskSessionState {
    /// Eight empty slots, one for each view kind.
    fn default() -> (r: Self)
        ensures
            r@ == Seq::new(8, |i: int| empty_slot()),
            r.slots@.len() == 8,
    {
        let mut slots: Vec<RiskViewSlot> = Vec::new();
        let mut i: usize = 0;
        while i < 8
            invariant
                i <= 8,
                slots@.len() == i,
                forall|j: int| 0 <= j < i ==> #[trigger] slots@[j]@ == empty_slot(),
            decreases 8 - i,
        {
            slots.push(RiskViewSlot::default());
            i += 1;
        }
        let r = Self { slots };
        assert(r@ =~= Seq::new(8, |i: int| empty_slot()));
        r
    }
}

} // verus!
