//! The most recent prices of one asset, kept in a ring of 60 slots.

use vstd::prelude::*;

verus! {

/// Number of prices that the ring keeps.
pub const MAX_HISTORY_SLOTS: u32 = 60;

/// The last prices of one asset. Its view is the sequence of the prices it
/// still holds, oldest first.
#[derive(Debug)]
pub struct PriceHistory {
    /// The slots written so far, at most 60.
    pub slots: Vec<i128>,
    /// The slot that the next price goes to.
    pub head: u32,
}

/// The last `limit` items of `items`, or all of them if there are fewer.
pub open spec fn keep_last(items: Seq<i128>, limit: int) -> Seq<i128> {
    if items.len() > limit {
        items.subrange(items.len() - limit, items.len() as int)
    } else {
        items
    }
}

impl View for PriceHistory {
    type V = Seq<i128>;

    open spec fn view(&self) -> Seq<i128> {
        Seq::new(self.slots@.len(), |k: int| self.slots@[(self.oldest() + k) % 60])
    }
}

impl PriceHistory {
    /// The slot of the oldest price: the head once the ring is full, slot 0
    /// before.
    pub open spec fn oldest(&self) -> int {
        if self.slots@.len() == MAX_HISTORY_SLOTS {
            self.head as int
        } else {
            0
        }
    }

    /// The ring holds at most 60 prices and the head is the slot after the
    /// newest price.
    pub open spec fn wf(&self) -> bool {
        &&& self.slots@.len() <= MAX_HISTORY_SLOTS
        &&& self.head < MAX_HISTORY_SLOTS
        &&& self.slots@.len() < MAX_HISTORY_SLOTS ==> self.head == self.slots@.len()
    }

    /// A history without prices.
    pub fn new() -> (history: PriceHistory)
        ensures
            history.wf(),
            history@ == Seq::<i128>::empty(),
    {
        let history = PriceHistory { slots: Vec::new(), head: 0 };
        assert(history@ =~= Seq::<i128>::empty());
        history
    }

    /// Whether the ring holds at most 60 prices and the head is the slot
    /// after the newest price.
    pub fn is_well_formed(&self) -> (r: bool)
        ensures
            r == self.wf(),
    {
        let len = self.slots.len();
        len <= MAX_HISTORY_SLOTS as usize && self.head < MAX_HISTORY_SLOTS && (len
            == MAX_HISTORY_SLOTS as usize || self.head as usize == len)
    }

    /// Number of prices held.
    pub fn len(&self) -> (n: u32)
        requires
            self.wf(),
        ensures
            n == self@.len(),
    {
        self.slots.len() as u32
    }

    /// Records a price. Once 60 prices are held, the oldest one makes room.
    pub fn record_price(&mut self, price: i128)
        requires
            old(self).wf(),
        ensures
            final(self).wf(),
            final(self)@ == keep_last(old(self)@.push(price), MAX_HISTORY_SLOTS as int),
    {
        let slot = (self.head % MAX_HISTORY_SLOTS) as usize;
        if self.slots.len() < MAX_HISTORY_SLOTS as usize {
            self.slots.push(price);
        } else {
            self.slots.set(slot, price);
        }
        self.head = (self.head + 1) % MAX_HISTORY_SLOTS;
        proof {
            let before = old(self)@;
            let after = keep_last(before.push(price), 60);
            assert(self@.len() == after.len());
            assert forall|k: int| 0 <= k < after.len() implies self@[k] == after[k] by {
                if old(self).slots@.len() < 60 {
                    if k < before.len() {
                        assert(before[k] == old(self).slots@[k]);
                    }
                } else {
                    let h = old(self).head as int;
                    if k < 59 {
                        assert(after[k] == before[k + 1]);
                        assert(before[k + 1] == old(self).slots@[(h + k + 1) % 60]);
                        assert(((h + 1) % 60 + k) % 60 == (h + k + 1) % 60);
                        assert((h + k + 1) % 60 != h);
                    } else {
                        assert(((h + 1) % 60 + 59) % 60 == h);
                    }
                }
            }
            assert(self@ =~= after);
        }
    }

    /// Up to `max_slots` of the most recent prices, oldest first.
    pub fn get_price_history(&self, max_slots: u32) -> (prices: Vec<i128>)
        requires
            self.wf(),
        ensures
            prices@ == keep_last(self@, max_slots as int),
    {
        let len = self.slots.len() as u32;
        let mut prices: Vec<i128> = Vec::new();
        if len == 0 {
            assert(self@ =~= Seq::<i128>::empty());
            return prices;
        }
        let actual = if len < max_slots {
            len
        } else {
            max_slots
        };
        let start_slot = if len == MAX_HISTORY_SLOTS {
            self.head % MAX_HISTORY_SLOTS
        } else {
            0
        };
        let skipped = len - actual;
        let mut i: u32 = 0;
        while i < actual
            invariant
                self.wf(),
                len == self.slots@.len(),
                0 < len,
                actual <= len,
                skipped == len - actual,
                start_slot == self.oldest(),
                i <= actual,
                prices@.len() == i,
                forall|k: int| 0 <= k < i ==> prices@[k] == self@[skipped + k],
            decreases actual - i,
        {
            let slot = (start_slot + skipped + i) % MAX_HISTORY_SLOTS;
            prices.push(self.slots[slot as usize]);
            i = i + 1;
        }
        assert(prices@ =~= keep_last(self@, max_slots as int));
        prices
    }
}

} // verus!
