//! Request identifiers: a counter owned by the client that hands out each value once.
use vstd::prelude::*;

verus! {

/// Hands out request identifiers 1, 2, 3, ... in order. `issued` records every value handed
/// out so far. Handing out takes the counter by `&mut`, so callers that share one counter
/// (behind a lock) never see the same value twice.
pub struct NonceCounter {
    pub next: u64,
    pub issued: Ghost<Seq<u64>>,
}

impl NonceCounter {
    /// Every value handed out is below `next`, and they came out in strictly increasing order.
    pub open spec fn wf(&self) -> bool {
        &&& self.next >= 1
        &&& forall|i: int, j: int| 0 <= i < j < self.issued@.len() ==> self.issued@[i] < self.issued@[j]
        &&& forall|i: int| 0 <= i < self.issued@.len() ==> #[trigger] self.issued@[i] < self.next
    }

    /// A counter whose first identifier is 1.
    pub fn new() -> (r: NonceCounter)
        ensures
            r.wf(),
            r.next == 1,
            r.issued@ == Seq::<u64>::empty(),
    {
        NonceCounter { next: 1, issued: Ghost(Seq::empty()) }
    }

    /// Hands out the next identifier.
    pub fn get_nonce(&mut self) -> (r: u64)
        requires
            old(self).wf(),
            old(self).next < u64::MAX,
        ensures
            final(self).wf(),
            r == old(self).next,
            final(self).next == old(self).next + 1,
            final(self).issued@ == old(self).issued@.push(r),
    {
        let r = self.next;
        self.next = self.next + 1;
        self.issued = Ghost(self.issued@.push(r));
        r
    }
}

/// Identifiers handed out one after another by a counter are strictly increasing, so no
/// value is handed out twice.
pub proof fn lemma_nonces_increase(c: NonceCounter)
    requires
        c.wf(),
    ensures
        forall|i: int, j: int| 0 <= i < j < c.issued@.len() ==> c.issued@[i] < c.issued@[j],
        forall|i: int, j: int|
            0 <= i < c.issued@.len() && 0 <= j < c.issued@.len() && i != j ==> c.issued@[i]
                != c.issued@[j],
{
    assert forall|i: int, j: int|
        0 <= i < c.issued@.len() && 0 <= j < c.issued@.len() && i != j implies c.issued@[i]
            != c.issued@[j] by {
        if i < j {
            assert(c.issued@[i] < c.issued@[j]);
        } else {
            assert(c.issued@[j] < c.issued@[i]);
        }
    }
}

} // verus!
