use vstd::prelude::*;

verus! {

/// One storage slot as the external ledger presents it: an owner identity
/// assigned at allocation time (never changed here) and a mutable byte
/// buffer holding one encoded record.
#[derive(Clone, Debug, PartialEq, Eq)]
pub struct Slot {
    /// Identity of the program that owns this slot.
    pub owner: Vec<u8>,
    /// The slot's byte buffer.
    pub data: Vec<u8>,
}

/// The mathematical model of a [`Slot`].
#[verifier::ext_equal]
pub struct SlotModel {
    pub owner: Seq<u8>,
    pub data: Seq<u8>,
}

impl View for Slot {
    type V = SlotModel;

    open spec fn view(&self) -> SlotModel {
        SlotModel { owner: self.owner@, data: self.data@ }
    }
}

/// The models of an ordered sequence of slots.
pub open spec fn slots_model(slots: Seq<Slot>) -> Seq<SlotModel> {
    slots.map(|i: int, s: Slot| s@)
}

/// True exactly when the two byte vectors hold the same bytes.
pub fn bytes_eq(a: &Vec<u8>, b: &Vec<u8>) -> (r: bool)
    ensures
        r <==> a@ == b@,
{
    if a.len() != b.len() {
        return false;
    }
    let mut i: usize = 0;
    while i < a.len()
        invariant
            i <= a@.len(),
            a@.len() == b@.len(),
            forall|j: int| 0 <= j < i ==> a@[j] == b@[j],
        decreases a@.len() - i,
    {
        if a[i] != b[i] {
            return false;
        }
        i = i + 1;
    }
    proof {
        assert(a@ =~= b@);
    }
    true
}

/// Replaces the byte buffer of slot `i`, leaving its owner and every other
/// slot untouched.
pub fn set_slot_data(slots: &mut Vec<Slot>, i: usize, data: Vec<u8>)
    requires
        i < old(slots)@.len(),
    ensures
        slots_model(final(slots)@) =~= slots_model(old(slots)@).update(
            i as int,
            SlotModel { owner: old(slots)@[i as int].owner@, data: data@ },
        ),
        final(slots)@.len() == old(slots)@.len(),
{
    let mut s = slots.remove(i);
    s.data = data;
    slots.insert(i, s);
    proof {
        assert(slots@ =~= old(slots)@.update(i as int, slots@[i as int]));
    }
}

} // verus!
