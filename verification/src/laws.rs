//! The laws the dispatcher obeys, each proved over the transition function
//! [`spec_step`] and the codec's model. Together with the contract of
//! [`crate::dispatch::process_instruction`] — which pins the slots' final
//! contents to `spec_step` and guarantees that every failure leaves the
//! slots untouched — they carry over to every executable invocation.

use vstd::prelude::*;

use crate::codec::{COMPONENT_WIDTH, lemma_component_round_trip, spec_decode_component};
use crate::dispatch::{
    OPCODE_ADD_CHILD, OPCODE_BURN, OPCODE_CREATE, OPCODE_UPDATE, lemma_first_zero_from_bounds,
    spec_first_zero, spec_step,
};
use crate::errors::LedgerError;
use crate::record::CHILD_CAPACITY;
use crate::slot::SlotModel;

verus! {

/// A successful invocation never adds, drops or reorders slots, and never
/// changes a slot's owner: ownership is assigned by the platform at
/// allocation time and only the byte buffers are rewritten here.
pub proof fn lemma_step_preserves_slot_shape(
    program_id: Seq<u8>,
    slots: Seq<SlotModel>,
    request: Seq<u8>,
)
    requires
        spec_step(program_id, slots, request) is Ok,
    ensures
        spec_step(program_id, slots, request)->Ok_0.len() == slots.len(),
        forall|i: int|
            0 <= i < slots.len() ==> #[trigger] spec_step(program_id, slots, request)->Ok_0[i].owner
                == slots[i].owner,
{
}

/// The counter variant preserves the slot shape in the same way.
pub proof fn lemma_counter_step_preserves_slot_shape(program_id: Seq<u8>, slots: Seq<SlotModel>)
    requires
        crate::counter::spec_counter_step(program_id, slots) is Ok,
    ensures
        crate::counter::spec_counter_step(program_id, slots)->Ok_0.len() == slots.len(),
        forall|i: int|
            0 <= i < slots.len() ==> #[trigger] crate::counter::spec_counter_step(
                program_id,
                slots,
            )->Ok_0[i].owner == slots[i].owner,
{
}

/// Ownership gate: whenever the primary slot's owner differs from the
/// executing identity, the invocation fails with `PermissionError` —
/// regardless of the opcode or of anything else in the request.
pub proof fn lemma_ownership_gate(program_id: Seq<u8>, slots: Seq<SlotModel>, request: Seq<u8>)
    requires
        slots.len() >= 1,
        slots[0].owner != program_id,
    ensures
        spec_step(program_id, slots, request) == Err::<Seq<SlotModel>, LedgerError>(
            LedgerError::PermissionError,
        ),
{
}

/// Unknown opcode: a request that decodes to an opcode outside the four
/// known commands succeeds and leaves every slot exactly as it was.
pub proof fn lemma_unknown_opcode_noop(program_id: Seq<u8>, slots: Seq<SlotModel>, request: Seq<u8>)
    requires
        slots.len() >= 1,
        slots[0].owner == program_id,
        request.len() == COMPONENT_WIDTH,
        spec_decode_component(request).opcode != OPCODE_CREATE,
        spec_decode_component(request).opcode != OPCODE_UPDATE,
        spec_decode_component(request).opcode != OPCODE_ADD_CHILD,
        spec_decode_component(request).opcode != OPCODE_BURN,
    ensures
        spec_step(program_id, slots, request) == Ok::<Seq<SlotModel>, LedgerError>(slots),
{
}

/// CREATE then UPDATE preserves the id: after a CREATE, any subsequent
/// UPDATE against the same slot leaves the stored id equal to the id the
/// CREATE put there, even if the update request carries a different id.
pub proof fn lemma_create_then_update_preserves_id(
    program_id: Seq<u8>,
    slots: Seq<SlotModel>,
    create_req: Seq<u8>,
    update_req: Seq<u8>,
)
    requires
        slots.len() >= 1,
        slots[0].owner == program_id,
        slots[0].data.len() == COMPONENT_WIDTH,
        create_req.len() == COMPONENT_WIDTH,
        spec_decode_component(create_req).opcode == OPCODE_CREATE,
        update_req.len() == COMPONENT_WIDTH,
        spec_decode_component(update_req).opcode == OPCODE_UPDATE,
    ensures
        ({
            let first = spec_step(program_id, slots, create_req);
            &&& first is Ok
            &&& spec_step(program_id, first->Ok_0, update_req) is Ok
            &&& spec_decode_component(
                spec_step(program_id, first->Ok_0, update_req)->Ok_0[0].data,
            ).id == spec_decode_component(create_req).id
        }),
{
    let created = crate::dispatch::spec_apply_create(spec_decode_component(create_req));
    lemma_component_round_trip(created);
    let slots1 = spec_step(program_id, slots, create_req)->Ok_0;
    let updated = crate::dispatch::spec_apply_update(
        spec_decode_component(slots1[0].data),
        spec_decode_component(update_req),
    );
    lemma_component_round_trip(updated);
}

/// ADD_CHILD wiring: the child record ends up pointing at the parent's id,
/// and the child's id lands in the first empty entry of the parent's
/// children array — or nowhere, leaving the array unchanged, when the array
/// has no empty entry. No other entry of the array is touched either way.
pub proof fn lemma_add_child_wiring(program_id: Seq<u8>, slots: Seq<SlotModel>, request: Seq<u8>)
    requires
        slots.len() >= 2,
        slots[0].owner == program_id,
        slots[0].data.len() == COMPONENT_WIDTH,
        slots[1].data.len() == COMPONENT_WIDTH,
        request.len() == COMPONENT_WIDTH,
        spec_decode_component(request).opcode == OPCODE_ADD_CHILD,
    ensures
        ({
            let child = spec_decode_component(slots[0].data);
            let parent = spec_decode_component(slots[1].data);
            let r = spec_step(program_id, slots, request);
            let k = spec_first_zero(parent.children);
            &&& r is Ok
            &&& spec_decode_component(r->Ok_0[0].data).parent == parent.id
            &&& spec_decode_component(r->Ok_0[0].data).id == child.id
            &&& spec_decode_component(r->Ok_0[1].data).id == parent.id
            &&& 0 <= k <= CHILD_CAPACITY
            &&& (k < CHILD_CAPACITY ==> spec_decode_component(r->Ok_0[1].data).children
                == parent.children.update(k, child.id))
            &&& (k == CHILD_CAPACITY ==> spec_decode_component(r->Ok_0[1].data).children
                == parent.children)
            &&& (forall|j: int|
                0 <= j < CHILD_CAPACITY && j != k ==> spec_decode_component(
                    r->Ok_0[1].data,
                ).children[j] == parent.children[j])
        }),
{
    let child = spec_decode_component(slots[0].data);
    let parent = spec_decode_component(slots[1].data);
    lemma_first_zero_from_bounds(parent.children, 0);
    let parent2 = crate::dispatch::spec_apply_add_child_parent(parent, child.id);
    assert(parent2.children.len() == parent.children.len());
    lemma_component_round_trip(crate::dispatch::spec_apply_add_child_child(child, parent.id));
    lemma_component_round_trip(parent2);
}

/// ADD_CHILD saturation: when the parent's children array has no empty
/// entry, the invocation still succeeds and the array is left unchanged —
/// in particular no existing child id is overwritten.
pub proof fn lemma_add_child_saturation(
    program_id: Seq<u8>,
    slots: Seq<SlotModel>,
    request: Seq<u8>,
)
    requires
        slots.len() >= 2,
        slots[0].owner == program_id,
        slots[0].data.len() == COMPONENT_WIDTH,
        slots[1].data.len() == COMPONENT_WIDTH,
        request.len() == COMPONENT_WIDTH,
        spec_decode_component(request).opcode == OPCODE_ADD_CHILD,
        forall|j: int|
            0 <= j < CHILD_CAPACITY ==> spec_decode_component(slots[1].data).children[j] != 0,
    ensures
        ({
            let parent = spec_decode_component(slots[1].data);
            let r = spec_step(program_id, slots, request);
            &&& r is Ok
            &&& spec_decode_component(r->Ok_0[1].data).children == parent.children
        }),
{
    let parent = spec_decode_component(slots[1].data);
    lemma_first_zero_from_bounds(parent.children, 0);
    lemma_add_child_wiring(program_id, slots, request);
}

/// BURN preserves lineage: retiring a component clears only its `active`
/// flag; its id, parent, children and every text field survive unchanged.
pub proof fn lemma_burn_preserves_lineage(
    program_id: Seq<u8>,
    slots: Seq<SlotModel>,
    request: Seq<u8>,
)
    requires
        slots.len() >= 1,
        slots[0].owner == program_id,
        slots[0].data.len() == COMPONENT_WIDTH,
        request.len() == COMPONENT_WIDTH,
        spec_decode_component(request).opcode == OPCODE_BURN,
    ensures
        ({
            let cur = spec_decode_component(slots[0].data);
            let r = spec_step(program_id, slots, request);
            let after = spec_decode_component(r->Ok_0[0].data);
            &&& r is Ok
            &&& after.active == 0
            &&& after.opcode == OPCODE_BURN
            &&& after.id == cur.id
            &&& after.parent == cur.parent
            &&& after.children == cur.children
            &&& after.description == cur.description
            &&& after.name == cur.name
            &&& after.serial_no == cur.serial_no
        }),
{
    let cur = spec_decode_component(slots[0].data);
    lemma_component_round_trip(crate::dispatch::spec_apply_burn(cur));
}

} // verus!
