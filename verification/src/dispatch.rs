use vstd::prelude::*;

use vstd::pervasive::VecAdditionalExecFns;

use crate::codec::{COMPONENT_WIDTH, decode_component, encode_component};
use crate::codec::{spec_decode_component, spec_encode_component};
use crate::errors::LedgerError;
use crate::record::{Component, ComponentModel};
use crate::slot::{Slot, SlotModel, bytes_eq, set_slot_data, slots_model};

verus! {

/// Opcode: create a component in the primary slot.
pub const OPCODE_CREATE: u8 = 100;

/// Opcode: update every field but the id of the primary slot's component.
pub const OPCODE_UPDATE: u8 = 101;

/// Opcode: wire the primary slot's component (child) under the secondary
/// slot's component (parent).
pub const OPCODE_ADD_CHILD: u8 = 102;

/// Opcode: retire the primary slot's component.
pub const OPCODE_BURN: u8 = 103;

/// CREATE: every field comes from the request, and the record is forced into
/// circulation. The previous slot contents are discarded.
pub open spec fn spec_apply_create(req: ComponentModel) -> ComponentModel {
    ComponentModel {
        opcode: req.opcode,
        id: req.id,
        description: req.description,
        name: req.name,
        serial_no: req.serial_no,
        parent: req.parent,
        children: req.children,
        active: 1,
    }
}

/// UPDATE: every field but the id comes from the request; the id is never
/// changed by an update.
pub open spec fn spec_apply_update(cur: ComponentModel, req: ComponentModel) -> ComponentModel {
    ComponentModel {
        opcode: req.opcode,
        id: cur.id,
        description: req.description,
        name: req.name,
        serial_no: req.serial_no,
        parent: req.parent,
        children: req.children,
        active: req.active,
    }
}

/// BURN: the record is retired; parent and children are preserved so that
/// lineage history survives retirement.
pub open spec fn spec_apply_burn(cur: ComponentModel) -> ComponentModel {
    ComponentModel {
        opcode: OPCODE_BURN,
        id: cur.id,
        description: cur.description,
        name: cur.name,
        serial_no: cur.serial_no,
        parent: cur.parent,
        children: cur.children,
        active: 0,
    }
}

/// Index of the first zero entry of `s` at or after `i`, or `s.len()` if
/// every entry from `i` on is non-zero.
pub open spec fn spec_first_zero_from(s: Seq<u8>, i: int) -> int
    recommends
        0 <= i <= s.len(),
    decreases s.len() - i,
{
    if i >= s.len() {
        s.len() as int
    } else if s[i] == 0 {
        i
    } else {
        spec_first_zero_from(s, i + 1)
    }
}

/// Index of the first zero entry of `s`, or `s.len()` if there is none.
pub open spec fn spec_first_zero(s: Seq<u8>) -> int {
    spec_first_zero_from(s, 0)
}

/// The first zero index lies between `i` and `s.len()`, and every entry
/// before it (from `i` on) is non-zero.
pub proof fn lemma_first_zero_from_bounds(s: Seq<u8>, i: int)
    requires
        0 <= i <= s.len(),
    ensures
        i <= spec_first_zero_from(s, i) <= s.len(),
        spec_first_zero_from(s, i) < s.len() ==> s[spec_first_zero_from(s, i)] == 0,
        forall|j: int| i <= j < spec_first_zero_from(s, i) ==> s[j] != 0,
    decreases s.len() - i,
{
    if i < s.len() && s[i] != 0 {
        lemma_first_zero_from_bounds(s, i + 1);
    }
}

/// Inserts `id` at the first empty (zero) entry of the children array; if no
/// entry is empty, the array is left unchanged (the insertion is silently
/// skipped, never corrupting an existing child id).
pub open spec fn spec_insert_child(children: Seq<u8>, id: u8) -> Seq<u8> {
    if spec_first_zero(children) < children.len() {
        children.update(spec_first_zero(children), id)
    } else {
        children
    }
}

/// ADD_CHILD, primary side: the child record points at its new parent.
pub open spec fn spec_apply_add_child_child(child: ComponentModel, parent_id: u8) -> ComponentModel {
    ComponentModel {
        opcode: OPCODE_ADD_CHILD,
        id: child.id,
        description: child.description,
        name: child.name,
        serial_no: child.serial_no,
        parent: parent_id,
        children: child.children,
        active: child.active,
    }
}

/// ADD_CHILD, secondary side: the parent record gains the child's id in its
/// first empty children entry.
pub open spec fn spec_apply_add_child_parent(parent: ComponentModel, child_id: u8) -> ComponentModel {
    ComponentModel {
        opcode: OPCODE_ADD_CHILD,
        id: parent.id,
        description: parent.description,
        name: parent.name,
        serial_no: parent.serial_no,
        parent: parent.parent,
        children: spec_insert_child(parent.children, child_id),
        active: parent.active,
    }
}

/// The whole invocation as a transition over slot models.
///
/// The primary slot must exist and be owned by the executing identity, and
/// the request must have the exact record width; those checks come before
/// any slot is read. The decoded request's opcode then selects the mutation:
/// CREATE, UPDATE and BURN rewrite the primary slot, ADD_CHILD rewrites the
/// primary (child) and secondary (parent) slots, and any other opcode is a
/// successful no-op that touches nothing. A slot buffer of the wrong width
/// fails the whole invocation with [`LedgerError::FormatError`] before any
/// write is issued.
pub open spec fn spec_step(
    program_id: Seq<u8>,
    slots: Seq<SlotModel>,
    request: Seq<u8>,
) -> Result<Seq<SlotModel>, LedgerError> {
    if slots.len() < 1 {
        Err(LedgerError::MissingSlot)
    } else if slots[0].owner != program_id {
        Err(LedgerError::PermissionError)
    } else if request.len() != COMPONENT_WIDTH {
        Err(LedgerError::FormatError)
    } else {
        let req = spec_decode_component(request);
        if req.opcode == OPCODE_CREATE {
            if slots[0].data.len() != COMPONENT_WIDTH {
                Err(LedgerError::FormatError)
            } else {
                Ok(
                    slots.update(
                        0,
                        SlotModel {
                            owner: slots[0].owner,
                            data: spec_encode_component(spec_apply_create(req)),
                        },
                    ),
                )
            }
        } else if req.opcode == OPCODE_UPDATE {
            if slots[0].data.len() != COMPONENT_WIDTH {
                Err(LedgerError::FormatError)
            } else {
                let cur = spec_decode_component(slots[0].data);
                Ok(
                    slots.update(
                        0,
                        SlotModel {
                            owner: slots[0].owner,
                            data: spec_encode_component(spec_apply_update(cur, req)),
                        },
                    ),
                )
            }
        } else if req.opcode == OPCODE_ADD_CHILD {
            if slots[0].data.len() != COMPONENT_WIDTH {
                Err(LedgerError::FormatError)
            } else if slots.len() < 2 {
                Err(LedgerError::MissingSlot)
            } else if slots[1].data.len() != COMPONENT_WIDTH {
                Err(LedgerError::FormatError)
            } else {
                let child = spec_decode_component(slots[0].data);
                let parent = spec_decode_component(slots[1].data);
                Ok(
                    slots.update(
                        0,
                        SlotModel {
                            owner: slots[0].owner,
                            data: spec_encode_component(
                                spec_apply_add_child_child(child, parent.id),
                            ),
                        },
                    ).update(
                        1,
                        SlotModel {
                            owner: slots[1].owner,
                            data: spec_encode_component(
                                spec_apply_add_child_parent(parent, child.id),
                            ),
                        },
                    ),
                )
            }
        } else if req.opcode == OPCODE_BURN {
            if slots[0].data.len() != COMPONENT_WIDTH {
                Err(LedgerError::FormatError)
            } else {
                let cur = spec_decode_component(slots[0].data);
                Ok(
                    slots.update(
                        0,
                        SlotModel {
                            owner: slots[0].owner,
                            data: spec_encode_component(spec_apply_burn(cur)),
                        },
                    ),
                )
            }
        } else {
            Ok(slots)
        }
    }
}

/// Builds the CREATE result record from the request.
fn make_create(req: Component) -> (r: Component)
    requires
        req.wf(),
    ensures
        r@ == spec_apply_create(req@),
        r.wf(),
{
    let mut r = req;
    r.active = 1;
    r
}

/// Builds the UPDATE result record: the request with the current id kept.
fn make_update(cur: &Component, req: Component) -> (r: Component)
    requires
        req.wf(),
    ensures
        r@ == spec_apply_update(cur@, req@),
        r.wf(),
{
    let mut r = req;
    r.id = cur.id;
    r
}

/// Builds the BURN result record: the current record retired.
fn make_burn(cur: Component) -> (r: Component)
    requires
        cur.wf(),
    ensures
        r@ == spec_apply_burn(cur@),
        r.wf(),
{
    let mut r = cur;
    r.opcode = OPCODE_BURN;
    r.active = 0;
    r
}

/// Builds the ADD_CHILD result for the child record.
fn make_child(child: Component, parent_id: u8) -> (r: Component)
    requires
        child.wf(),
    ensures
        r@ == spec_apply_add_child_child(child@, parent_id),
        r.wf(),
{
    let mut r = child;
    r.opcode = OPCODE_ADD_CHILD;
    r.parent = parent_id;
    r
}

/// Scans `v` from index 0 upward and returns the index of the first entry
/// holding 0, or `v.len()` if there is none.
fn find_first_zero(v: &Vec<u8>) -> (r: usize)
    ensures
        r as int == spec_first_zero(v@),
        r <= v@.len(),
{
    let n = v.len();
    let mut i: usize = 0;
    while i < n
        invariant
            i <= n,
            n == v@.len(),
            spec_first_zero(v@) == spec_first_zero_from(v@, i as int),
        decreases n - i,
    {
        if v[i] == 0 {
            return i;
        }
        i = i + 1;
    }
    n
}

/// Builds the ADD_CHILD result for the parent record: writes the child id
/// into the first children entry holding 0; a full array is left unchanged.
fn make_parent(parent: Component, child_id: u8) -> (r: Component)
    requires
        parent.wf(),
    ensures
        r@ == spec_apply_add_child_parent(parent@, child_id),
        r.wf(),
{
    let mut p = parent;
    p.opcode = OPCODE_ADD_CHILD;
    let k = find_first_zero(&p.children);
    if k < p.children.len() {
        p.children.set(k, child_id);
    }
    assert(p@ =~= spec_apply_add_child_parent(parent@, child_id));
    p
}

/// The dispatcher's entry point: one invocation against the supplied slots.
///
/// On success the slots hold exactly what [`spec_step`] prescribes for the
/// inputs; on failure the reported error is the one [`spec_step`] prescribes
/// and no slot has been touched. For ADD_CHILD, the one command that touches
/// two slots, both encodings are computed before either buffer is written,
/// so a fatal condition can never leave the pair half-applied.
pub fn process_instruction(
    program_id: &Vec<u8>,
    slots: &mut Vec<Slot>,
    instruction_data: &Vec<u8>,
) -> (r: Result<(), LedgerError>)
    ensures
        r is Ok ==> spec_step(program_id@, slots_model(old(slots)@), instruction_data@) == Ok::<
            Seq<SlotModel>,
            LedgerError,
        >(slots_model(final(slots)@)),
        r is Err ==> spec_step(program_id@, slots_model(old(slots)@), instruction_data@) == Err::<
            Seq<SlotModel>,
            LedgerError,
        >(r->Err_0) && final(slots)@ == old(slots)@,
{
    if slots.len() < 1 {
        return Err(LedgerError::MissingSlot);
    }
    if !bytes_eq(&slots[0].owner, program_id) {
        return Err(LedgerError::PermissionError);
    }
    let req = match decode_component(instruction_data) {
        Ok(c) => c,
        Err(e) => {
            return Err(e);
        },
    };
    let opcode = req.opcode;
    if opcode == OPCODE_CREATE {
        if slots[0].data.len() != COMPONENT_WIDTH {
            return Err(LedgerError::FormatError);
        }
        let rec = make_create(req);
        let data = encode_component(&rec);
        set_slot_data(slots, 0, data);
        proof {
            let m0 = slots_model(old(slots)@);
            let req_m = spec_decode_component(instruction_data@);
            assert(m0[0] == old(slots)@[0]@);
            assert(slots_model(slots@) =~= m0.update(
                0,
                SlotModel { owner: m0[0].owner, data: spec_encode_component(spec_apply_create(req_m)) },
            ));
        }
        Ok(())
    } else if opcode == OPCODE_UPDATE {
        let cur = match decode_component(&slots[0].data) {
            Ok(c) => c,
            Err(e) => {
                return Err(e);
            },
        };
        let rec = make_update(&cur, req);
        let data = encode_component(&rec);
        set_slot_data(slots, 0, data);
        proof {
            let m0 = slots_model(old(slots)@);
            let req_m = spec_decode_component(instruction_data@);
            assert(m0[0] == old(slots)@[0]@);
            assert(slots_model(slots@) =~= m0.update(
                0,
                SlotModel {
                    owner: m0[0].owner,
                    data: spec_encode_component(spec_apply_update(spec_decode_component(m0[0].data), req_m)),
                },
            ));
        }
        Ok(())
    } else if opcode == OPCODE_ADD_CHILD {
        let child = match decode_component(&slots[0].data) {
            Ok(c) => c,
            Err(e) => {
                return Err(e);
            },
        };
        if slots.len() < 2 {
            return Err(LedgerError::MissingSlot);
        }
        let parent = match decode_component(&slots[1].data) {
            Ok(c) => c,
            Err(e) => {
                return Err(e);
            },
        };
        let child_id = child.id;
        let child_rec = make_child(child, parent.id);
        let parent_rec = make_parent(parent, child_id);
        let child_data = encode_component(&child_rec);
        let parent_data = encode_component(&parent_rec);
        set_slot_data(slots, 0, child_data);
        proof {
            assert(slots_model(slots@)[1] == slots@[1]@);
            assert(slots_model(slots@)[1] == slots_model(old(slots)@)[1]);
            assert(slots_model(old(slots)@)[1] == old(slots)@[1]@);
        }
        set_slot_data(slots, 1, parent_data);
        proof {
            let m0 = slots_model(old(slots)@);
            let child_m = spec_decode_component(m0[0].data);
            let parent_m = spec_decode_component(m0[1].data);
            assert(m0[0] == old(slots)@[0]@);
            assert(m0[1] == old(slots)@[1]@);
            assert(slots_model(slots@) =~= m0.update(
                0,
                SlotModel {
                    owner: m0[0].owner,
                    data: spec_encode_component(spec_apply_add_child_child(child_m, parent_m.id)),
                },
            ).update(
                1,
                SlotModel {
                    owner: m0[1].owner,
                    data: spec_encode_component(spec_apply_add_child_parent(parent_m, child_m.id)),
                },
            ));
        }
        Ok(())
    } else if opcode == OPCODE_BURN {
        let cur = match decode_component(&slots[0].data) {
            Ok(c) => c,
            Err(e) => {
                return Err(e);
            },
        };
        let rec = make_burn(cur);
        let data = encode_component(&rec);
        set_slot_data(slots, 0, data);
        proof {
            let m0 = slots_model(old(slots)@);
            assert(m0[0] == old(slots)@[0]@);
            assert(slots_model(slots@) =~= m0.update(
                0,
                SlotModel {
                    owner: m0[0].owner,
                    data: spec_encode_component(spec_apply_burn(spec_decode_component(m0[0].data))),
                },
            ));
        }
        Ok(())
    } else {
        Ok(())
    }
}

} // verus!
