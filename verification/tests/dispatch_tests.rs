use component_ledger::codec::{decode_component, encode_component};
use component_ledger::dispatch::process_instruction;
use component_ledger::errors::LedgerError;
use component_ledger::record::Component;
use component_ledger::slot::Slot;

fn program_id() -> Vec<u8> {
    vec![7u8; 32]
}

fn comp(opcode: u8, id: u8, parent: u8, children: Vec<u8>, active: u8) -> Component {
    Component {
        opcode,
        id,
        description: vec![0u8; 64],
        name: vec![0u8; 16],
        serial_no: vec![0u8; 16],
        parent,
        children,
        active,
    }
}

fn owned_slot(data: Vec<u8>) -> Slot {
    Slot { owner: program_id(), data }
}

fn empty_slot() -> Slot {
    owned_slot(vec![0u8; 110])
}

#[test]
fn create_writes_the_request_and_forces_active() {
    let mut req = comp(100, 5, 3, vec![0u8; 10], 0);
    req.description[0] = b'x';
    let request = encode_component(&req);
    let mut slots = vec![empty_slot()];
    assert_eq!(process_instruction(&program_id(), &mut slots, &request), Ok(()));
    let rec = decode_component(&slots[0].data).unwrap();
    assert_eq!(rec.opcode, 100);
    assert_eq!(rec.id, 5);
    assert_eq!(rec.parent, 3);
    assert_eq!(rec.description[0], b'x');
    assert_eq!(rec.active, 1);
}

#[test]
fn create_then_update_preserves_id() {
    let create = encode_component(&comp(100, 5, 0, vec![0u8; 10], 0));
    let mut slots = vec![empty_slot()];
    assert_eq!(process_instruction(&program_id(), &mut slots, &create), Ok(()));

    let mut update_rec = comp(101, 9, 2, vec![0u8; 10], 0);
    update_rec.serial_no[0] = b'z';
    let update = encode_component(&update_rec);
    assert_eq!(process_instruction(&program_id(), &mut slots, &update), Ok(()));

    let rec = decode_component(&slots[0].data).unwrap();
    assert_eq!(rec.id, 5);
    assert_eq!(rec.opcode, 101);
    assert_eq!(rec.parent, 2);
    assert_eq!(rec.serial_no[0], b'z');
    assert_eq!(rec.active, 0);
}

#[test]
fn add_child_wires_both_records() {
    let request = encode_component(&comp(102, 0, 0, vec![0u8; 10], 0));
    let child = encode_component(&comp(100, 7, 0, vec![0u8; 10], 1));
    let parent = encode_component(&comp(100, 3, 0, vec![0u8; 10], 1));
    let mut slots = vec![owned_slot(child), owned_slot(parent)];
    assert_eq!(process_instruction(&program_id(), &mut slots, &request), Ok(()));

    let child_rec = decode_component(&slots[0].data).unwrap();
    let parent_rec = decode_component(&slots[1].data).unwrap();
    assert_eq!(child_rec.parent, 3);
    assert_eq!(child_rec.id, 7);
    assert_eq!(child_rec.opcode, 102);
    assert_eq!(parent_rec.children[0], 7);
    assert_eq!(parent_rec.opcode, 102);

    // A second child lands in the next empty entry.
    let second_child = encode_component(&comp(100, 8, 0, vec![0u8; 10], 1));
    slots[0] = owned_slot(second_child);
    assert_eq!(process_instruction(&program_id(), &mut slots, &request), Ok(()));
    let parent_rec = decode_component(&slots[1].data).unwrap();
    assert_eq!(parent_rec.children[0], 7);
    assert_eq!(parent_rec.children[1], 8);
}

#[test]
fn add_child_with_full_parent_changes_nothing_and_succeeds() {
    let request = encode_component(&comp(102, 0, 0, vec![0u8; 10], 0));
    let child = encode_component(&comp(100, 11, 0, vec![0u8; 10], 1));
    let full: Vec<u8> = vec![1, 2, 3, 4, 5, 6, 7, 8, 9, 10];
    let parent = encode_component(&comp(100, 3, 0, full.clone(), 1));
    let mut slots = vec![owned_slot(child), owned_slot(parent)];
    assert_eq!(process_instruction(&program_id(), &mut slots, &request), Ok(()));

    let parent_rec = decode_component(&slots[1].data).unwrap();
    assert_eq!(parent_rec.children, full);
    let child_rec = decode_component(&slots[0].data).unwrap();
    assert_eq!(child_rec.parent, 3);
}

#[test]
fn burn_retires_but_preserves_lineage() {
    let mut children = vec![0u8; 10];
    children[0] = 9;
    let record = comp(100, 5, 3, children.clone(), 1);
    let stored = encode_component(&record);
    let mut slots = vec![owned_slot(stored.clone())];
    let request = encode_component(&comp(103, 0, 0, vec![0u8; 10], 0));
    assert_eq!(process_instruction(&program_id(), &mut slots, &request), Ok(()));

    let rec = decode_component(&slots[0].data).unwrap();
    assert_eq!(rec.active, 0);
    assert_eq!(rec.opcode, 103);
    assert_eq!(rec.parent, 3);
    assert_eq!(rec.children, children);
    // The parent and children regions of the buffer are bit-identical.
    assert_eq!(slots[0].data[98], stored[98]);
    assert_eq!(&slots[0].data[99..109], &stored[99..109]);
}

#[test]
fn unknown_opcode_is_a_successful_no_op() {
    let mut populated = encode_component(&comp(100, 5, 3, vec![0u8; 10], 1));
    populated[50] = 42;
    let before = populated.clone();
    let mut slots = vec![owned_slot(populated)];
    let request = encode_component(&comp(255, 9, 9, vec![9u8; 10], 1));
    assert_eq!(process_instruction(&program_id(), &mut slots, &request), Ok(()));
    assert_eq!(slots[0].data, before);
}

#[test]
fn foreign_owner_is_rejected_before_any_write() {
    let stored = encode_component(&comp(100, 5, 3, vec![0u8; 10], 1));
    for opcode in [100u8, 101, 102, 103, 255] {
        let request = encode_component(&comp(opcode, 1, 0, vec![0u8; 10], 0));
        let mut slots = vec![
            Slot { owner: vec![8u8; 32], data: stored.clone() },
            Slot { owner: program_id(), data: stored.clone() },
        ];
        assert_eq!(
            process_instruction(&program_id(), &mut slots, &request),
            Err(LedgerError::PermissionError)
        );
        assert_eq!(slots[0].data, stored);
        assert_eq!(slots[1].data, stored);
    }
}

#[test]
fn wrong_width_request_is_rejected() {
    let mut slots = vec![empty_slot()];
    let before = slots[0].data.clone();
    assert_eq!(
        process_instruction(&program_id(), &mut slots, &vec![100u8; 10]),
        Err(LedgerError::FormatError)
    );
    assert_eq!(slots[0].data, before);
}

#[test]
fn wrong_width_slot_is_rejected() {
    let request = encode_component(&comp(100, 5, 0, vec![0u8; 10], 0));
    let mut slots = vec![owned_slot(vec![0u8; 50])];
    assert_eq!(
        process_instruction(&program_id(), &mut slots, &request),
        Err(LedgerError::FormatError)
    );
    assert_eq!(slots[0].data, vec![0u8; 50]);

    let burn = encode_component(&comp(103, 0, 0, vec![0u8; 10], 0));
    let mut slots = vec![owned_slot(vec![0u8; 50])];
    assert_eq!(
        process_instruction(&program_id(), &mut slots, &burn),
        Err(LedgerError::FormatError)
    );
}

#[test]
fn missing_slots_are_rejected() {
    let request = encode_component(&comp(100, 5, 0, vec![0u8; 10], 0));
    let mut no_slots: Vec<Slot> = Vec::new();
    assert_eq!(
        process_instruction(&program_id(), &mut no_slots, &request),
        Err(LedgerError::MissingSlot)
    );

    // ADD_CHILD needs a secondary slot.
    let add_child = encode_component(&comp(102, 0, 0, vec![0u8; 10], 0));
    let mut one_slot = vec![empty_slot()];
    assert_eq!(
        process_instruction(&program_id(), &mut one_slot, &add_child),
        Err(LedgerError::MissingSlot)
    );
    assert_eq!(one_slot[0].data, vec![0u8; 110]);
}
