use component_ledger::codec::{
    COMPONENT_WIDTH, decode_component, encode_component, make_field, text_of_field,
};
use component_ledger::counter::{Counter, decode_counter, encode_counter};
use component_ledger::errors::LedgerError;
use component_ledger::record::Component;

fn sample_component() -> Component {
    let mut description = vec![0u8; 64];
    description[0] = b'g';
    description[1] = b'e';
    description[2] = b'a';
    description[3] = b'r';
    let mut name = vec![0u8; 16];
    name[0] = b'n';
    let mut serial_no = vec![0u8; 16];
    serial_no[0] = b's';
    serial_no[1] = b'1';
    let mut children = vec![0u8; 10];
    children[0] = 9;
    children[1] = 4;
    Component {
        opcode: 100,
        id: 5,
        description,
        name,
        serial_no,
        parent: 3,
        children,
        active: 1,
    }
}

#[test]
fn round_trip_component() {
    let c = sample_component();
    let bytes = encode_component(&c);
    let back = decode_component(&bytes).unwrap();
    assert_eq!(back, c);
}

#[test]
fn encode_width_is_exact() {
    let bytes = encode_component(&sample_component());
    assert_eq!(bytes.len(), COMPONENT_WIDTH);
    assert_eq!(bytes.len(), 110);
}

#[test]
fn width_rejection_component() {
    assert_eq!(decode_component(&vec![0u8; 109]), Err(LedgerError::FormatError));
    assert_eq!(decode_component(&vec![0u8; 111]), Err(LedgerError::FormatError));
    assert_eq!(decode_component(&Vec::new()), Err(LedgerError::FormatError));
}

#[test]
fn all_zero_buffer_is_a_valid_record() {
    let c = decode_component(&vec![0u8; 110]).unwrap();
    assert_eq!(c.opcode, 0);
    assert_eq!(c.id, 0);
    assert_eq!(c.description, vec![0u8; 64]);
    assert_eq!(c.name, vec![0u8; 16]);
    assert_eq!(c.serial_no, vec![0u8; 16]);
    assert_eq!(c.parent, 0);
    assert_eq!(c.children, vec![0u8; 10]);
    assert_eq!(c.active, 0);
}

#[test]
fn component_layout_matches_field_order() {
    let c = sample_component();
    let bytes = encode_component(&c);
    assert_eq!(bytes[0], 100);
    assert_eq!(bytes[1], 5);
    assert_eq!(&bytes[2..66], c.description.as_slice());
    assert_eq!(&bytes[66..82], c.name.as_slice());
    assert_eq!(&bytes[82..98], c.serial_no.as_slice());
    assert_eq!(bytes[98], 3);
    assert_eq!(&bytes[99..109], c.children.as_slice());
    assert_eq!(bytes[109], 1);
}

#[test]
fn text_extraction_strips_exactly_the_trailing_zero_run() {
    let field = vec![97, 0, 98, 0, 0, 0, 0, 0];
    assert_eq!(text_of_field(&field), vec![97, 0, 98]);
    assert_eq!(text_of_field(&vec![0u8; 8]), Vec::<u8>::new());
    let full = vec![1u8, 2, 3, 4];
    assert_eq!(text_of_field(&full), full);
    assert_eq!(text_of_field(&Vec::new()), Vec::<u8>::new());
}

#[test]
fn make_field_pads_with_trailing_zeros() {
    let text = vec![b'a', b'b'];
    assert_eq!(make_field(&text, 4), Ok(vec![b'a', b'b', 0, 0]));
    assert_eq!(make_field(&Vec::new(), 3), Ok(vec![0u8; 3]));
    assert_eq!(make_field(&text, 2), Ok(vec![b'a', b'b']));
}

#[test]
fn make_field_rejects_text_longer_than_the_field() {
    let text = vec![1u8, 2, 3, 4, 5];
    assert_eq!(make_field(&text, 4), Err(LedgerError::FormatError));
}

#[test]
fn component_wire_format_matches_borsh() {
    let c = sample_component();
    let mut description = [0u8; 64];
    description.copy_from_slice(&c.description);
    let mut name = [0u8; 16];
    name.copy_from_slice(&c.name);
    let mut serial_no = [0u8; 16];
    serial_no.copy_from_slice(&c.serial_no);
    let mut children = [0u8; 10];
    children.copy_from_slice(&c.children);
    let reference = borsh::to_vec(&(
        c.opcode,
        c.id,
        description,
        name,
        serial_no,
        c.parent,
        children,
        c.active,
    ))
    .unwrap();
    assert_eq!(encode_component(&c), reference);
}

#[test]
fn counter_wire_format_matches_borsh() {
    let c = Counter { counter: 0x01020304, derived: 7 };
    let reference = borsh::to_vec(&(c.counter, c.derived)).unwrap();
    assert_eq!(encode_counter(&c), reference);
    let (counter, derived): (u32, u32) = borsh::from_slice(&encode_counter(&c)).unwrap();
    assert_eq!((counter, derived), (c.counter, c.derived));
}

#[test]
fn round_trip_counter() {
    let c = Counter { counter: 41, derived: 82 };
    assert_eq!(decode_counter(&encode_counter(&c)), Ok(c));
}

#[test]
fn width_rejection_counter() {
    assert_eq!(decode_counter(&vec![0u8; 4]), Err(LedgerError::FormatError));
    assert_eq!(decode_counter(&vec![0u8; 9]), Err(LedgerError::FormatError));
    assert_eq!(decode_counter(&Vec::new()), Err(LedgerError::FormatError));
}

#[test]
fn counter_encoding_is_little_endian() {
    let c = Counter { counter: 0x01020304, derived: 0x0a0b0c0d };
    let bytes = encode_counter(&c);
    assert_eq!(bytes, vec![0x04, 0x03, 0x02, 0x01, 0x0d, 0x0c, 0x0b, 0x0a]);
}
