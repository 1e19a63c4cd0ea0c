use vstd::prelude::*;

use crate::errors::LedgerError;
use crate::record::{Component, ComponentModel};

verus! {

/// Exact width in bytes of an encoded [`Component`] record.
pub const COMPONENT_WIDTH: usize = 110;

/// Byte offset where the `description` field starts.
pub const DESC_START: usize = 2;

/// Byte offset one past the end of the `description` field.
pub const DESC_END: usize = 66;

/// Byte offset one past the end of the `name` field.
pub const NAME_END: usize = 82;

/// Byte offset one past the end of the `serial_no` field.
pub const SERIAL_END: usize = 98;

/// Byte offset of the `parent` field.
pub const PARENT_OFFSET: usize = 98;

/// Byte offset where the `children` array starts.
pub const CHILDREN_START: usize = 99;

/// Byte offset one past the end of the `children` array.
pub const CHILDREN_END: usize = 109;

/// Byte offset of the `active` field.
pub const ACTIVE_OFFSET: usize = 109;

/// The encoding of a component record: every field laid out in declaration
/// order, scalars as single bytes, text fields and the children array as
/// their raw fixed-width bytes.
pub open spec fn spec_encode_component(c: ComponentModel) -> Seq<u8> {
    seq![c.opcode, c.id] + c.description + c.name + c.serial_no + seq![c.parent] + c.children
        + seq![c.active]
}

/// The record denoted by a 110-byte buffer. Total for buffers of the exact
/// width; every byte pattern of that width is a valid record.
pub open spec fn spec_decode_component(b: Seq<u8>) -> ComponentModel
    recommends
        b.len() == COMPONENT_WIDTH,
{
    ComponentModel {
        opcode: b[0],
        id: b[1],
        description: b.subrange(DESC_START as int, DESC_END as int),
        name: b.subrange(DESC_END as int, NAME_END as int),
        serial_no: b.subrange(NAME_END as int, SERIAL_END as int),
        parent: b[PARENT_OFFSET as int],
        children: b.subrange(CHILDREN_START as int, CHILDREN_END as int),
        active: b[ACTIVE_OFFSET as int],
    }
}

/// Round-trip law: decoding an encoded record yields the record back, for
/// every well-formed record.
pub proof fn lemma_component_round_trip(c: ComponentModel)
    requires
        c.wf(),
    ensures
        spec_decode_component(spec_encode_component(c)) == c,
{
    let b = spec_encode_component(c);
    assert(b.len() == COMPONENT_WIDTH);
    assert(b.subrange(DESC_START as int, DESC_END as int) =~= c.description);
    assert(b.subrange(DESC_END as int, NAME_END as int) =~= c.name);
    assert(b.subrange(NAME_END as int, SERIAL_END as int) =~= c.serial_no);
    assert(b.subrange(CHILDREN_START as int, CHILDREN_END as int) =~= c.children);
}

/// Encoding always hits the exact fixed width.
pub proof fn lemma_component_encode_width(c: ComponentModel)
    requires
        c.wf(),
    ensures
        spec_encode_component(c).len() == COMPONENT_WIDTH,
{
}

/// Copies `bytes[start..end]` into a fresh vector.
pub fn copy_range(bytes: &Vec<u8>, start: usize, end: usize) -> (r: Vec<u8>)
    requires
        start <= end,
        end <= bytes@.len(),
    ensures
        r@ == bytes@.subrange(start as int, end as int),
{
    let mut r: Vec<u8> = Vec::new();
    assert(r@ =~= bytes@.subrange(start as int, start as int));
    let mut i: usize = start;
    while i < end
        invariant
            start <= i <= end,
            end <= bytes@.len(),
            r@ == bytes@.subrange(start as int, i as int),
        decreases end - i,
    {
        r.push(bytes[i]);
        i = i + 1;
        assert(r@ =~= bytes@.subrange(start as int, i as int));
    }
    r
}

/// Appends every byte of `field` to `out`.
fn push_field(out: &mut Vec<u8>, field: &Vec<u8>)
    ensures
        final(out)@ == old(out)@ + field@,
{
    assert(out@ =~= old(out)@ + field@.subrange(0, 0));
    let mut i: usize = 0;
    while i < field.len()
        invariant
            i <= field@.len(),
            out@ == old(out)@ + field@.subrange(0, i as int),
        decreases field@.len() - i,
    {
        out.push(field[i]);
        i = i + 1;
        assert(out@ =~= old(out)@ + field@.subrange(0, i as int));
    }
    assert(field@.subrange(0, field@.len() as int) =~= field@);
}

/// Encodes a record into exactly [`COMPONENT_WIDTH`] bytes.
pub fn encode_component(c: &Component) -> (r: Vec<u8>)
    requires
        c.wf(),
    ensures
        r@ == spec_encode_component(c@),
        r@.len() == COMPONENT_WIDTH,
{
    let mut out: Vec<u8> = Vec::new();
    out.push(c.opcode);
    out.push(c.id);
    push_field(&mut out, &c.description);
    push_field(&mut out, &c.name);
    push_field(&mut out, &c.serial_no);
    out.push(c.parent);
    push_field(&mut out, &c.children);
    out.push(c.active);
    assert(out@ =~= spec_encode_component(c@));
    out
}

/// Decodes a buffer into a record.
///
/// Fails with [`LedgerError::FormatError`] exactly when the buffer's length
/// differs from [`COMPONENT_WIDTH`]; it never fails for any byte pattern of
/// the correct length (an all-zero buffer is the valid record with every
/// field at its zero value).
pub fn decode_component(bytes: &Vec<u8>) -> (r: Result<Component, LedgerError>)
    ensures
        r is Ok <==> bytes@.len() == COMPONENT_WIDTH,
        r is Ok ==> (r->Ok_0)@ == spec_decode_component(bytes@) && (r->Ok_0).wf(),
        r is Err ==> r->Err_0 == LedgerError::FormatError,
{
    if bytes.len() != COMPONENT_WIDTH {
        return Err(LedgerError::FormatError);
    }
    let description = copy_range(bytes, DESC_START, DESC_END);
    let name = copy_range(bytes, DESC_END, NAME_END);
    let serial_no = copy_range(bytes, NAME_END, SERIAL_END);
    let children = copy_range(bytes, CHILDREN_START, CHILDREN_END);
    let c = Component {
        opcode: bytes[0],
        id: bytes[1],
        description,
        name,
        serial_no,
        parent: bytes[PARENT_OFFSET],
        children,
        active: bytes[ACTIVE_OFFSET],
    };
    Ok(c)
}

/// Length of the logical text inside a zero-padded field: the field's length
/// with exactly the trailing run of zero bytes removed. Zero bytes that are
/// followed by a non-zero byte are part of the text.
pub open spec fn spec_text_len(s: Seq<u8>) -> int
    decreases s.len(),
{
    if s.len() == 0 {
        0
    } else if s[s.len() - 1] != 0 {
        s.len() as int
    } else {
        spec_text_len(s.drop_last())
    }
}

/// The text length never exceeds the field's length.
pub proof fn lemma_text_len_bounds(s: Seq<u8>)
    ensures
        0 <= spec_text_len(s) <= s.len(),
    decreases s.len(),
{
    if s.len() != 0 && s[s.len() - 1] == 0 {
        lemma_text_len_bounds(s.drop_last());
    }
}

/// Surfaces a fixed-width zero-padded field as its logical text: strips
/// exactly the trailing zero run; embedded zero bytes before it are kept.
pub fn text_of_field(field: &Vec<u8>) -> (r: Vec<u8>)
    ensures
        r@ == field@.subrange(0, spec_text_len(field@)),
{
    let mut n: usize = field.len();
    assert(field@.subrange(0, n as int) =~= field@);
    while n > 0 && field[n - 1] == 0
        invariant
            n <= field@.len(),
            spec_text_len(field@) == spec_text_len(field@.subrange(0, n as int)),
        decreases n,
    {
        assert(field@.subrange(0, n as int).drop_last() =~= field@.subrange(0, n as int - 1));
        n = n - 1;
    }
    proof {
        lemma_text_len_bounds(field@.subrange(0, n as int));
    }
    copy_range(field, 0, n)
}

/// Builds a fixed-width field from text: pads with trailing zero bytes up to
/// `width`. Text longer than the field is rejected with
/// [`LedgerError::FormatError`] rather than truncated.
pub fn make_field(text: &Vec<u8>, width: usize) -> (r: Result<Vec<u8>, LedgerError>)
    ensures
        r is Ok <==> text@.len() <= width,
        r is Ok ==> (r->Ok_0)@ == text@ + Seq::new((width - text@.len()) as nat, |i: int| 0u8),
        r is Err ==> r->Err_0 == LedgerError::FormatError,
{
    if text.len() > width {
        return Err(LedgerError::FormatError);
    }
    let mut out = copy_range(text, 0, text.len());
    assert(out@ =~= text@);
    let mut i: usize = text.len();
    while i < width
        invariant
            text@.len() <= i <= width,
            out@ == text@ + Seq::new((i - text@.len()) as nat, |j: int| 0u8),
        decreases width - i,
    {
        out.push(0);
        i = i + 1;
        assert(out@ =~= text@ + Seq::new((i - text@.len()) as nat, |j: int| 0u8));
    }
    Ok(out)
}

} // verus!
