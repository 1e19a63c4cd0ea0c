use vstd::prelude::*;

verus! {

/// Width in bytes of the fixed `description` text field.
pub const DESCRIPTION_WIDTH: usize = 64;

/// Width in bytes of the fixed `name` text field.
pub const NAME_WIDTH: usize = 16;

/// Width in bytes of the fixed `serial_no` text field.
pub const SERIAL_WIDTH: usize = 16;

/// Capacity of the `children` array: how many child ids a component can hold.
pub const CHILD_CAPACITY: usize = 10;

/// The principal entity: one component of the tracked asset tree.
///
/// Text fields are fixed-width and right-padded with zero bytes; trailing
/// zero bytes are not part of the logical text. The id `0` is the reserved
/// "none/unset" sentinel for `id`, `parent` and every `children` entry, so a
/// freshly zero-initialized slot decodes to a valid record with every field
/// at its zero value.
#[derive(Clone, Debug, PartialEq, Eq)]
pub struct Component {
    /// Last opcode applied to this record; persisted for audit only.
    pub opcode: u8,
    /// Component identifier; `0` means "none/unset".
    pub id: u8,
    /// Fixed 64-byte text field, zero-padded.
    pub description: Vec<u8>,
    /// Fixed 16-byte text field, zero-padded.
    pub name: Vec<u8>,
    /// Fixed 16-byte text field, zero-padded.
    pub serial_no: Vec<u8>,
    /// Id of the parent component, or `0` if none.
    pub parent: u8,
    /// Ordered fixed-capacity array of child ids; `0` marks an empty entry.
    pub children: Vec<u8>,
    /// `1` = in circulation, `0` = retired.
    pub active: u8,
}

/// The mathematical model of a [`Component`]: the same fields over `Seq<u8>`.
#[verifier::ext_equal]
pub struct ComponentModel {
    pub opcode: u8,
    pub id: u8,
    pub description: Seq<u8>,
    pub name: Seq<u8>,
    pub serial_no: Seq<u8>,
    pub parent: u8,
    pub children: Seq<u8>,
    pub active: u8,
}

impl ComponentModel {
    /// Well-formedness: every fixed-width field has exactly its declared width.
    pub open spec fn wf(self) -> bool {
        &&& self.description.len() == DESCRIPTION_WIDTH
        &&& self.name.len() == NAME_WIDTH
        &&& self.serial_no.len() == SERIAL_WIDTH
        &&& self.children.len() == CHILD_CAPACITY
    }
}

impl View for Component {
    type V = ComponentModel;

    open spec fn view(&self) -> ComponentModel {
        ComponentModel {
            opcode: self.opcode,
            id: self.id,
            description: self.description@,
            name: self.name@,
            serial_no: self.serial_no@,
            parent: self.parent,
            children: self.children@,
            active: self.active,
        }
    }
}

impl Component {
    /// Well-formedness of the executable record, stated through its model.
    pub open spec fn wf(&self) -> bool {
        self@.wf()
    }
}

} // verus!
