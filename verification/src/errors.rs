use vstd::prelude::*;

verus! {

/// The failure taxonomy of the ledger core.
///
/// Every fatal condition is detected before any byte is written for the
/// failing step; a caller must treat any of these as "request rejected".
#[derive(Clone, Copy, Debug, PartialEq, Eq, Structural)]
pub enum LedgerError {
    /// The primary slot's owner differs from the executing identity.
    PermissionError,
    /// A payload or slot buffer does not have the exact fixed width of the
    /// record kind it is expected to hold.
    FormatError,
    /// The invocation did not supply a slot that the selected operation needs.
    MissingSlot,
}

} // verus!
