use vstd::prelude::*;

verus! {

/// Every way a contract operation can fail.  Each operation reports exactly
/// one of these and leaves the persistent state untouched when it does.
#[derive(Debug, Clone, Copy, PartialEq, Eq, Structural)]
pub enum ContractError {
    /// The caller is not allowed to perform the attempted action, or a refund
    /// was attempted on a record that is not expired or by the wrong caller.
    Unauthorized {},
    /// A funding or top-up balance carried no value at all.
    EmptyBalance {},
    /// An escrow with the requested id already exists.
    AlreadyInUse {},
    /// A token top-up named a contract address outside the record's whitelist.
    NotInWhitelist {},
    /// Approval was attempted before any recipient was assigned.
    RecipientNotSet {},
    /// Approval was attempted after the record's deadline passed.
    Expired {},
    /// The requested escrow id has no record.
    NotFound {},
    /// An address string is not well formed.
    AddressValidation {},
    /// Adding balances would exceed the representable amount range.
    ArithmeticOverflow {},
}

} // verus!
