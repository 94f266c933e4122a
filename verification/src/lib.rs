use vstd::prelude::*;

pub mod ledger;
pub mod laws;
pub mod model;
pub mod records;
pub mod workflows;

verus! {

/// Lamports spent to fund a freshly provisioned asset account.
pub const MINT_FUNDING_LAMPORTS: u64 = 10000000;

/// Royalty rate, in basis points, that this system fixes for every metadata
/// record it registers or rewrites.
pub const DEFAULT_ROYALTY_BPS: u16 = 1;

/// Maximum number of issuable units a master edition permits here: the asset
/// is unique, so the cap is one.
pub const MASTER_EDITION_MAX_SUPPLY: u64 = 1;

/// Creator revenue shares of one metadata record must sum to exactly this.
pub const CREATOR_SHARE_TOTAL: u32 = 100;

/// Most creators a single metadata record may list.
pub const MAX_CREATORS: usize = 5;

/// A reference to a ledger account as one workflow invocation receives it:
/// the address plus the access rights the enclosing transaction declared.
#[derive(Clone, Copy, Debug, PartialEq, Eq, Structural)]
pub struct AccountRef {
    pub address: u64,
    pub is_signer: bool,
    pub is_writable: bool,
}

/// Everything that can go wrong in a workflow. The first failing step aborts
/// the whole invocation and no earlier effect of it survives.
#[derive(Clone, Copy, Debug, PartialEq, Eq, Structural)]
pub enum NftError {
    /// The funding principal is missing or too poor, or the target address is
    /// already occupied.
    AllocationFailed,
    /// The account is already an active asset record.
    AlreadyInitialized,
    /// The account was never allocated, or is owned by the wrong program.
    NotOwnedByAssetProgram,
    /// A holder account for this (owner, asset) pair, or at this address,
    /// already exists.
    AccountAlreadyExists,
    /// The acting principal is not the required authority, or did not sign.
    Unauthorized,
    /// Metadata already exists at the target address.
    AlreadyRegistered,
    /// The creator shares do not sum to exactly the required total.
    InvalidCreatorShares,
    /// A master edition for this asset, or at this address, already exists.
    EditionAlreadyExists,
    /// The sending holder account has no unit to move.
    InsufficientBalance,
    /// Sender and recipient hold different assets.
    AssetMismatch,
    /// No record exists where one was required.
    NotFound,
    /// An external program rejected the call for a reason outside this
    /// system's own taxonomy.
    ExternalProgramRejected,
}

} // verus!
