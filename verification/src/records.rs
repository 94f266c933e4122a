use vstd::prelude::*;

verus! {

/// A plain funding principal: an address holding lamports.
#[derive(Clone, Copy, Debug, PartialEq, Eq, Structural)]
pub struct Wallet {
    pub address: u64,
    pub lamports: u64,
}

/// Storage for one asset. Provisioning allocates it raw (`initialized` is
/// false and the remaining fields carry no meaning yet); the mint initializer
/// turns it into an active asset record with zero decimal places.
#[derive(Clone, Copy, Debug, PartialEq, Eq, Structural)]
pub struct AssetAccount {
    pub address: u64,
    /// The program the allocation assigned the account to.
    pub owner_program: u64,
    /// Whether the account has been initialized as an active asset record.
    pub initialized: bool,
    pub decimals: u8,
    pub supply_authority: u64,
    pub freeze_authority: u64,
    pub supply: u64,
}

/// The balance of one asset held for one owner. Exactly one holder account
/// exists per (owner, asset) pair.
#[derive(Clone, Copy, Debug, PartialEq, Eq, Structural)]
pub struct HolderAccount {
    pub address: u64,
    pub owner: u64,
    pub asset: u64,
    pub balance: u64,
}

/// One entry of a metadata record's creator list.
#[derive(Clone, Copy, Debug, PartialEq, Eq, Structural)]
pub struct CreatorEntry {
    pub address: u64,
    pub verified: bool,
    pub share: u8,
}

/// Descriptive data attached to one asset.
pub struct MetadataRecord {
    pub address: u64,
    pub asset: u64,
    pub title: String,
    pub symbol: String,
    pub uri: String,
    pub royalty_bps: u16,
    pub creators: Vec<CreatorEntry>,
    pub is_mutable: bool,
    pub update_authority: u64,
}

/// The mathematical value of a metadata record.
#[verifier::ext_equal]
pub ghost struct MetadataView {
    pub address: u64,
    pub asset: u64,
    pub title: Seq<char>,
    pub symbol: Seq<char>,
    pub uri: Seq<char>,
    pub royalty_bps: u16,
    pub creators: Seq<CreatorEntry>,
    pub is_mutable: bool,
    pub update_authority: u64,
}

impl View for MetadataRecord {
    type V = MetadataView;

    open spec fn view(&self) -> MetadataView {
        MetadataView {
            address: self.address,
            asset: self.asset,
            title: self.title@,
            symbol: self.symbol@,
            uri: self.uri@,
            royalty_bps: self.royalty_bps,
            creators: self.creators@,
            is_mutable: self.is_mutable,
            update_authority: self.update_authority,
        }
    }
}

/// The record that seals an asset as a finished unique edition, capping the
/// units it may ever issue.
#[derive(Clone, Copy, Debug, PartialEq, Eq, Structural)]
pub struct MasterEditionRecord {
    pub address: u64,
    pub asset: u64,
    pub max_supply: u64,
    pub issued: u64,
}

} // verus!
