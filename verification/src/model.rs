use vstd::prelude::*;

use crate::records::{
    AssetAccount, CreatorEntry, HolderAccount, MasterEditionRecord, MetadataView, Wallet,
};
use crate::{AccountRef, NftError};
use crate::{CREATOR_SHARE_TOTAL, DEFAULT_ROYALTY_BPS, MASTER_EDITION_MAX_SUPPLY};
use crate::{MAX_CREATORS, MINT_FUNDING_LAMPORTS};

verus! {

/// The mathematical state of the ledger as this system sees it: one sequence
/// per kind of account it creates or mutates.
#[verifier::ext_equal]
pub ghost struct LedgerModel {
    pub wallets: Seq<Wallet>,
    pub assets: Seq<AssetAccount>,
    pub holders: Seq<HolderAccount>,
    pub metadata: Seq<MetadataView>,
    pub editions: Seq<MasterEditionRecord>,
}

// Lookups. Under `wf` at most one entry of a sequence matches, so the chosen
// index is the matching one.

pub open spec fn has_wallet(s: Seq<Wallet>, a: u64) -> bool {
    exists|i: int| 0 <= i < s.len() && s[i].address == a
}

pub open spec fn wallet_at(s: Seq<Wallet>, a: u64) -> int {
    choose|i: int| 0 <= i < s.len() && s[i].address == a
}

pub open spec fn has_asset(s: Seq<AssetAccount>, a: u64) -> bool {
    exists|i: int| 0 <= i < s.len() && s[i].address == a
}

pub open spec fn asset_at(s: Seq<AssetAccount>, a: u64) -> int {
    choose|i: int| 0 <= i < s.len() && s[i].address == a
}

pub open spec fn has_holder(s: Seq<HolderAccount>, a: u64) -> bool {
    exists|i: int| 0 <= i < s.len() && s[i].address == a
}

pub open spec fn holder_at(s: Seq<HolderAccount>, a: u64) -> int {
    choose|i: int| 0 <= i < s.len() && s[i].address == a
}

pub open spec fn has_holder_pair(s: Seq<HolderAccount>, owner: u64, asset: u64) -> bool {
    exists|i: int| 0 <= i < s.len() && s[i].owner == owner && s[i].asset == asset
}

pub open spec fn has_metadata(s: Seq<MetadataView>, a: u64) -> bool {
    exists|i: int| 0 <= i < s.len() && s[i].address == a
}

pub open spec fn metadata_at(s: Seq<MetadataView>, a: u64) -> int {
    choose|i: int| 0 <= i < s.len() && s[i].address == a
}

pub open spec fn has_edition(s: Seq<MasterEditionRecord>, a: u64) -> bool {
    exists|i: int| 0 <= i < s.len() && s[i].address == a
}

/// Whether the asset at address `asset` has been sealed as a master edition.
pub open spec fn has_edition_for(s: Seq<MasterEditionRecord>, asset: u64) -> bool {
    exists|i: int| 0 <= i < s.len() && s[i].asset == asset
}

pub open spec fn edition_for_at(s: Seq<MasterEditionRecord>, asset: u64) -> int {
    choose|i: int| 0 <= i < s.len() && s[i].asset == asset
}

/// No account of any kind occupies address `a`.
pub open spec fn addr_free(m: LedgerModel, a: u64) -> bool {
    &&& !has_wallet(m.wallets, a)
    &&& !has_asset(m.assets, a)
    &&& !has_holder(m.holders, a)
    &&& !has_metadata(m.metadata, a)
    &&& !has_edition(m.editions, a)
}

// Uniqueness of the keys each collection is looked up by.

pub open spec fn wallets_unique(s: Seq<Wallet>) -> bool {
    forall|i: int, j: int| 0 <= i < j < s.len() ==> s[i].address != s[j].address
}

pub open spec fn assets_unique(s: Seq<AssetAccount>) -> bool {
    forall|i: int, j: int| 0 <= i < j < s.len() ==> s[i].address != s[j].address
}

pub open spec fn holders_unique(s: Seq<HolderAccount>) -> bool {
    forall|i: int, j: int|
        0 <= i < j < s.len() ==> s[i].address != s[j].address && !(s[i].owner == s[j].owner
            && s[i].asset == s[j].asset)
}

pub open spec fn metadata_unique(s: Seq<MetadataView>) -> bool {
    forall|i: int, j: int| 0 <= i < j < s.len() ==> s[i].address != s[j].address
}

pub open spec fn editions_unique(s: Seq<MasterEditionRecord>) -> bool {
    forall|i: int, j: int|
        0 <= i < j < s.len() ==> s[i].address != s[j].address && s[i].asset != s[j].asset
}

/// Sum of the creator revenue shares.
pub open spec fn share_sum(s: Seq<CreatorEntry>) -> int
    decreases s.len(),
{
    if s.len() == 0 {
        0
    } else {
        share_sum(s.drop_last()) + s.last().share
    }
}

/// The creator list this system registers by default: the asset itself with
/// the whole share, and the authority with none, both unverified.
pub open spec fn default_creators(asset: u64, authority: u64) -> Seq<CreatorEntry> {
    seq![
        CreatorEntry { address: asset, verified: false, share: 100 },
        CreatorEntry { address: authority, verified: false, share: 0 },
    ]
}

/// Well-formedness of the ledger: every workflow of this system both assumes
/// and preserves it.
pub open spec fn wf(m: LedgerModel) -> bool {
    &&& wallets_unique(m.wallets)
    &&& assets_unique(m.assets)
    &&& holders_unique(m.holders)
    &&& metadata_unique(m.metadata)
    &&& editions_unique(m.editions)
    // every active asset record this system created has zero decimal places
    &&& (forall|i: int|
        0 <= i < m.assets.len() && (#[trigger] m.assets[i]).initialized ==> m.assets[i].decimals
            == 0)
    // creator shares of every registered metadata record sum to exactly 100
    &&& (forall|i: int|
        0 <= i < m.metadata.len() ==> share_sum((#[trigger] m.metadata[i]).creators)
            == CREATOR_SHARE_TOTAL)
    // every master edition caps issuance at one unit
    &&& (forall|i: int|
        0 <= i < m.editions.len() ==> (#[trigger] m.editions[i]).max_supply
            == MASTER_EDITION_MAX_SUPPLY)
    // a sealed asset exists, is active, and its supply never exceeds one
    &&& (forall|i: int|
        0 <= i < m.editions.len() ==> {
            let a = (#[trigger] m.editions[i]).asset;
            &&& has_asset(m.assets, a)
            &&& m.assets[asset_at(m.assets, a)].initialized
            &&& m.assets[asset_at(m.assets, a)].supply <= 1
        })
}

// The state transitions, one per orchestration step. Each is the whole
// specification of that step: which error it reports on which state, and the
// exact successor state on success.

/// Funding setup: give a fresh address a lamport balance.
pub open spec fn fund_wallet_model(m: LedgerModel, address: u64, lamports: u64) -> Result<
    LedgerModel,
    NftError,
> {
    if !addr_free(m, address) {
        Err(NftError::AccountAlreadyExists)
    } else {
        Ok(LedgerModel { wallets: m.wallets.push(Wallet { address, lamports }), ..m })
    }
}

/// Account provisioner: allocate raw storage for an asset record, funded by
/// `payer` and owned by `owner_program`.
pub open spec fn provision_model(m: LedgerModel, payer: u64, target: u64, owner_program: u64) -> Result<
    LedgerModel,
    NftError,
> {
    if !has_wallet(m.wallets, payer) {
        Err(NftError::AllocationFailed)
    } else if m.wallets[wallet_at(m.wallets, payer)].lamports < MINT_FUNDING_LAMPORTS {
        Err(NftError::AllocationFailed)
    } else if !addr_free(m, target) {
        Err(NftError::AllocationFailed)
    } else {
        let wi = wallet_at(m.wallets, payer);
        let paid = Wallet {
            address: payer,
            lamports: (m.wallets[wi].lamports - MINT_FUNDING_LAMPORTS) as u64,
        };
        Ok(
            LedgerModel {
                wallets: m.wallets.update(wi, paid),
                assets: m.assets.push(
                    AssetAccount {
                        address: target,
                        owner_program,
                        initialized: false,
                        decimals: 0,
                        supply_authority: 0,
                        freeze_authority: 0,
                        supply: 0,
                    },
                ),
                ..m
            },
        )
    }
}

/// Mint initializer: turn a raw, asset-program-owned account into an active
/// asset record with zero decimals and `authority` as both authorities.
pub open spec fn initialize_mint_model(m: LedgerModel, target: u64, authority: u64, asset_program: u64) -> Result<
    LedgerModel,
    NftError,
> {
    if !has_asset(m.assets, target) {
        Err(NftError::NotOwnedByAssetProgram)
    } else if m.assets[asset_at(m.assets, target)].initialized {
        Err(NftError::AlreadyInitialized)
    } else if m.assets[asset_at(m.assets, target)].owner_program != asset_program {
        Err(NftError::NotOwnedByAssetProgram)
    } else {
        let ai = asset_at(m.assets, target);
        Ok(
            LedgerModel {
                assets: m.assets.update(
                    ai,
                    AssetAccount {
                        address: target,
                        owner_program: asset_program,
                        initialized: true,
                        decimals: 0,
                        supply_authority: authority,
                        freeze_authority: authority,
                        supply: 0,
                    },
                ),
                ..m
            },
        )
    }
}

/// Holder account resolver: create the holder account of `(owner, asset)` at
/// `target`. At most one holder account may exist per pair.
pub open spec fn create_holder_model(m: LedgerModel, owner: u64, asset: u64, target: u64) -> Result<
    LedgerModel,
    NftError,
> {
    if !(has_asset(m.assets, asset) && m.assets[asset_at(m.assets, asset)].initialized) {
        Err(NftError::NotFound)
    } else if has_holder_pair(m.holders, owner, asset) {
        Err(NftError::AccountAlreadyExists)
    } else if !addr_free(m, target) {
        Err(NftError::AccountAlreadyExists)
    } else {
        Ok(
            LedgerModel {
                holders: m.holders.push(
                    HolderAccount { address: target, owner, asset, balance: 0 },
                ),
                ..m
            },
        )
    }
}

/// Issuance engine: mint exactly one unit of `asset` into `holder`, on the
/// authority of the asset's supply authority.
pub open spec fn issue_model(m: LedgerModel, asset: u64, holder: u64, authority: AccountRef) -> Result<
    LedgerModel,
    NftError,
> {
    if !(has_asset(m.assets, asset) && m.assets[asset_at(m.assets, asset)].initialized) {
        Err(NftError::NotFound)
    } else if !has_holder(m.holders, holder) {
        Err(NftError::NotFound)
    } else if m.holders[holder_at(m.holders, holder)].asset != asset {
        Err(NftError::AssetMismatch)
    } else if !(authority.is_signer && authority.address == m.assets[asset_at(
        m.assets,
        asset,
    )].supply_authority) {
        Err(NftError::Unauthorized)
    } else if has_edition_for(m.editions, asset) {
        Err(NftError::EditionAlreadyExists)
    } else if m.assets[asset_at(m.assets, asset)].supply == u64::MAX || m.holders[holder_at(
        m.holders,
        holder,
    )].balance == u64::MAX {
        Err(NftError::ExternalProgramRejected)
    } else {
        let ai = asset_at(m.assets, asset);
        let hi = holder_at(m.holders, holder);
        let a = m.assets[ai];
        let h = m.holders[hi];
        Ok(
            LedgerModel {
                assets: m.assets.update(ai, AssetAccount { supply: (a.supply + 1) as u64, ..a }),
                holders: m.holders.update(
                    hi,
                    HolderAccount { balance: (h.balance + 1) as u64, ..h },
                ),
                ..m
            },
        )
    }
}

/// Metadata registrar: attach a metadata record for `asset` at `target`,
/// mutable, with `authority` recorded as update authority.
pub open spec fn register_metadata_model(
    m: LedgerModel,
    target: u64,
    asset: u64,
    authority: AccountRef,
    title: Seq<char>,
    symbol: Seq<char>,
    uri: Seq<char>,
    creators: Seq<CreatorEntry>,
    royalty_bps: u16,
) -> Result<LedgerModel, NftError> {
    if has_metadata(m.metadata, target) {
        Err(NftError::AlreadyRegistered)
    } else if creators.len() > MAX_CREATORS {
        Err(NftError::ExternalProgramRejected)
    } else if share_sum(creators) != CREATOR_SHARE_TOTAL {
        Err(NftError::InvalidCreatorShares)
    } else if !(has_asset(m.assets, asset) && m.assets[asset_at(m.assets, asset)].initialized) {
        Err(NftError::NotFound)
    } else if !(authority.is_signer && authority.address == m.assets[asset_at(
        m.assets,
        asset,
    )].supply_authority) {
        Err(NftError::Unauthorized)
    } else {
        Ok(
            LedgerModel {
                metadata: m.metadata.push(
                    MetadataView {
                        address: target,
                        asset,
                        title,
                        symbol,
                        uri,
                        royalty_bps,
                        creators,
                        is_mutable: true,
                        update_authority: authority.address,
                    },
                ),
                ..m
            },
        )
    }
}

/// Edition sealer: record `asset` as a finished unique edition with at most
/// one issuable unit. Requires the supply to be exactly one already.
pub open spec fn seal_edition_model(
    m: LedgerModel,
    target: u64,
    asset: u64,
    metadata_addr: u64,
    authority: AccountRef,
) -> Result<LedgerModel, NftError> {
    if has_edition_for(m.editions, asset) || has_edition(m.editions, target) {
        Err(NftError::EditionAlreadyExists)
    } else if !(has_asset(m.assets, asset) && m.assets[asset_at(m.assets, asset)].initialized) {
        Err(NftError::NotFound)
    } else if !has_metadata(m.metadata, metadata_addr) {
        Err(NftError::NotFound)
    } else if m.metadata[metadata_at(m.metadata, metadata_addr)].asset != asset {
        Err(NftError::AssetMismatch)
    } else if !(authority.is_signer && authority.address == m.assets[asset_at(
        m.assets,
        asset,
    )].supply_authority) {
        Err(NftError::Unauthorized)
    } else if m.assets[asset_at(m.assets, asset)].supply != 1 {
        Err(NftError::ExternalProgramRejected)
    } else {
        Ok(
            LedgerModel {
                editions: m.editions.push(
                    MasterEditionRecord {
                        address: target,
                        asset,
                        max_supply: MASTER_EDITION_MAX_SUPPLY,
                        issued: 0,
                    },
                ),
                ..m
            },
        )
    }
}

/// Transfer executor: move one unit from `sender` to `recipient`, on the
/// authority of the sending holder account's owner.
pub open spec fn transfer_model(m: LedgerModel, sender: u64, recipient: u64, authority: AccountRef) -> Result<
    LedgerModel,
    NftError,
> {
    if !has_holder(m.holders, sender) {
        Err(NftError::NotFound)
    } else if !has_holder(m.holders, recipient) {
        Err(NftError::NotFound)
    } else if m.holders[holder_at(m.holders, sender)].asset != m.holders[holder_at(
        m.holders,
        recipient,
    )].asset {
        Err(NftError::AssetMismatch)
    } else if !(authority.is_signer && authority.address == m.holders[holder_at(
        m.holders,
        sender,
    )].owner) {
        Err(NftError::Unauthorized)
    } else if m.holders[holder_at(m.holders, sender)].balance == 0 {
        Err(NftError::InsufficientBalance)
    } else if sender == recipient {
        Ok(m)
    } else if m.holders[holder_at(m.holders, recipient)].balance == u64::MAX {
        Err(NftError::ExternalProgramRejected)
    } else {
        let si = holder_at(m.holders, sender);
        let ri = holder_at(m.holders, recipient);
        let s = m.holders[si];
        let r = m.holders[ri];
        Ok(
            LedgerModel {
                holders: m.holders.update(
                    si,
                    HolderAccount { balance: (s.balance - 1) as u64, ..s },
                ).update(ri, HolderAccount { balance: (r.balance + 1) as u64, ..r }),
                ..m
            },
        )
    }
}

/// Metadata updater: replace title, symbol and URI of the record at `target`;
/// royalty rate and creator list return to this system's fixed defaults, and
/// the record stays mutable.
pub open spec fn update_metadata_model(
    m: LedgerModel,
    target: u64,
    authority: AccountRef,
    title: Seq<char>,
    symbol: Seq<char>,
    uri: Seq<char>,
) -> Result<LedgerModel, NftError> {
    if !has_metadata(m.metadata, target) {
        Err(NftError::NotFound)
    } else if !(authority.is_signer && authority.address == m.metadata[metadata_at(
        m.metadata,
        target,
    )].update_authority) {
        Err(NftError::Unauthorized)
    } else {
        let mi = metadata_at(m.metadata, target);
        let old_rec = m.metadata[mi];
        Ok(
            LedgerModel {
                metadata: m.metadata.update(
                    mi,
                    MetadataView {
                        title,
                        symbol,
                        uri,
                        royalty_bps: DEFAULT_ROYALTY_BPS,
                        creators: default_creators(old_rec.asset, old_rec.update_authority),
                        is_mutable: true,
                        ..old_rec
                    },
                ),
                ..m
            },
        )
    }
}

} // verus!
