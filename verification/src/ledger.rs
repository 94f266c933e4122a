use vstd::pervasive::VecAdditionalExecFns;
use vstd::prelude::*;

use crate::model::{
    addr_free, asset_at, assets_unique, create_holder_model, default_creators, edition_for_at,
    editions_unique,
    fund_wallet_model, has_asset, has_edition, has_edition_for, has_holder, has_holder_pair,
    has_metadata, has_wallet, holder_at, holders_unique, initialize_mint_model, issue_model,
    metadata_at, metadata_unique, provision_model, register_metadata_model, seal_edition_model,
    share_sum, transfer_model, update_metadata_model, wallet_at, wallets_unique, wf, LedgerModel,
};
use crate::records::{
    AssetAccount, CreatorEntry, HolderAccount, MasterEditionRecord, MetadataRecord, MetadataView,
    Wallet,
};
use crate::{AccountRef, NftError};
use crate::{CREATOR_SHARE_TOTAL, DEFAULT_ROYALTY_BPS, MASTER_EDITION_MAX_SUPPLY};
use crate::{MAX_CREATORS, MINT_FUNDING_LAMPORTS};

verus! {

/// The view of a metadata record sequence.
pub open spec fn meta_views(v: Seq<MetadataRecord>) -> Seq<MetadataView> {
    v.map_values(|r: MetadataRecord| r@)
}

pub proof fn lemma_meta_views(v: Seq<MetadataRecord>)
    ensures
        meta_views(v).len() == v.len(),
        forall|i: int| 0 <= i < v.len() ==> meta_views(v)[i] == v[i]@,
{
}

/// The ledger state this system creates and mutates, one collection per kind
/// of account.
pub struct Ledger {
    pub wallets: Vec<Wallet>,
    pub assets: Vec<AssetAccount>,
    pub holders: Vec<HolderAccount>,
    pub metadata: Vec<MetadataRecord>,
    pub editions: Vec<MasterEditionRecord>,
}

impl View for Ledger {
    type V = LedgerModel;

    open spec fn view(&self) -> LedgerModel {
        LedgerModel {
            wallets: self.wallets@,
            assets: self.assets@,
            holders: self.holders@,
            metadata: meta_views(self.metadata@),
            editions: self.editions@,
        }
    }
}

// Lemmas pinning the chosen lookup index to a known witness.

pub proof fn lemma_wallet_at_is(s: Seq<Wallet>, a: u64, i: int)
    requires
        wallets_unique(s),
        0 <= i < s.len(),
        s[i].address == a,
    ensures
        has_wallet(s, a),
        wallet_at(s, a) == i,
{
    assert(has_wallet(s, a));
    let j = wallet_at(s, a);
    assert(0 <= j < s.len() && s[j].address == a);
}

pub proof fn lemma_asset_at_is(s: Seq<AssetAccount>, a: u64, i: int)
    requires
        assets_unique(s),
        0 <= i < s.len(),
        s[i].address == a,
    ensures
        has_asset(s, a),
        asset_at(s, a) == i,
{
    assert(has_asset(s, a));
    let j = asset_at(s, a);
    assert(0 <= j < s.len() && s[j].address == a);
}

pub proof fn lemma_holder_at_is(s: Seq<HolderAccount>, a: u64, i: int)
    requires
        holders_unique(s),
        0 <= i < s.len(),
        s[i].address == a,
    ensures
        has_holder(s, a),
        holder_at(s, a) == i,
{
    assert(has_holder(s, a));
    let j = holder_at(s, a);
    assert(0 <= j < s.len() && s[j].address == a);
}

pub proof fn lemma_metadata_at_is(s: Seq<MetadataView>, a: u64, i: int)
    requires
        metadata_unique(s),
        0 <= i < s.len(),
        s[i].address == a,
    ensures
        has_metadata(s, a),
        metadata_at(s, a) == i,
{
    assert(has_metadata(s, a));
    let j = metadata_at(s, a);
    assert(0 <= j < s.len() && s[j].address == a);
}

/// The default creator list carries the whole share total.
pub proof fn lemma_default_creators_sum(asset: u64, authority: u64)
    ensures
        share_sum(default_creators(asset, authority)) == CREATOR_SHARE_TOTAL,
        default_creators(asset, authority).len() == 2,
{
    let s = default_creators(asset, authority);
    assert(s.drop_last() =~= seq![CreatorEntry { address: asset, verified: false, share: 100 }]);
    assert(s.drop_last().drop_last() =~= Seq::<CreatorEntry>::empty());
    assert(share_sum(s.drop_last().drop_last()) == 0);
    assert(s.drop_last().last().share == 100);
    assert(share_sum(s.drop_last()) == 100);
    assert(s.last().share == 0);
    assert(share_sum(s) == share_sum(s.drop_last()) + s.last().share);
}

// Search helpers over the stored collections.

fn find_wallet(v: &Vec<Wallet>, a: u64) -> (r: Option<usize>)
    ensures
        match r {
            Some(i) => i < v@.len() && v@[i as int].address == a,
            None => !has_wallet(v@, a),
        },
{
    let mut i: usize = 0;
    while i < v.len()
        invariant
            i <= v@.len(),
            forall|j: int| 0 <= j < i ==> v@[j].address != a,
        decreases v@.len() - i,
    {
        if v[i].address == a {
            return Some(i);
        }
        i = i + 1;
    }
    None
}

fn find_asset(v: &Vec<AssetAccount>, a: u64) -> (r: Option<usize>)
    ensures
        match r {
            Some(i) => i < v@.len() && v@[i as int].address == a,
            None => !has_asset(v@, a),
        },
{
    let mut i: usize = 0;
    while i < v.len()
        invariant
            i <= v@.len(),
            forall|j: int| 0 <= j < i ==> v@[j].address != a,
        decreases v@.len() - i,
    {
        if v[i].address == a {
            return Some(i);
        }
        i = i + 1;
    }
    None
}

fn find_holder(v: &Vec<HolderAccount>, a: u64) -> (r: Option<usize>)
    ensures
        match r {
            Some(i) => i < v@.len() && v@[i as int].address == a,
            None => !has_holder(v@, a),
        },
{
    let mut i: usize = 0;
    while i < v.len()
        invariant
            i <= v@.len(),
            forall|j: int| 0 <= j < i ==> v@[j].address != a,
        decreases v@.len() - i,
    {
        if v[i].address == a {
            return Some(i);
        }
        i = i + 1;
    }
    None
}

fn holder_pair_exists(v: &Vec<HolderAccount>, owner: u64, asset: u64) -> (r: bool)
    ensures
        r == has_holder_pair(v@, owner, asset),
{
    let mut i: usize = 0;
    while i < v.len()
        invariant
            i <= v@.len(),
            forall|j: int| 0 <= j < i ==> !(v@[j].owner == owner && v@[j].asset == asset),
        decreases v@.len() - i,
    {
        if v[i].owner == owner && v[i].asset == asset {
            return true;
        }
        i = i + 1;
    }
    false
}

fn find_metadata(v: &Vec<MetadataRecord>, a: u64) -> (r: Option<usize>)
    ensures
        match r {
            Some(i) => i < v@.len() && meta_views(v@)[i as int].address == a,
            None => !has_metadata(meta_views(v@), a),
        },
{
    proof {
        lemma_meta_views(v@);
    }
    let mut i: usize = 0;
    while i < v.len()
        invariant
            i <= v@.len(),
            meta_views(v@).len() == v@.len(),
            forall|j: int| 0 <= j < i ==> meta_views(v@)[j].address != a,
            forall|j: int| 0 <= j < v@.len() ==> meta_views(v@)[j] == v@[j]@,
        decreases v@.len() - i,
    {
        if v[i].address == a {
            return Some(i);
        }
        i = i + 1;
    }
    None
}

fn edition_exists(v: &Vec<MasterEditionRecord>, a: u64) -> (r: bool)
    ensures
        r == has_edition(v@, a),
{
    let mut i: usize = 0;
    while i < v.len()
        invariant
            i <= v@.len(),
            forall|j: int| 0 <= j < i ==> v@[j].address != a,
        decreases v@.len() - i,
    {
        if v[i].address == a {
            return true;
        }
        i = i + 1;
    }
    false
}

fn edition_for_exists(v: &Vec<MasterEditionRecord>, asset: u64) -> (r: bool)
    ensures
        r == has_edition_for(v@, asset),
{
    let mut i: usize = 0;
    while i < v.len()
        invariant
            i <= v@.len(),
            forall|j: int| 0 <= j < i ==> v@[j].asset != asset,
        decreases v@.len() - i,
    {
        if v[i].asset == asset {
            return true;
        }
        i = i + 1;
    }
    false
}

/// Sum of the creator shares, exact for any list short enough to register.
fn shares_total(v: &Vec<CreatorEntry>) -> (t: u32)
    requires
        v@.len() <= MAX_CREATORS,
    ensures
        t == share_sum(v@),
{
    let mut t: u32 = 0;
    let mut i: usize = 0;
    while i < v.len()
        invariant
            i <= v@.len(),
            v@.len() <= MAX_CREATORS,
            t == share_sum(v@.take(i as int)),
            t <= 255 * i,
        decreases v@.len() - i,
    {
        proof {
            assert(v@.take(i + 1).drop_last() =~= v@.take(i as int));
            assert(v@.take(i + 1).last() == v@[i as int]);
        }
        t = t + v[i].share as u32;
        i = i + 1;
    }
    proof {
        assert(v@.take(v@.len() as int) =~= v@);
    }
    t
}

/// An element-for-element copy of a vector of plain values.
fn copy_vec<T: Copy>(v: &Vec<T>) -> (r: Vec<T>)
    ensures
        r@ == v@,
{
    let mut r: Vec<T> = Vec::new();
    let mut i: usize = 0;
    while i < v.len()
        invariant
            i <= v@.len(),
            r@ == v@.take(i as int),
        decreases v@.len() - i,
    {
        r.push(v[i]);
        proof {
            assert(v@.take(i as int).push(v@[i as int]) =~= v@.take(i + 1));
        }
        i = i + 1;
    }
    proof {
        assert(v@.take(v@.len() as int) =~= v@);
    }
    r
}

/// A copy of one metadata record with the same view.
fn duplicate_metadata(r0: &MetadataRecord) -> (r: MetadataRecord)
    ensures
        r@ == r0@,
{
    let r = MetadataRecord {
        address: r0.address,
        asset: r0.asset,
        title: r0.title.clone(),
        symbol: r0.symbol.clone(),
        uri: r0.uri.clone(),
        royalty_bps: r0.royalty_bps,
        creators: copy_vec(&r0.creators),
        is_mutable: r0.is_mutable,
        update_authority: r0.update_authority,
    };
    proof {
        assert(r@ =~= r0@);
    }
    r
}

/// A copy of the metadata collection with the same view.
fn clone_metadata_vec(v: &Vec<MetadataRecord>) -> (r: Vec<MetadataRecord>)
    ensures
        meta_views(r@) == meta_views(v@),
{
    let mut r: Vec<MetadataRecord> = Vec::new();
    let mut i: usize = 0;
    while i < v.len()
        invariant
            i <= v@.len(),
            r@.len() == i,
            forall|j: int| 0 <= j < i ==> r@[j]@ == v@[j]@,
        decreases v@.len() - i,
    {
        let d = duplicate_metadata(&v[i]);
        r.push(d);
        i = i + 1;
    }
    proof {
        lemma_meta_views(r@);
        lemma_meta_views(v@);
        assert(meta_views(r@) =~= meta_views(v@));
    }
    r
}

impl Ledger {
    /// A copy of the whole ledger with the same state.
    pub fn snapshot(&self) -> (r: Ledger)
        ensures
            r@ == self@,
    {
        let r = Ledger {
            wallets: copy_vec(&self.wallets),
            assets: copy_vec(&self.assets),
            holders: copy_vec(&self.holders),
            metadata: clone_metadata_vec(&self.metadata),
            editions: copy_vec(&self.editions),
        };
        proof {
            assert(r@ =~= self@);
        }
        r
    }

    /// An empty ledger.
    pub fn new() -> (r: Ledger)
        ensures
            r@.wallets.len() == 0,
            r@.assets.len() == 0,
            r@.holders.len() == 0,
            r@.metadata.len() == 0,
            r@.editions.len() == 0,
            wf(r@),
    {
        let r = Ledger {
            wallets: Vec::new(),
            assets: Vec::new(),
            holders: Vec::new(),
            metadata: Vec::new(),
            editions: Vec::new(),
        };
        proof {
            lemma_meta_views(r.metadata@);
        }
        r
    }

    /// Whether no account of any kind occupies `a`.
    fn address_free(&self, a: u64) -> (r: bool)
        ensures
            r == addr_free(self@, a),
    {
        let mut free = true;
        match find_wallet(&self.wallets, a) {
            Some(i) => {
                proof {
                    assert(has_wallet(self@.wallets, a));
                }
                free = false;
            },
            None => {},
        }
        match find_asset(&self.assets, a) {
            Some(i) => {
                proof {
                    assert(has_asset(self@.assets, a));
                }
                free = false;
            },
            None => {},
        }
        match find_holder(&self.holders, a) {
            Some(i) => {
                proof {
                    assert(has_holder(self@.holders, a));
                }
                free = false;
            },
            None => {},
        }
        match find_metadata(&self.metadata, a) {
            Some(i) => {
                proof {
                    assert(has_metadata(self@.metadata, a));
                }
                free = false;
            },
            None => {},
        }
        if edition_exists(&self.editions, a) {
            free = false;
        }
        free
    }

    /// Funding setup: give a fresh address a lamport balance, so that it can
    /// pay for provisioning.
    pub fn fund_wallet(&mut self, address: u64, lamports: u64) -> (r: Result<(), NftError>)
        requires
            wf(old(self)@),
        ensures
            wf(final(self)@),
            r is Ok ==> fund_wallet_model(old(self)@, address, lamports) == Ok::<
                LedgerModel,
                NftError,
            >(final(self)@),
            r is Err ==> final(self)@ == old(self)@ && fund_wallet_model(
                old(self)@,
                address,
                lamports,
            ) == Err::<LedgerModel, NftError>(r->Err_0),
    {
        if !self.address_free(address) {
            return Err(NftError::AccountAlreadyExists);
        }
        self.wallets.push(Wallet { address, lamports });
        proof {
            assert(self@ =~= fund_wallet_model(old(self)@, address, lamports)->Ok_0);
            lemma_fund_wallet_wf(old(self)@, address, lamports);
        }
        Ok(())
    }

    /// Account provisioner: allocate raw storage for an asset record at
    /// `target`, funded by `payer` and owned by `owner_program`.
    pub fn provision_account(&mut self, payer: u64, target: u64, owner_program: u64) -> (r: Result<
        (),
        NftError,
    >)
        requires
            wf(old(self)@),
        ensures
            wf(final(self)@),
            r is Ok ==> provision_model(old(self)@, payer, target, owner_program) == Ok::<
                LedgerModel,
                NftError,
            >(final(self)@),
            r is Err ==> final(self)@ == old(self)@ && provision_model(
                old(self)@,
                payer,
                target,
                owner_program,
            ) == Err::<LedgerModel, NftError>(r->Err_0),
    {
        let wi: usize;
        match find_wallet(&self.wallets, payer) {
            Some(i) => {
                wi = i;
            },
            None => {
                return Err(NftError::AllocationFailed);
            },
        }
        proof {
            lemma_wallet_at_is(self@.wallets, payer, wi as int);
        }
        let lam = self.wallets[wi].lamports;
        if lam < MINT_FUNDING_LAMPORTS {
            return Err(NftError::AllocationFailed);
        }
        if !self.address_free(target) {
            return Err(NftError::AllocationFailed);
        }
        self.wallets.set(wi, Wallet { address: payer, lamports: lam - MINT_FUNDING_LAMPORTS });
        self.assets.push(
            AssetAccount {
                address: target,
                owner_program,
                initialized: false,
                decimals: 0,
                supply_authority: 0,
                freeze_authority: 0,
                supply: 0,
            },
        );
        proof {
            assert(self@ =~= provision_model(old(self)@, payer, target, owner_program)->Ok_0);
            lemma_provision_wf(old(self)@, payer, target, owner_program);
        }
        Ok(())
    }

    /// Mint initializer: turn the raw, asset-program-owned account at `target`
    /// into an active asset record with zero decimal places, with `authority`
    /// as both supply and freeze authority.
    pub fn initialize_mint(&mut self, target: u64, authority: u64, asset_program: u64) -> (r: Result<
        (),
        NftError,
    >)
        requires
            wf(old(self)@),
        ensures
            wf(final(self)@),
            r is Ok ==> initialize_mint_model(old(self)@, target, authority, asset_program) == Ok::<
                LedgerModel,
                NftError,
            >(final(self)@),
            r is Err ==> final(self)@ == old(self)@ && initialize_mint_model(
                old(self)@,
                target,
                authority,
                asset_program,
            ) == Err::<LedgerModel, NftError>(r->Err_0),
    {
        let ai: usize;
        match find_asset(&self.assets, target) {
            Some(i) => {
                ai = i;
            },
            None => {
                return Err(NftError::NotOwnedByAssetProgram);
            },
        }
        proof {
            lemma_asset_at_is(self@.assets, target, ai as int);
        }
        if self.assets[ai].initialized {
            return Err(NftError::AlreadyInitialized);
        }
        if self.assets[ai].owner_program != asset_program {
            return Err(NftError::NotOwnedByAssetProgram);
        }
        self.assets.set(
            ai,
            AssetAccount {
                address: target,
                owner_program: asset_program,
                initialized: true,
                decimals: 0,
                supply_authority: authority,
                freeze_authority: authority,
                supply: 0,
            },
        );
        proof {
            assert(self@ =~= initialize_mint_model(
                old(self)@,
                target,
                authority,
                asset_program,
            )->Ok_0);
            lemma_initialize_mint_wf(old(self)@, target, authority, asset_program);
        }
        Ok(())
    }
}

impl Ledger {
    /// Holder account resolver: create the holder account of `(owner, asset)`
    /// at `target`; at most one holder account may exist per pair.
    pub fn create_holder(&mut self, owner: u64, asset: u64, target: u64) -> (r: Result<
        (),
        NftError,
    >)
        requires
            wf(old(self)@),
        ensures
            wf(final(self)@),
            r is Ok ==> create_holder_model(old(self)@, owner, asset, target) == Ok::<
                LedgerModel,
                NftError,
            >(final(self)@),
            r is Err ==> final(self)@ == old(self)@ && create_holder_model(
                old(self)@,
                owner,
                asset,
                target,
            ) == Err::<LedgerModel, NftError>(r->Err_0),
    {
        let ai: usize;
        match find_asset(&self.assets, asset) {
            Some(i) => {
                ai = i;
            },
            None => {
                return Err(NftError::NotFound);
            },
        }
        proof {
            lemma_asset_at_is(self@.assets, asset, ai as int);
        }
        if !self.assets[ai].initialized {
            return Err(NftError::NotFound);
        }
        if holder_pair_exists(&self.holders, owner, asset) {
            return Err(NftError::AccountAlreadyExists);
        }
        if !self.address_free(target) {
            return Err(NftError::AccountAlreadyExists);
        }
        self.holders.push(HolderAccount { address: target, owner, asset, balance: 0 });
        proof {
            assert(self@ =~= create_holder_model(old(self)@, owner, asset, target)->Ok_0);
            lemma_create_holder_wf(old(self)@, owner, asset, target);
        }
        Ok(())
    }

    /// Issuance engine: mint exactly one unit of `asset` into `holder`, on
    /// the authority of the asset's supply authority.
    pub fn issue_unit(&mut self, asset: u64, holder: u64, authority: AccountRef) -> (r: Result<
        (),
        NftError,
    >)
        requires
            wf(old(self)@),
        ensures
            wf(final(self)@),
            r is Ok ==> issue_model(old(self)@, asset, holder, authority) == Ok::<
                LedgerModel,
                NftError,
            >(final(self)@),
            r is Err ==> final(self)@ == old(self)@ && issue_model(
                old(self)@,
                asset,
                holder,
                authority,
            ) == Err::<LedgerModel, NftError>(r->Err_0),
    {
        let ai: usize;
        match find_asset(&self.assets, asset) {
            Some(i) => {
                ai = i;
            },
            None => {
                return Err(NftError::NotFound);
            },
        }
        proof {
            lemma_asset_at_is(self@.assets, asset, ai as int);
        }
        if !self.assets[ai].initialized {
            return Err(NftError::NotFound);
        }
        let hi: usize;
        match find_holder(&self.holders, holder) {
            Some(i) => {
                hi = i;
            },
            None => {
                return Err(NftError::NotFound);
            },
        }
        proof {
            lemma_holder_at_is(self@.holders, holder, hi as int);
        }
        if self.holders[hi].asset != asset {
            return Err(NftError::AssetMismatch);
        }
        if !(authority.is_signer && authority.address == self.assets[ai].supply_authority) {
            return Err(NftError::Unauthorized);
        }
        if edition_for_exists(&self.editions, asset) {
            return Err(NftError::EditionAlreadyExists);
        }
        let a = self.assets[ai];
        let h = self.holders[hi];
        if a.supply == u64::MAX || h.balance == u64::MAX {
            return Err(NftError::ExternalProgramRejected);
        }
        self.assets.set(ai, AssetAccount { supply: a.supply + 1, ..a });
        self.holders.set(hi, HolderAccount { balance: h.balance + 1, ..h });
        proof {
            assert(self@ =~= issue_model(old(self)@, asset, holder, authority)->Ok_0);
            lemma_issue_wf(old(self)@, asset, holder, authority);
        }
        Ok(())
    }

    /// Metadata registrar: attach a metadata record for `asset` at `target`.
    /// The record is mutable and `authority` becomes its update authority.
    pub fn register_metadata(
        &mut self,
        target: u64,
        asset: u64,
        authority: AccountRef,
        title: String,
        symbol: String,
        uri: String,
        creators: Vec<CreatorEntry>,
        royalty_bps: u16,
    ) -> (r: Result<(), NftError>)
        requires
            wf(old(self)@),
        ensures
            wf(final(self)@),
            r is Ok ==> register_metadata_model(
                old(self)@,
                target,
                asset,
                authority,
                title@,
                symbol@,
                uri@,
                creators@,
                royalty_bps,
            ) == Ok::<LedgerModel, NftError>(final(self)@),
            r is Err ==> final(self)@ == old(self)@ && register_metadata_model(
                old(self)@,
                target,
                asset,
                authority,
                title@,
                symbol@,
                uri@,
                creators@,
                royalty_bps,
            ) == Err::<LedgerModel, NftError>(r->Err_0),
    {
        match find_metadata(&self.metadata, target) {
            Some(_) => {
                proof {
                    assert(has_metadata(self@.metadata, target));
                }
                return Err(NftError::AlreadyRegistered);
            },
            None => {},
        }
        if creators.len() > MAX_CREATORS {
            return Err(NftError::ExternalProgramRejected);
        }
        if shares_total(&creators) != CREATOR_SHARE_TOTAL {
            return Err(NftError::InvalidCreatorShares);
        }
        let ai: usize;
        match find_asset(&self.assets, asset) {
            Some(i) => {
                ai = i;
            },
            None => {
                return Err(NftError::NotFound);
            },
        }
        proof {
            lemma_asset_at_is(self@.assets, asset, ai as int);
        }
        if !self.assets[ai].initialized {
            return Err(NftError::NotFound);
        }
        if !(authority.is_signer && authority.address == self.assets[ai].supply_authority) {
            return Err(NftError::Unauthorized);
        }
        let ghost m = self@;
        let rec = MetadataRecord {
            address: target,
            asset,
            title,
            symbol,
            uri,
            royalty_bps,
            creators,
            is_mutable: true,
            update_authority: authority.address,
        };
        proof {
            lemma_meta_views_push(self.metadata@, rec);
        }
        self.metadata.push(rec);
        proof {
            assert(self@ =~= register_metadata_model(
                m,
                target,
                asset,
                authority,
                rec.title@,
                rec.symbol@,
                rec.uri@,
                rec.creators@,
                royalty_bps,
            )->Ok_0);
            lemma_register_metadata_wf(
                m,
                target,
                asset,
                authority,
                rec.title@,
                rec.symbol@,
                rec.uri@,
                rec.creators@,
                royalty_bps,
            );
        }
        Ok(())
    }

    /// Edition sealer: record `asset` as a finished unique edition capped at
    /// one issuable unit.
    pub fn seal_edition(
        &mut self,
        target: u64,
        asset: u64,
        metadata_addr: u64,
        authority: AccountRef,
    ) -> (r: Result<(), NftError>)
        requires
            wf(old(self)@),
        ensures
            wf(final(self)@),
            r is Ok ==> seal_edition_model(old(self)@, target, asset, metadata_addr, authority)
                == Ok::<LedgerModel, NftError>(final(self)@),
            r is Err ==> final(self)@ == old(self)@ && seal_edition_model(
                old(self)@,
                target,
                asset,
                metadata_addr,
                authority,
            ) == Err::<LedgerModel, NftError>(r->Err_0),
    {
        if edition_for_exists(&self.editions, asset) || edition_exists(&self.editions, target) {
            return Err(NftError::EditionAlreadyExists);
        }
        let ai: usize;
        match find_asset(&self.assets, asset) {
            Some(i) => {
                ai = i;
            },
            None => {
                return Err(NftError::NotFound);
            },
        }
        proof {
            lemma_asset_at_is(self@.assets, asset, ai as int);
        }
        if !self.assets[ai].initialized {
            return Err(NftError::NotFound);
        }
        let mi: usize;
        match find_metadata(&self.metadata, metadata_addr) {
            Some(i) => {
                mi = i;
            },
            None => {
                return Err(NftError::NotFound);
            },
        }
        proof {
            lemma_meta_views(self.metadata@);
            lemma_metadata_at_is(self@.metadata, metadata_addr, mi as int);
        }
        if self.metadata[mi].asset != asset {
            return Err(NftError::AssetMismatch);
        }
        if !(authority.is_signer && authority.address == self.assets[ai].supply_authority) {
            return Err(NftError::Unauthorized);
        }
        if self.assets[ai].supply != 1 {
            return Err(NftError::ExternalProgramRejected);
        }
        self.editions.push(
            MasterEditionRecord {
                address: target,
                asset,
                max_supply: MASTER_EDITION_MAX_SUPPLY,
                issued: 0,
            },
        );
        proof {
            assert(self@ =~= seal_edition_model(
                old(self)@,
                target,
                asset,
                metadata_addr,
                authority,
            )->Ok_0);
            lemma_seal_edition_wf(old(self)@, target, asset, metadata_addr, authority);
        }
        Ok(())
    }

    /// Transfer executor: move one unit from `sender` to `recipient`, on the
    /// authority of the sending holder account's owner.
    pub fn transfer_unit(&mut self, sender: u64, recipient: u64, authority: AccountRef) -> (r: Result<
        (),
        NftError,
    >)
        requires
            wf(old(self)@),
        ensures
            wf(final(self)@),
            r is Ok ==> transfer_model(old(self)@, sender, recipient, authority) == Ok::<
                LedgerModel,
                NftError,
            >(final(self)@),
            r is Err ==> final(self)@ == old(self)@ && transfer_model(
                old(self)@,
                sender,
                recipient,
                authority,
            ) == Err::<LedgerModel, NftError>(r->Err_0),
    {
        let si: usize;
        match find_holder(&self.holders, sender) {
            Some(i) => {
                si = i;
            },
            None => {
                return Err(NftError::NotFound);
            },
        }
        proof {
            lemma_holder_at_is(self@.holders, sender, si as int);
        }
        let ri: usize;
        match find_holder(&self.holders, recipient) {
            Some(i) => {
                ri = i;
            },
            None => {
                return Err(NftError::NotFound);
            },
        }
        proof {
            lemma_holder_at_is(self@.holders, recipient, ri as int);
        }
        let s = self.holders[si];
        let re = self.holders[ri];
        if s.asset != re.asset {
            return Err(NftError::AssetMismatch);
        }
        if !(authority.is_signer && authority.address == s.owner) {
            return Err(NftError::Unauthorized);
        }
        if s.balance == 0 {
            return Err(NftError::InsufficientBalance);
        }
        if sender == recipient {
            return Ok(());
        }
        if re.balance == u64::MAX {
            return Err(NftError::ExternalProgramRejected);
        }
        self.holders.set(si, HolderAccount { balance: s.balance - 1, ..s });
        self.holders.set(ri, HolderAccount { balance: re.balance + 1, ..re });
        proof {
            assert(self@ =~= transfer_model(old(self)@, sender, recipient, authority)->Ok_0);
            lemma_transfer_wf(old(self)@, sender, recipient, authority);
        }
        Ok(())
    }

    /// Metadata updater: replace title, symbol and URI of the record at
    /// `target`; royalty rate and creators return to the fixed defaults.
    pub fn update_metadata(
        &mut self,
        target: u64,
        authority: AccountRef,
        title: String,
        symbol: String,
        uri: String,
    ) -> (r: Result<(), NftError>)
        requires
            wf(old(self)@),
        ensures
            wf(final(self)@),
            r is Ok ==> update_metadata_model(
                old(self)@,
                target,
                authority,
                title@,
                symbol@,
                uri@,
            ) == Ok::<LedgerModel, NftError>(final(self)@),
            r is Err ==> final(self)@ == old(self)@ && update_metadata_model(
                old(self)@,
                target,
                authority,
                title@,
                symbol@,
                uri@,
            ) == Err::<LedgerModel, NftError>(r->Err_0),
    {
        let mi: usize;
        match find_metadata(&self.metadata, target) {
            Some(i) => {
                mi = i;
            },
            None => {
                return Err(NftError::NotFound);
            },
        }
        proof {
            lemma_meta_views(self.metadata@);
            lemma_metadata_at_is(self@.metadata, target, mi as int);
        }
        if !(authority.is_signer && authority.address == self.metadata[mi].update_authority) {
            return Err(NftError::Unauthorized);
        }
        let asset = self.metadata[mi].asset;
        let upd_auth = self.metadata[mi].update_authority;
        let mut creators: Vec<CreatorEntry> = Vec::new();
        creators.push(CreatorEntry { address: asset, verified: false, share: 100 });
        creators.push(CreatorEntry { address: upd_auth, verified: false, share: 0 });
        let ghost m = self@;
        let rec = MetadataRecord {
            address: target,
            asset,
            title,
            symbol,
            uri,
            royalty_bps: DEFAULT_ROYALTY_BPS,
            creators,
            is_mutable: true,
            update_authority: upd_auth,
        };
        proof {
            assert(rec.creators@ =~= default_creators(asset, upd_auth));
            lemma_meta_views_update(self.metadata@, mi as int, rec);
        }
        self.metadata.set(mi, rec);
        proof {
            assert(self@ =~= update_metadata_model(
                m,
                target,
                authority,
                rec.title@,
                rec.symbol@,
                rec.uri@,
            )->Ok_0);
            lemma_update_metadata_wf(m, target, authority, rec.title@, rec.symbol@, rec.uri@);
        }
        Ok(())
    }
}

impl Ledger {
    /// The asset record at `a`, if one is allocated there.
    pub fn asset_record(&self, a: u64) -> (r: Option<AssetAccount>)
        requires
            wf(self@),
        ensures
            match r {
                Some(rec) => has_asset(self@.assets, a) && rec == self@.assets[asset_at(
                    self@.assets,
                    a,
                )],
                None => !has_asset(self@.assets, a),
            },
    {
        match find_asset(&self.assets, a) {
            Some(i) => {
                proof {
                    lemma_asset_at_is(self@.assets, a, i as int);
                }
                Some(self.assets[i])
            },
            None => None,
        }
    }

    /// The holder account at `a`, if one exists.
    pub fn holder_record(&self, a: u64) -> (r: Option<HolderAccount>)
        requires
            wf(self@),
        ensures
            match r {
                Some(rec) => has_holder(self@.holders, a) && rec == self@.holders[holder_at(
                    self@.holders,
                    a,
                )],
                None => !has_holder(self@.holders, a),
            },
    {
        match find_holder(&self.holders, a) {
            Some(i) => {
                proof {
                    lemma_holder_at_is(self@.holders, a, i as int);
                }
                Some(self.holders[i])
            },
            None => None,
        }
    }

    /// The lamport balance of the wallet at `a`, if one exists.
    pub fn wallet_lamports(&self, a: u64) -> (r: Option<u64>)
        requires
            wf(self@),
        ensures
            match r {
                Some(l) => has_wallet(self@.wallets, a) && l == self@.wallets[wallet_at(
                    self@.wallets,
                    a,
                )].lamports,
                None => !has_wallet(self@.wallets, a),
            },
    {
        match find_wallet(&self.wallets, a) {
            Some(i) => {
                proof {
                    lemma_wallet_at_is(self@.wallets, a, i as int);
                }
                Some(self.wallets[i].lamports)
            },
            None => None,
        }
    }

    /// The master edition record sealing `asset`, if one exists.
    pub fn edition_record_for(&self, asset: u64) -> (r: Option<MasterEditionRecord>)
        requires
            wf(self@),
        ensures
            match r {
                Some(rec) => has_edition_for(self@.editions, asset) && rec
                    == self@.editions[edition_for_at(self@.editions, asset)],
                None => !has_edition_for(self@.editions, asset),
            },
    {
        let mut i: usize = 0;
        while i < self.editions.len()
            invariant
                i <= self.editions@.len(),
                forall|j: int| 0 <= j < i ==> self.editions@[j].asset != asset,
                editions_unique(self@.editions),
            decreases self.editions@.len() - i,
        {
            if self.editions[i].asset == asset {
                proof {
                    lemma_edition_for_at_is(self@.editions, asset, i as int);
                }
                return Some(self.editions[i]);
            }
            i = i + 1;
        }
        None
    }

    /// Descriptive fields of the metadata record at `a` — title, symbol and
    /// URI — if one is registered there.
    pub fn metadata_text(&self, a: u64) -> (r: Option<(String, String, String)>)
        requires
            wf(self@),
        ensures
            match r {
                Some(t) => has_metadata(self@.metadata, a) && t.0@ == self@.metadata[metadata_at(
                    self@.metadata,
                    a,
                )].title && t.1@ == self@.metadata[metadata_at(self@.metadata, a)].symbol && t.2@
                    == self@.metadata[metadata_at(self@.metadata, a)].uri,
                None => !has_metadata(self@.metadata, a),
            },
    {
        match find_metadata(&self.metadata, a) {
            Some(i) => {
                proof {
                    lemma_meta_views(self.metadata@);
                    lemma_metadata_at_is(self@.metadata, a, i as int);
                }
                Some(
                    (
                        self.metadata[i].title.clone(),
                        self.metadata[i].symbol.clone(),
                        self.metadata[i].uri.clone(),
                    ),
                )
            },
            None => None,
        }
    }

    /// Governance fields of the metadata record at `a`: the asset it
    /// describes, its update authority, its royalty rate and its mutability.
    pub fn metadata_governance(&self, a: u64) -> (r: Option<(u64, u64, u16, bool)>)
        requires
            wf(self@),
        ensures
            match r {
                Some(t) => has_metadata(self@.metadata, a) && t.0 == self@.metadata[metadata_at(
                    self@.metadata,
                    a,
                )].asset && t.1 == self@.metadata[metadata_at(self@.metadata, a)].update_authority
                    && t.2 == self@.metadata[metadata_at(self@.metadata, a)].royalty_bps && t.3
                    == self@.metadata[metadata_at(self@.metadata, a)].is_mutable,
                None => !has_metadata(self@.metadata, a),
            },
    {
        match find_metadata(&self.metadata, a) {
            Some(i) => {
                proof {
                    lemma_meta_views(self.metadata@);
                    lemma_metadata_at_is(self@.metadata, a, i as int);
                }
                Some(
                    (
                        self.metadata[i].asset,
                        self.metadata[i].update_authority,
                        self.metadata[i].royalty_bps,
                        self.metadata[i].is_mutable,
                    ),
                )
            },
            None => None,
        }
    }

    /// The creator list of the metadata record at `a`, if one is registered.
    pub fn metadata_creators(&self, a: u64) -> (r: Option<Vec<CreatorEntry>>)
        requires
            wf(self@),
        ensures
            match r {
                Some(cs) => has_metadata(self@.metadata, a) && cs@
                    == self@.metadata[metadata_at(self@.metadata, a)].creators,
                None => !has_metadata(self@.metadata, a),
            },
    {
        match find_metadata(&self.metadata, a) {
            Some(i) => {
                proof {
                    lemma_meta_views(self.metadata@);
                    lemma_metadata_at_is(self@.metadata, a, i as int);
                }
                Some(copy_vec(&self.metadata[i].creators))
            },
            None => None,
        }
    }
}

pub proof fn lemma_edition_for_at_is(s: Seq<MasterEditionRecord>, asset: u64, i: int)
    requires
        editions_unique(s),
        0 <= i < s.len(),
        s[i].asset == asset,
    ensures
        has_edition_for(s, asset),
        edition_for_at(s, asset) == i,
{
    assert(has_edition_for(s, asset));
    let j = edition_for_at(s, asset);
    assert(0 <= j < s.len() && s[j].asset == asset);
}

// View lemmas for the metadata collection.

pub proof fn lemma_meta_views_push(v: Seq<MetadataRecord>, x: MetadataRecord)
    ensures
        meta_views(v.push(x)) =~= meta_views(v).push(x@),
{
    lemma_meta_views(v);
    lemma_meta_views(v.push(x));
}

pub proof fn lemma_meta_views_update(v: Seq<MetadataRecord>, i: int, x: MetadataRecord)
    requires
        0 <= i < v.len(),
    ensures
        meta_views(v.update(i, x)) =~= meta_views(v).update(i, x@),
{
    lemma_meta_views(v);
    lemma_meta_views(v.update(i, x));
}

// Preservation of well-formedness by the state transitions.

pub proof fn lemma_fund_wallet_wf(m: LedgerModel, address: u64, lamports: u64)
    requires
        wf(m),
        fund_wallet_model(m, address, lamports) is Ok,
    ensures
        wf(fund_wallet_model(m, address, lamports)->Ok_0),
{
    let m2 = fund_wallet_model(m, address, lamports)->Ok_0;
    assert forall|i: int, j: int| 0 <= i < j < m2.wallets.len() implies m2.wallets[i].address
        != m2.wallets[j].address by {
        if j == m.wallets.len() {
            if m.wallets[i].address == address {
                assert(has_wallet(m.wallets, address));
            }
        }
    }
}

pub proof fn lemma_provision_wf(m: LedgerModel, payer: u64, target: u64, owner_program: u64)
    requires
        wf(m),
        provision_model(m, payer, target, owner_program) is Ok,
    ensures
        wf(provision_model(m, payer, target, owner_program)->Ok_0),
{
    let m2 = provision_model(m, payer, target, owner_program)->Ok_0;
    let wi = wallet_at(m.wallets, payer);
    assert(0 <= wi < m.wallets.len() && m.wallets[wi].address == payer);
    assert forall|i: int, j: int| 0 <= i < j < m2.wallets.len() implies m2.wallets[i].address
        != m2.wallets[j].address by {
        assert(m2.wallets[i].address == m.wallets[i].address);
        assert(m2.wallets[j].address == m.wallets[j].address);
    }
    assert forall|i: int, j: int| 0 <= i < j < m2.assets.len() implies m2.assets[i].address
        != m2.assets[j].address by {
        if j == m.assets.len() {
            if m.assets[i].address == target {
                assert(has_asset(m.assets, target));
            }
        }
    }
    assert(assets_unique(m2.assets));
    assert forall|i: int|
        0 <= i < m2.assets.len() && (#[trigger] m2.assets[i]).initialized implies m2.assets[i].decimals
        == 0 by {
        if i < m.assets.len() {
            assert(m2.assets[i] == m.assets[i]);
        }
    }
    assert forall|k: int| 0 <= k < m2.editions.len() implies {
        let a = (#[trigger] m2.editions[k]).asset;
        &&& has_asset(m2.assets, a)
        &&& m2.assets[asset_at(m2.assets, a)].initialized
        &&& m2.assets[asset_at(m2.assets, a)].supply <= 1
    } by {
        let a = m2.editions[k].asset;
        assert(m.editions[k] == m2.editions[k]);
        let ai = asset_at(m.assets, a);
        assert(has_asset(m.assets, a));
        assert(0 <= ai < m.assets.len() && m.assets[ai].address == a);
        assert(m2.assets[ai] == m.assets[ai]);
        lemma_asset_at_is(m2.assets, a, ai);
    }
}

pub proof fn lemma_create_holder_wf(m: LedgerModel, owner: u64, asset: u64, target: u64)
    requires
        wf(m),
        create_holder_model(m, owner, asset, target) is Ok,
    ensures
        wf(create_holder_model(m, owner, asset, target)->Ok_0),
{
    let m2 = create_holder_model(m, owner, asset, target)->Ok_0;
    assert forall|i: int, j: int| 0 <= i < j < m2.holders.len() implies m2.holders[i].address
        != m2.holders[j].address && !(m2.holders[i].owner == m2.holders[j].owner
        && m2.holders[i].asset == m2.holders[j].asset) by {
        if j == m.holders.len() {
            if m.holders[i].address == target {
                assert(has_holder(m.holders, target));
            }
            if m.holders[i].owner == owner && m.holders[i].asset == asset {
                assert(has_holder_pair(m.holders, owner, asset));
            }
        }
    }
}

pub proof fn lemma_issue_wf(m: LedgerModel, asset: u64, holder: u64, authority: AccountRef)
    requires
        wf(m),
        issue_model(m, asset, holder, authority) is Ok,
    ensures
        wf(issue_model(m, asset, holder, authority)->Ok_0),
{
    let m2 = issue_model(m, asset, holder, authority)->Ok_0;
    let ai = asset_at(m.assets, asset);
    let hi = holder_at(m.holders, holder);
    assert(0 <= ai < m.assets.len() && m.assets[ai].address == asset);
    assert(0 <= hi < m.holders.len() && m.holders[hi].address == holder);
    assert forall|i: int, j: int| 0 <= i < j < m2.assets.len() implies m2.assets[i].address
        != m2.assets[j].address by {
        assert(m2.assets[i].address == m.assets[i].address);
        assert(m2.assets[j].address == m.assets[j].address);
    }
    assert(assets_unique(m2.assets));
    assert forall|i: int, j: int| 0 <= i < j < m2.holders.len() implies m2.holders[i].address
        != m2.holders[j].address && !(m2.holders[i].owner == m2.holders[j].owner
        && m2.holders[i].asset == m2.holders[j].asset) by {
        assert(m2.holders[i].address == m.holders[i].address && m2.holders[i].owner
            == m.holders[i].owner && m2.holders[i].asset == m.holders[i].asset);
        assert(m2.holders[j].address == m.holders[j].address && m2.holders[j].owner
            == m.holders[j].owner && m2.holders[j].asset == m.holders[j].asset);
    }
    assert forall|i: int|
        0 <= i < m2.assets.len() && (#[trigger] m2.assets[i]).initialized implies m2.assets[i].decimals
        == 0 by {
        if i != ai {
            assert(m2.assets[i] == m.assets[i]);
        }
    }
    assert forall|k: int| 0 <= k < m2.editions.len() implies {
        let a = (#[trigger] m2.editions[k]).asset;
        &&& has_asset(m2.assets, a)
        &&& m2.assets[asset_at(m2.assets, a)].initialized
        &&& m2.assets[asset_at(m2.assets, a)].supply <= 1
    } by {
        let a = m2.editions[k].asset;
        assert(m.editions[k] == m2.editions[k]);
        let aj = asset_at(m.assets, a);
        assert(has_asset(m.assets, a));
        assert(0 <= aj < m.assets.len() && m.assets[aj].address == a);
        // the issued asset is not sealed, so every sealed asset keeps its entry
        assert(a != asset) by {
            if a == asset {
                assert(has_edition_for(m.editions, asset));
            }
        }
        assert(aj != ai);
        assert(m2.assets[aj] == m.assets[aj]);
        lemma_asset_at_is(m2.assets, a, aj);
    }
}

pub proof fn lemma_register_metadata_wf(
    m: LedgerModel,
    target: u64,
    asset: u64,
    authority: AccountRef,
    title: Seq<char>,
    symbol: Seq<char>,
    uri: Seq<char>,
    creators: Seq<CreatorEntry>,
    royalty_bps: u16,
)
    requires
        wf(m),
        register_metadata_model(m, target, asset, authority, title, symbol, uri, creators, royalty_bps) is Ok,
    ensures
        wf(
            register_metadata_model(
                m,
                target,
                asset,
                authority,
                title,
                symbol,
                uri,
                creators,
                royalty_bps,
            )->Ok_0,
        ),
{
    let m2 = register_metadata_model(
        m,
        target,
        asset,
        authority,
        title,
        symbol,
        uri,
        creators,
        royalty_bps,
    )->Ok_0;
    assert forall|i: int, j: int| 0 <= i < j < m2.metadata.len() implies m2.metadata[i].address
        != m2.metadata[j].address by {
        if j == m.metadata.len() {
            if m.metadata[i].address == target {
                assert(has_metadata(m.metadata, target));
            }
        }
    }
    assert forall|i: int|
        0 <= i < m2.metadata.len() implies share_sum((#[trigger] m2.metadata[i]).creators)
        == CREATOR_SHARE_TOTAL by {
        if i < m.metadata.len() {
            assert(m2.metadata[i] == m.metadata[i]);
        }
    }
}

pub proof fn lemma_seal_edition_wf(
    m: LedgerModel,
    target: u64,
    asset: u64,
    metadata_addr: u64,
    authority: AccountRef,
)
    requires
        wf(m),
        seal_edition_model(m, target, asset, metadata_addr, authority) is Ok,
    ensures
        wf(seal_edition_model(m, target, asset, metadata_addr, authority)->Ok_0),
{
    let m2 = seal_edition_model(m, target, asset, metadata_addr, authority)->Ok_0;
    assert forall|i: int, j: int| 0 <= i < j < m2.editions.len() implies m2.editions[i].address
        != m2.editions[j].address && m2.editions[i].asset != m2.editions[j].asset by {
        if j == m.editions.len() {
            if m.editions[i].address == target {
                assert(has_edition(m.editions, target));
            }
            if m.editions[i].asset == asset {
                assert(has_edition_for(m.editions, asset));
            }
        }
    }
    assert forall|k: int| 0 <= k < m2.editions.len() implies {
        let a = (#[trigger] m2.editions[k]).asset;
        &&& has_asset(m2.assets, a)
        &&& m2.assets[asset_at(m2.assets, a)].initialized
        &&& m2.assets[asset_at(m2.assets, a)].supply <= 1
    } by {
        if k < m.editions.len() {
            assert(m2.editions[k] == m.editions[k]);
        } else {
            assert(m2.editions[k].asset == asset);
        }
    }
}

pub proof fn lemma_transfer_wf(m: LedgerModel, sender: u64, recipient: u64, authority: AccountRef)
    requires
        wf(m),
        transfer_model(m, sender, recipient, authority) is Ok,
    ensures
        wf(transfer_model(m, sender, recipient, authority)->Ok_0),
{
    let m2 = transfer_model(m, sender, recipient, authority)->Ok_0;
    if sender != recipient {
        let si = holder_at(m.holders, sender);
        let ri = holder_at(m.holders, recipient);
        assert(0 <= si < m.holders.len() && m.holders[si].address == sender);
        assert(0 <= ri < m.holders.len() && m.holders[ri].address == recipient);
        assert forall|i: int, j: int| 0 <= i < j < m2.holders.len() implies m2.holders[i].address
            != m2.holders[j].address && !(m2.holders[i].owner == m2.holders[j].owner
            && m2.holders[i].asset == m2.holders[j].asset) by {
            assert(m2.holders[i].address == m.holders[i].address && m2.holders[i].owner
                == m.holders[i].owner && m2.holders[i].asset == m.holders[i].asset);
            assert(m2.holders[j].address == m.holders[j].address && m2.holders[j].owner
                == m.holders[j].owner && m2.holders[j].asset == m.holders[j].asset);
        }
    }
}

pub proof fn lemma_update_metadata_wf(
    m: LedgerModel,
    target: u64,
    authority: AccountRef,
    title: Seq<char>,
    symbol: Seq<char>,
    uri: Seq<char>,
)
    requires
        wf(m),
        update_metadata_model(m, target, authority, title, symbol, uri) is Ok,
    ensures
        wf(update_metadata_model(m, target, authority, title, symbol, uri)->Ok_0),
{
    let m2 = update_metadata_model(m, target, authority, title, symbol, uri)->Ok_0;
    let mi = metadata_at(m.metadata, target);
    assert(0 <= mi < m.metadata.len() && m.metadata[mi].address == target);
    assert forall|i: int, j: int| 0 <= i < j < m2.metadata.len() implies m2.metadata[i].address
        != m2.metadata[j].address by {
        assert(m2.metadata[i].address == m.metadata[i].address);
        assert(m2.metadata[j].address == m.metadata[j].address);
    }
    assert forall|i: int|
        0 <= i < m2.metadata.len() implies share_sum((#[trigger] m2.metadata[i]).creators)
        == CREATOR_SHARE_TOTAL by {
        if i != mi {
            assert(m2.metadata[i] == m.metadata[i]);
        } else {
            lemma_default_creators_sum(m.metadata[mi].asset, m.metadata[mi].update_authority);
        }
    }
}

pub proof fn lemma_initialize_mint_wf(m: LedgerModel, target: u64, authority: u64, asset_program: u64)
    requires
        wf(m),
        initialize_mint_model(m, target, authority, asset_program) is Ok,
    ensures
        wf(initialize_mint_model(m, target, authority, asset_program)->Ok_0),
{
    let m2 = initialize_mint_model(m, target, authority, asset_program)->Ok_0;
    let ai = asset_at(m.assets, target);
    assert(0 <= ai < m.assets.len() && m.assets[ai].address == target);
    assert forall|i: int, j: int| 0 <= i < j < m2.assets.len() implies m2.assets[i].address
        != m2.assets[j].address by {
        assert(m2.assets[i].address == m.assets[i].address);
        assert(m2.assets[j].address == m.assets[j].address);
    }
    assert(assets_unique(m2.assets));
    assert forall|i: int|
        0 <= i < m2.assets.len() && (#[trigger] m2.assets[i]).initialized implies m2.assets[i].decimals
        == 0 by {
        if i != ai {
            assert(m2.assets[i] == m.assets[i]);
        }
    }
    assert forall|k: int| 0 <= k < m2.editions.len() implies {
        let a = (#[trigger] m2.editions[k]).asset;
        &&& has_asset(m2.assets, a)
        &&& m2.assets[asset_at(m2.assets, a)].initialized
        &&& m2.assets[asset_at(m2.assets, a)].supply <= 1
    } by {
        let a = m2.editions[k].asset;
        assert(m.editions[k] == m2.editions[k]);
        let aj = asset_at(m.assets, a);
        assert(has_asset(m.assets, a));
        assert(0 <= aj < m.assets.len() && m.assets[aj].address == a);
        assert(!m.assets[ai].initialized);
        assert(aj != ai);
        assert(m2.assets[aj] == m.assets[aj]);
        lemma_asset_at_is(m2.assets, a, aj);
    }
}

} // verus!
