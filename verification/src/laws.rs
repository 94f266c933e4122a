use vstd::prelude::*;

use crate::ledger::{
    lemma_asset_at_is, lemma_create_holder_wf, lemma_holder_at_is, lemma_initialize_mint_wf,
    lemma_issue_wf, lemma_provision_wf, lemma_transfer_wf,
};
use crate::model::{
    asset_at, create_holder_model, edition_for_at, has_asset, has_edition_for, has_holder,
    has_metadata, holder_at, initialize_mint_model, issue_model, metadata_at, provision_model,
    seal_edition_model, share_sum, transfer_model, wf, LedgerModel,
};
use crate::workflows::{
    create_nft_ctx_ok, create_nft_holder_ctx_ok, create_nft_holder_model, create_nft_model,
    initialize_ctx_ok, initialize_nft_model, mint_nft_ctx_ok, mint_nft_model,
    update_nft_metadata_ctx_ok, update_nft_metadata_model, CreateNFT, CreateNFTHolder, Initialize,
    MintNFT, UpdateNFTMetadata,
};
use crate::{AccountRef, NftError};
use crate::{CREATOR_SHARE_TOTAL, MASTER_EDITION_MAX_SUPPLY};

verus! {

/// Every successful `create_nft` leaves the created asset record active with
/// zero decimal places and a total supply of exactly one.
pub proof fn lemma_create_nft_asset_state(
    m: LedgerModel,
    c: CreateNFT,
    title: Seq<char>,
    symbol: Seq<char>,
    uri: Seq<char>,
    mf: LedgerModel,
)
    requires
        wf(m),
        create_nft_model(m, c, title, symbol, uri) == Ok::<LedgerModel, NftError>(mf),
    ensures
        has_asset(mf.assets, c.minter_account.address),
        mf.assets[asset_at(mf.assets, c.minter_account.address)].initialized,
        mf.assets[asset_at(mf.assets, c.minter_account.address)].decimals == 0,
        mf.assets[asset_at(mf.assets, c.minter_account.address)].supply == 1,
{
    let target = c.minter_account.address;
    let payer = c.authority_account.address;
    let holder = c.token_holder_account.address;
    let n = m.assets.len() as int;
    assert(provision_model(m, payer, target, c.token_program) is Ok);
    let m1 = provision_model(m, payer, target, c.token_program)->Ok_0;
    lemma_provision_wf(m, payer, target, c.token_program);
    assert(m1.assets[n].address == target);
    lemma_asset_at_is(m1.assets, target, n);
    assert(initialize_mint_model(m1, target, payer, c.token_program) is Ok);
    let m2 = initialize_mint_model(m1, target, payer, c.token_program)->Ok_0;
    lemma_initialize_mint_wf(m1, target, payer, c.token_program);
    assert(m2.assets[n].address == target && m2.assets[n].initialized && m2.assets[n].supply == 0
        && m2.assets[n].decimals == 0);
    assert(create_holder_model(m2, payer, target, holder) is Ok);
    let m3 = create_holder_model(m2, payer, target, holder)->Ok_0;
    lemma_create_holder_wf(m2, payer, target, holder);
    assert(m3.assets == m2.assets);
    lemma_asset_at_is(m3.assets, target, n);
    assert(issue_model(m3, target, holder, c.authority_account) is Ok);
    let m4 = issue_model(m3, target, holder, c.authority_account)->Ok_0;
    lemma_issue_wf(m3, target, holder, c.authority_account);
    assert(m4.assets[n].address == target && m4.assets[n].initialized && m4.assets[n].supply == 1
        && m4.assets[n].decimals == 0);
    assert(mf.assets == m4.assets);
    lemma_asset_at_is(mf.assets, target, n);
}

/// The creator shares of every registered metadata record sum to exactly the
/// required total.
pub proof fn lemma_metadata_shares_total(m: LedgerModel, a: u64)
    requires
        wf(m),
        has_metadata(m.metadata, a),
    ensures
        share_sum(m.metadata[metadata_at(m.metadata, a)].creators) == CREATOR_SHARE_TOTAL,
{
    let i = metadata_at(m.metadata, a);
    assert(0 <= i < m.metadata.len() && m.metadata[i].address == a);
}

/// A sealed asset's master edition caps issuance at exactly one unit, and its
/// supply never exceeds one.
pub proof fn lemma_edition_caps_at_one(m: LedgerModel, asset: u64)
    requires
        wf(m),
        has_edition_for(m.editions, asset),
    ensures
        m.editions[edition_for_at(m.editions, asset)].max_supply == MASTER_EDITION_MAX_SUPPLY,
        MASTER_EDITION_MAX_SUPPLY == 1,
        has_asset(m.assets, asset),
        m.assets[asset_at(m.assets, asset)].supply <= 1,
{
    let i = edition_for_at(m.editions, asset);
    assert(0 <= i < m.editions.len() && m.editions[i].asset == asset);
}

/// An asset that is already sealed cannot be sealed again: the sealer reports
/// `EditionAlreadyExists` whatever the other arguments are.
pub proof fn lemma_reseal_fails(
    m: LedgerModel,
    target: u64,
    asset: u64,
    metadata_addr: u64,
    authority: AccountRef,
)
    requires
        has_edition_for(m.editions, asset),
    ensures
        seal_edition_model(m, target, asset, metadata_addr, authority) == Err::<
            LedgerModel,
            NftError,
        >(NftError::EditionAlreadyExists),
{
}

/// A successful transfer between two distinct holder accounts moves exactly
/// one unit: the sender's balance drops by one, the recipient's rises by one,
/// and their combined balance is conserved.
pub proof fn lemma_transfer_moves_one_unit(
    m: LedgerModel,
    sender: u64,
    recipient: u64,
    authority: AccountRef,
    mf: LedgerModel,
)
    requires
        wf(m),
        sender != recipient,
        transfer_model(m, sender, recipient, authority) == Ok::<LedgerModel, NftError>(mf),
    ensures
        has_holder(m.holders, sender) && has_holder(mf.holders, sender),
        has_holder(m.holders, recipient) && has_holder(mf.holders, recipient),
        mf.holders[holder_at(mf.holders, sender)].balance == m.holders[holder_at(
            m.holders,
            sender,
        )].balance - 1,
        mf.holders[holder_at(mf.holders, recipient)].balance == m.holders[holder_at(
            m.holders,
            recipient,
        )].balance + 1,
        mf.holders[holder_at(mf.holders, sender)].balance + mf.holders[holder_at(
            mf.holders,
            recipient,
        )].balance == m.holders[holder_at(m.holders, sender)].balance + m.holders[holder_at(
            m.holders,
            recipient,
        )].balance,
{
    let si = holder_at(m.holders, sender);
    let ri = holder_at(m.holders, recipient);
    assert(0 <= si < m.holders.len() && m.holders[si].address == sender);
    assert(0 <= ri < m.holders.len() && m.holders[ri].address == recipient);
    assert(si != ri);
    lemma_transfer_wf(m, sender, recipient, authority);
    assert(mf.holders[si].address == sender && mf.holders[si].balance == m.holders[si].balance
        - 1);
    assert(mf.holders[ri].address == recipient && mf.holders[ri].balance == m.holders[ri].balance
        + 1);
    lemma_holder_at_is(mf.holders, sender, si);
    lemma_holder_at_is(mf.holders, recipient, ri);
}

/// Updating metadata succeeds exactly when the calling account signed and is
/// the record's update authority; any other caller is turned away with
/// `Unauthorized`, and a missing record reports `NotFound`.
pub proof fn lemma_update_authority_decides(
    m: LedgerModel,
    c: UpdateNFTMetadata,
    title: Seq<char>,
    symbol: Seq<char>,
    uri: Seq<char>,
)
    requires
        wf(m),
        update_nft_metadata_ctx_ok(c),
    ensures
        !has_metadata(m.metadata, c.metadata_account.address)
            ==> update_nft_metadata_model(m, c, title, symbol, uri) == Err::<
            LedgerModel,
            NftError,
        >(NftError::NotFound),
        has_metadata(m.metadata, c.metadata_account.address) ==> ((update_nft_metadata_model(
            m,
            c,
            title,
            symbol,
            uri,
        ) is Ok) <==> (c.authority_account.is_signer && c.authority_account.address
            == m.metadata[metadata_at(m.metadata, c.metadata_account.address)].update_authority)),
        has_metadata(m.metadata, c.metadata_account.address) && !(c.authority_account.is_signer
            && c.authority_account.address == m.metadata[metadata_at(
            m.metadata,
            c.metadata_account.address,
        )].update_authority) ==> update_nft_metadata_model(m, c, title, symbol, uri) == Err::<
            LedgerModel,
            NftError,
        >(NftError::Unauthorized),
{
}

/// The granular path: initialize, create the holder, then mint.
pub open spec fn granular_create_model(
    m: LedgerModel,
    ci: Initialize,
    ch: CreateNFTHolder,
    cm: MintNFT,
    title: Seq<char>,
    symbol: Seq<char>,
    uri: Seq<char>,
) -> Result<LedgerModel, NftError> {
    match initialize_nft_model(m, ci) {
        Err(e) => Err(e),
        Ok(m1) => match create_nft_holder_model(m1, ch) {
            Err(e) => Err(e),
            Ok(m2) => mint_nft_model(m2, cm, title, symbol, uri),
        },
    }
}

/// Run over the same account set, the granular path — `initialize_nft`, then
/// `create_nft_holder`, then `mint_nft` — ends in exactly the state that one
/// combined `create_nft` call produces, and fails exactly when it fails.
pub proof fn lemma_granular_equals_combined(
    m: LedgerModel,
    ci: Initialize,
    ch: CreateNFTHolder,
    cm: MintNFT,
    c: CreateNFT,
    title: Seq<char>,
    symbol: Seq<char>,
    uri: Seq<char>,
)
    requires
        initialize_ctx_ok(ci),
        create_nft_holder_ctx_ok(ch),
        mint_nft_ctx_ok(cm),
        create_nft_ctx_ok(c),
        ci.owner_account == c.authority_account,
        ci.minter_account == c.minter_account,
        ci.token_program == c.token_program,
        ch.user_account == c.authority_account,
        ch.minter_account.address == c.minter_account.address,
        ch.token_holder_account.address == c.token_holder_account.address,
        cm.authority_account == c.authority_account,
        cm.minter_account.address == c.minter_account.address,
        cm.token_holder_account.address == c.token_holder_account.address,
        cm.metadata_account.address == c.metadata_account.address,
        cm.master_edition_account.address == c.master_edition_account.address,
    ensures
        granular_create_model(m, ci, ch, cm, title, symbol, uri) == create_nft_model(
            m,
            c,
            title,
            symbol,
            uri,
        ),
{
}

/// Minting again on an already-sealed edition fails with
/// `EditionAlreadyExists` (and, by the entry point's contract, leaves the
/// ledger unchanged).
pub proof fn lemma_mint_sealed_fails(
    m: LedgerModel,
    c: MintNFT,
    title: Seq<char>,
    symbol: Seq<char>,
    uri: Seq<char>,
)
    requires
        wf(m),
        mint_nft_ctx_ok(c),
        has_asset(m.assets, c.minter_account.address),
        m.assets[asset_at(m.assets, c.minter_account.address)].initialized,
        has_holder(m.holders, c.token_holder_account.address),
        m.holders[holder_at(m.holders, c.token_holder_account.address)].asset
            == c.minter_account.address,
        c.authority_account.is_signer,
        c.authority_account.address == m.assets[asset_at(
            m.assets,
            c.minter_account.address,
        )].supply_authority,
        has_edition_for(m.editions, c.minter_account.address),
    ensures
        mint_nft_model(m, c, title, symbol, uri) == Err::<LedgerModel, NftError>(
            NftError::EditionAlreadyExists,
        ),
{
}

/// A transfer from a holder account with balance zero fails with
/// `InsufficientBalance` (and, by the entry point's contract, leaves both
/// balances unchanged).
pub proof fn lemma_transfer_empty_fails(
    m: LedgerModel,
    sender: u64,
    recipient: u64,
    authority: AccountRef,
)
    requires
        wf(m),
        has_holder(m.holders, sender),
        has_holder(m.holders, recipient),
        m.holders[holder_at(m.holders, sender)].asset == m.holders[holder_at(
            m.holders,
            recipient,
        )].asset,
        authority.is_signer,
        authority.address == m.holders[holder_at(m.holders, sender)].owner,
        m.holders[holder_at(m.holders, sender)].balance == 0,
    ensures
        transfer_model(m, sender, recipient, authority) == Err::<LedgerModel, NftError>(
            NftError::InsufficientBalance,
        ),
{
}

} // verus!
