use vstd::prelude::*;

use crate::ledger::Ledger;
use crate::model::{
    create_holder_model, default_creators, initialize_mint_model, issue_model, provision_model,
    register_metadata_model, seal_edition_model, transfer_model, update_metadata_model, wf,
    LedgerModel,
};
use crate::records::CreatorEntry;
use crate::{AccountRef, NftError, DEFAULT_ROYALTY_BPS};

verus! {

// The transaction contexts: the accounts each entry point receives, each with
// the access mode and authorization the transaction declared for it. Plain
// program accounts are carried as bare addresses; they are read-only and never
// sign.

/// Accounts of `initialize_nft`.
#[derive(Clone, Copy, PartialEq, Eq, Structural)]
pub struct Initialize {
    pub owner_account: AccountRef,
    pub minter_account: AccountRef,
    pub token_program: u64,
    pub rent: u64,
    pub system_program: u64,
}

/// Accounts of `create_nft_holder`.
#[derive(Clone, Copy, PartialEq, Eq, Structural)]
pub struct CreateNFTHolder {
    pub user_account: AccountRef,
    pub minter_account: AccountRef,
    pub token_holder_account: AccountRef,
    pub token_program: u64,
    pub associated_token_program: u64,
    pub rent: u64,
    pub system_program: u64,
}

/// Accounts of `mint_nft`.
#[derive(Clone, Copy, PartialEq, Eq, Structural)]
pub struct MintNFT {
    pub authority_account: AccountRef,
    pub minter_account: AccountRef,
    pub token_holder_account: AccountRef,
    pub metadata_account: AccountRef,
    pub master_edition_account: AccountRef,
    pub token_program: u64,
    pub rent: u64,
    pub system_program: u64,
    pub token_metadata_program: u64,
}

/// Accounts of `transfer_nft`.
#[derive(Clone, Copy, PartialEq, Eq, Structural)]
pub struct TransferNFT {
    pub authority: AccountRef,
    pub mint: AccountRef,
    pub sender: AccountRef,
    pub recipient: AccountRef,
    pub token_program: u64,
}

/// Accounts of `create_nft`.
#[derive(Clone, Copy, PartialEq, Eq, Structural)]
pub struct CreateNFT {
    pub authority_account: AccountRef,
    pub minter_account: AccountRef,
    pub token_holder_account: AccountRef,
    pub metadata_account: AccountRef,
    pub master_edition_account: AccountRef,
    pub token_program: u64,
    pub associated_token_program: u64,
    pub rent: u64,
    pub system_program: u64,
    pub token_metadata_program: u64,
}

/// Accounts of `update_nft_metadata`.
#[derive(Clone, Copy, PartialEq, Eq, Structural)]
pub struct UpdateNFTMetadata {
    pub authority_account: AccountRef,
    pub metadata_account: AccountRef,
    pub token_metadata_program: u64,
}

// The access modes and authorizations each entry point demands of its
// accounts. The runtime rejects a transaction that declares less; here a
// context that declares less is refused before any step runs.

pub open spec fn initialize_ctx_ok(c: Initialize) -> bool {
    &&& c.owner_account.is_signer && c.owner_account.is_writable
    &&& c.minter_account.is_signer && c.minter_account.is_writable
}

pub open spec fn create_nft_holder_ctx_ok(c: CreateNFTHolder) -> bool {
    &&& c.user_account.is_signer && c.user_account.is_writable
    &&& c.minter_account.is_writable
    &&& c.token_holder_account.is_writable
}

pub open spec fn mint_nft_ctx_ok(c: MintNFT) -> bool {
    &&& c.authority_account.is_signer && c.authority_account.is_writable
    &&& c.minter_account.is_writable
    &&& c.token_holder_account.is_writable
    &&& c.metadata_account.is_writable
    &&& c.master_edition_account.is_writable
}

pub open spec fn transfer_nft_ctx_ok(c: TransferNFT) -> bool {
    &&& c.authority.is_signer && c.authority.is_writable
    &&& c.mint.is_writable
    &&& c.sender.is_writable
    &&& c.recipient.is_writable
}

pub open spec fn create_nft_ctx_ok(c: CreateNFT) -> bool {
    &&& c.authority_account.is_signer && c.authority_account.is_writable
    &&& c.minter_account.is_signer && c.minter_account.is_writable
    &&& c.token_holder_account.is_writable
    &&& c.metadata_account.is_writable
    &&& c.master_edition_account.is_writable
}

pub open spec fn update_nft_metadata_ctx_ok(c: UpdateNFTMetadata) -> bool {
    &&& c.authority_account.is_signer && c.authority_account.is_writable
    &&& c.metadata_account.is_writable
}

// The workflow transitions: fixed compositions of the step transitions. The
// first failing step decides the error and nothing of the invocation commits.

/// Provision the asset account, then initialize it as an active asset record.
pub open spec fn initialize_nft_model(m: LedgerModel, c: Initialize) -> Result<
    LedgerModel,
    NftError,
> {
    if !initialize_ctx_ok(c) {
        Err(NftError::ExternalProgramRejected)
    } else {
        match provision_model(
            m,
            c.owner_account.address,
            c.minter_account.address,
            c.token_program,
        ) {
            Err(e) => Err(e),
            Ok(m1) => initialize_mint_model(
                m1,
                c.minter_account.address,
                c.owner_account.address,
                c.token_program,
            ),
        }
    }
}

/// Create the holder account of the (user, asset) pair.
pub open spec fn create_nft_holder_model(m: LedgerModel, c: CreateNFTHolder) -> Result<
    LedgerModel,
    NftError,
> {
    if !create_nft_holder_ctx_ok(c) {
        Err(NftError::ExternalProgramRejected)
    } else {
        create_holder_model(
            m,
            c.user_account.address,
            c.minter_account.address,
            c.token_holder_account.address,
        )
    }
}

/// Issue the one unit, register the metadata record, seal the master edition.
pub open spec fn mint_nft_model(
    m: LedgerModel,
    c: MintNFT,
    title: Seq<char>,
    symbol: Seq<char>,
    uri: Seq<char>,
) -> Result<LedgerModel, NftError> {
    if !mint_nft_ctx_ok(c) {
        Err(NftError::ExternalProgramRejected)
    } else {
        match issue_model(
            m,
            c.minter_account.address,
            c.token_holder_account.address,
            c.authority_account,
        ) {
            Err(e) => Err(e),
            Ok(m1) => match register_metadata_model(
                m1,
                c.metadata_account.address,
                c.minter_account.address,
                c.authority_account,
                title,
                symbol,
                uri,
                default_creators(c.minter_account.address, c.authority_account.address),
                DEFAULT_ROYALTY_BPS,
            ) {
                Err(e) => Err(e),
                Ok(m2) => seal_edition_model(
                    m2,
                    c.master_edition_account.address,
                    c.minter_account.address,
                    c.metadata_account.address,
                    c.authority_account,
                ),
            },
        }
    }
}

/// Move the one unit from sender to recipient.
pub open spec fn transfer_nft_model(m: LedgerModel, c: TransferNFT) -> Result<
    LedgerModel,
    NftError,
> {
    if !transfer_nft_ctx_ok(c) {
        Err(NftError::ExternalProgramRejected)
    } else {
        transfer_model(m, c.sender.address, c.recipient.address, c.authority)
    }
}

/// The whole creation sequence as one atomic invocation: provision,
/// initialize, create the holder, issue, register metadata, seal the edition.
pub open spec fn create_nft_model(
    m: LedgerModel,
    c: CreateNFT,
    title: Seq<char>,
    symbol: Seq<char>,
    uri: Seq<char>,
) -> Result<LedgerModel, NftError> {
    if !create_nft_ctx_ok(c) {
        Err(NftError::ExternalProgramRejected)
    } else {
        match provision_model(
            m,
            c.authority_account.address,
            c.minter_account.address,
            c.token_program,
        ) {
            Err(e) => Err(e),
            Ok(m1) => match initialize_mint_model(
                m1,
                c.minter_account.address,
                c.authority_account.address,
                c.token_program,
            ) {
                Err(e) => Err(e),
                Ok(m2) => match create_holder_model(
                    m2,
                    c.authority_account.address,
                    c.minter_account.address,
                    c.token_holder_account.address,
                ) {
                    Err(e) => Err(e),
                    Ok(m3) => match issue_model(
                        m3,
                        c.minter_account.address,
                        c.token_holder_account.address,
                        c.authority_account,
                    ) {
                        Err(e) => Err(e),
                        Ok(m4) => match register_metadata_model(
                            m4,
                            c.metadata_account.address,
                            c.minter_account.address,
                            c.authority_account,
                            title,
                            symbol,
                            uri,
                            default_creators(
                                c.minter_account.address,
                                c.authority_account.address,
                            ),
                            DEFAULT_ROYALTY_BPS,
                        ) {
                            Err(e) => Err(e),
                            Ok(m5) => seal_edition_model(
                                m5,
                                c.master_edition_account.address,
                                c.minter_account.address,
                                c.metadata_account.address,
                                c.authority_account,
                            ),
                        },
                    },
                },
            },
        }
    }
}

/// Rewrite the descriptive fields of an existing metadata record.
pub open spec fn update_nft_metadata_model(
    m: LedgerModel,
    c: UpdateNFTMetadata,
    title: Seq<char>,
    symbol: Seq<char>,
    uri: Seq<char>,
) -> Result<LedgerModel, NftError> {
    if !update_nft_metadata_ctx_ok(c) {
        Err(NftError::ExternalProgramRejected)
    } else {
        update_metadata_model(
            m,
            c.metadata_account.address,
            c.authority_account,
            title,
            symbol,
            uri,
        )
    }
}

// The entry points. Each either commits the whole workflow transition or
// reports the first failing step's error and leaves the ledger untouched.

/// Provision and initialize a fresh asset record, owned and paid for by the
/// owner account.
pub fn initialize_nft(ledger: &mut Ledger, ctx: &Initialize) -> (r: Result<(), NftError>)
    requires
        wf(old(ledger)@),
    ensures
        wf(final(ledger)@),
        r is Ok ==> initialize_nft_model(old(ledger)@, *ctx) == Ok::<LedgerModel, NftError>(
            final(ledger)@,
        ),
        r is Err ==> final(ledger)@ == old(ledger)@ && initialize_nft_model(old(ledger)@, *ctx)
            == Err::<LedgerModel, NftError>(r->Err_0),
{
    if !(ctx.owner_account.is_signer && ctx.owner_account.is_writable
        && ctx.minter_account.is_signer && ctx.minter_account.is_writable) {
        return Err(NftError::ExternalProgramRejected);
    }
    let mut w = ledger.snapshot();
    match w.provision_account(
        ctx.owner_account.address,
        ctx.minter_account.address,
        ctx.token_program,
    ) {
        Ok(()) => {},
        Err(e) => {
            return Err(e);
        },
    }
    match w.initialize_mint(
        ctx.minter_account.address,
        ctx.owner_account.address,
        ctx.token_program,
    ) {
        Ok(()) => {},
        Err(e) => {
            return Err(e);
        },
    }
    *ledger = w;
    Ok(())
}

/// Create the deterministic holder account for the calling user and the asset.
pub fn create_nft_holder(ledger: &mut Ledger, ctx: &CreateNFTHolder) -> (r: Result<(), NftError>)
    requires
        wf(old(ledger)@),
    ensures
        wf(final(ledger)@),
        r is Ok ==> create_nft_holder_model(old(ledger)@, *ctx) == Ok::<LedgerModel, NftError>(
            final(ledger)@,
        ),
        r is Err ==> final(ledger)@ == old(ledger)@ && create_nft_holder_model(old(ledger)@, *ctx)
            == Err::<LedgerModel, NftError>(r->Err_0),
{
    if !(ctx.user_account.is_signer && ctx.user_account.is_writable
        && ctx.minter_account.is_writable && ctx.token_holder_account.is_writable) {
        return Err(NftError::ExternalProgramRejected);
    }
    let mut w = ledger.snapshot();
    match w.create_holder(
        ctx.user_account.address,
        ctx.minter_account.address,
        ctx.token_holder_account.address,
    ) {
        Ok(()) => {},
        Err(e) => {
            return Err(e);
        },
    }
    *ledger = w;
    Ok(())
}

/// Issue the single unit into the holder account, register the metadata
/// record and seal the master edition, as one atomic invocation.
pub fn mint_nft(
    ledger: &mut Ledger,
    ctx: &MintNFT,
    metadata_title: String,
    metadata_symbol: String,
    metadata_uri: String,
) -> (r: Result<(), NftError>)
    requires
        wf(old(ledger)@),
    ensures
        wf(final(ledger)@),
        r is Ok ==> mint_nft_model(
            old(ledger)@,
            *ctx,
            metadata_title@,
            metadata_symbol@,
            metadata_uri@,
        ) == Ok::<LedgerModel, NftError>(final(ledger)@),
        r is Err ==> final(ledger)@ == old(ledger)@ && mint_nft_model(
            old(ledger)@,
            *ctx,
            metadata_title@,
            metadata_symbol@,
            metadata_uri@,
        ) == Err::<LedgerModel, NftError>(r->Err_0),
{
    if !(ctx.authority_account.is_signer && ctx.authority_account.is_writable
        && ctx.minter_account.is_writable && ctx.token_holder_account.is_writable
        && ctx.metadata_account.is_writable && ctx.master_edition_account.is_writable) {
        return Err(NftError::ExternalProgramRejected);
    }
    let mut w = ledger.snapshot();
    match w.issue_unit(
        ctx.minter_account.address,
        ctx.token_holder_account.address,
        ctx.authority_account,
    ) {
        Ok(()) => {},
        Err(e) => {
            return Err(e);
        },
    }
    let mut creators: Vec<CreatorEntry> = Vec::new();
    creators.push(CreatorEntry { address: ctx.minter_account.address, verified: false, share: 100 });
    creators.push(
        CreatorEntry { address: ctx.authority_account.address, verified: false, share: 0 },
    );
    proof {
        assert(creators@ =~= default_creators(
            ctx.minter_account.address,
            ctx.authority_account.address,
        ));
    }
    match w.register_metadata(
        ctx.metadata_account.address,
        ctx.minter_account.address,
        ctx.authority_account,
        metadata_title,
        metadata_symbol,
        metadata_uri,
        creators,
        DEFAULT_ROYALTY_BPS,
    ) {
        Ok(()) => {},
        Err(e) => {
            return Err(e);
        },
    }
    match w.seal_edition(
        ctx.master_edition_account.address,
        ctx.minter_account.address,
        ctx.metadata_account.address,
        ctx.authority_account,
    ) {
        Ok(()) => {},
        Err(e) => {
            return Err(e);
        },
    }
    *ledger = w;
    Ok(())
}

/// Move the single unit of the asset from the sender holder account to the
/// recipient holder account.
pub fn transfer_nft(ledger: &mut Ledger, ctx: &TransferNFT) -> (r: Result<(), NftError>)
    requires
        wf(old(ledger)@),
    ensures
        wf(final(ledger)@),
        r is Ok ==> transfer_nft_model(old(ledger)@, *ctx) == Ok::<LedgerModel, NftError>(
            final(ledger)@,
        ),
        r is Err ==> final(ledger)@ == old(ledger)@ && transfer_nft_model(old(ledger)@, *ctx)
            == Err::<LedgerModel, NftError>(r->Err_0),
{
    if !(ctx.authority.is_signer && ctx.authority.is_writable && ctx.mint.is_writable
        && ctx.sender.is_writable && ctx.recipient.is_writable) {
        return Err(NftError::ExternalProgramRejected);
    }
    let mut w = ledger.snapshot();
    match w.transfer_unit(ctx.sender.address, ctx.recipient.address, ctx.authority) {
        Ok(()) => {},
        Err(e) => {
            return Err(e);
        },
    }
    *ledger = w;
    Ok(())
}

/// The whole creation sequence in one atomic invocation.
pub fn create_nft(
    ledger: &mut Ledger,
    ctx: &CreateNFT,
    metadata_title: String,
    metadata_symbol: String,
    metadata_uri: String,
) -> (r: Result<(), NftError>)
    requires
        wf(old(ledger)@),
    ensures
        wf(final(ledger)@),
        r is Ok ==> create_nft_model(
            old(ledger)@,
            *ctx,
            metadata_title@,
            metadata_symbol@,
            metadata_uri@,
        ) == Ok::<LedgerModel, NftError>(final(ledger)@),
        r is Err ==> final(ledger)@ == old(ledger)@ && create_nft_model(
            old(ledger)@,
            *ctx,
            metadata_title@,
            metadata_symbol@,
            metadata_uri@,
        ) == Err::<LedgerModel, NftError>(r->Err_0),
{
    if !(ctx.authority_account.is_signer && ctx.authority_account.is_writable
        && ctx.minter_account.is_signer && ctx.minter_account.is_writable
        && ctx.token_holder_account.is_writable && ctx.metadata_account.is_writable
        && ctx.master_edition_account.is_writable) {
        return Err(NftError::ExternalProgramRejected);
    }
    let mut w = ledger.snapshot();
    match w.provision_account(
        ctx.authority_account.address,
        ctx.minter_account.address,
        ctx.token_program,
    ) {
        Ok(()) => {},
        Err(e) => {
            return Err(e);
        },
    }
    match w.initialize_mint(
        ctx.minter_account.address,
        ctx.authority_account.address,
        ctx.token_program,
    ) {
        Ok(()) => {},
        Err(e) => {
            return Err(e);
        },
    }
    match w.create_holder(
        ctx.authority_account.address,
        ctx.minter_account.address,
        ctx.token_holder_account.address,
    ) {
        Ok(()) => {},
        Err(e) => {
            return Err(e);
        },
    }
    match w.issue_unit(
        ctx.minter_account.address,
        ctx.token_holder_account.address,
        ctx.authority_account,
    ) {
        Ok(()) => {},
        Err(e) => {
            return Err(e);
        },
    }
    let mut creators: Vec<CreatorEntry> = Vec::new();
    creators.push(CreatorEntry { address: ctx.minter_account.address, verified: false, share: 100 });
    creators.push(
        CreatorEntry { address: ctx.authority_account.address, verified: false, share: 0 },
    );
    proof {
        assert(creators@ =~= default_creators(
            ctx.minter_account.address,
            ctx.authority_account.address,
        ));
    }
    match w.register_metadata(
        ctx.metadata_account.address,
        ctx.minter_account.address,
        ctx.authority_account,
        metadata_title,
        metadata_symbol,
        metadata_uri,
        creators,
        DEFAULT_ROYALTY_BPS,
    ) {
        Ok(()) => {},
        Err(e) => {
            return Err(e);
        },
    }
    match w.seal_edition(
        ctx.master_edition_account.address,
        ctx.minter_account.address,
        ctx.metadata_account.address,
        ctx.authority_account,
    ) {
        Ok(()) => {},
        Err(e) => {
            return Err(e);
        },
    }
    *ledger = w;
    Ok(())
}

/// Replace title, symbol and URI of an existing metadata record, authorized
/// by its recorded update authority.
pub fn update_nft_metadata(
    ledger: &mut Ledger,
    ctx: &UpdateNFTMetadata,
    metadata_title: String,
    metadata_symbol: String,
    metadata_uri: String,
) -> (r: Result<(), NftError>)
    requires
        wf(old(ledger)@),
    ensures
        wf(final(ledger)@),
        r is Ok ==> update_nft_metadata_model(
            old(ledger)@,
            *ctx,
            metadata_title@,
            metadata_symbol@,
            metadata_uri@,
        ) == Ok::<LedgerModel, NftError>(final(ledger)@),
        r is Err ==> final(ledger)@ == old(ledger)@ && update_nft_metadata_model(
            old(ledger)@,
            *ctx,
            metadata_title@,
            metadata_symbol@,
            metadata_uri@,
        ) == Err::<LedgerModel, NftError>(r->Err_0),
{
    if !(ctx.authority_account.is_signer && ctx.authority_account.is_writable
        && ctx.metadata_account.is_writable) {
        return Err(NftError::ExternalProgramRejected);
    }
    let mut w = ledger.snapshot();
    match w.update_metadata(
        ctx.metadata_account.address,
        ctx.authority_account,
        metadata_title,
        metadata_symbol,
        metadata_uri,
    ) {
        Ok(()) => {},
        Err(e) => {
            return Err(e);
        },
    }
    *ledger = w;
    Ok(())
}

} // verus!
