use nft_ledger::ledger::Ledger;
use nft_ledger::records::CreatorEntry;
use nft_ledger::workflows::{
    create_nft, create_nft_holder, initialize_nft, mint_nft, transfer_nft, update_nft_metadata,
    CreateNFT, CreateNFTHolder, Initialize, MintNFT, TransferNFT, UpdateNFTMetadata,
};
use nft_ledger::{AccountRef, NftError, DEFAULT_ROYALTY_BPS, MINT_FUNDING_LAMPORTS};

const OWNER: u64 = 1;
const MINT: u64 = 2;
const HOLDER: u64 = 3;
const META: u64 = 4;
const EDITION: u64 = 5;
const USER2: u64 = 6;
const HOLDER2: u64 = 7;
const TOKEN_PROG: u64 = 100;
const ATA_PROG: u64 = 101;
const SYS_PROG: u64 = 102;
const RENT: u64 = 103;
const META_PROG: u64 = 104;

fn signer(a: u64) -> AccountRef {
    AccountRef { address: a, is_signer: true, is_writable: true }
}

fn writable(a: u64) -> AccountRef {
    AccountRef { address: a, is_signer: false, is_writable: true }
}

fn funded_ledger() -> Ledger {
    let mut l = Ledger::new();
    l.fund_wallet(OWNER, 3 * MINT_FUNDING_LAMPORTS).unwrap();
    l
}

fn initialize_ctx() -> Initialize {
    Initialize {
        owner_account: signer(OWNER),
        minter_account: signer(MINT),
        token_program: TOKEN_PROG,
        rent: RENT,
        system_program: SYS_PROG,
    }
}

fn holder_ctx() -> CreateNFTHolder {
    CreateNFTHolder {
        user_account: signer(OWNER),
        minter_account: writable(MINT),
        token_holder_account: writable(HOLDER),
        token_program: TOKEN_PROG,
        associated_token_program: ATA_PROG,
        rent: RENT,
        system_program: SYS_PROG,
    }
}

fn mint_ctx() -> MintNFT {
    MintNFT {
        authority_account: signer(OWNER),
        minter_account: writable(MINT),
        token_holder_account: writable(HOLDER),
        metadata_account: writable(META),
        master_edition_account: writable(EDITION),
        token_program: TOKEN_PROG,
        rent: RENT,
        system_program: SYS_PROG,
        token_metadata_program: META_PROG,
    }
}

fn create_ctx() -> CreateNFT {
    CreateNFT {
        authority_account: signer(OWNER),
        minter_account: signer(MINT),
        token_holder_account: writable(HOLDER),
        metadata_account: writable(META),
        master_edition_account: writable(EDITION),
        token_program: TOKEN_PROG,
        associated_token_program: ATA_PROG,
        rent: RENT,
        system_program: SYS_PROG,
        token_metadata_program: META_PROG,
    }
}

fn update_ctx(authority: AccountRef) -> UpdateNFTMetadata {
    UpdateNFTMetadata {
        authority_account: authority,
        metadata_account: writable(META),
        token_metadata_program: META_PROG,
    }
}

fn created_ledger() -> Ledger {
    let mut l = funded_ledger();
    create_nft(
        &mut l,
        &create_ctx(),
        "Asset A".to_string(),
        "AST".to_string(),
        "https://example/a.json".to_string(),
    )
    .unwrap();
    l
}

#[test]
fn create_nft_yields_unique_asset() {
    let l = created_ledger();
    let asset = l.asset_record(MINT).unwrap();
    assert!(asset.initialized);
    assert_eq!(asset.decimals, 0);
    assert_eq!(asset.supply, 1);
    assert_eq!(asset.supply_authority, OWNER);
    assert_eq!(asset.freeze_authority, OWNER);
    assert_eq!(asset.owner_program, TOKEN_PROG);
    let holder = l.holder_record(HOLDER).unwrap();
    assert_eq!(holder.owner, OWNER);
    assert_eq!(holder.asset, MINT);
    assert_eq!(holder.balance, 1);
}

#[test]
fn create_nft_charges_the_payer() {
    let l = created_ledger();
    assert_eq!(l.wallet_lamports(OWNER).unwrap(), 2 * MINT_FUNDING_LAMPORTS);
}

#[test]
fn create_nft_registers_metadata_with_default_creators() {
    let l = created_ledger();
    let (title, symbol, uri) = l.metadata_text(META).unwrap();
    assert_eq!(title, "Asset A");
    assert_eq!(symbol, "AST");
    assert_eq!(uri, "https://example/a.json");
    let (asset, authority, royalty, mutable) = l.metadata_governance(META).unwrap();
    assert_eq!(asset, MINT);
    assert_eq!(authority, OWNER);
    assert_eq!(royalty, DEFAULT_ROYALTY_BPS);
    assert!(mutable);
    let creators = l.metadata_creators(META).unwrap();
    assert_eq!(
        creators,
        vec![
            CreatorEntry { address: MINT, verified: false, share: 100 },
            CreatorEntry { address: OWNER, verified: false, share: 0 },
        ]
    );
    let total: u32 = creators.iter().map(|c| c.share as u32).sum();
    assert_eq!(total, 100);
}

#[test]
fn create_nft_seals_the_edition_at_one() {
    let l = created_ledger();
    let edition = l.edition_record_for(MINT).unwrap();
    assert_eq!(edition.address, EDITION);
    assert_eq!(edition.max_supply, 1);
    assert_eq!(edition.issued, 0);
}

#[test]
fn granular_path_equals_create_nft() {
    let mut granular = funded_ledger();
    initialize_nft(&mut granular, &initialize_ctx()).unwrap();
    create_nft_holder(&mut granular, &holder_ctx()).unwrap();
    mint_nft(
        &mut granular,
        &mint_ctx(),
        "Asset A".to_string(),
        "AST".to_string(),
        "https://example/a.json".to_string(),
    )
    .unwrap();

    let combined = created_ledger();

    assert_eq!(granular.asset_record(MINT), combined.asset_record(MINT));
    assert_eq!(granular.holder_record(HOLDER), combined.holder_record(HOLDER));
    assert_eq!(granular.metadata_text(META), combined.metadata_text(META));
    assert_eq!(granular.metadata_governance(META), combined.metadata_governance(META));
    assert_eq!(granular.metadata_creators(META), combined.metadata_creators(META));
    assert_eq!(granular.edition_record_for(MINT), combined.edition_record_for(MINT));
    assert_eq!(granular.wallet_lamports(OWNER), combined.wallet_lamports(OWNER));
}

#[test]
fn mint_nft_on_sealed_edition_fails_and_changes_nothing() {
    let mut l = created_ledger();
    let r = mint_nft(
        &mut l,
        &mint_ctx(),
        "Asset A".to_string(),
        "AST".to_string(),
        "https://example/a.json".to_string(),
    );
    assert_eq!(r, Err(NftError::EditionAlreadyExists));
    assert_eq!(l.asset_record(MINT).unwrap().supply, 1);
    assert_eq!(l.holder_record(HOLDER).unwrap().balance, 1);
    assert_eq!(l.edition_record_for(MINT).unwrap().max_supply, 1);
}

#[test]
fn mint_nft_aborts_whole_invocation_when_metadata_collides() {
    let mut l = funded_ledger();
    initialize_nft(&mut l, &initialize_ctx()).unwrap();
    create_nft_holder(&mut l, &holder_ctx()).unwrap();
    // someone registered metadata at the target address beforehand
    l.register_metadata(
        META,
        MINT,
        signer(OWNER),
        "Early".to_string(),
        "E".to_string(),
        "https://example/e.json".to_string(),
        vec![CreatorEntry { address: MINT, verified: false, share: 100 }],
        7,
    )
    .unwrap();
    let r = mint_nft(
        &mut l,
        &mint_ctx(),
        "Asset A".to_string(),
        "AST".to_string(),
        "https://example/a.json".to_string(),
    );
    assert_eq!(r, Err(NftError::AlreadyRegistered));
    // the issuance that preceded the failing registration was rolled back too
    assert_eq!(l.asset_record(MINT).unwrap().supply, 0);
    assert_eq!(l.holder_record(HOLDER).unwrap().balance, 0);
}

fn two_holder_ledger() -> Ledger {
    let mut l = created_ledger();
    let ctx = CreateNFTHolder {
        user_account: signer(USER2),
        minter_account: writable(MINT),
        token_holder_account: writable(HOLDER2),
        token_program: TOKEN_PROG,
        associated_token_program: ATA_PROG,
        rent: RENT,
        system_program: SYS_PROG,
    };
    create_nft_holder(&mut l, &ctx).unwrap();
    l
}

fn transfer_ctx(authority: AccountRef, from: u64, to: u64) -> TransferNFT {
    TransferNFT {
        authority,
        mint: writable(MINT),
        sender: writable(from),
        recipient: writable(to),
        token_program: TOKEN_PROG,
    }
}

#[test]
fn transfer_moves_exactly_one_unit() {
    let mut l = two_holder_ledger();
    transfer_nft(&mut l, &transfer_ctx(signer(OWNER), HOLDER, HOLDER2)).unwrap();
    let sender = l.holder_record(HOLDER).unwrap();
    let recipient = l.holder_record(HOLDER2).unwrap();
    assert_eq!(sender.balance, 0);
    assert_eq!(recipient.balance, 1);
    assert_eq!(sender.balance + recipient.balance, 1);
    assert_eq!(l.asset_record(MINT).unwrap().supply, 1);
}

#[test]
fn transfer_to_the_same_holder_changes_nothing() {
    let mut l = two_holder_ledger();
    transfer_nft(&mut l, &transfer_ctx(signer(OWNER), HOLDER, HOLDER)).unwrap();
    assert_eq!(l.holder_record(HOLDER).unwrap().balance, 1);
    assert_eq!(l.holder_record(HOLDER2).unwrap().balance, 0);
}

#[test]
fn transfer_from_empty_holder_fails_and_changes_nothing() {
    let mut l = two_holder_ledger();
    transfer_nft(&mut l, &transfer_ctx(signer(OWNER), HOLDER, HOLDER2)).unwrap();
    let r = transfer_nft(&mut l, &transfer_ctx(signer(OWNER), HOLDER, HOLDER2));
    assert_eq!(r, Err(NftError::InsufficientBalance));
    assert_eq!(l.holder_record(HOLDER).unwrap().balance, 0);
    assert_eq!(l.holder_record(HOLDER2).unwrap().balance, 1);
}

#[test]
fn transfer_requires_the_senders_owner() {
    let mut l = two_holder_ledger();
    let r = transfer_nft(&mut l, &transfer_ctx(signer(USER2), HOLDER, HOLDER2));
    assert_eq!(r, Err(NftError::Unauthorized));
    assert_eq!(l.holder_record(HOLDER).unwrap().balance, 1);
    assert_eq!(l.holder_record(HOLDER2).unwrap().balance, 0);
}

#[test]
fn transfer_between_different_assets_fails() {
    let mut l = two_holder_ledger();
    // a second asset with its own holder account
    let ctx2 = CreateNFT {
        authority_account: signer(OWNER),
        minter_account: signer(20),
        token_holder_account: writable(21),
        metadata_account: writable(22),
        master_edition_account: writable(23),
        token_program: TOKEN_PROG,
        associated_token_program: ATA_PROG,
        rent: RENT,
        system_program: SYS_PROG,
        token_metadata_program: META_PROG,
    };
    create_nft(&mut l, &ctx2, "B".to_string(), "B".to_string(), "https://example/b.json".to_string())
        .unwrap();
    let r = transfer_nft(&mut l, &transfer_ctx(signer(OWNER), HOLDER, 21));
    assert_eq!(r, Err(NftError::AssetMismatch));
}

#[test]
fn transfer_without_signature_is_rejected_up_front() {
    let mut l = two_holder_ledger();
    let r = transfer_nft(&mut l, &transfer_ctx(writable(OWNER), HOLDER, HOLDER2));
    assert_eq!(r, Err(NftError::ExternalProgramRejected));
}

#[test]
fn update_metadata_by_the_update_authority_rewrites_text() {
    let mut l = created_ledger();
    update_nft_metadata(
        &mut l,
        &update_ctx(signer(OWNER)),
        "Asset A2".to_string(),
        "AST2".to_string(),
        "https://example/a2.json".to_string(),
    )
    .unwrap();
    let (title, symbol, uri) = l.metadata_text(META).unwrap();
    assert_eq!(title, "Asset A2");
    assert_eq!(symbol, "AST2");
    assert_eq!(uri, "https://example/a2.json");
    let (asset, authority, royalty, mutable) = l.metadata_governance(META).unwrap();
    assert_eq!(asset, MINT);
    assert_eq!(authority, OWNER);
    assert_eq!(royalty, DEFAULT_ROYALTY_BPS);
    assert!(mutable);
    let creators = l.metadata_creators(META).unwrap();
    let total: u32 = creators.iter().map(|c| c.share as u32).sum();
    assert_eq!(total, 100);
}

#[test]
fn update_metadata_by_anyone_else_fails() {
    let mut l = created_ledger();
    let r = update_nft_metadata(
        &mut l,
        &update_ctx(signer(USER2)),
        "X".to_string(),
        "X".to_string(),
        "https://example/x.json".to_string(),
    );
    assert_eq!(r, Err(NftError::Unauthorized));
    let (title, _, _) = l.metadata_text(META).unwrap();
    assert_eq!(title, "Asset A");
}

#[test]
fn update_metadata_without_record_fails() {
    let mut l = funded_ledger();
    let r = update_nft_metadata(
        &mut l,
        &update_ctx(signer(OWNER)),
        "X".to_string(),
        "X".to_string(),
        "https://example/x.json".to_string(),
    );
    assert_eq!(r, Err(NftError::NotFound));
}

#[test]
fn initialize_nft_without_funds_fails() {
    let mut l = Ledger::new();
    let r = initialize_nft(&mut l, &initialize_ctx());
    assert_eq!(r, Err(NftError::AllocationFailed));
    let mut poor = Ledger::new();
    poor.fund_wallet(OWNER, MINT_FUNDING_LAMPORTS - 1).unwrap();
    assert_eq!(initialize_nft(&mut poor, &initialize_ctx()), Err(NftError::AllocationFailed));
}

#[test]
fn initialize_nft_twice_fails_on_the_occupied_address() {
    let mut l = funded_ledger();
    initialize_nft(&mut l, &initialize_ctx()).unwrap();
    let r = initialize_nft(&mut l, &initialize_ctx());
    assert_eq!(r, Err(NftError::AllocationFailed));
}

#[test]
fn initializing_an_active_asset_record_again_fails() {
    let mut l = funded_ledger();
    initialize_nft(&mut l, &initialize_ctx()).unwrap();
    let r = l.initialize_mint(MINT, OWNER, TOKEN_PROG);
    assert_eq!(r, Err(NftError::AlreadyInitialized));
}

#[test]
fn initializing_a_foreign_account_fails() {
    let mut l = funded_ledger();
    l.provision_account(OWNER, MINT, 999).unwrap();
    assert_eq!(l.initialize_mint(MINT, OWNER, TOKEN_PROG), Err(NftError::NotOwnedByAssetProgram));
    let mut bare = funded_ledger();
    assert_eq!(
        bare.initialize_mint(MINT, OWNER, TOKEN_PROG),
        Err(NftError::NotOwnedByAssetProgram)
    );
}

#[test]
fn creating_the_same_holder_twice_fails() {
    let mut l = funded_ledger();
    initialize_nft(&mut l, &initialize_ctx()).unwrap();
    create_nft_holder(&mut l, &holder_ctx()).unwrap();
    let r = create_nft_holder(&mut l, &holder_ctx());
    assert_eq!(r, Err(NftError::AccountAlreadyExists));
}

#[test]
fn creating_a_holder_for_a_missing_asset_fails() {
    let mut l = funded_ledger();
    let r = create_nft_holder(&mut l, &holder_ctx());
    assert_eq!(r, Err(NftError::NotFound));
}

#[test]
fn minting_by_a_stranger_fails() {
    let mut l = funded_ledger();
    initialize_nft(&mut l, &initialize_ctx()).unwrap();
    create_nft_holder(&mut l, &holder_ctx()).unwrap();
    let mut ctx = mint_ctx();
    ctx.authority_account = signer(USER2);
    let r = mint_nft(
        &mut l,
        &ctx,
        "Asset A".to_string(),
        "AST".to_string(),
        "https://example/a.json".to_string(),
    );
    assert_eq!(r, Err(NftError::Unauthorized));
    assert_eq!(l.asset_record(MINT).unwrap().supply, 0);
}

#[test]
fn registering_bad_creator_shares_fails() {
    let mut l = funded_ledger();
    initialize_nft(&mut l, &initialize_ctx()).unwrap();
    let r = l.register_metadata(
        META,
        MINT,
        signer(OWNER),
        "T".to_string(),
        "S".to_string(),
        "https://example/t.json".to_string(),
        vec![
            CreatorEntry { address: MINT, verified: false, share: 50 },
            CreatorEntry { address: OWNER, verified: false, share: 40 },
        ],
        DEFAULT_ROYALTY_BPS,
    );
    assert_eq!(r, Err(NftError::InvalidCreatorShares));
}

#[test]
fn registering_too_many_creators_is_rejected() {
    let mut l = funded_ledger();
    initialize_nft(&mut l, &initialize_ctx()).unwrap();
    let entry = CreatorEntry { address: OWNER, verified: false, share: 0 };
    let mut creators = vec![entry; 6];
    creators[0] = CreatorEntry { address: MINT, verified: false, share: 100 };
    let r = l.register_metadata(
        META,
        MINT,
        signer(OWNER),
        "T".to_string(),
        "S".to_string(),
        "https://example/t.json".to_string(),
        creators,
        DEFAULT_ROYALTY_BPS,
    );
    assert_eq!(r, Err(NftError::ExternalProgramRejected));
}

#[test]
fn registering_metadata_twice_fails() {
    let mut l = created_ledger();
    let r = l.register_metadata(
        META,
        MINT,
        signer(OWNER),
        "T".to_string(),
        "S".to_string(),
        "https://example/t.json".to_string(),
        vec![CreatorEntry { address: MINT, verified: false, share: 100 }],
        DEFAULT_ROYALTY_BPS,
    );
    assert_eq!(r, Err(NftError::AlreadyRegistered));
}

#[test]
fn sealing_a_sealed_asset_again_fails() {
    let mut l = created_ledger();
    let r = l.seal_edition(50, MINT, META, signer(OWNER));
    assert_eq!(r, Err(NftError::EditionAlreadyExists));
}

#[test]
fn funding_an_occupied_address_fails() {
    let mut l = funded_ledger();
    let r = l.fund_wallet(OWNER, 1);
    assert_eq!(r, Err(NftError::AccountAlreadyExists));
}
