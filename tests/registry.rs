use heritage_ledger::error::Error;
use heritage_ledger::registry::{CulturalMetadata, CulturalNFT, PROVENANCERecord, TransactionKind};

const ADMIN: u64 = 1;
const A: u64 = 10;
const B: u64 = 11;
const C: u64 = 12;
const MUSEUM: u64 = 500;

fn metadata(title: &str) -> CulturalMetadata {
    CulturalMetadata {
        title: title.to_string(),
        artist: "Unknown".to_string(),
        period: "Classic".to_string(),
        culture: "Maya".to_string(),
        material: "Jade".to_string(),
        dimensions: "12x8 cm".to_string(),
        condition: "Good".to_string(),
        significance: "Ceremonial mask".to_string(),
        museum_address: MUSEUM,
    }
}

fn ready_registry() -> CulturalNFT {
    let mut reg = CulturalNFT::new();
    reg.initialize(ADMIN, "Heritage".to_string(), "HRT".to_string(), MUSEUM).unwrap();
    reg
}

#[test]
fn initialize_only_once() {
    let mut reg = CulturalNFT::new();
    assert_eq!(reg.name().unwrap_err(), Error::NotInitialized);
    assert_eq!(reg.symbol().unwrap_err(), Error::NotInitialized);
    assert_eq!(reg.museum_registry(), Err(Error::NotInitialized));
    reg.initialize(ADMIN, "Heritage".to_string(), "HRT".to_string(), MUSEUM).unwrap();
    assert_eq!(reg.name().unwrap(), "Heritage");
    assert_eq!(reg.symbol().unwrap(), "HRT");
    assert_eq!(reg.museum_registry(), Ok(MUSEUM));
    assert_eq!(
        reg.initialize(B, "Other".to_string(), "OTH".to_string(), 7),
        Err(Error::AlreadyInitialized)
    );
    assert_eq!(reg.name().unwrap(), "Heritage");
}

#[test]
fn mint_requires_admin_and_fresh_id() {
    let mut reg = CulturalNFT::new();
    assert_eq!(
        reg.mint_cultural_nft(ADMIN, A, 1, metadata("Mask"), Vec::new()),
        Err(Error::NotInitialized)
    );
    let mut reg = ready_registry();
    assert_eq!(
        reg.mint_cultural_nft(A, A, 1, metadata("Mask"), Vec::new()),
        Err(Error::Unauthorized)
    );
    assert!(!reg.token_exists(1));
    reg.mint_cultural_nft(ADMIN, A, 1, metadata("Mask"), Vec::new()).unwrap();
    assert!(reg.token_exists(1));
    assert_eq!(reg.total_supply(), 1);
    assert_eq!(
        reg.mint_cultural_nft(ADMIN, B, 1, metadata("Copy"), Vec::new()),
        Err(Error::AlreadyExists)
    );
    assert_eq!(reg.total_supply(), 1);
    assert_eq!(reg.owner_of(1), Ok(A));
    assert_eq!(reg.get_cultural_metadata(1).unwrap().title, "Mask");
}

#[test]
fn mint_keeps_given_provenance() {
    let mut reg = ready_registry();
    let earlier = vec![PROVENANCERecord {
        date: 5,
        from: C,
        to: A,
        transaction_type: TransactionKind::Transfer,
        notes: "Donation".to_string(),
    }];
    reg.mint_cultural_nft(ADMIN, A, 3, metadata("Vase"), earlier).unwrap();
    let prov = reg.get_provenance(3).unwrap();
    assert_eq!(prov.len(), 1);
    assert_eq!(prov[0].from, C);
    assert_eq!(prov[0].notes, "Donation");
}

#[test]
fn queries_on_missing_token_fail() {
    let reg = ready_registry();
    assert_eq!(reg.owner_of(9), Err(Error::NotFound));
    assert!(reg.get_cultural_metadata(9).is_err());
    assert!(reg.get_provenance(9).is_err());
    assert!(reg.get_token_info(9).is_err());
    assert!(!reg.token_exists(9));
    assert_eq!(reg.total_supply(), 0);
}

#[test]
fn transfer_moves_owner_and_records_provenance() {
    let mut reg = ready_registry();
    reg.mint_cultural_nft(ADMIN, A, 1, metadata("Mask"), Vec::new()).unwrap();
    assert_eq!(reg.transfer(A, A, B, 1, 100), Ok(()));
    assert_eq!(reg.owner_of(1), Ok(B));
    let prov = reg.get_provenance(1).unwrap();
    assert_eq!(prov.len(), 1);
    assert_eq!(prov[0].date, 100);
    assert_eq!(prov[0].from, A);
    assert_eq!(prov[0].to, B);
    assert_eq!(prov[0].transaction_type, TransactionKind::Transfer);
    assert_eq!(prov[0].notes, "Direct transfer");
    // A is no longer the owner.
    assert_eq!(reg.transfer(A, A, B, 1, 101), Err(Error::Unauthorized));
    assert_eq!(reg.get_provenance(1).unwrap().len(), 1);
}

#[test]
fn transfer_errors() {
    let mut reg = ready_registry();
    reg.mint_cultural_nft(ADMIN, A, 1, metadata("Mask"), Vec::new()).unwrap();
    assert_eq!(reg.transfer(B, A, B, 1, 0), Err(Error::Unauthorized));
    assert_eq!(reg.transfer(A, A, B, 2, 0), Err(Error::NotFound));
    assert_eq!(reg.owner_of(1), Ok(A));
}

#[test]
fn owner_is_the_latest_target() {
    let mut reg = ready_registry();
    reg.mint_cultural_nft(ADMIN, A, 1, metadata("Mask"), Vec::new()).unwrap();
    reg.transfer(A, A, B, 1, 10).unwrap();
    reg.transfer(B, B, C, 1, 20).unwrap();
    assert_eq!(reg.owner_of(1), Ok(C));
    let prov = reg.get_provenance(1).unwrap();
    assert_eq!(prov.len(), 2);
    assert_eq!(prov[0].to, B);
    assert_eq!(prov[1].from, B);
    assert_eq!(prov[1].to, C);
}

#[test]
fn approved_delegate_transfers_once() {
    let mut reg = ready_registry();
    reg.mint_cultural_nft(ADMIN, A, 1, metadata("Mask"), Vec::new()).unwrap();
    assert_eq!(reg.approve(B, A, C, 1), Err(Error::Unauthorized));
    assert_eq!(reg.approve(A, A, C, 2), Err(Error::NotFound));
    assert_eq!(reg.approve(B, B, C, 1), Err(Error::Unauthorized));
    // Without approval the delegate is refused.
    assert_eq!(reg.transfer_from(C, C, A, B, 1, 5), Err(Error::Unauthorized));
    reg.approve(A, A, C, 1).unwrap();
    assert_eq!(reg.transfer_from(B, C, A, B, 1, 5), Err(Error::Unauthorized));
    assert_eq!(reg.transfer_from(C, C, B, C, 1, 5), Err(Error::Unauthorized));
    assert_eq!(reg.transfer_from(C, C, A, B, 1, 6), Ok(()));
    assert_eq!(reg.owner_of(1), Ok(B));
    let prov = reg.get_provenance(1).unwrap();
    assert_eq!(prov.len(), 1);
    assert_eq!(prov[0].transaction_type, TransactionKind::ApprovedTransfer);
    assert_eq!(prov[0].notes, "Approved transfer");
    // The approval was used up.
    assert_eq!(reg.transfer_from(C, C, B, A, 1, 7), Err(Error::Unauthorized));
}

#[test]
fn direct_transfer_clears_approval() {
    let mut reg = ready_registry();
    reg.mint_cultural_nft(ADMIN, A, 1, metadata("Mask"), Vec::new()).unwrap();
    reg.approve(A, A, C, 1).unwrap();
    reg.transfer(A, A, B, 1, 3).unwrap();
    assert_eq!(reg.transfer_from(C, C, B, C, 1, 4), Err(Error::Unauthorized));
    assert_eq!(reg.owner_of(1), Ok(B));
}

#[test]
fn delegated_transfer_records_kind() {
    let mut reg = ready_registry();
    reg.mint_cultural_nft(ADMIN, A, 4, metadata("Codex"), Vec::new()).unwrap();
    reg.approve(A, A, C, 4).unwrap();
    reg.delegated_transfer(C, C, A, B, 4, TransactionKind::Sale, 9).unwrap();
    let prov = reg.get_provenance(4).unwrap();
    assert_eq!(prov[0].transaction_type, TransactionKind::Sale);
    assert_eq!(prov[0].notes, "Fixed-price sale");
}

#[test]
fn token_info_bundles_queries() {
    let mut reg = ready_registry();
    reg.mint_cultural_nft(ADMIN, A, 2, metadata("Stela"), Vec::new()).unwrap();
    reg.transfer(A, A, B, 2, 1).unwrap();
    let (owner, md, prov) = reg.get_token_info(2).unwrap();
    assert_eq!(owner, B);
    assert_eq!(md.title, "Stela");
    assert_eq!(md.museum_address, MUSEUM);
    assert_eq!(prov.len(), 1);
}

#[test]
fn admin_can_be_handed_over() {
    let mut reg = CulturalNFT::new();
    assert_eq!(reg.transfer_admin(ADMIN, B), Err(Error::NotInitialized));
    reg.initialize(ADMIN, "Heritage".to_string(), "HRT".to_string(), MUSEUM).unwrap();
    assert_eq!(reg.transfer_admin(B, B), Err(Error::Unauthorized));
    assert_eq!(reg.transfer_admin(ADMIN, B), Ok(()));
    assert_eq!(
        reg.mint_cultural_nft(ADMIN, A, 1, metadata("Mask"), Vec::new()),
        Err(Error::Unauthorized)
    );
    assert_eq!(reg.mint_cultural_nft(B, A, 1, metadata("Mask"), Vec::new()), Ok(()));
}
