use heritage_ledger::error::Error;
use heritage_ledger::market::{marketplace_fee, AuctionOutcome, Marketplace, Payment, Settlement};
use heritage_ledger::registry::{CulturalMetadata, CulturalNFT, TransactionKind};

const ADMIN: u64 = 1;
const MARKET: u64 = 2;
const NFT: u64 = 3;
const SELLER: u64 = 10;
const B1: u64 = 11;
const B2: u64 = 12;

fn metadata() -> CulturalMetadata {
    CulturalMetadata {
        title: "Codex".to_string(),
        artist: "Scribe".to_string(),
        period: "Postclassic".to_string(),
        culture: "Mixtec".to_string(),
        material: "Deerskin".to_string(),
        dimensions: "22x26 cm".to_string(),
        condition: "Fair".to_string(),
        significance: "Genealogy".to_string(),
        museum_address: 500,
    }
}

/// A registry holding token 1 of `SELLER`, who approved the marketplace.
fn registry() -> CulturalNFT {
    let mut reg = CulturalNFT::new();
    reg.initialize(ADMIN, "Heritage".to_string(), "HRT".to_string(), 500).unwrap();
    reg.mint_cultural_nft(ADMIN, SELLER, 1, metadata(), Vec::new()).unwrap();
    reg.approve(SELLER, SELLER, MARKET, 1).unwrap();
    reg
}

fn market() -> Marketplace {
    let mut m = Marketplace::new();
    m.initialize(ADMIN, MARKET, 250).unwrap();
    m
}

#[test]
fn fee_formula() {
    assert_eq!(marketplace_fee(12345, 250), 308);
    assert_eq!(marketplace_fee(100, 0), 0);
    assert_eq!(marketplace_fee(100, 10000), 100);
    assert_eq!(marketplace_fee(9999, 1), 0);
    assert_eq!(marketplace_fee(i128::MAX, 10000), i128::MAX);
    assert_eq!(marketplace_fee(i128::MAX, 5000), i128::MAX / 2);
}

#[test]
fn initialize_checks() {
    let mut m = Marketplace::new();
    assert_eq!(m.get_fee_percentage(), Err(Error::NotInitialized));
    assert_eq!(m.initialize(ADMIN, MARKET, 10001), Err(Error::InvalidParameter));
    assert_eq!(m.initialize(ADMIN, MARKET, 250), Ok(()));
    assert_eq!(m.get_fee_percentage(), Ok(250));
    assert_eq!(m.initialize(ADMIN, MARKET, 100), Err(Error::AlreadyInitialized));
    assert_eq!(m.get_total_listings(), 0);
    assert_eq!(m.get_total_auctions(), 0);
}

#[test]
fn self_purchase_is_refused() {
    let mut reg = registry();
    let mut m = market();
    m.list_nft(SELLER, NFT, 1, 100, 0).unwrap();
    assert_eq!(m.buy_nft(&mut reg, SELLER, NFT, 1, 5), Err(Error::SelfPurchase));
    assert!(m.get_listing(NFT, 1).unwrap().active);
    assert_eq!(reg.owner_of(1), Ok(SELLER));
}

#[test]
fn listing_errors() {
    let mut reg = registry();
    let mut m = market();
    assert_eq!(m.list_nft(SELLER, NFT, 1, 0, 0), Err(Error::InvalidPrice));
    assert_eq!(m.list_nft(SELLER, NFT, 1, -5, 0), Err(Error::InvalidPrice));
    assert_eq!(m.buy_nft(&mut reg, B1, NFT, 1, 0), Err(Error::NotListed));
    assert_eq!(m.cancel_listing(SELLER, NFT, 1), Err(Error::NotFound));
    m.list_nft(SELLER, NFT, 1, 100, 0).unwrap();
    assert_eq!(m.list_nft(SELLER, NFT, 1, 200, 1), Err(Error::AlreadyListed));
    assert_eq!(m.cancel_listing(B1, NFT, 1), Err(Error::Unauthorized));
    assert_eq!(m.get_total_listings(), 1);
    assert_eq!(m.get_listing(NFT, 2), Err(Error::NotFound));
    let mut fresh = Marketplace::new();
    assert_eq!(fresh.list_nft(SELLER, NFT, 1, 100, 0), Err(Error::NotInitialized));
    assert_eq!(fresh.create_auction(SELLER, NFT, 1, 100, 60, 0), Err(Error::NotInitialized));
    assert_eq!(fresh.buy_nft(&mut reg, B1, NFT, 1, 1), Err(Error::NotInitialized));
    assert_eq!(fresh.get_total_listings(), 0);
}

#[test]
fn buy_moves_asset_and_settles() {
    let mut reg = registry();
    let mut m = market();
    m.list_nft(SELLER, NFT, 1, 10000, 7).unwrap();
    let l = m.get_listing(NFT, 1).unwrap();
    assert_eq!((l.seller, l.price, l.active, l.created_at), (SELLER, 10000, true, 7));
    let s = m.buy_nft(&mut reg, B1, NFT, 1, 50).unwrap();
    assert_eq!(s, Settlement { seller: SELLER, buyer: B1, price: 10000, fee: 250, proceeds: 9750 });
    assert!(!m.get_listing(NFT, 1).unwrap().active);
    assert_eq!(reg.owner_of(1), Ok(B1));
    let prov = reg.get_provenance(1).unwrap();
    assert_eq!(prov.len(), 1);
    assert_eq!(prov[0].transaction_type, TransactionKind::Sale);
    assert_eq!(prov[0].date, 50);
    assert_eq!(m.buy_nft(&mut reg, B2, NFT, 1, 51), Err(Error::NotActive));
    assert_eq!(m.cancel_listing(SELLER, NFT, 1), Err(Error::NotActive));
}

#[test]
fn buy_without_approval_changes_nothing() {
    let mut reg = CulturalNFT::new();
    reg.initialize(ADMIN, "Heritage".to_string(), "HRT".to_string(), 500).unwrap();
    reg.mint_cultural_nft(ADMIN, SELLER, 1, metadata(), Vec::new()).unwrap();
    let mut m = market();
    m.list_nft(SELLER, NFT, 1, 100, 0).unwrap();
    assert_eq!(m.buy_nft(&mut reg, B1, NFT, 1, 1), Err(Error::Unauthorized));
    assert!(m.get_listing(NFT, 1).unwrap().active);
    assert_eq!(reg.owner_of(1), Ok(SELLER));
    assert_eq!(reg.get_provenance(1).unwrap().len(), 0);
}

#[test]
fn cancelled_listing_can_be_relisted() {
    let mut m = market();
    m.list_nft(SELLER, NFT, 1, 100, 0).unwrap();
    assert_eq!(m.cancel_listing(SELLER, NFT, 1), Ok(()));
    assert!(!m.get_listing(NFT, 1).unwrap().active);
    assert_eq!(m.list_nft(SELLER, NFT, 1, 150, 2), Ok(()));
    assert_eq!(m.get_listing(NFT, 1).unwrap().price, 150);
    assert_eq!(m.get_total_listings(), 2);
}

#[test]
fn listing_and_auction_exclude_each_other() {
    let mut m = market();
    m.list_nft(SELLER, NFT, 1, 100, 0).unwrap();
    assert_eq!(m.create_auction(SELLER, NFT, 1, 100, 60, 0), Err(Error::AlreadyListed));
    m.create_auction(SELLER, NFT, 2, 100, 60, 0).unwrap();
    assert_eq!(m.list_nft(SELLER, NFT, 2, 100, 0), Err(Error::AlreadyInAuction));
    assert_eq!(m.create_auction(SELLER, NFT, 2, 100, 60, 0), Err(Error::AlreadyInAuction));
}

#[test]
fn auction_parameters_checked() {
    let mut m = market();
    assert_eq!(m.create_auction(SELLER, NFT, 1, 0, 60, 0), Err(Error::InvalidParameter));
    assert_eq!(m.create_auction(SELLER, NFT, 1, 100, 0, 0), Err(Error::InvalidParameter));
    assert_eq!(m.create_auction(SELLER, NFT, 1, 100, u64::MAX, 1), Err(Error::InvalidParameter));
    assert_eq!(m.get_total_auctions(), 0);
    m.create_auction(SELLER, NFT, 1, 100, 3600, 1000).unwrap();
    let a = m.get_auction(NFT, 1).unwrap();
    assert_eq!((a.start_time, a.end_time, a.current_bid, a.highest_bidder), (1000, 4600, 0, SELLER));
    assert_eq!(m.get_total_auctions(), 1);
}

#[test]
fn bids_must_rise() {
    let mut m = market();
    m.create_auction(SELLER, NFT, 1, 100, 3600, 0).unwrap();
    assert_eq!(m.bid(B1, NFT, 1, 100, 10), Err(Error::BidTooLow));
    assert_eq!(m.bid(B1, NFT, 1, 150, 11), Ok(None));
    assert_eq!(m.bid(B2, NFT, 1, 150, 12), Err(Error::BidTooLow));
    assert_eq!(m.bid(B2, NFT, 1, 200, 13), Ok(Some(Payment { to: B1, amount: 150 })));
    assert_eq!(m.get_highest_bidder(NFT, 1), Ok(B2));
    assert_eq!(m.get_highest_bid(NFT, 1), Ok(200));
    assert_eq!(m.get_bid(NFT, 1, B1).unwrap().amount, 150);
    assert_eq!(m.get_bid(NFT, 1, B2).unwrap().timestamp, 13);
    assert_eq!(m.get_bid(NFT, 1, SELLER), Err(Error::NotFound));
}

#[test]
fn bid_errors() {
    let mut m = market();
    assert_eq!(m.bid(B1, NFT, 1, 150, 0), Err(Error::NotFound));
    assert_eq!(m.get_highest_bid(NFT, 1), Err(Error::NotFound));
    assert_eq!(m.get_highest_bidder(NFT, 1), Err(Error::NotFound));
    m.create_auction(SELLER, NFT, 1, 100, 60, 0).unwrap();
    assert_eq!(m.bid(SELLER, NFT, 1, 150, 1), Err(Error::SelfPurchase));
    assert_eq!(m.bid(B1, NFT, 1, 150, 60), Err(Error::AuctionEnded));
    m.cancel_auction(SELLER, NFT, 1).unwrap();
    assert_eq!(m.bid(B1, NFT, 1, 150, 1), Err(Error::NotActive));
}

#[test]
fn rebid_overwrites_bidder_record() {
    let mut m = market();
    m.create_auction(SELLER, NFT, 1, 100, 60, 0).unwrap();
    m.bid(B1, NFT, 1, 150, 1).unwrap();
    assert_eq!(m.bid(B1, NFT, 1, 160, 2), Ok(Some(Payment { to: B1, amount: 150 })));
    let b = m.get_bid(NFT, 1, B1).unwrap();
    assert_eq!((b.bidder, b.amount, b.timestamp), (B1, 160, 2));
}

#[test]
fn cancel_auction_rules() {
    let mut m = market();
    assert_eq!(m.cancel_auction(SELLER, NFT, 1), Err(Error::NotFound));
    m.create_auction(SELLER, NFT, 1, 100, 60, 0).unwrap();
    m.create_auction(SELLER, NFT, 2, 100, 60, 0).unwrap();
    assert_eq!(m.cancel_auction(B1, NFT, 1), Err(Error::Unauthorized));
    m.bid(B1, NFT, 1, 150, 1).unwrap();
    assert_eq!(m.cancel_auction(SELLER, NFT, 1), Err(Error::HasBids));
    assert!(m.get_auction(NFT, 1).unwrap().active);
    assert_eq!(m.cancel_auction(SELLER, NFT, 2), Ok(()));
    assert!(!m.get_auction(NFT, 2).unwrap().active);
    assert_eq!(m.cancel_auction(SELLER, NFT, 2), Err(Error::NotActive));
}

#[test]
fn end_auction_waits_for_end_time() {
    let mut reg = registry();
    let mut m = market();
    assert_eq!(m.end_auction(&mut reg, NFT, 1, 0), Err(Error::NotFound));
    m.create_auction(SELLER, NFT, 1, 100, 3600, 1000).unwrap();
    m.bid(B1, NFT, 1, 400, 1500).unwrap();
    assert_eq!(m.end_auction(&mut reg, NFT, 1, 4599), Err(Error::TooEarly));
    let s = m.end_auction(&mut reg, NFT, 1, 4600).unwrap();
    assert_eq!(
        s,
        AuctionOutcome::Sold(Settlement { seller: SELLER, buyer: B1, price: 400, fee: 10, proceeds: 390 })
    );
    assert!(!m.get_auction(NFT, 1).unwrap().active);
    assert_eq!(reg.owner_of(1), Ok(B1));
    let prov = reg.get_provenance(1).unwrap();
    assert_eq!(prov.len(), 1);
    assert_eq!(prov[0].transaction_type, TransactionKind::AuctionSettlement);
    assert_eq!(m.end_auction(&mut reg, NFT, 1, 5000), Err(Error::NotActive));
}

#[test]
fn end_auction_without_bids_moves_nothing() {
    let mut reg = registry();
    let mut m = market();
    m.create_auction(SELLER, NFT, 1, 100, 60, 0).unwrap();
    assert_eq!(m.end_auction(&mut reg, NFT, 1, 60), Ok(AuctionOutcome::NoBids));
    assert_eq!(reg.owner_of(1), Ok(SELLER));
    assert_eq!(reg.get_provenance(1).unwrap().len(), 0);
}

#[test]
fn market_admin_can_be_handed_over() {
    let mut m = Marketplace::new();
    assert_eq!(m.transfer_admin(ADMIN, B1), Err(Error::NotInitialized));
    m.initialize(ADMIN, MARKET, 250).unwrap();
    assert_eq!(m.transfer_admin(B1, B1), Err(Error::Unauthorized));
    assert_eq!(m.transfer_admin(ADMIN, B1), Ok(()));
    assert_eq!(m.transfer_admin(ADMIN, B2), Err(Error::Unauthorized));
    assert_eq!(m.get_fee_percentage(), Ok(250));
}

#[test]
fn new_auction_starts_without_bids() {
    let mut m = market();
    m.create_auction(SELLER, NFT, 1, 100, 60, 0).unwrap();
    m.bid(B1, NFT, 1, 150, 1).unwrap();
    let mut reg = registry();
    m.end_auction(&mut reg, NFT, 1, 60).unwrap();
    assert_eq!(reg.owner_of(1), Ok(B1));
    m.create_auction(B1, NFT, 1, 100, 60, 100).unwrap();
    assert_eq!(m.get_bid(NFT, 1, B1), Err(Error::NotFound));
    assert_eq!(m.get_highest_bidder(NFT, 1), Ok(B1));
}

#[test]
fn seller_low_bid_is_too_low() {
    let mut m = market();
    m.create_auction(SELLER, NFT, 1, 100, 60, 0).unwrap();
    assert_eq!(m.bid(SELLER, NFT, 1, 0, 1), Err(Error::BidTooLow));
    assert_eq!(m.bid(SELLER, NFT, 1, 100, 1), Err(Error::BidTooLow));
    assert_eq!(m.bid(SELLER, NFT, 1, 101, 1), Err(Error::SelfPurchase));
    m.bid(B1, NFT, 1, 150, 2).unwrap();
    assert_eq!(m.bid(SELLER, NFT, 1, 150, 3), Err(Error::BidTooLow));
    assert_eq!(m.get_highest_bidder(NFT, 1), Ok(B1));
}

#[test]
fn auction_closes_with_refund_when_asset_left() {
    let mut reg = registry();
    let mut m = market();
    m.create_auction(SELLER, NFT, 1, 100, 60, 0).unwrap();
    m.bid(B1, NFT, 1, 150, 1).unwrap();
    // The seller gives the asset away during the auction.
    reg.transfer(SELLER, SELLER, B2, 1, 2).unwrap();
    assert_eq!(m.end_auction(&mut reg, NFT, 1, 59), Err(Error::TooEarly));
    assert_eq!(
        m.end_auction(&mut reg, NFT, 1, 60),
        Ok(AuctionOutcome::Refunded(Payment { to: B1, amount: 150 }))
    );
    let a = m.get_auction(NFT, 1).unwrap();
    assert!(!a.active);
    assert_eq!((a.current_bid, a.highest_bidder), (150, B1));
    assert_eq!(reg.owner_of(1), Ok(B2));
    assert_eq!(reg.get_provenance(1).unwrap().len(), 1);
    assert_eq!(m.end_auction(&mut reg, NFT, 1, 61), Err(Error::NotActive));
}
