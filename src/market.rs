//! The exchange engine: fixed-price listings and time-boxed ascending
//! auctions over assets of a registry.
use std::collections::HashMap;
use vstd::prelude::*;

use crate::error::{commits, Error, Principal};
use crate::registry::{delegated_step, CulturalNFT, RegistryView, TransactionKind};

verus! {

broadcast use vstd::std_specs::hash::group_hash_axioms;

/// Basis points in a whole: a fee of `BPS_DENOMINATOR` basis points is 100%.
pub const BPS_DENOMINATOR: u32 = 10000;

/// A fixed-price offer for one asset.
#[derive(PartialEq, Eq, Structural, Clone, Copy, Debug)]
pub struct Listing {
    pub seller: Principal,
    pub nft_contract: Principal,
    pub token_id: u32,
    pub price: i128,
    pub active: bool,
    pub created_at: u64,
}

/// A time-boxed ascending auction for one asset.
#[derive(PartialEq, Eq, Structural, Clone, Copy, Debug)]
pub struct Auction {
    pub seller: Principal,
    pub nft_contract: Principal,
    pub token_id: u32,
    pub starting_price: i128,
    pub current_bid: i128,
    pub highest_bidder: Principal,
    pub start_time: u64,
    pub end_time: u64,
    pub active: bool,
}

/// The latest bid of one bidder in one auction.
#[derive(PartialEq, Eq, Structural, Clone, Copy, Debug)]
pub struct Bid {
    pub bidder: Principal,
    pub amount: i128,
    pub timestamp: u64,
}

/// Funds owed to a principal.
#[derive(PartialEq, Eq, Structural, Clone, Copy, Debug)]
pub struct Payment {
    pub to: Principal,
    pub amount: i128,
}

/// The money side of a completed sale: the buyer pays `price`, of which the
/// marketplace keeps `fee` and the seller receives `proceeds`.
#[derive(PartialEq, Eq, Structural, Clone, Copy, Debug)]
pub struct Settlement {
    pub seller: Principal,
    pub buyer: Principal,
    pub price: i128,
    pub fee: i128,
    pub proceeds: i128,
}

/// How an auction whose time is over closed.
#[derive(PartialEq, Eq, Structural, Clone, Copy, Debug)]
pub enum AuctionOutcome {
    /// Nobody bid: nothing moves.
    NoBids,
    /// The asset went to the highest bidder; the winning bid is settled.
    Sold(Settlement),
    /// The registry would not move the asset (the seller no longer holds it,
    /// or withdrew the marketplace's approval): no sale, and the highest bid
    /// is owed back to its bidder.
    Refunded(Payment),
}

/// The storage key of asset `token_id` of registry `nft_contract`; distinct
/// assets have distinct keys.
pub open spec fn asset_key(nft_contract: Principal, token_id: u32) -> u128 {
    (nft_contract as int * 0x1_0000_0000 + token_id as int) as u128
}

pub fn asset_key_of(nft_contract: Principal, token_id: u32) -> (k: u128)
    ensures
        k == asset_key(nft_contract, token_id),
{
    assert((nft_contract as u128) * 0x1_0000_0000 <= 0xFFFF_FFFF_FFFF_FFFFu128 * 0x1_0000_0000)
        by (nonlinear_arith)
        requires
            nft_contract <= 0xFFFF_FFFF_FFFF_FFFFu64,
    ;
    (nft_contract as u128) * 0x1_0000_0000 + (token_id as u128)
}

/// The marketplace fee on a sale at `price`, at `bps` basis points, rounded
/// down.
pub open spec fn fee_of(price: int, bps: int) -> int {
    price * bps / BPS_DENOMINATOR as int
}

pub fn marketplace_fee(price: i128, bps: u32) -> (f: i128)
    requires
        price >= 0,
        bps <= BPS_DENOMINATOR,
    ensures
        f == fee_of(price as int, bps as int),
        0 <= f <= price,
{
    let q = price / 10000;
    let r = price % 10000;
    let b = bps as i128;
    proof {
        let (pi, bi, qi, ri) = (price as int, b as int, q as int, r as int);
        assert(pi == qi * 10000 + ri && 0 <= ri < 10000 && qi >= 0);
        assert(qi * bi <= qi * 10000) by (nonlinear_arith)
            requires
                qi >= 0,
                bi <= 10000,
        ;
        assert(ri * bi <= ri * 10000) by (nonlinear_arith)
            requires
                ri >= 0,
                bi <= 10000,
        ;
        assert(0 <= ri * bi && 0 <= qi * bi) by (nonlinear_arith)
            requires
                ri >= 0,
                qi >= 0,
                bi >= 0,
        ;
        assert(pi * bi / 10000 == qi * bi + ri * bi / 10000) by (nonlinear_arith)
            requires
                pi == qi * 10000 + ri,
                0 <= ri * bi,
        ;
        assert(ri * bi / 10000 <= ri) by (nonlinear_arith)
            requires
                0 <= ri * bi <= ri * 10000,
        ;
    }
    q * b + (r * b) / 10000
}

/// The marketplace as a mathematical value. It is initialized once `admin`
/// is set; `operator` is the principal under which it moves assets in the
/// registry, as the owners' approved delegate.
pub struct MarketView {
    pub admin: Option<Principal>,
    pub operator: Principal,
    pub fee_bps: u32,
    pub listing_count: nat,
    pub auction_count: nat,
    pub listings: Map<u128, Listing>,
    pub auctions: Map<u128, Auction>,
    pub bids: Map<u128, Map<Principal, Bid>>,
}

impl MarketView {
    pub open spec fn initialized(self) -> bool {
        self.admin is Some
    }

    pub open spec fn listed(self, k: u128) -> bool {
        self.listings.contains_key(k) && self.listings[k].active
    }

    pub open spec fn auctioned(self, k: u128) -> bool {
        self.auctions.contains_key(k) && self.auctions[k].active
    }

    /// The bids recorded for the asset with key `k`.
    pub open spec fn bids_at(self, k: u128) -> Map<Principal, Bid> {
        if self.bids.contains_key(k) {
            self.bids[k]
        } else {
            Map::empty()
        }
    }

    pub open spec fn with_listing(self, k: u128, l: Listing) -> MarketView {
        MarketView { listings: self.listings.insert(k, l), ..self }
    }

    pub open spec fn with_auction(self, k: u128, a: Auction) -> MarketView {
        MarketView { auctions: self.auctions.insert(k, a), ..self }
    }
}

/// The invariant of one auction record: the seller leads until the first
/// bid, after which a bidder other than the seller leads with a bid above
/// the starting price.
pub open spec fn auction_wf(a: Auction) -> bool {
    &&& a.starting_price > 0
    &&& a.start_time <= a.end_time
    &&& a.current_bid >= 0
    &&& a.current_bid == 0 ==> a.highest_bidder == a.seller
    &&& a.current_bid > 0 ==> a.highest_bidder != a.seller && a.current_bid > a.starting_price
}

/// The invariant of the marketplace: every listing has a positive price,
/// every auction is well formed, and no asset is offered on both tracks at
/// once.
pub open spec fn market_wf(m: MarketView) -> bool {
    &&& m.fee_bps <= BPS_DENOMINATOR
    &&& forall|k: u128| #[trigger] m.listings.contains_key(k) ==> m.listings[k].price > 0
    &&& forall|k: u128| #[trigger] m.auctions.contains_key(k) ==> auction_wf(m.auctions[k])
    &&& forall|k: u128| !(#[trigger] m.listed(k) && m.auctioned(k))
}

pub open spec fn market_initialize_step(
    m: MarketView,
    admin: Principal,
    operator: Principal,
    fee_percentage: u32,
) -> Result<MarketView, Error> {
    if m.initialized() {
        Err(Error::AlreadyInitialized)
    } else if fee_percentage > BPS_DENOMINATOR {
        Err(Error::InvalidParameter)
    } else {
        Ok(MarketView { admin: Some(admin), operator, fee_bps: fee_percentage, ..m })
    }
}

/// Hands the administrator's authority to `new_admin`; only the current
/// administrator may do so.
pub open spec fn market_admin_step(m: MarketView, caller: Principal, new_admin: Principal) -> Result<
    MarketView,
    Error,
> {
    if !m.initialized() {
        Err(Error::NotInitialized)
    } else if m.admin != Some(caller) {
        Err(Error::Unauthorized)
    } else {
        Ok(MarketView { admin: Some(new_admin), ..m })
    }
}

pub open spec fn list_step(
    m: MarketView,
    seller: Principal,
    nft_contract: Principal,
    token_id: u32,
    price: i128,
    now: u64,
) -> Result<MarketView, Error> {
    let k = asset_key(nft_contract, token_id);
    if !m.initialized() {
        Err(Error::NotInitialized)
    } else if price <= 0 {
        Err(Error::InvalidPrice)
    } else if m.listed(k) {
        Err(Error::AlreadyListed)
    } else if m.auctioned(k) {
        Err(Error::AlreadyInAuction)
    } else {
        Ok(
            MarketView {
                listing_count: m.listing_count + 1,
                ..m.with_listing(
                    k,
                    Listing { seller, nft_contract, token_id, price, active: true, created_at: now },
                )
            },
        )
    }
}

pub open spec fn settlement_of(m: MarketView, seller: Principal, buyer: Principal, price: i128) -> Settlement {
    let fee = fee_of(price as int, m.fee_bps as int);
    Settlement { seller, buyer, price, fee: fee as i128, proceeds: (price - fee) as i128 }
}

/// A purchase: the listing closes and the registry, whose view is `g`, moves
/// the asset from the seller to the buyer through the marketplace's approval.
pub open spec fn buy_step(
    m: MarketView,
    g: RegistryView,
    buyer: Principal,
    nft_contract: Principal,
    token_id: u32,
    now: u64,
) -> Result<(MarketView, RegistryView, Settlement), Error> {
    let k = asset_key(nft_contract, token_id);
    let l = m.listings[k];
    if !m.initialized() {
        Err(Error::NotInitialized)
    } else if !m.listings.contains_key(k) {
        Err(Error::NotListed)
    } else if !l.active {
        Err(Error::NotActive)
    } else if l.seller == buyer {
        Err(Error::SelfPurchase)
    } else {
        match delegated_step(
            g,
            m.operator,
            m.operator,
            l.seller,
            buyer,
            token_id,
            TransactionKind::Sale,
            now,
        ) {
            Err(e) => Err(e),
            Ok(g2) => Ok(
                (
                    m.with_listing(k, Listing { active: false, ..l }),
                    g2,
                    settlement_of(m, l.seller, buyer, l.price),
                ),
            ),
        }
    }
}

pub open spec fn cancel_listing_step(
    m: MarketView,
    seller: Principal,
    nft_contract: Principal,
    token_id: u32,
) -> Result<MarketView, Error> {
    let k = asset_key(nft_contract, token_id);
    let l = m.listings[k];
    if !m.listings.contains_key(k) {
        Err(Error::NotFound)
    } else if l.seller != seller {
        Err(Error::Unauthorized)
    } else if !l.active {
        Err(Error::NotActive)
    } else {
        Ok(m.with_listing(k, Listing { active: false, ..l }))
    }
}

pub open spec fn create_auction_step(
    m: MarketView,
    seller: Principal,
    nft_contract: Principal,
    token_id: u32,
    starting_price: i128,
    duration: u64,
    now: u64,
) -> Result<MarketView, Error> {
    let k = asset_key(nft_contract, token_id);
    if !m.initialized() {
        Err(Error::NotInitialized)
    } else if starting_price <= 0 || duration == 0 || now + duration > u64::MAX {
        Err(Error::InvalidParameter)
    } else if m.auctioned(k) {
        Err(Error::AlreadyInAuction)
    } else if m.listed(k) {
        Err(Error::AlreadyListed)
    } else {
        Ok(
            MarketView {
                auction_count: m.auction_count + 1,
                bids: m.bids.remove(k),
                ..m.with_auction(
                    k,
                    Auction {
                        seller,
                        nft_contract,
                        token_id,
                        starting_price,
                        current_bid: 0,
                        highest_bidder: seller,
                        start_time: now,
                        end_time: (now + duration) as u64,
                        active: true,
                    },
                )
            },
        )
    }
}

/// A bid; on success it also gives the refund owed to the bidder it
/// outbids, if any.
pub open spec fn bid_step(
    m: MarketView,
    bidder: Principal,
    nft_contract: Principal,
    token_id: u32,
    amount: i128,
    now: u64,
) -> Result<(MarketView, Option<Payment>), Error> {
    let k = asset_key(nft_contract, token_id);
    let a = m.auctions[k];
    if !m.auctions.contains_key(k) {
        Err(Error::NotFound)
    } else if !a.active {
        Err(Error::NotActive)
    } else if now >= a.end_time {
        Err(Error::AuctionEnded)
    } else if amount <= a.current_bid || amount <= a.starting_price {
        Err(Error::BidTooLow)
    } else if bidder == a.seller {
        Err(Error::SelfPurchase)
    } else {
        Ok(
            (
                MarketView {
                    bids: m.bids.insert(
                        k,
                        m.bids_at(k).insert(bidder, Bid { bidder, amount, timestamp: now }),
                    ),
                    ..m.with_auction(
                        k,
                        Auction { current_bid: amount, highest_bidder: bidder, ..a },
                    )
                },
                if a.current_bid > 0 {
                    Some(Payment { to: a.highest_bidder, amount: a.current_bid })
                } else {
                    None
                },
            ),
        )
    }
}

/// Closing an auction once its time is over always succeeds. With a bid the
/// asset goes to the highest bidder and a settlement is due; if the registry
/// will not move it, the sale is off and the bid is owed back. Without a bid
/// the auction just closes.
pub open spec fn end_auction_step(
    m: MarketView,
    g: RegistryView,
    nft_contract: Principal,
    token_id: u32,
    now: u64,
) -> Result<(MarketView, RegistryView, AuctionOutcome), Error> {
    let k = asset_key(nft_contract, token_id);
    let a = m.auctions[k];
    let closed = m.with_auction(k, Auction { active: false, ..a });
    if !m.auctions.contains_key(k) {
        Err(Error::NotFound)
    } else if !a.active {
        Err(Error::NotActive)
    } else if now < a.end_time {
        Err(Error::TooEarly)
    } else if a.current_bid <= 0 {
        Ok((closed, g, AuctionOutcome::NoBids))
    } else {
        let moved = delegated_step(
            g,
            m.operator,
            m.operator,
            a.seller,
            a.highest_bidder,
            token_id,
            TransactionKind::AuctionSettlement,
            now,
        );
        if m.initialized() && moved is Ok {
            Ok(
                (
                    closed,
                    moved->Ok_0,
                    AuctionOutcome::Sold(
                        settlement_of(m, a.seller, a.highest_bidder, a.current_bid),
                    ),
                ),
            )
        } else {
            Ok(
                (
                    closed,
                    g,
                    AuctionOutcome::Refunded(
                        Payment { to: a.highest_bidder, amount: a.current_bid },
                    ),
                ),
            )
        }
    }
}

pub open spec fn cancel_auction_step(
    m: MarketView,
    seller: Principal,
    nft_contract: Principal,
    token_id: u32,
) -> Result<MarketView, Error> {
    let k = asset_key(nft_contract, token_id);
    let a = m.auctions[k];
    if !m.auctions.contains_key(k) {
        Err(Error::NotFound)
    } else if a.seller != seller {
        Err(Error::Unauthorized)
    } else if !a.active {
        Err(Error::NotActive)
    } else if a.current_bid > 0 {
        Err(Error::HasBids)
    } else {
        Ok(m.with_auction(k, Auction { active: false, ..a }))
    }
}

/// `r` is the observable result of a transition of the marketplace and the
/// registry together whose outcome is `step`: all of it or none of it.
pub open spec fn commits_with<T>(
    step: Result<(MarketView, RegistryView, T), Error>,
    m: MarketView,
    g: RegistryView,
    m2: MarketView,
    g2: RegistryView,
    r: Result<T, Error>,
) -> bool {
    match step {
        Ok((m3, g3, t)) => r == Ok::<T, Error>(t) && m2 == m3 && g2 == g3,
        Err(e) => r == Err::<T, Error>(e) && m2 == m && g2 == g,
    }
}

pub(crate) proof fn lemma_listing_keeps_wf(m: MarketView, m2: MarketView, k: u128, l: Listing)
    requires
        market_wf(m),
        m2.fee_bps == m.fee_bps,
        m2.auctions == m.auctions,
        m2.listings == m.listings.insert(k, l),
        l.price > 0,
        !(l.active && m.auctioned(k)),
    ensures
        market_wf(m2),
{
    assert forall|j: u128| #[trigger] m2.listings.contains_key(j) implies m2.listings[j].price > 0 by {
        if j != k {
            assert(m.listings.contains_key(j));
        }
    }
    assert forall|j: u128| !(#[trigger] m2.listed(j) && m2.auctioned(j)) by {
        if j != k {
            assert(!(m.listed(j) && m.auctioned(j)));
        }
    }
}

pub(crate) proof fn lemma_auction_keeps_wf(m: MarketView, m2: MarketView, k: u128, a: Auction)
    requires
        market_wf(m),
        m2.fee_bps == m.fee_bps,
        m2.listings == m.listings,
        m2.auctions == m.auctions.insert(k, a),
        auction_wf(a),
        !(a.active && m.listed(k)),
    ensures
        market_wf(m2),
{
    assert forall|j: u128| #[trigger] m2.auctions.contains_key(j) implies auction_wf(m2.auctions[j]) by {
        if j != k {
            assert(m.auctions.contains_key(j));
        }
    }
    assert forall|j: u128| !(#[trigger] m2.listed(j) && m2.auctioned(j)) by {
        if j != k {
            assert(!(m.listed(j) && m.auctioned(j)));
        }
    }
}

/// The exchange engine: fixed-price listings and ascending auctions.
pub struct Marketplace {
    admin: Option<Principal>,
    operator: Principal,
    fee_percentage: u32,
    listing_count: u32,
    auction_count: u32,
    listings: HashMap<u128, Listing>,
    auctions: HashMap<u128, Auction>,
    bids: HashMap<u128, HashMap<Principal, Bid>>,
}

impl View for Marketplace {
    type V = MarketView;

    closed spec fn view(&self) -> MarketView {
        MarketView {
            admin: self.admin,
            operator: self.operator,
            fee_bps: self.fee_percentage,
            listing_count: self.listing_count as nat,
            auction_count: self.auction_count as nat,
            listings: self.listings@,
            auctions: self.auctions@,
            bids: self.bids@.map_values(|b: HashMap<Principal, Bid>| b@),
        }
    }
}

impl Marketplace {
    pub open spec fn wf(&self) -> bool {
        market_wf(self@)
    }

    /// An uninitialized marketplace with no listings or auctions.
    pub fn new() -> (r: Marketplace)
        ensures
            r.wf(),
            !r@.initialized(),
            r@.listing_count == 0,
            r@.auction_count == 0,
            r@.listings == Map::<u128, Listing>::empty(),
            r@.auctions == Map::<u128, Auction>::empty(),
            r@.bids == Map::<u128, Map<Principal, Bid>>::empty(),
    {
        let r = Marketplace {
            admin: None,
            operator: 0,
            fee_percentage: 0,
            listing_count: 0,
            auction_count: 0,
            listings: HashMap::new(),
            auctions: HashMap::new(),
            bids: HashMap::new(),
        };
        proof {
            assert(r@.bids =~= Map::<u128, Map<Principal, Bid>>::empty());
        }
        r
    }

    /// Sets the administrator, the principal under which the marketplace
    /// acts in the registry, and the fee in basis points; allowed once.
    pub fn initialize(&mut self, admin: Principal, operator: Principal, fee_percentage: u32) -> (r:
        Result<(), Error>)
        requires
            old(self).wf(),
        ensures
            final(self).wf(),
            commits(
                market_initialize_step(old(self)@, admin, operator, fee_percentage),
                old(self)@,
                final(self)@,
                r,
            ),
    {
        if self.admin.is_some() {
            return Err(Error::AlreadyInitialized);
        }
        if fee_percentage > BPS_DENOMINATOR {
            return Err(Error::InvalidParameter);
        }
        self.admin = Some(admin);
        self.operator = operator;
        self.fee_percentage = fee_percentage;
        proof {
            assert forall|k: u128| !(#[trigger] self@.listed(k) && self@.auctioned(k)) by {
                assert(!(old(self)@.listed(k) && old(self)@.auctioned(k)));
            }
        }
        Ok(())
    }

    pub fn transfer_admin(&mut self, caller: Principal, new_admin: Principal) -> (r: Result<(), Error>)
        requires
            old(self).wf(),
        ensures
            final(self).wf(),
            commits(market_admin_step(old(self)@, caller, new_admin), old(self)@, final(self)@, r),
    {
        match self.admin {
            None => Err(Error::NotInitialized),
            Some(admin) => {
                if admin != caller {
                    return Err(Error::Unauthorized);
                }
                let ghost before = self@;
                self.admin = Some(new_admin);
                proof {
                    assert forall|k: u128| !(#[trigger] self@.listed(k) && self@.auctioned(k)) by {
                        assert(!(before.listed(k) && before.auctioned(k)));
                    }
                }
                Ok(())
            },
        }
    }

    fn listed_at(&self, k: u128) -> (b: bool)
        ensures
            b == self@.listed(k),
    {
        match self.listings.get(&k) {
            Some(l) => l.active,
            None => false,
        }
    }

    fn auctioned_at(&self, k: u128) -> (b: bool)
        ensures
            b == self@.auctioned(k),
    {
        match self.auctions.get(&k) {
            Some(a) => a.active,
            None => false,
        }
    }

    /// Offers asset `token_id` of registry `nft_contract` at a fixed `price`.
    pub fn list_nft(
        &mut self,
        seller: Principal,
        nft_contract: Principal,
        token_id: u32,
        price: i128,
        now: u64,
    ) -> (r: Result<(), Error>)
        requires
            old(self).wf(),
            old(self)@.listing_count < u32::MAX,
        ensures
            final(self).wf(),
            commits(
                list_step(old(self)@, seller, nft_contract, token_id, price, now),
                old(self)@,
                final(self)@,
                r,
            ),
    {
        if self.admin.is_none() {
            return Err(Error::NotInitialized);
        }
        if price <= 0 {
            return Err(Error::InvalidPrice);
        }
        let k = asset_key_of(nft_contract, token_id);
        if self.listed_at(k) {
            return Err(Error::AlreadyListed);
        }
        if self.auctioned_at(k) {
            return Err(Error::AlreadyInAuction);
        }
        let ghost before = self@;
        let l = Listing { seller, nft_contract, token_id, price, active: true, created_at: now };
        self.listings.insert(k, l);
        self.listing_count = self.listing_count + 1;
        proof {
            lemma_listing_keeps_wf(before, self@, k, l);
        }
        Ok(())
    }

    /// Buys a listed asset: closes the listing, moves the asset from the
    /// seller to `buyer` in `registry` (the registry named `nft_contract`)
    /// and returns the payments due.
    pub fn buy_nft(
        &mut self,
        registry: &mut CulturalNFT,
        buyer: Principal,
        nft_contract: Principal,
        token_id: u32,
        now: u64,
    ) -> (r: Result<Settlement, Error>)
        requires
            old(self).wf(),
            old(registry).wf(),
        ensures
            final(self).wf(),
            final(registry).wf(),
            commits_with(
                buy_step(old(self)@, old(registry)@, buyer, nft_contract, token_id, now),
                old(self)@,
                old(registry)@,
                final(self)@,
                final(registry)@,
                r,
            ),
    {
        if self.admin.is_none() {
            return Err(Error::NotInitialized);
        }
        let k = asset_key_of(nft_contract, token_id);
        let l = match self.listings.get(&k) {
            None => {
                return Err(Error::NotListed);
            },
            Some(l) => *l,
        };
        if !l.active {
            return Err(Error::NotActive);
        }
        if l.seller == buyer {
            return Err(Error::SelfPurchase);
        }
        match registry.delegated_transfer(
            self.operator,
            self.operator,
            l.seller,
            buyer,
            token_id,
            TransactionKind::Sale,
            now,
        ) {
            Err(e) => {
                return Err(e);
            },
            Ok(()) => {},
        }
        let ghost before = self@;
        let closed = Listing { active: false, ..l };
        proof {
            assert(before.listings.contains_key(k));
        }
        self.listings.insert(k, closed);
        let fee = marketplace_fee(l.price, self.fee_percentage);
        proof {
            lemma_listing_keeps_wf(before, self@, k, closed);
        }
        Ok(Settlement { seller: l.seller, buyer, price: l.price, fee, proceeds: l.price - fee })
    }

    /// The seller withdraws an active listing.
    pub fn cancel_listing(&mut self, seller: Principal, nft_contract: Principal, token_id: u32) -> (r:
        Result<(), Error>)
        requires
            old(self).wf(),
        ensures
            final(self).wf(),
            commits(
                cancel_listing_step(old(self)@, seller, nft_contract, token_id),
                old(self)@,
                final(self)@,
                r,
            ),
    {
        let k = asset_key_of(nft_contract, token_id);
        let l = match self.listings.get(&k) {
            None => {
                return Err(Error::NotFound);
            },
            Some(l) => *l,
        };
        if l.seller != seller {
            return Err(Error::Unauthorized);
        }
        if !l.active {
            return Err(Error::NotActive);
        }
        let ghost before = self@;
        let closed = Listing { active: false, ..l };
        proof {
            assert(before.listings.contains_key(k));
        }
        self.listings.insert(k, closed);
        proof {
            lemma_listing_keeps_wf(before, self@, k, closed);
        }
        Ok(())
    }

    /// Opens an auction of asset `token_id` of registry `nft_contract`,
    /// running from `now` for `duration` seconds, with no bids recorded.
    pub fn create_auction(
        &mut self,
        seller: Principal,
        nft_contract: Principal,
        token_id: u32,
        starting_price: i128,
        duration: u64,
        now: u64,
    ) -> (r: Result<(), Error>)
        requires
            old(self).wf(),
            old(self)@.auction_count < u32::MAX,
        ensures
            final(self).wf(),
            commits(
                create_auction_step(
                    old(self)@,
                    seller,
                    nft_contract,
                    token_id,
                    starting_price,
                    duration,
                    now,
                ),
                old(self)@,
                final(self)@,
                r,
            ),
    {
        if self.admin.is_none() {
            return Err(Error::NotInitialized);
        }
        if starting_price <= 0 || duration == 0 || now > u64::MAX - duration {
            return Err(Error::InvalidParameter);
        }
        let k = asset_key_of(nft_contract, token_id);
        if self.auctioned_at(k) {
            return Err(Error::AlreadyInAuction);
        }
        if self.listed_at(k) {
            return Err(Error::AlreadyListed);
        }
        let ghost before = self@;
        let a = Auction {
            seller,
            nft_contract,
            token_id,
            starting_price,
            current_bid: 0,
            highest_bidder: seller,
            start_time: now,
            end_time: now + duration,
            active: true,
        };
        self.auctions.insert(k, a);
        self.auction_count = self.auction_count + 1;
        self.bids.remove(&k);
        proof {
            lemma_auction_keeps_wf(before, self@, k, a);
            assert(self@.bids =~= before.bids.remove(k));
        }
        Ok(())
    }

    /// Places a bid of `amount` at time `now`. On success returns the refund
    /// owed to the bidder who led before, if anyone but the seller did.
    pub fn bid(
        &mut self,
        bidder: Principal,
        nft_contract: Principal,
        token_id: u32,
        amount: i128,
        now: u64,
    ) -> (r: Result<Option<Payment>, Error>)
        requires
            old(self).wf(),
        ensures
            final(self).wf(),
            match bid_step(old(self)@, bidder, nft_contract, token_id, amount, now) {
                Ok((m, refund)) => r == Ok::<Option<Payment>, Error>(refund) && final(self)@ == m,
                Err(e) => r == Err::<Option<Payment>, Error>(e) && final(self)@ == old(self)@,
            },
    {
        let k = asset_key_of(nft_contract, token_id);
        let a = match self.auctions.get(&k) {
            None => {
                return Err(Error::NotFound);
            },
            Some(a) => *a,
        };
        if !a.active {
            return Err(Error::NotActive);
        }
        if now >= a.end_time {
            return Err(Error::AuctionEnded);
        }
        if amount <= a.current_bid || amount <= a.starting_price {
            return Err(Error::BidTooLow);
        }
        if bidder == a.seller {
            return Err(Error::SelfPurchase);
        }
        let refund = if a.current_bid > 0 {
            Some(Payment { to: a.highest_bidder, amount: a.current_bid })
        } else {
            None
        };
        let ghost before = self@;
        let raised = Auction { current_bid: amount, highest_bidder: bidder, ..a };
        self.auctions.insert(k, raised);
        let mut per_bidder = match self.bids.get(&k) {
            Some(b) => b.clone(),
            None => HashMap::new(),
        };
        per_bidder.insert(bidder, Bid { bidder, amount, timestamp: now });
        self.bids.insert(k, per_bidder);
        proof {
            assert(before.auctions.contains_key(k));
            lemma_auction_keeps_wf(before, self@, k, raised);
            assert(self@.bids =~= before.bids.insert(
                k,
                before.bids_at(k).insert(bidder, Bid { bidder, amount, timestamp: now }),
            ));
        }
        Ok(refund)
    }

    /// Closes an auction whose time is over. With a bid, the asset moves
    /// from the seller to the highest bidder in `registry` (the registry
    /// named `nft_contract`) and the payments due are returned; if the
    /// registry refuses the move, the bid is owed back instead.
    pub fn end_auction(
        &mut self,
        registry: &mut CulturalNFT,
        nft_contract: Principal,
        token_id: u32,
        now: u64,
    ) -> (r: Result<AuctionOutcome, Error>)
        requires
            old(self).wf(),
            old(registry).wf(),
        ensures
            final(self).wf(),
            final(registry).wf(),
            commits_with(
                end_auction_step(old(self)@, old(registry)@, nft_contract, token_id, now),
                old(self)@,
                old(registry)@,
                final(self)@,
                final(registry)@,
                r,
            ),
    {
        let k = asset_key_of(nft_contract, token_id);
        let a = match self.auctions.get(&k) {
            None => {
                return Err(Error::NotFound);
            },
            Some(a) => *a,
        };
        if !a.active {
            return Err(Error::NotActive);
        }
        if now < a.end_time {
            return Err(Error::TooEarly);
        }
        proof {
            assert(auction_wf(a));
        }
        let refund = AuctionOutcome::Refunded(
            Payment { to: a.highest_bidder, amount: a.current_bid },
        );
        let outcome = if a.current_bid <= 0 {
            AuctionOutcome::NoBids
        } else if self.admin.is_none() {
            refund
        } else {
            match registry.delegated_transfer(
                self.operator,
                self.operator,
                a.seller,
                a.highest_bidder,
                token_id,
                TransactionKind::AuctionSettlement,
                now,
            ) {
                Err(_) => refund,
                Ok(()) => {
                    let fee = marketplace_fee(a.current_bid, self.fee_percentage);
                    AuctionOutcome::Sold(
                        Settlement {
                            seller: a.seller,
                            buyer: a.highest_bidder,
                            price: a.current_bid,
                            fee,
                            proceeds: a.current_bid - fee,
                        },
                    )
                },
            }
        };
        let ghost before = self@;
        let closed = Auction { active: false, ..a };
        self.auctions.insert(k, closed);
        proof {
            lemma_auction_keeps_wf(before, self@, k, closed);
        }
        Ok(outcome)
    }

    /// The seller withdraws an active auction that has no bid yet.
    pub fn cancel_auction(&mut self, seller: Principal, nft_contract: Principal, token_id: u32) -> (r:
        Result<(), Error>)
        requires
            old(self).wf(),
        ensures
            final(self).wf(),
            commits(
                cancel_auction_step(old(self)@, seller, nft_contract, token_id),
                old(self)@,
                final(self)@,
                r,
            ),
    {
        let k = asset_key_of(nft_contract, token_id);
        let a = match self.auctions.get(&k) {
            None => {
                return Err(Error::NotFound);
            },
            Some(a) => *a,
        };
        if a.seller != seller {
            return Err(Error::Unauthorized);
        }
        if !a.active {
            return Err(Error::NotActive);
        }
        if a.current_bid > 0 {
            return Err(Error::HasBids);
        }
        let ghost before = self@;
        let closed = Auction { active: false, ..a };
        self.auctions.insert(k, closed);
        proof {
            assert(before.auctions.contains_key(k));
            lemma_auction_keeps_wf(before, self@, k, closed);
        }
        Ok(())
    }

    pub fn get_listing(&self, nft_contract: Principal, token_id: u32) -> (r: Result<Listing, Error>)
        ensures
            r == (if self@.listings.contains_key(asset_key(nft_contract, token_id)) {
                Ok(self@.listings[asset_key(nft_contract, token_id)])
            } else {
                Err(Error::NotFound)
            }),
    {
        let k = asset_key_of(nft_contract, token_id);
        match self.listings.get(&k) {
            None => Err(Error::NotFound),
            Some(l) => Ok(*l),
        }
    }

    pub fn get_auction(&self, nft_contract: Principal, token_id: u32) -> (r: Result<Auction, Error>)
        ensures
            r == (if self@.auctions.contains_key(asset_key(nft_contract, token_id)) {
                Ok(self@.auctions[asset_key(nft_contract, token_id)])
            } else {
                Err(Error::NotFound)
            }),
    {
        let k = asset_key_of(nft_contract, token_id);
        match self.auctions.get(&k) {
            None => Err(Error::NotFound),
            Some(a) => Ok(*a),
        }
    }

    pub fn get_highest_bid(&self, nft_contract: Principal, token_id: u32) -> (r: Result<i128, Error>)
        ensures
            r == (if self@.auctions.contains_key(asset_key(nft_contract, token_id)) {
                Ok(self@.auctions[asset_key(nft_contract, token_id)].current_bid)
            } else {
                Err(Error::NotFound)
            }),
    {
        match self.get_auction(nft_contract, token_id) {
            Err(e) => Err(e),
            Ok(a) => Ok(a.current_bid),
        }
    }

    pub fn get_highest_bidder(&self, nft_contract: Principal, token_id: u32) -> (r: Result<
        Principal,
        Error,
    >)
        ensures
            r == (if self@.auctions.contains_key(asset_key(nft_contract, token_id)) {
                Ok(self@.auctions[asset_key(nft_contract, token_id)].highest_bidder)
            } else {
                Err(Error::NotFound)
            }),
    {
        match self.get_auction(nft_contract, token_id) {
            Err(e) => Err(e),
            Ok(a) => Ok(a.highest_bidder),
        }
    }

    /// The latest bid of `bidder` on asset `token_id` of `nft_contract`.
    pub fn get_bid(&self, nft_contract: Principal, token_id: u32, bidder: Principal) -> (r: Result<
        Bid,
        Error,
    >)
        ensures
            r == (if self@.bids_at(asset_key(nft_contract, token_id)).contains_key(bidder) {
                Ok(self@.bids_at(asset_key(nft_contract, token_id))[bidder])
            } else {
                Err(Error::NotFound)
            }),
    {
        let k = asset_key_of(nft_contract, token_id);
        match self.bids.get(&k) {
            None => Err(Error::NotFound),
            Some(per_bidder) => match per_bidder.get(&bidder) {
                None => Err(Error::NotFound),
                Some(b) => Ok(*b),
            },
        }
    }

    /// The fee in basis points.
    pub fn get_fee_percentage(&self) -> (r: Result<u32, Error>)
        ensures
            r == (if self@.initialized() {
                Ok(self@.fee_bps)
            } else {
                Err(Error::NotInitialized)
            }),
    {
        if self.admin.is_none() {
            return Err(Error::NotInitialized);
        }
        Ok(self.fee_percentage)
    }

    /// Number of listings ever created.
    pub fn get_total_listings(&self) -> (r: u32)
        ensures
            r == self@.listing_count,
    {
        self.listing_count
    }

    /// Number of auctions ever created.
    pub fn get_total_auctions(&self) -> (r: u32)
        ensures
            r == self@.auction_count,
    {
        self.auction_count
    }
}

} // verus!
