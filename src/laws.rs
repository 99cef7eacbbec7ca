//! Properties that hold across the operations of the registry and the
//! marketplace, stated over their mathematical models.
use vstd::prelude::*;

use crate::error::{Error, Principal};
use crate::market::{
    asset_key, bid_step, buy_step, create_auction_step, end_auction_step, lemma_auction_keeps_wf,
    lemma_listing_keeps_wf, list_step, market_wf, Auction, AuctionOutcome, MarketView, Payment,
};
use crate::registry::{
    approve_step, delegated_step, mint_step, registry_admin_step, transfer_step, CulturalMetadata, RecordView, RegistryView,
    TransactionKind,
};

verus! {

/// After a successful transfer, direct or by a delegate, the asset's owner
/// is the transfer's target, and no other asset changed.
pub proof fn lemma_owner_is_last_target(
    m: RegistryView,
    caller: Principal,
    spender: Principal,
    from: Principal,
    to: Principal,
    id: u32,
    kind: TransactionKind,
    now: u64,
)
    ensures
        transfer_step(m, caller, from, to, id, now) is Ok ==> {
            let m2 = transfer_step(m, caller, from, to, id, now)->Ok_0;
            &&& m2.tokens.contains_key(id)
            &&& m2.tokens[id].owner == to
            &&& forall|j: u32| j != id ==> #[trigger] m2.tokens.get(j) == m.tokens.get(j)
        },
        delegated_step(m, caller, spender, from, to, id, kind, now) is Ok ==> {
            let m2 = delegated_step(m, caller, spender, from, to, id, kind, now)->Ok_0;
            &&& m2.tokens.contains_key(id)
            &&& m2.tokens[id].owner == to
            &&& forall|j: u32| j != id ==> #[trigger] m2.tokens.get(j) == m.tokens.get(j)
        },
{
}

/// Two successive transfers of one asset leave it with the second target.
pub proof fn lemma_owner_after_two_transfers(
    m: RegistryView,
    a: Principal,
    b: Principal,
    c: Principal,
    id: u32,
    t1: u64,
    t2: u64,
)
    requires
        transfer_step(m, a, a, b, id, t1) is Ok,
        transfer_step(transfer_step(m, a, a, b, id, t1)->Ok_0, b, b, c, id, t2) is Ok,
    ensures
        transfer_step(transfer_step(m, a, a, b, id, t1)->Ok_0, b, b, c, id, t2)->Ok_0.tokens[id].owner
            == c,
{
}

/// A successful transfer appends exactly one record to the asset's
/// provenance and keeps the earlier ones as they were.
pub proof fn lemma_provenance_grows_by_one(
    m: RegistryView,
    caller: Principal,
    spender: Principal,
    from: Principal,
    to: Principal,
    id: u32,
    kind: TransactionKind,
    now: u64,
)
    ensures
        transfer_step(m, caller, from, to, id, now) is Ok ==> {
            let p2 = transfer_step(m, caller, from, to, id, now)->Ok_0.tokens[id].provenance;
            &&& p2.len() == m.tokens[id].provenance.len() + 1
            &&& p2.drop_last() == m.tokens[id].provenance
        },
        delegated_step(m, caller, spender, from, to, id, kind, now) is Ok ==> {
            let p2 = delegated_step(m, caller, spender, from, to, id, kind, now)->Ok_0.tokens[id].provenance;
            &&& p2.len() == m.tokens[id].provenance.len() + 1
            &&& p2.drop_last() == m.tokens[id].provenance
        },
{
    if transfer_step(m, caller, from, to, id, now) is Ok {
        let p2 = transfer_step(m, caller, from, to, id, now)->Ok_0.tokens[id].provenance;
        assert(p2.drop_last() =~= m.tokens[id].provenance);
    }
    if delegated_step(m, caller, spender, from, to, id, kind, now) is Ok {
        let p2 = delegated_step(m, caller, spender, from, to, id, kind, now)->Ok_0.tokens[id].provenance;
        assert(p2.drop_last() =~= m.tokens[id].provenance);
    }
}

/// Approving a delegate and minting another token leave every existing
/// provenance chain as it was.
pub proof fn lemma_provenance_never_shrinks(
    m: RegistryView,
    caller: Principal,
    owner: Principal,
    delegate: Principal,
    id: u32,
    new_id: u32,
    metadata: CulturalMetadata,
    initial: Seq<RecordView>,
    j: u32,
)
    requires
        m.tokens.contains_key(j),
    ensures
        approve_step(m, caller, owner, delegate, id) is Ok ==> approve_step(
            m,
            caller,
            owner,
            delegate,
            id,
        )->Ok_0.tokens[j].provenance == m.tokens[j].provenance,
        mint_step(m, caller, delegate, new_id, metadata, initial) is Ok ==> mint_step(
            m,
            caller,
            delegate,
            new_id,
            metadata,
            initial,
        )->Ok_0.tokens[j].provenance == m.tokens[j].provenance,
{
}

/// A sale, and an auction settled to a bidder, append exactly one record to
/// the asset's provenance, of the matching kind.
pub proof fn lemma_sale_records_provenance(
    m: MarketView,
    g: RegistryView,
    buyer: Principal,
    nft_contract: Principal,
    token_id: u32,
    now: u64,
)
    ensures
        buy_step(m, g, buyer, nft_contract, token_id, now) is Ok ==> {
            let p2 = buy_step(m, g, buyer, nft_contract, token_id, now)->Ok_0.1.tokens[token_id].provenance;
            &&& p2.len() == g.tokens[token_id].provenance.len() + 1
            &&& p2.drop_last() == g.tokens[token_id].provenance
            &&& p2.last() == RecordView {
                date: now,
                from: m.listings[asset_key(nft_contract, token_id)].seller,
                to: buyer,
                kind: TransactionKind::Sale,
            }
        },
        end_auction_step(m, g, nft_contract, token_id, now) matches Ok((_, g2, AuctionOutcome::Sold(_))) ==> {
            let p2 = g2.tokens[token_id].provenance;
            &&& p2.len() == g.tokens[token_id].provenance.len() + 1
            &&& p2.drop_last() == g.tokens[token_id].provenance
            &&& p2.last() == RecordView {
                date: now,
                from: m.auctions[asset_key(nft_contract, token_id)].seller,
                to: m.auctions[asset_key(nft_contract, token_id)].highest_bidder,
                kind: TransactionKind::AuctionSettlement,
            }
        },
{
    if buy_step(m, g, buyer, nft_contract, token_id, now) is Ok {
        let p2 = buy_step(m, g, buyer, nft_contract, token_id, now)->Ok_0.1.tokens[token_id].provenance;
        assert(p2.drop_last() =~= g.tokens[token_id].provenance);
    }
    if end_auction_step(m, g, nft_contract, token_id, now) matches Ok((_, g2, AuctionOutcome::Sold(_))) {
        let g2 = end_auction_step(m, g, nft_contract, token_id, now)->Ok_0.1;
        assert(g2.tokens[token_id].provenance.drop_last() =~= g.tokens[token_id].provenance);
    }
}

/// In a well-formed marketplace no asset has an active listing and an
/// active auction at once, and creating either keeps it so.
pub proof fn lemma_one_offer_per_asset(
    m: MarketView,
    seller: Principal,
    nft_contract: Principal,
    token_id: u32,
    price: i128,
    duration: u64,
    now: u64,
)
    requires
        market_wf(m),
    ensures
        !(m.listed(asset_key(nft_contract, token_id)) && m.auctioned(
            asset_key(nft_contract, token_id),
        )),
        list_step(m, seller, nft_contract, token_id, price, now) is Ok ==> market_wf(
            list_step(m, seller, nft_contract, token_id, price, now)->Ok_0,
        ),
        create_auction_step(m, seller, nft_contract, token_id, price, duration, now) is Ok
            ==> market_wf(
            create_auction_step(m, seller, nft_contract, token_id, price, duration, now)->Ok_0,
        ),
{
    let k = asset_key(nft_contract, token_id);
    if list_step(m, seller, nft_contract, token_id, price, now) is Ok {
        let m2 = list_step(m, seller, nft_contract, token_id, price, now)->Ok_0;
        lemma_listing_keeps_wf(m, m2, k, m2.listings[k]);
    }
    if create_auction_step(m, seller, nft_contract, token_id, price, duration, now) is Ok {
        let m2 = create_auction_step(m, seller, nft_contract, token_id, price, duration, now)->Ok_0;
        lemma_auction_keeps_wf(m, m2, k, m2.auctions[k]);
    }
}

/// Distinct assets have distinct storage keys, so the marketplace holds at
/// most one listing and at most one auction per asset.
pub proof fn lemma_asset_key_injective(c1: Principal, t1: u32, c2: Principal, t2: u32)
    ensures
        asset_key(c1, t1) == asset_key(c2, t2) ==> c1 == c2 && t1 == t2,
{
    let (a, b, x, y) = (c1 as int, t1 as int, c2 as int, t2 as int);
    assert(0 <= a * 0x1_0000_0000 + b < 0x1_0000_0000_0000_0000_0000_0000) by (nonlinear_arith)
        requires
            0 <= a < 0x1_0000_0000_0000_0000,
            0 <= b < 0x1_0000_0000,
    ;
    assert(0 <= x * 0x1_0000_0000 + y < 0x1_0000_0000_0000_0000_0000_0000) by (nonlinear_arith)
        requires
            0 <= x < 0x1_0000_0000_0000_0000,
            0 <= y < 0x1_0000_0000,
    ;
    if asset_key(c1, t1) == asset_key(c2, t2) {
        assert(a * 0x1_0000_0000 + b == x * 0x1_0000_0000 + y);
        assert(a == x && b == y) by (nonlinear_arith)
            requires
                a * 0x1_0000_0000 + b == x * 0x1_0000_0000 + y,
                0 <= b < 0x1_0000_0000,
                0 <= y < 0x1_0000_0000,
        ;
    }
}

/// An accepted bid becomes the auction's current bid and is strictly
/// greater than the one it replaces.
pub proof fn lemma_accepted_bids_increase(
    m: MarketView,
    bidder: Principal,
    nft_contract: Principal,
    token_id: u32,
    amount: i128,
    now: u64,
)
    requires
        bid_step(m, bidder, nft_contract, token_id, amount, now) is Ok,
    ensures
        ({
            let k = asset_key(nft_contract, token_id);
            let m2 = bid_step(m, bidder, nft_contract, token_id, amount, now)->Ok_0.0;
            &&& m2.auctions[k].current_bid == amount
            &&& m2.auctions[k].highest_bidder == bidder
            &&& amount > m.auctions[k].current_bid
        }),
{
}

/// Closing an active auction fails with `TooEarly` before its end time; at
/// or after it, it always succeeds and the auction becomes inactive with its
/// other fields unchanged. A winning bid is then either settled, with the
/// asset moved to the highest bidder, or owed back to that bidder.
pub proof fn lemma_auction_closes_at_end_time(
    m: MarketView,
    g: RegistryView,
    nft_contract: Principal,
    token_id: u32,
    now: u64,
)
    requires
        m.auctioned(asset_key(nft_contract, token_id)),
    ensures
        ({
            let k = asset_key(nft_contract, token_id);
            let a = m.auctions[k];
            let r = end_auction_step(m, g, nft_contract, token_id, now);
            &&& now < a.end_time ==> r == Err::<
                (MarketView, RegistryView, AuctionOutcome),
                Error,
            >(Error::TooEarly)
            &&& now >= a.end_time ==> {
                &&& r is Ok
                &&& r->Ok_0.0 == m.with_auction(k, Auction { active: false, ..a })
                &&& a.current_bid <= 0 ==> r->Ok_0.2 == AuctionOutcome::NoBids && r->Ok_0.1 == g
                &&& a.current_bid > 0 ==> match r->Ok_0.2 {
                    AuctionOutcome::Sold(s) => s.buyer == a.highest_bidder && s.price
                        == a.current_bid && r->Ok_0.1.tokens[token_id].owner == a.highest_bidder,
                    AuctionOutcome::Refunded(p) => p == Payment {
                        to: a.highest_bidder,
                        amount: a.current_bid,
                    } && r->Ok_0.1 == g,
                    AuctionOutcome::NoBids => false,
                }
            }
        }),
{
}

/// One call on the registry. The marketplace reaches the registry only
/// through `Delegated` calls (a sale or an auction settlement), so a run of
/// these covers every call that can change an asset's owner or provenance.
pub enum RegistryOp {
    Mint {
        caller: Principal,
        to: Principal,
        id: u32,
        metadata: CulturalMetadata,
        provenance: Seq<RecordView>,
    },
    Transfer { caller: Principal, from: Principal, to: Principal, id: u32, now: u64 },
    Approve { caller: Principal, owner: Principal, delegate: Principal, id: u32 },
    Delegated {
        caller: Principal,
        spender: Principal,
        from: Principal,
        to: Principal,
        id: u32,
        kind: TransactionKind,
        now: u64,
    },
    AdminHandover { caller: Principal, new_admin: Principal },
}

pub open spec fn op_step(m: RegistryView, op: RegistryOp) -> Result<RegistryView, Error> {
    match op {
        RegistryOp::Mint { caller, to, id, metadata, provenance } => mint_step(
            m,
            caller,
            to,
            id,
            metadata,
            provenance,
        ),
        RegistryOp::Transfer { caller, from, to, id, now } => transfer_step(m, caller, from, to, id, now),
        RegistryOp::Approve { caller, owner, delegate, id } => approve_step(m, caller, owner, delegate, id),
        RegistryOp::Delegated { caller, spender, from, to, id, kind, now } => delegated_step(
            m,
            caller,
            spender,
            from,
            to,
            id,
            kind,
            now,
        ),
        RegistryOp::AdminHandover { caller, new_admin } => registry_admin_step(m, caller, new_admin),
    }
}

/// The state after `ops`, each applied in turn; a failed call changes nothing.
pub open spec fn run(m: RegistryView, ops: Seq<RegistryOp>) -> RegistryView
    decreases ops.len(),
{
    if ops.len() == 0 {
        m
    } else {
        let before = run(m, ops.drop_last());
        match op_step(before, ops.last()) {
            Ok(after) => after,
            Err(_) => before,
        }
    }
}

/// The principal a call would hand asset `id` to, if it moves that asset.
pub open spec fn move_target(op: RegistryOp, id: u32) -> Option<Principal> {
    match op {
        RegistryOp::Transfer { to, id: i, .. } => if i == id {
            Some(to)
        } else {
            None
        },
        RegistryOp::Delegated { to, id: i, .. } => if i == id {
            Some(to)
        } else {
            None
        },
        _ => None,
    }
}

/// The targets of the successful moves of asset `id` during `ops`, in order.
pub open spec fn targets(m: RegistryView, ops: Seq<RegistryOp>, id: u32) -> Seq<Principal>
    decreases ops.len(),
{
    if ops.len() == 0 {
        Seq::empty()
    } else {
        let earlier = targets(m, ops.drop_last(), id);
        let op = ops.last();
        if op_step(run(m, ops.drop_last()), op) is Ok && move_target(op, id) is Some {
            earlier.push(move_target(op, id)->Some_0)
        } else {
            earlier
        }
    }
}

/// Over any run of registry calls, successful or not, a minted asset stays
/// minted; its owner is the target of the most recent successful transfer
/// (or its owner before the run, if none); and its provenance grows by
/// exactly one record per successful transfer, sale or settlement, keeping
/// the earlier records unchanged.
pub proof fn lemma_history_of_asset(m: RegistryView, ops: Seq<RegistryOp>, id: u32)
    requires
        m.tokens.contains_key(id),
    ensures
        ({
            let m2 = run(m, ops);
            let t = targets(m, ops, id);
            let p0 = m.tokens[id].provenance;
            &&& m2.tokens.contains_key(id)
            &&& m2.tokens[id].owner == (if t.len() == 0 {
                m.tokens[id].owner
            } else {
                t.last()
            })
            &&& m2.tokens[id].provenance.len() == p0.len() + t.len()
            &&& m2.tokens[id].provenance.subrange(0, p0.len() as int) == p0
        }),
    decreases ops.len(),
{
    let p0 = m.tokens[id].provenance;
    if ops.len() == 0 {
        assert(p0.subrange(0, p0.len() as int) =~= p0);
    } else {
        let rest = ops.drop_last();
        lemma_history_of_asset(m, rest, id);
        let before = run(m, rest);
        let op = ops.last();
        let pb = before.tokens[id].provenance;
        if op_step(before, op) is Ok {
            let after = op_step(before, op)->Ok_0;
            if move_target(op, id) is Some {
                assert(after.tokens[id].provenance == pb.push(after.tokens[id].provenance.last()));
                assert(after.tokens[id].provenance.subrange(0, p0.len() as int) =~= pb.subrange(
                    0,
                    p0.len() as int,
                ));
            } else {
                assert(after.tokens[id] == before.tokens[id] || (op is Approve
                    && after.tokens[id].provenance == pb && after.tokens[id].owner
                    == before.tokens[id].owner));
            }
        }
    }
}

/// The marketplace changes the registry only as one `Delegated` call made
/// under its operator principal: a sale moves the asset from the seller to
/// the buyer, a settled auction from the seller to the highest bidder, and
/// every other outcome leaves the registry as it was. So
/// `lemma_history_of_asset` covers runs that interleave marketplace calls.
pub proof fn lemma_market_moves_are_delegated(
    m: MarketView,
    g: RegistryView,
    buyer: Principal,
    nft_contract: Principal,
    token_id: u32,
    now: u64,
)
    ensures
        ({
            let l = m.listings[asset_key(nft_contract, token_id)];
            buy_step(m, g, buyer, nft_contract, token_id, now) is Ok ==> op_step(
                g,
                RegistryOp::Delegated {
                    caller: m.operator,
                    spender: m.operator,
                    from: l.seller,
                    to: buyer,
                    id: token_id,
                    kind: TransactionKind::Sale,
                    now,
                },
            ) == Ok::<RegistryView, Error>(buy_step(m, g, buyer, nft_contract, token_id, now)->Ok_0.1)
        }),
        ({
            let a = m.auctions[asset_key(nft_contract, token_id)];
            let r = end_auction_step(m, g, nft_contract, token_id, now);
            &&& r matches Ok((_, _, AuctionOutcome::Sold(_))) ==> op_step(
                g,
                RegistryOp::Delegated {
                    caller: m.operator,
                    spender: m.operator,
                    from: a.seller,
                    to: a.highest_bidder,
                    id: token_id,
                    kind: TransactionKind::AuctionSettlement,
                    now,
                },
            ) == Ok::<RegistryView, Error>(r->Ok_0.1)
            &&& r matches Ok((_, g2, AuctionOutcome::NoBids)) ==> g2 == g
            &&& r matches Ok((_, g2, AuctionOutcome::Refunded(_))) ==> g2 == g
        }),
{
}

} // verus!
