//! The asset registry: an append-only ownership ledger of cultural assets.
use std::collections::HashMap;
use vstd::prelude::*;

use crate::error::{commits, Error, Principal};

verus! {

broadcast use vstd::std_specs::hash::group_hash_axioms;

/// Descriptive record of a cultural asset, fixed at minting.
pub struct CulturalMetadata {
    pub title: String,
    pub artist: String,
    pub period: String,
    pub culture: String,
    pub material: String,
    pub dimensions: String,
    pub condition: String,
    pub significance: String,
    pub museum_address: Principal,
}

/// How ownership of an asset changed hands.
#[derive(PartialEq, Eq, Structural, Clone, Copy, Debug)]
pub enum TransactionKind {
    Transfer,
    ApprovedTransfer,
    Sale,
    AuctionSettlement,
}

/// One entry of an asset's provenance chain.
pub struct PROVENANCERecord {
    pub date: u64,
    pub from: Principal,
    pub to: Principal,
    pub transaction_type: TransactionKind,
    pub notes: String,
}

/// A provenance entry without its free-text note.
pub struct RecordView {
    pub date: u64,
    pub from: Principal,
    pub to: Principal,
    pub kind: TransactionKind,
}

impl View for PROVENANCERecord {
    type V = RecordView;

    open spec fn view(&self) -> RecordView {
        RecordView { date: self.date, from: self.from, to: self.to, kind: self.transaction_type }
    }
}

pub open spec fn record_views(records: Seq<PROVENANCERecord>) -> Seq<RecordView> {
    records.map_values(|r: PROVENANCERecord| r@)
}

/// What the registry knows of one minted asset.
pub struct TokenView {
    pub owner: Principal,
    pub metadata: CulturalMetadata,
    pub provenance: Seq<RecordView>,
    pub approval: Option<Principal>,
}

/// The registry as a mathematical value. It is initialized once `admin` is set.
pub struct RegistryView {
    pub admin: Option<Principal>,
    pub name: Seq<char>,
    pub symbol: Seq<char>,
    pub museum_registry: Principal,
    pub supply: nat,
    pub tokens: Map<u32, TokenView>,
}

impl RegistryView {
    pub open spec fn initialized(self) -> bool {
        self.admin is Some
    }

    /// Token `id` now belongs to `to`, with `rec` appended to its chain and
    /// its approval cleared.
    pub open spec fn moved(self, id: u32, to: Principal, rec: RecordView) -> RegistryView {
        let t = self.tokens[id];
        RegistryView {
            tokens: self.tokens.insert(
                id,
                TokenView {
                    owner: to,
                    metadata: t.metadata,
                    provenance: t.provenance.push(rec),
                    approval: None,
                },
            ),
            ..self
        }
    }

    pub open spec fn approved(self, id: u32, delegate: Principal) -> RegistryView {
        let t = self.tokens[id];
        RegistryView {
            tokens: self.tokens.insert(
                id,
                TokenView {
                    owner: t.owner,
                    metadata: t.metadata,
                    provenance: t.provenance,
                    approval: Some(delegate),
                },
            ),
            ..self
        }
    }
}

pub open spec fn initialize_step(
    m: RegistryView,
    admin: Principal,
    name: Seq<char>,
    symbol: Seq<char>,
    museum_registry: Principal,
) -> Result<RegistryView, Error> {
    if m.initialized() {
        Err(Error::AlreadyInitialized)
    } else {
        Ok(RegistryView { admin: Some(admin), name, symbol, museum_registry, ..m })
    }
}

/// Hands the administrator's authority to `new_admin`; only the current
/// administrator may do so.
pub open spec fn registry_admin_step(m: RegistryView, caller: Principal, new_admin: Principal) -> Result<
    RegistryView,
    Error,
> {
    if !m.initialized() {
        Err(Error::NotInitialized)
    } else if m.admin != Some(caller) {
        Err(Error::Unauthorized)
    } else {
        Ok(RegistryView { admin: Some(new_admin), ..m })
    }
}

pub open spec fn mint_step(
    m: RegistryView,
    caller: Principal,
    to: Principal,
    id: u32,
    metadata: CulturalMetadata,
    provenance: Seq<RecordView>,
) -> Result<RegistryView, Error> {
    if !m.initialized() {
        Err(Error::NotInitialized)
    } else if m.admin != Some(caller) {
        Err(Error::Unauthorized)
    } else if m.tokens.contains_key(id) {
        Err(Error::AlreadyExists)
    } else {
        Ok(
            RegistryView {
                supply: m.supply + 1,
                tokens: m.tokens.insert(
                    id,
                    TokenView { owner: to, metadata, provenance, approval: None },
                ),
                ..m
            },
        )
    }
}

/// A direct transfer by the owner.
pub open spec fn transfer_step(
    m: RegistryView,
    caller: Principal,
    from: Principal,
    to: Principal,
    id: u32,
    now: u64,
) -> Result<RegistryView, Error> {
    if caller != from {
        Err(Error::Unauthorized)
    } else if !m.tokens.contains_key(id) {
        Err(Error::NotFound)
    } else if m.tokens[id].owner != from {
        Err(Error::Unauthorized)
    } else {
        Ok(m.moved(id, to, RecordView { date: now, from, to, kind: TransactionKind::Transfer }))
    }
}

pub open spec fn approve_step(
    m: RegistryView,
    caller: Principal,
    owner: Principal,
    delegate: Principal,
    id: u32,
) -> Result<RegistryView, Error> {
    if caller != owner {
        Err(Error::Unauthorized)
    } else if !m.tokens.contains_key(id) {
        Err(Error::NotFound)
    } else if m.tokens[id].owner != owner {
        Err(Error::Unauthorized)
    } else {
        Ok(m.approved(id, delegate))
    }
}

/// A transfer made by the approved delegate, recorded as `kind`.
pub open spec fn delegated_step(
    m: RegistryView,
    caller: Principal,
    spender: Principal,
    from: Principal,
    to: Principal,
    id: u32,
    kind: TransactionKind,
    now: u64,
) -> Result<RegistryView, Error> {
    if caller != spender {
        Err(Error::Unauthorized)
    } else if !m.tokens.contains_key(id) {
        Err(Error::NotFound)
    } else if m.tokens[id].owner != from {
        Err(Error::Unauthorized)
    } else if m.tokens[id].approval != Some(spender) {
        Err(Error::Unauthorized)
    } else {
        Ok(m.moved(id, to, RecordView { date: now, from, to, kind }))
    }
}

struct TokenEntry {
    owner: Principal,
    metadata: CulturalMetadata,
    provenance: Vec<PROVENANCERecord>,
    approval: Option<Principal>,
}

impl View for TokenEntry {
    type V = TokenView;

    closed spec fn view(&self) -> TokenView {
        TokenView {
            owner: self.owner,
            metadata: self.metadata,
            provenance: record_views(self.provenance@),
            approval: self.approval,
        }
    }
}

/// The asset registry: owners, descriptive records and provenance chains.
pub struct CulturalNFT {
    admin: Option<Principal>,
    name: String,
    symbol: String,
    museum_registry: Principal,
    tokens: HashMap<u32, TokenEntry>,
    token_count: u32,
}

impl View for CulturalNFT {
    type V = RegistryView;

    closed spec fn view(&self) -> RegistryView {
        RegistryView {
            admin: self.admin,
            name: self.name@,
            symbol: self.symbol@,
            museum_registry: self.museum_registry,
            supply: self.token_count as nat,
            tokens: self.tokens@.map_values(|t: TokenEntry| t@),
        }
    }
}

impl CulturalNFT {
    /// Every minted token is counted once in the supply.
    pub open spec fn wf(&self) -> bool {
        &&& self@.tokens.dom().finite()
        &&& self@.supply == self@.tokens.dom().len()
    }

    /// An uninitialized registry with no tokens.
    pub fn new() -> (r: CulturalNFT)
        ensures
            r.wf(),
            !r@.initialized(),
            r@.supply == 0,
            r@.tokens == Map::<u32, TokenView>::empty(),
    {
        let r = CulturalNFT {
            admin: None,
            name: String::new(),
            symbol: String::new(),
            museum_registry: 0,
            tokens: HashMap::new(),
            token_count: 0,
        };
        proof {
            assert(r@.tokens =~= Map::<u32, TokenView>::empty());
        }
        r
    }

    /// Sets the administrator, the collection's name and symbol and the
    /// museum registry consulted for policy; allowed once.
    pub fn initialize(
        &mut self,
        admin: Principal,
        name: String,
        symbol: String,
        museum_registry: Principal,
    ) -> (r: Result<(), Error>)
        requires
            old(self).wf(),
        ensures
            final(self).wf(),
            commits(
                initialize_step(old(self)@, admin, name@, symbol@, museum_registry),
                old(self)@,
                final(self)@,
                r,
            ),
    {
        if self.admin.is_some() {
            return Err(Error::AlreadyInitialized);
        }
        self.admin = Some(admin);
        self.name = name;
        self.symbol = symbol;
        self.museum_registry = museum_registry;
        Ok(())
    }

    pub fn transfer_admin(&mut self, caller: Principal, new_admin: Principal) -> (r: Result<(), Error>)
        requires
            old(self).wf(),
        ensures
            final(self).wf(),
            commits(registry_admin_step(old(self)@, caller, new_admin), old(self)@, final(self)@, r),
    {
        match self.admin {
            None => Err(Error::NotInitialized),
            Some(admin) => {
                if admin != caller {
                    return Err(Error::Unauthorized);
                }
                self.admin = Some(new_admin);
                Ok(())
            },
        }
    }

    /// Creates token `token_id`, owned by `to`, with its record and its
    /// provenance so far; only the administrator may mint.
    pub fn mint_cultural_nft(
        &mut self,
        caller: Principal,
        to: Principal,
        token_id: u32,
        cultural_metadata: CulturalMetadata,
        provenance: Vec<PROVENANCERecord>,
    ) -> (r: Result<(), Error>)
        requires
            old(self).wf(),
            old(self)@.supply < u32::MAX,
        ensures
            final(self).wf(),
            commits(
                mint_step(
                    old(self)@,
                    caller,
                    to,
                    token_id,
                    cultural_metadata,
                    record_views(provenance@),
                ),
                old(self)@,
                final(self)@,
                r,
            ),
    {
        match self.admin {
            None => {
                return Err(Error::NotInitialized);
            },
            Some(admin) => {
                if admin != caller {
                    return Err(Error::Unauthorized);
                }
            },
        }
        if self.tokens.contains_key(&token_id) {
            return Err(Error::AlreadyExists);
        }
        let entry = TokenEntry {
            owner: to,
            metadata: cultural_metadata,
            provenance,
            approval: None,
        };
        self.tokens.insert(token_id, entry);
        self.token_count = self.token_count + 1;
        proof {
            let post = mint_step(
                old(self)@,
                caller,
                to,
                token_id,
                cultural_metadata,
                record_views(provenance@),
            )->Ok_0;
            assert(self@.tokens =~= post.tokens);
            assert(self@.tokens.dom() =~= old(self)@.tokens.dom().insert(token_id));
        }
        Ok(())
    }

    /// Hands token `id`, which exists, to `to`, appending `rec` to its chain
    /// and clearing its approval.
    fn relocate(&mut self, id: u32, to: Principal, rec: PROVENANCERecord)
        requires
            old(self).wf(),
            old(self)@.tokens.contains_key(id),
        ensures
            final(self).wf(),
            final(self)@ == old(self)@.moved(id, to, rec@),
    {
        let ghost before = self@;
        let mut entry = self.tokens.remove(&id).unwrap();
        let ghost old_prov = entry.provenance@;
        entry.owner = to;
        entry.approval = None;
        entry.provenance.push(rec);
        self.tokens.insert(id, entry);
        proof {
            assert(record_views(entry.provenance@) =~= record_views(old_prov).push(rec@));
            assert(self@.tokens =~= before.moved(id, to, rec@).tokens);
            assert(self@.tokens.dom() =~= before.tokens.dom());
        }
    }

    /// Direct transfer of token `token_id` by its owner `from`, who must be
    /// the caller.
    pub fn transfer(
        &mut self,
        caller: Principal,
        from: Principal,
        to: Principal,
        token_id: u32,
        now: u64,
    ) -> (r: Result<(), Error>)
        requires
            old(self).wf(),
        ensures
            final(self).wf(),
            commits(
                transfer_step(old(self)@, caller, from, to, token_id, now),
                old(self)@,
                final(self)@,
                r,
            ),
    {
        if caller != from {
            return Err(Error::Unauthorized);
        }
        match self.tokens.get(&token_id) {
            None => {
                return Err(Error::NotFound);
            },
            Some(entry) => {
                if entry.owner != from {
                    return Err(Error::Unauthorized);
                }
            },
        }
        let rec = PROVENANCERecord {
            date: now,
            from,
            to,
            transaction_type: TransactionKind::Transfer,
            notes: "Direct transfer".to_owned(),
        };
        self.relocate(token_id, to, rec);
        Ok(())
    }

    /// The owner names `delegate` as the one principal that may move token
    /// `token_id` on its behalf, replacing any earlier delegate.
    pub fn approve(
        &mut self,
        caller: Principal,
        from: Principal,
        to: Principal,
        token_id: u32,
    ) -> (r: Result<(), Error>)
        requires
            old(self).wf(),
        ensures
            final(self).wf(),
            commits(approve_step(old(self)@, caller, from, to, token_id), old(self)@, final(self)@, r),
    {
        if caller != from {
            return Err(Error::Unauthorized);
        }
        match self.tokens.get(&token_id) {
            None => {
                return Err(Error::NotFound);
            },
            Some(entry) => {
                if entry.owner != from {
                    return Err(Error::Unauthorized);
                }
            },
        }
        let ghost before = self@;
        let mut entry = self.tokens.remove(&token_id).unwrap();
        entry.approval = Some(to);
        self.tokens.insert(token_id, entry);
        proof {
            assert(self@.tokens =~= before.approved(token_id, to).tokens);
            assert(self@.tokens.dom() =~= before.tokens.dom());
        }
        Ok(())
    }

    /// Transfer by the approved delegate `spender`, recorded as `kind`.
    pub fn delegated_transfer(
        &mut self,
        caller: Principal,
        spender: Principal,
        from: Principal,
        to: Principal,
        token_id: u32,
        kind: TransactionKind,
        now: u64,
    ) -> (r: Result<(), Error>)
        requires
            old(self).wf(),
        ensures
            final(self).wf(),
            commits(
                delegated_step(old(self)@, caller, spender, from, to, token_id, kind, now),
                old(self)@,
                final(self)@,
                r,
            ),
    {
        if caller != spender {
            return Err(Error::Unauthorized);
        }
        match self.tokens.get(&token_id) {
            None => {
                return Err(Error::NotFound);
            },
            Some(entry) => {
                if entry.owner != from {
                    return Err(Error::Unauthorized);
                }
                if entry.approval != Some(spender) {
                    return Err(Error::Unauthorized);
                }
            },
        }
        let notes = match kind {
            TransactionKind::Transfer => "Direct transfer",
            TransactionKind::ApprovedTransfer => "Approved transfer",
            TransactionKind::Sale => "Fixed-price sale",
            TransactionKind::AuctionSettlement => "Auction settlement",
        };
        let rec = PROVENANCERecord {
            date: now,
            from,
            to,
            transaction_type: kind,
            notes: notes.to_owned(),
        };
        self.relocate(token_id, to, rec);
        Ok(())
    }

    /// Transfer of token `token_id` from its owner `from` to `to` by the
    /// approved delegate `spender`, who must be the caller; uses up the
    /// approval.
    pub fn transfer_from(
        &mut self,
        caller: Principal,
        spender: Principal,
        from: Principal,
        to: Principal,
        token_id: u32,
        now: u64,
    ) -> (r: Result<(), Error>)
        requires
            old(self).wf(),
        ensures
            final(self).wf(),
            commits(
                delegated_step(
                    old(self)@,
                    caller,
                    spender,
                    from,
                    to,
                    token_id,
                    TransactionKind::ApprovedTransfer,
                    now,
                ),
                old(self)@,
                final(self)@,
                r,
            ),
    {
        self.delegated_transfer(
            caller,
            spender,
            from,
            to,
            token_id,
            TransactionKind::ApprovedTransfer,
            now,
        )
    }

    pub fn owner_of(&self, token_id: u32) -> (r: Result<Principal, Error>)
        ensures
            r == (if self@.tokens.contains_key(token_id) {
                Ok(self@.tokens[token_id].owner)
            } else {
                Err(Error::NotFound)
            }),
    {
        match self.tokens.get(&token_id) {
            None => Err(Error::NotFound),
            Some(entry) => Ok(entry.owner),
        }
    }

    pub fn get_cultural_metadata(&self, token_id: u32) -> (r: Result<&CulturalMetadata, Error>)
        ensures
            match r {
                Ok(md) => self@.tokens.contains_key(token_id) && *md
                    == self@.tokens[token_id].metadata,
                Err(e) => !self@.tokens.contains_key(token_id) && e == Error::NotFound,
            },
    {
        match self.tokens.get(&token_id) {
            None => Err(Error::NotFound),
            Some(entry) => Ok(&entry.metadata),
        }
    }

    pub fn get_provenance(&self, token_id: u32) -> (r: Result<&Vec<PROVENANCERecord>, Error>)
        ensures
            match r {
                Ok(p) => self@.tokens.contains_key(token_id) && record_views(p@)
                    == self@.tokens[token_id].provenance,
                Err(e) => !self@.tokens.contains_key(token_id) && e == Error::NotFound,
            },
    {
        match self.tokens.get(&token_id) {
            None => Err(Error::NotFound),
            Some(entry) => Ok(&entry.provenance),
        }
    }

    /// Owner, record and provenance of token `token_id` together.
    pub fn get_token_info(&self, token_id: u32) -> (r: Result<
        (Principal, &CulturalMetadata, &Vec<PROVENANCERecord>),
        Error,
    >)
        ensures
            match r {
                Ok((o, md, p)) => {
                    &&& self@.tokens.contains_key(token_id)
                    &&& o == self@.tokens[token_id].owner
                    &&& *md == self@.tokens[token_id].metadata
                    &&& record_views(p@) == self@.tokens[token_id].provenance
                },
                Err(e) => !self@.tokens.contains_key(token_id) && e == Error::NotFound,
            },
    {
        match self.tokens.get(&token_id) {
            None => Err(Error::NotFound),
            Some(entry) => Ok((entry.owner, &entry.metadata, &entry.provenance)),
        }
    }

    pub fn name(&self) -> (r: Result<&String, Error>)
        ensures
            match r {
                Ok(n) => self@.initialized() && n@ == self@.name,
                Err(e) => !self@.initialized() && e == Error::NotInitialized,
            },
    {
        if self.admin.is_none() {
            return Err(Error::NotInitialized);
        }
        Ok(&self.name)
    }

    pub fn symbol(&self) -> (r: Result<&String, Error>)
        ensures
            match r {
                Ok(n) => self@.initialized() && n@ == self@.symbol,
                Err(e) => !self@.initialized() && e == Error::NotInitialized,
            },
    {
        if self.admin.is_none() {
            return Err(Error::NotInitialized);
        }
        Ok(&self.symbol)
    }

    /// The museum registry named at initialization.
    pub fn museum_registry(&self) -> (r: Result<Principal, Error>)
        ensures
            r == (if self@.initialized() {
                Ok(self@.museum_registry)
            } else {
                Err(Error::NotInitialized)
            }),
    {
        if self.admin.is_none() {
            return Err(Error::NotInitialized);
        }
        Ok(self.museum_registry)
    }

    /// Number of tokens minted so far.
    pub fn total_supply(&self) -> (r: u32)
        ensures
            r == self@.supply,
    {
        self.token_count
    }

    pub fn token_exists(&self, token_id: u32) -> (r: bool)
        ensures
            r == self@.tokens.contains_key(token_id),
    {
        self.tokens.contains_key(&token_id)
    }
}

} // verus!
