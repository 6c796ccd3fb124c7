//! A simple marketplace over minted land tokens: owners list a token at a
//! price, withdraw the listing, or let a buyer take it over; listings are an
//! association list keyed by the token, one listing per token.

use vstd::prelude::*;

use crate::types::PrincipalId;

verus! {

/// Grid position of a minted land token.
#[derive(Clone, Copy, Debug, PartialEq, Eq, Structural)]
pub struct Coordinates {
    pub x: u32,
    pub y: u32,
}

/// A minted land token.
#[derive(Debug, PartialEq, Eq)]
pub struct LandNFT {
    pub id: u64,
    pub name: String,
    pub coordinates: Coordinates,
    pub size: String,
    pub image_data: Vec<u8>,
    pub owner: PrincipalId,
    pub timestamp: u64,
}

/// Mathematical model of a [`LandNFT`].
pub ghost struct LandNFTModel {
    pub id: u64,
    pub name: Seq<char>,
    pub coordinates: Coordinates,
    pub size: Seq<char>,
    pub image_data: Seq<u8>,
    pub owner: PrincipalId,
    pub timestamp: u64,
}

impl View for LandNFT {
    type V = LandNFTModel;

    open spec fn view(&self) -> LandNFTModel {
        LandNFTModel {
            id: self.id,
            name: self.name@,
            coordinates: self.coordinates,
            size: self.size@,
            image_data: self.image_data@,
            owner: self.owner,
            timestamp: self.timestamp,
        }
    }
}

impl DeepView for LandNFT {
    type V = LandNFTModel;

    open spec fn deep_view(&self) -> LandNFTModel {
        self.view()
    }
}

impl Clone for LandNFT {
    /// The copy models the same token.
    fn clone(&self) -> (res: Self)
        ensures
            res@ == self@,
    {
        LandNFT {
            id: self.id,
            name: self.name.clone(),
            coordinates: self.coordinates,
            size: self.size.clone(),
            image_data: clone_bytes(&self.image_data),
            owner: self.owner,
            timestamp: self.timestamp,
        }
    }
}

/// A standing offer to sell one land token.
#[derive(Clone, Copy, Debug, PartialEq, Eq, Structural)]
pub struct Listing {
    pub land_id: u64,
    pub price: u64,
    pub seller: PrincipalId,
    pub listed_at: u64,
}

/// The outcome a marketplace operation reports to its caller: acceptance,
/// or rejection with a human-readable reason.
#[derive(Clone, Debug, PartialEq, Eq)]
pub enum ListingResult {
    Accepted,
    Rejected(String),
}

/// Clones a byte vector.
pub fn clone_bytes(v: &Vec<u8>) -> (r: Vec<u8>)
    ensures
        r@ == v@,
{
    let mut r: Vec<u8> = Vec::new();
    let n = v.len();
    for i in 0..n
        invariant
            n == v.len(),
            r@ =~= v@.take(i as int),
    {
        r.push(v[i]);
    }
    proof {
        assert(r@ =~= v@);
    }
    r
}

/// The marketplace's state: minted tokens in mint order, the next token
/// identifier, and the listings keyed by token.
#[derive(Debug)]
pub struct LandMarket {
    pub next_id: u64,
    pub lands: Vec<LandNFT>,
    pub listings: Vec<(u64, Listing)>,
}

impl LandMarket {
    /// The minted tokens, as their models, in mint order.
    pub open spec fn land_models(self) -> Seq<LandNFTModel> {
        self.lands.deep_view()
    }

    /// Whether a token with this identifier was minted.
    pub open spec fn has_land(self, id: u64) -> bool {
        exists|i: int|
            0 <= i < self.land_models().len() && (#[trigger] self.land_models()[i]).id == id
    }

    /// The position of the token with this identifier.
    pub open spec fn land_index(self, id: u64) -> int {
        choose|i: int|
            0 <= i < self.land_models().len() && (#[trigger] self.land_models()[i]).id == id
    }

    /// The token with this identifier.
    pub open spec fn land(self, id: u64) -> LandNFTModel {
        self.land_models()[self.land_index(id)]
    }

    /// Whether this token is listed for sale.
    pub open spec fn has_listing(self, id: u64) -> bool {
        exists|i: int|
            0 <= i < self.listings@.len() && (#[trigger] self.listings@[i]).0 == id
    }

    /// The position of this token's listing.
    pub open spec fn listing_index(self, id: u64) -> int {
        choose|i: int|
            0 <= i < self.listings@.len() && (#[trigger] self.listings@[i]).0 == id
    }

    /// The listing standing for this token, if any.
    pub open spec fn listing_of(self, id: u64) -> Option<Listing> {
        if self.has_listing(id) {
            Some(self.listings@[self.listing_index(id)].1)
        } else {
            None
        }
    }

    /// The listings, in insertion order.
    pub open spec fn listing_values(self) -> Seq<Listing> {
        self.listings@.map_values(|e: (u64, Listing)| e.1)
    }

    /// Token identifiers start at one, grow strictly in mint order, and stay
    /// below the next identifier.
    pub open spec fn lands_wf(self) -> bool {
        &&& forall|i: int|
            0 <= i < self.land_models().len() ==> 1 <= (#[trigger] self.land_models()[i]).id
                < self.next_id
        &&& forall|i: int, j: int|
            0 <= i < j < self.land_models().len() ==> (#[trigger] self.land_models()[i]).id < (
            #[trigger] self.land_models()[j]).id
    }

    /// Listings have unique keys, and each listing's key matches the token
    /// it offers.
    pub open spec fn listings_wf(self) -> bool {
        &&& forall|i: int, j: int|
            0 <= i < j < self.listings@.len() ==> (#[trigger] self.listings@[i]).0 != (
            #[trigger] self.listings@[j]).0
        &&& forall|i: int|
            0 <= i < self.listings@.len() ==> (#[trigger] self.listings@[i]).1.land_id
                == self.listings@[i].0
    }

    /// Well-formedness of the whole marketplace.
    pub open spec fn wf(self) -> bool {
        &&& 1 <= self.next_id
        &&& self.lands_wf()
        &&& self.listings_wf()
    }

    /// In a well-formed market, the token at position `i` is the one its
    /// identifier looks up.
    pub proof fn lemma_land_index_is(self, i: int)
        requires
            self.lands_wf(),
            0 <= i < self.land_models().len(),
        ensures
            self.has_land(self.land_models()[i].id),
            self.land_index(self.land_models()[i].id) == i,
    {
        let id = self.land_models()[i].id;
        assert(self.has_land(id));
        let j = self.land_index(id);
        if j < i {
            assert(self.land_models()[j].id < self.land_models()[i].id);
        } else if i < j {
            assert(self.land_models()[i].id < self.land_models()[j].id);
        }
    }

    /// In a well-formed market, the listing at position `i` is the one its
    /// key looks up.
    pub proof fn lemma_listing_index_is(self, i: int)
        requires
            self.listings_wf(),
            0 <= i < self.listings@.len(),
        ensures
            self.has_listing(self.listings@[i].0),
            self.listing_index(self.listings@[i].0) == i,
    {
        let id = self.listings@[i].0;
        assert(self.has_listing(id));
        let j = self.listing_index(id);
        if j < i {
            assert(self.listings@[j].0 != self.listings@[i].0);
        } else if i < j {
            assert(self.listings@[i].0 != self.listings@[j].0);
        }
    }

    /// An empty marketplace.
    pub fn new() -> (r: Self)
        ensures
            r.wf(),
            r.next_id == 1,
            r.land_models() =~= Seq::<LandNFTModel>::empty(),
            r.listings@ =~= Seq::<(u64, Listing)>::empty(),
    {
        LandMarket { next_id: 1, lands: Vec::new(), listings: Vec::new() }
    }

    /// Mints a new land token owned by the caller and returns its
    /// identifier; identifiers strictly increase and are never reused.
    pub fn mint_land(
        &mut self,
        caller: PrincipalId,
        name: String,
        coordinates: Coordinates,
        size: String,
        image_data: Vec<u8>,
        now: u64,
    ) -> (r: u64)
        requires
            old(self).wf(),
            old(self).next_id < u64::MAX,
        ensures
            final(self).wf(),
            r == old(self).next_id,
            final(self).next_id == old(self).next_id + 1,
            final(self).land_models().len() == old(self).land_models().len() + 1,
            forall|k: int|
                0 <= k < old(self).land_models().len() ==> #[trigger] final(self).land_models()[k]
                    == old(self).land_models()[k],
            ({
                let minted = final(self).land_models().last();
                &&& minted.id == old(self).next_id
                &&& minted.name == name@
                &&& minted.coordinates == coordinates
                &&& minted.size == size@
                &&& minted.image_data == image_data@
                &&& minted.owner == caller
                &&& minted.timestamp == now
            }),
            final(self).listings == old(self).listings,
    {
        let id = self.next_id;
        self.next_id = id + 1;
        let land = LandNFT { id, name, coordinates, size, image_data, owner: caller, timestamp: now };
        self.lands.push(land);
        proof {
            assert(forall|k: int|
                0 <= k < old(self).land_models().len() ==> #[trigger] self.land_models()[k]
                    == old(self).land_models()[k]);
            assert(self.wf());
        }
        id
    }

    /// Every minted token, in mint order.
    pub fn get_all_land(&self) -> (r: Vec<LandNFT>)
        ensures
            r.deep_view() == self.land_models(),
    {
        let mut r: Vec<LandNFT> = Vec::new();
        let n = self.lands.len();
        for i in 0..n
            invariant
                n == self.lands@.len(),
                r@.len() == i,
                forall|j: int| 0 <= j < i ==> r@[j]@ == self.lands@[j]@,
        {
            r.push(self.lands[i].clone());
        }
        proof {
            assert(r.deep_view() =~= self.land_models());
        }
        r
    }

    /// Every standing listing, in insertion order.
    pub fn get_all_listings(&self) -> (r: Vec<Listing>)
        ensures
            r@ == self.listing_values(),
    {
        let mut r: Vec<Listing> = Vec::new();
        let n = self.listings.len();
        for i in 0..n
            invariant
                n == self.listings@.len(),
                r@.len() == i,
                forall|j: int| 0 <= j < i ==> r@[j] == self.listings@[j].1,
        {
            r.push(self.listings[i].1);
        }
        proof {
            assert(r@ =~= self.listing_values());
        }
        r
    }

    /// The tokens the caller owns, in mint order.
    pub fn get_my_land(&self, caller: PrincipalId) -> (r: Vec<LandNFT>)
        ensures
            r.deep_view() == self.land_models().filter(|l: LandNFTModel| l.owner == caller),
    {
        let mut r: Vec<LandNFT> = Vec::new();
        let n = self.lands.len();
        for i in 0..n
            invariant
                n == self.lands@.len(),
                r.deep_view() =~= self.land_models().take(i as int).filter(
                    |l: LandNFTModel| l.owner == caller,
                ),
        {
            proof {
                crate::seq_lemmas::lemma_filter_take_step(
                    self.land_models(),
                    |l: LandNFTModel| l.owner == caller,
                    i as int,
                );
            }
            if self.lands[i].owner.id == caller.id {
                r.push(self.lands[i].clone());
                proof {
                    assert(r.deep_view() =~= self.land_models().take(i + 1).filter(
                        |l: LandNFTModel| l.owner == caller,
                    ));
                }
            }
        }
        proof {
            assert(self.land_models().take(n as int) =~= self.land_models());
        }
        r
    }

    /// Offers a token for sale: only its owner may list it, a token may
    /// carry at most one listing, and an unknown token is refused.
    pub fn list_land_for_sale(
        &mut self,
        caller: PrincipalId,
        land_id: u64,
        price: u64,
        now: u64,
    ) -> (r: ListingResult)
        requires
            old(self).wf(),
        ensures
            final(self).wf(),
            ({
                let s = *old(self);
                let t = *final(self);
                if !s.has_land(land_id) {
                    (r matches ListingResult::Rejected(m) && m@ == "Land not found"@) && t == s
                } else if s.land(land_id).owner != caller {
                    (r matches ListingResult::Rejected(m) && m@ == "Only owner can list this land"@)
                        && t == s
                } else if s.has_listing(land_id) {
                    (r matches ListingResult::Rejected(m) && m@
                        == "Land is already listed for sale"@) && t == s
                } else {
                    &&& r == ListingResult::Accepted
                    &&& t.listing_of(land_id) == Some(
                        Listing { land_id, price, seller: caller, listed_at: now },
                    )
                    &&& forall|id: u64| id != land_id ==> t.listing_of(id) == s.listing_of(id)
                    &&& t == (LandMarket { listings: t.listings, ..s })
                }
            }),
    {
        match self.find_land(land_id) {
            None => ListingResult::Rejected(String::from_str("Land not found")),
            Some(i) => {
                proof {
                    self.lemma_land_index_is(i as int);
                }
                if self.lands[i].owner.id != caller.id {
                    return ListingResult::Rejected(
                        String::from_str("Only owner can list this land"),
                    );
                }
                if let Some(_j) = self.find_listing(land_id) {
                    return ListingResult::Rejected(
                        String::from_str("Land is already listed for sale"),
                    );
                }
                let ghost pre = *self;
                let listing = Listing { land_id, price, seller: caller, listed_at: now };
                self.listings.push((land_id, listing));
                proof {
                    assert(forall|k: int|
                        0 <= k < pre.listings@.len() ==> (#[trigger] self.listings@[k])
                            == pre.listings@[k]);
                    assert(self.listings_wf());
                    self.lemma_listing_index_is(pre.listings@.len() as int);
                    lemma_listings_frame(pre, *self, land_id);
                }
                ListingResult::Accepted
            },
        }
    }

    /// Withdraws a token's listing: only the seller who placed it may
    /// remove it.
    pub fn remove_listing(&mut self, caller: PrincipalId, land_id: u64) -> (r: ListingResult)
        requires
            old(self).wf(),
        ensures
            final(self).wf(),
            ({
                let s = *old(self);
                let t = *final(self);
                if !s.has_listing(land_id) {
                    (r matches ListingResult::Rejected(m) && m@ == "Listing not found"@) && t == s
                } else if s.listing_of(land_id).unwrap().seller != caller {
                    (r matches ListingResult::Rejected(m) && m@
                        == "Only seller can remove this listing"@) && t == s
                } else {
                    &&& r == ListingResult::Accepted
                    &&& t.listing_of(land_id) is None
                    &&& forall|id: u64| id != land_id ==> t.listing_of(id) == s.listing_of(id)
                    &&& t == (LandMarket { listings: t.listings, ..s })
                }
            }),
    {
        match self.find_listing(land_id) {
            None => ListingResult::Rejected(String::from_str("Listing not found")),
            Some(j) => {
                proof {
                    self.lemma_listing_index_is(j as int);
                }
                if self.listings[j].1.seller.id != caller.id {
                    return ListingResult::Rejected(
                        String::from_str("Only seller can remove this listing"),
                    );
                }
                let ghost pre = *self;
                self.listings.remove(j);
                proof {
                    lemma_listings_remove(pre, *self, land_id, j as int);
                    assert(self.land_models() =~= pre.land_models());
                    assert(self.lands_wf());
                }
                ListingResult::Accepted
            },
        }
    }

    /// Buys a listed token: ownership moves to the buyer and the listing is
    /// removed; buying one's own token is refused.
    pub fn buy_land(&mut self, buyer: PrincipalId, land_id: u64) -> (r: ListingResult)
        requires
            old(self).wf(),
        ensures
            final(self).wf(),
            ({
                let s = *old(self);
                let t = *final(self);
                if !s.has_listing(land_id) {
                    (r matches ListingResult::Rejected(m) && m@ == "Listing not found"@) && t == s
                } else if !s.has_land(land_id) {
                    (r matches ListingResult::Rejected(m) && m@ == "Land not found"@) && t == s
                } else if s.land(land_id).owner == buyer {
                    (r matches ListingResult::Rejected(m) && m@ == "You already own this land"@)
                        && t == s
                } else {
                    &&& r == ListingResult::Accepted
                    &&& t.has_land(land_id)
                    &&& t.land(land_id) == (LandNFTModel { owner: buyer, ..s.land(land_id) })
                    &&& forall|id: u64|
                        #[trigger] s.has_land(id) && id != land_id ==> t.land(id) == s.land(id)
                    &&& forall|id: u64| s.has_land(id) == t.has_land(id)
                    &&& t.listing_of(land_id) is None
                    &&& forall|id: u64| id != land_id ==> t.listing_of(id) == s.listing_of(id)
                    &&& t.next_id == s.next_id
                }
            }),
    {
        match self.find_listing(land_id) {
            None => ListingResult::Rejected(String::from_str("Listing not found")),
            Some(j) => {
                proof {
                    self.lemma_listing_index_is(j as int);
                }
                match self.find_land(land_id) {
                    None => ListingResult::Rejected(String::from_str("Land not found")),
                    Some(i) => {
                        proof {
                            self.lemma_land_index_is(i as int);
                        }
                        if self.lands[i].owner.id == buyer.id {
                            return ListingResult::Rejected(
                                String::from_str("You already own this land"),
                            );
                        }
                        let ghost pre = *self;
                        let land = &mut self.lands[i];
                        land.owner = buyer;
                        proof {
                            let m1 = *self;
                            assert(m1.land_models() =~= pre.land_models().update(
                                i as int,
                                m1.land_models()[i as int],
                            ));
                            assert(m1.wf());
                            lemma_lands_update_frame(pre, m1, i as int);
                            lemma_listings_same_store(pre, m1);
                        }
                        let ghost mid = *self;
                        self.listings.remove(j);
                        proof {
                            lemma_listings_remove(mid, *self, land_id, j as int);
                            lemma_lands_same_store(mid, *self);
                        }
                        ListingResult::Accepted
                    },
                }
            },
        }
    }

    /// Every standing listing paired with the token it offers, in listing
    /// order; listings whose token is unknown are skipped.
    pub fn get_marketplace_listings(&self) -> (r: Vec<(LandNFT, Listing)>)
        requires
            self.wf(),
        ensures
            ({
                let sel = self.listing_values().filter(|l: Listing| self.has_land(l.land_id));
                &&& r@.len() == sel.len()
                &&& forall|k: int|
                    0 <= k < r@.len() ==> (#[trigger] r@[k]).1 == sel[k] && r@[k].0@ == self.land(
                        sel[k].land_id,
                    )
            }),
    {
        let mut r: Vec<(LandNFT, Listing)> = Vec::new();
        let n = self.listings.len();
        for i in 0..n
            invariant
                self.wf(),
                n == self.listings@.len(),
                ({
                    let sel = self.listing_values().take(i as int).filter(
                        |l: Listing| self.has_land(l.land_id),
                    );
                    &&& r@.len() == sel.len()
                    &&& forall|k: int|
                        0 <= k < r@.len() ==> (#[trigger] r@[k]).1 == sel[k] && r@[k].0@
                            == self.land(sel[k].land_id)
                }),
        {
            proof {
                crate::seq_lemmas::lemma_filter_take_step(
                    self.listing_values(),
                    |l: Listing| self.has_land(l.land_id),
                    i as int,
                );
            }
            let listing = self.listings[i].1;
            match self.find_land(listing.land_id) {
                Some(li) => {
                    proof {
                        self.lemma_land_index_is(li as int);
                    }
                    r.push((self.lands[li].clone(), listing));
                },
                None => {
                },
            }
        }
        proof {
            assert(self.listing_values().take(n as int) =~= self.listing_values());
        }
        r
    }

    /// A token and its listing, if both exist.
    pub fn get_listing_by_id(&self, land_id: u64) -> (r: Option<(LandNFT, Listing)>)
        requires
            self.wf(),
        ensures
            match r {
                Some(pair) => self.has_listing(land_id) && self.has_land(land_id)
                    && self.listing_of(land_id) == Some(pair.1) && pair.0@ == self.land(land_id),
                None => !self.has_listing(land_id) || !self.has_land(land_id),
            },
    {
        match self.find_listing(land_id) {
            None => None,
            Some(j) => {
                proof {
                    self.lemma_listing_index_is(j as int);
                }
                match self.find_land(land_id) {
                    None => None,
                    Some(i) => {
                        proof {
                            self.lemma_land_index_is(i as int);
                        }
                        Some((self.lands[i].clone(), self.listings[j].1))
                    },
                }
            },
        }
    }

    /// The caller's standing listings paired with their tokens, in listing
    /// order; listings whose token is unknown are skipped.
    pub fn get_my_listings(&self, caller: PrincipalId) -> (r: Vec<(LandNFT, Listing)>)
        requires
            self.wf(),
        ensures
            ({
                let sel = self.listing_values().filter(
                    |l: Listing| l.seller == caller && self.has_land(l.land_id),
                );
                &&& r@.len() == sel.len()
                &&& forall|k: int|
                    0 <= k < r@.len() ==> (#[trigger] r@[k]).1 == sel[k] && r@[k].0@ == self.land(
                        sel[k].land_id,
                    )
            }),
    {
        let mut r: Vec<(LandNFT, Listing)> = Vec::new();
        let n = self.listings.len();
        for i in 0..n
            invariant
                self.wf(),
                n == self.listings@.len(),
                ({
                    let sel = self.listing_values().take(i as int).filter(
                        |l: Listing| l.seller == caller && self.has_land(l.land_id),
                    );
                    &&& r@.len() == sel.len()
                    &&& forall|k: int|
                        0 <= k < r@.len() ==> (#[trigger] r@[k]).1 == sel[k] && r@[k].0@
                            == self.land(sel[k].land_id)
                }),
        {
            proof {
                crate::seq_lemmas::lemma_filter_take_step(
                    self.listing_values(),
                    |l: Listing| l.seller == caller && self.has_land(l.land_id),
                    i as int,
                );
            }
            let listing = self.listings[i].1;
            if listing.seller.id == caller.id {
                match self.find_land(listing.land_id) {
                    Some(li) => {
                        proof {
                            self.lemma_land_index_is(li as int);
                        }
                        r.push((self.lands[li].clone(), listing));
                    },
                    None => {
                    },
                }
            }
        }
        proof {
            assert(self.listing_values().take(n as int) =~= self.listing_values());
        }
        r
    }

    /// Finds the position of a token by identifier.
    fn find_land(&self, id: u64) -> (r: Option<usize>)
        ensures
            match r {
                Some(i) => 0 <= i < self.land_models().len() && self.land_models()[i as int].id
                    == id,
                None => !self.has_land(id),
            },
    {
        let n = self.lands.len();
        for i in 0..n
            invariant
                n == self.lands@.len(),
                forall|k: int| 0 <= k < i ==> (#[trigger] self.land_models()[k]).id != id,
        {
            if self.lands[i].id == id {
                return Some(i);
            }
        }
        None
    }

    /// Finds the position of a token's listing.
    fn find_listing(&self, id: u64) -> (r: Option<usize>)
        ensures
            match r {
                Some(i) => 0 <= i < self.listings@.len() && self.listings@[i as int].0 == id,
                None => !self.has_listing(id),
            },
    {
        let n = self.listings.len();
        for i in 0..n
            invariant
                n == self.listings@.len(),
                forall|k: int| 0 <= k < i ==> (#[trigger] self.listings@[k]).0 != id,
        {
            if self.listings[i].0 == id {
                return Some(i);
            }
        }
        None
    }
}

/// Listing lookups agree on every token but `touched` when the listings
/// keep their keys in place, entries under other keys are untouched, and
/// any new entries carry the key `touched`.
proof fn lemma_listings_frame(pre: LandMarket, post: LandMarket, touched: u64)
    requires
        pre.listings_wf(),
        post.listings_wf(),
        pre.listings@.len() <= post.listings@.len(),
        forall|k: int|
            0 <= k < pre.listings@.len() ==> (#[trigger] post.listings@[k]).0
                == pre.listings@[k].0,
        forall|k: int|
            0 <= k < pre.listings@.len() && (#[trigger] pre.listings@[k]).0 != touched
                ==> post.listings@[k] == pre.listings@[k],
        forall|k: int|
            pre.listings@.len() <= k < post.listings@.len() ==> (#[trigger] post.listings@[k]).0
                == touched,
    ensures
        forall|id: u64| id != touched ==> post.listing_of(id) == pre.listing_of(id),
{
    assert forall|id: u64| id != touched implies post.listing_of(id) == pre.listing_of(id) by {
        if pre.has_listing(id) {
            let k = pre.listing_index(id);
            assert(0 <= k < pre.listings@.len() && pre.listings@[k].0 == id);
            assert(post.listings@[k] == pre.listings@[k]);
            post.lemma_listing_index_is(k);
        } else if post.has_listing(id) {
            let k = post.listing_index(id);
            assert(0 <= k < post.listings@.len() && post.listings@[k].0 == id);
            if k < pre.listings@.len() {
                assert(pre.listings@[k].0 == id);
                assert(pre.has_listing(id));
            }
            assert(false);
        }
    }
}

/// Removing the listing at position `r` clears that token's listing and
/// leaves every other token's listing as it was.
proof fn lemma_listings_remove(pre: LandMarket, post: LandMarket, touched: u64, r: int)
    requires
        pre.listings_wf(),
        0 <= r < pre.listings@.len(),
        pre.listings@[r].0 == touched,
        post.listings@ == pre.listings@.remove(r),
    ensures
        post.listings_wf(),
        post.listing_of(touched) is None,
        forall|id: u64| id != touched ==> post.listing_of(id) == pre.listing_of(id),
{
    let pres = pre.listings@;
    let posts = post.listings@;
    assert(forall|k: int|
        0 <= k < posts.len() ==> #[trigger] posts[k] == if k < r {
            pres[k]
        } else {
            pres[k + 1]
        });
    assert(post.listings_wf());
    if post.has_listing(touched) {
        let k = post.listing_index(touched);
        assert(0 <= k < posts.len() && posts[k].0 == touched);
        if k < r {
            assert(pres[k].0 != pres[r].0);
        } else {
            assert(pres[r].0 != pres[k + 1].0);
        }
        assert(false);
    }
    assert forall|id: u64| id != touched implies post.listing_of(id) == pre.listing_of(id) by {
        if pre.has_listing(id) {
            let k = pre.listing_index(id);
            assert(0 <= k < pres.len() && pres[k].0 == id);
            if k < r {
                assert(posts[k] == pres[k]);
                post.lemma_listing_index_is(k);
            } else {
                assert(posts[k - 1] == pres[k]);
                post.lemma_listing_index_is(k - 1);
            }
        } else if post.has_listing(id) {
            let k = post.listing_index(id);
            assert(0 <= k < posts.len() && posts[k].0 == id);
            if k < r {
                assert(pres[k].0 == id);
            } else {
                assert(pres[k + 1].0 == id);
            }
            assert(pre.has_listing(id));
            assert(false);
        }
    }
}

/// Two markets with the same listing store agree on every listing lookup.
proof fn lemma_listings_same_store(a: LandMarket, b: LandMarket)
    requires
        a.listings@ == b.listings@,
        a.listings_wf(),
    ensures
        forall|id: u64| a.listing_of(id) == b.listing_of(id),
{
    assert forall|id: u64| a.listing_of(id) == b.listing_of(id) by {
        if a.has_listing(id) {
            let k = a.listing_index(id);
            assert(0 <= k < a.listings@.len() && a.listings@[k].0 == id);
            assert(b.listings@[k].0 == id);
            b.lemma_listing_index_is(k);
            a.lemma_listing_index_is(k);
        } else if b.has_listing(id) {
            let k = b.listing_index(id);
            assert(0 <= k < b.listings@.len() && b.listings@[k].0 == id);
            assert(a.listings@[k].0 == id);
            assert(a.has_listing(id));
            assert(false);
        }
    }
}

/// Replacing one token by another with the same identifier leaves every
/// token lookup in place.
proof fn lemma_lands_update_frame(pre: LandMarket, post: LandMarket, i: int)
    requires
        pre.lands_wf(),
        post.lands_wf(),
        0 <= i < pre.land_models().len(),
        post.land_models() == pre.land_models().update(i, post.land_models()[i]),
        post.land_models()[i].id == pre.land_models()[i].id,
    ensures
        forall|id: u64| post.has_land(id) == pre.has_land(id),
        forall|id: u64|
            #[trigger] pre.has_land(id) ==> post.land_index(id) == pre.land_index(id),
        forall|id: u64|
            #[trigger] pre.has_land(id) && id != pre.land_models()[i].id ==> post.land(id)
                == pre.land(id),
        post.land(pre.land_models()[i].id) == post.land_models()[i],
{
    assert forall|id: u64| post.has_land(id) == pre.has_land(id) by {
        if pre.has_land(id) {
            let k = pre.land_index(id);
            assert(0 <= k < pre.land_models().len() && pre.land_models()[k].id == id);
            assert(post.land_models()[k].id == id);
            assert(post.has_land(id));
        }
        if post.has_land(id) {
            let k = post.land_index(id);
            assert(0 <= k < post.land_models().len() && post.land_models()[k].id == id);
            assert(pre.land_models()[k].id == id);
            assert(pre.has_land(id));
        }
    }
    assert forall|id: u64| #[trigger] pre.has_land(id) implies post.land_index(id)
        == pre.land_index(id) by {
        let k = pre.land_index(id);
        assert(0 <= k < pre.land_models().len() && pre.land_models()[k].id == id);
        assert(post.land_models()[k].id == id);
        post.lemma_land_index_is(k);
    }
    pre.lemma_land_index_is(i);
    post.lemma_land_index_is(i);
}

/// Two markets with the same token store agree on every token lookup.
proof fn lemma_lands_same_store(a: LandMarket, b: LandMarket)
    requires
        a.lands@ == b.lands@,
        a.next_id == b.next_id,
        a.lands_wf(),
    ensures
        forall|id: u64| a.has_land(id) == b.has_land(id),
        forall|id: u64|
            #[trigger] a.has_land(id) ==> a.land_index(id) == b.land_index(id) && a.land(id)
                == b.land(id),
{
    assert(a.land_models() =~= b.land_models());
    assert forall|id: u64| a.has_land(id) == b.has_land(id) by {
        if a.has_land(id) {
            let k = a.land_index(id);
            assert(0 <= k < a.land_models().len() && a.land_models()[k].id == id);
            assert(b.land_models()[k].id == id);
            assert(b.has_land(id));
        }
        if b.has_land(id) {
            let k = b.land_index(id);
            assert(0 <= k < b.land_models().len() && b.land_models()[k].id == id);
            assert(a.land_models()[k].id == id);
            assert(a.has_land(id));
        }
    }
    assert forall|id: u64| #[trigger] a.has_land(id) implies a.land_index(id) == b.land_index(id)
        && a.land(id) == b.land(id) by {
        let k = a.land_index(id);
        assert(0 <= k < a.land_models().len() && a.land_models()[k].id == id);
        assert(b.land_models()[k].id == id);
        b.lemma_land_index_is(k);
        a.lemma_land_index_is(k);
    }
}

} // verus!
