use land_registry::marketplace::{Coordinates, LandMarket, ListingResult};
use land_registry::types::PrincipalId;

fn p(id: u64) -> PrincipalId {
    PrincipalId { id }
}

fn mint(market: &mut LandMarket, owner: u64, name: &str, at: u64) -> u64 {
    market.mint_land(
        p(owner),
        name.to_string(),
        Coordinates { x: 10, y: 20 },
        "20x30".to_string(),
        vec![1, 2, 3],
        at,
    )
}

fn rejected(reason: &str) -> ListingResult {
    ListingResult::Rejected(reason.to_string())
}

#[test]
fn minting_hands_out_increasing_ids() {
    let mut market = LandMarket::new();
    assert_eq!(mint(&mut market, 2, "A", 1_000), 1);
    assert_eq!(mint(&mut market, 2, "B", 1_001), 2);
    assert_eq!(mint(&mut market, 3, "C", 1_002), 3);
    let all = market.get_all_land();
    assert_eq!(all.len(), 3);
    assert_eq!(all[0].id, 1);
    assert_eq!(all[0].name, "A");
    assert_eq!(all[0].owner, p(2));
    assert_eq!(all[0].image_data, vec![1, 2, 3]);
    assert_eq!(all[0].timestamp, 1_000);
    let mine = market.get_my_land(p(2));
    assert_eq!(mine.len(), 2);
    assert_eq!(mine[0].id, 1);
    assert_eq!(mine[1].id, 2);
}

#[test]
fn listing_requires_the_owner_and_is_unique() {
    let mut market = LandMarket::new();
    mint(&mut market, 2, "A", 1_000);
    assert_eq!(market.list_land_for_sale(p(2), 42, 100, 1_001), rejected("Land not found"));
    assert_eq!(
        market.list_land_for_sale(p(9), 1, 100, 1_001),
        rejected("Only owner can list this land")
    );
    assert_eq!(market.list_land_for_sale(p(2), 1, 100, 1_001), ListingResult::Accepted);
    assert_eq!(
        market.list_land_for_sale(p(2), 1, 200, 1_002),
        rejected("Land is already listed for sale")
    );
    let listings = market.get_all_listings();
    assert_eq!(listings.len(), 1);
    assert_eq!(listings[0].land_id, 1);
    assert_eq!(listings[0].price, 100);
    assert_eq!(listings[0].seller, p(2));
    assert_eq!(listings[0].listed_at, 1_001);
}

#[test]
fn only_the_seller_removes_a_listing() {
    let mut market = LandMarket::new();
    mint(&mut market, 2, "A", 1_000);
    assert_eq!(market.remove_listing(p(2), 1), rejected("Listing not found"));
    market.list_land_for_sale(p(2), 1, 100, 1_001);
    assert_eq!(
        market.remove_listing(p(9), 1),
        rejected("Only seller can remove this listing")
    );
    assert_eq!(market.remove_listing(p(2), 1), ListingResult::Accepted);
    assert!(market.get_all_listings().is_empty());
}

#[test]
fn buying_moves_ownership_and_clears_the_listing() {
    let mut market = LandMarket::new();
    mint(&mut market, 2, "A", 1_000);
    assert_eq!(market.buy_land(p(4), 1), rejected("Listing not found"));
    market.list_land_for_sale(p(2), 1, 100, 1_001);
    assert_eq!(market.buy_land(p(2), 1), rejected("You already own this land"));
    assert_eq!(market.buy_land(p(4), 1), ListingResult::Accepted);
    let all = market.get_all_land();
    assert_eq!(all[0].owner, p(4));
    assert_eq!(all[0].name, "A");
    assert!(market.get_all_listings().is_empty());
    // The land can be listed again by its new owner.
    assert_eq!(market.list_land_for_sale(p(4), 1, 500, 1_003), ListingResult::Accepted);
}

#[test]
fn marketplace_views_pair_listings_with_their_tokens() {
    let mut market = LandMarket::new();
    mint(&mut market, 2, "A", 1_000);
    mint(&mut market, 2, "B", 1_001);
    mint(&mut market, 3, "C", 1_002);
    market.list_land_for_sale(p(2), 1, 100, 1_003);
    market.list_land_for_sale(p(3), 3, 300, 1_004);
    let pairs = market.get_marketplace_listings();
    assert_eq!(pairs.len(), 2);
    assert_eq!(pairs[0].0.name, "A");
    assert_eq!(pairs[0].1.price, 100);
    assert_eq!(pairs[1].0.name, "C");
    assert_eq!(pairs[1].1.price, 300);

    let one = market.get_listing_by_id(3).unwrap();
    assert_eq!(one.0.name, "C");
    assert_eq!(one.1.seller, p(3));
    assert!(market.get_listing_by_id(2).is_none());

    let mine = market.get_my_listings(p(2));
    assert_eq!(mine.len(), 1);
    assert_eq!(mine[0].0.id, 1);
    assert_eq!(mine[0].1.seller, p(2));
    assert!(market.get_my_listings(p(9)).is_empty());
}
