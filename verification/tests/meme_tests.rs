use mementic::ids::{anonymous_user, UserId};
use mementic::memes::health;
use mementic::model::{ListingStrategy, MemeData, MintingMode, PythonMetadata};
use mementic::state::Backend;

const NOW: u64 = 1_700_000_000_000_000_000;
const DAY_NS: u64 = 86_400_000_000_000;

fn user(n: u8) -> UserId {
    UserId::from_bytes(&[n, 9])
}

fn meme(url: &str) -> MemeData {
    MemeData {
        prompt: "a dog".to_string(),
        name: None,
        caption: Some("wow".to_string()),
        image_url: url.to_string(),
        image_filename: "dog.png".to_string(),
        image_format: "png".to_string(),
        metadata: PythonMetadata {
            processing_time_bits: 0x3FF0_0000_0000_0000,
            timestamp: 11,
            file_size_bytes: 22,
            service: "svc".to_string(),
        },
    }
}

fn admin() -> UserId {
    user(200)
}

fn fresh() -> Backend {
    Backend::init(None, admin(), NOW)
}

fn mint(b: &mut Backend, owner: &UserId, id: u64) -> Vec<u64> {
    let plan = b.prepare_mint(owner, id, MintingMode::Single).unwrap();
    b.complete_mint(&plan, vec![1, 2, 3], NOW).unwrap()
}

#[test]
fn publishing_stores_the_meme_for_its_owner() {
    let mut b = fresh();
    let p = b.publish_meme_as(&user(1), meme("https://i/1.png"), NOW).unwrap();
    assert_eq!(p.id, 1);
    assert!(p.owner.same(&user(1)));
    assert_eq!(p.created_at, NOW);
    assert_eq!(p.views, 0);
    assert!(!p.finalized);
    assert!(p.sale_metadata.is_none());
    assert_eq!(b.get_total_memes(), 1);
    assert_eq!(b.get_total_users(), 1);
    assert_eq!(b.get_user_meme_count(&user(1)), 1);
    assert_eq!(b.week_meme_ids(2810), vec![1]);
    assert_eq!(b.get_meme(1).unwrap().meme_data.image_url, "https://i/1.png");
    assert!(b.get_meme(2).is_none());
}

#[test]
fn publishing_the_same_image_twice_gives_the_same_meme() {
    let mut b = fresh();
    let first = b.publish_meme_as(&user(1), meme("https://i/1.png"), NOW).unwrap();
    let again = b.publish_meme_as(&user(1), meme("https://i/1.png"), NOW + 7).unwrap();
    assert_eq!(first.id, again.id);
    assert_eq!(again.created_at, NOW);
    assert_eq!(b.get_total_memes(), 1);
    // Another user with the same image gets a meme of their own.
    let other = b.publish_meme_as(&user(2), meme("https://i/1.png"), NOW).unwrap();
    assert_eq!(other.id, 2);
}

#[test]
fn anonymous_users_cannot_publish() {
    let mut b = fresh();
    let r = b.publish_meme_as(&anonymous_user(), meme("https://i/1.png"), NOW);
    assert_eq!(r.err().unwrap(), "Authentication required");
    assert_eq!(b.get_total_memes(), 0);
}

#[test]
fn meme_ids_increase() {
    let mut b = fresh();
    assert_eq!(b.next_meme_id(), 1);
    assert_eq!(b.reserve_meme_id(), 2);
    assert_eq!(b.next_meme_id(), 3);
}

#[test]
fn listings_show_newest_first() {
    let mut b = fresh();
    b.publish_meme_as(&user(1), meme("https://i/1.png"), NOW).unwrap();
    b.publish_meme_as(&user(2), meme("https://i/2.png"), NOW).unwrap();
    b.publish_meme_as(&user(1), meme("https://i/3.png"), NOW).unwrap();
    let all: Vec<u64> = b.get_all_memes().iter().map(|m| m.id).collect();
    assert_eq!(all, vec![3, 2, 1]);
    let mine: Vec<u64> = b.get_user_memes(&user(1)).iter().map(|m| m.id).collect();
    assert_eq!(mine.len(), 2);
    assert!(mine.contains(&1) && mine.contains(&3));
}

#[test]
fn views_are_counted() {
    let mut b = fresh();
    b.publish_meme_as(&user(1), meme("https://i/1.png"), NOW).unwrap();
    assert!(b.increment_meme_views(1).is_ok());
    assert!(b.increment_meme_views(1).is_ok());
    assert_eq!(b.get_meme(1).unwrap().views, 2);
    assert_eq!(b.increment_meme_views(5).err().unwrap(), "Meme not found");
}

#[test]
fn deleting_a_meme_checks_owner_and_minting() {
    let mut b = fresh();
    b.publish_meme_as(&user(1), meme("https://i/1.png"), NOW).unwrap();
    b.publish_meme_as(&user(1), meme("https://i/2.png"), NOW).unwrap();
    assert_eq!(b.delete_meme(&anonymous_user(), 1).err().unwrap(), "Authentication required");
    assert_eq!(b.delete_meme(&user(2), 1).err().unwrap(), "You don't own this meme");
    assert_eq!(b.delete_meme(&user(1), 9).err().unwrap(), "Meme not found");
    mint(&mut b, &user(1), 2);
    assert_eq!(
        b.delete_meme(&user(1), 2).err().unwrap(),
        "Cannot delete a meme that has been minted as NFT"
    );
    assert!(b.delete_meme(&user(1), 1).is_ok());
    assert!(b.get_meme(1).is_none());
    assert_eq!(b.get_user_meme_count(&user(1)), 1);
}

#[test]
fn the_daily_generation_quota() {
    let mut b = fresh();
    let u = user(1);
    assert_eq!(b.check_remaining_calls(&u, NOW), 3);
    let day = NOW / DAY_NS;
    for _ in 0..3 {
        assert!(b.generation_allowed(&u, day));
        b.record_generation(&u, day);
    }
    assert!(!b.generation_allowed(&u, day));
    assert_eq!(b.check_remaining_calls(&u, NOW), 0);
    // A new day starts over.
    assert_eq!(b.check_remaining_calls(&u, NOW + DAY_NS), 3);
    assert!(b.generation_allowed(&u, day + 1));
}

#[test]
fn listing_needs_a_minted_meme_and_a_price() {
    let mut b = fresh();
    b.publish_meme_as(&user(1), meme("https://i/1.png"), NOW).unwrap();
    let fixed = ListingStrategy::FixedPrice { price_e8s: 500 };
    assert_eq!(
        b.list_meme_for_sale(&user(1), 1, fixed, NOW).err().unwrap(),
        "Meme has not been minted as an NFT yet"
    );
    mint(&mut b, &user(1), 1);
    assert_eq!(
        b.list_meme_for_sale(&user(1), 1, ListingStrategy::FixedPrice { price_e8s: 0 }, NOW).err().unwrap(),
        "Listing price must be greater than zero"
    );
    assert_eq!(
        b.list_meme_for_sale(&user(1), 1, ListingStrategy::Auction { start_price_e8s: 0 }, NOW).err().unwrap(),
        "Starting bid must be greater than zero"
    );
    assert_eq!(b.list_meme_for_sale(&user(2), 1, fixed, NOW).err().unwrap(), "You don't own this meme");
    assert!(b.list_meme_for_sale(&user(1), 1, fixed, NOW).is_ok());
    let sale = b.get_sale_metadata_for_meme(1).unwrap();
    assert!(sale.is_listed);
    assert_eq!(sale.listing_price, Some(500));
    assert_eq!(sale.listed_at, Some(NOW));
    assert_eq!(b.get_marketplace_memes().len(), 1);
    assert!(b.remove_meme_from_market(&user(1), 1).is_ok());
    let sale = b.get_sale_metadata_for_meme(1).unwrap();
    assert!(!sale.is_listed);
    assert_eq!(sale.listing_price, None);
    assert!(b.get_marketplace_memes().is_empty());
}

#[test]
fn a_sale_is_recorded() {
    let mut b = fresh();
    b.publish_meme_as(&user(1), meme("https://i/1.png"), NOW).unwrap();
    assert_eq!(b.record_meme_sale(1, 10, NOW).err().unwrap(), "Meme has not been minted as an NFT yet");
    assert_eq!(b.record_meme_sale(7, 10, NOW).err().unwrap(), "Meme not found");
    mint(&mut b, &user(1), 1);
    b.list_meme_for_sale(&user(1), 1, ListingStrategy::Auction { start_price_e8s: 40 }, NOW).unwrap();
    assert!(b.record_meme_sale(1, 70, NOW + 1).is_ok());
    assert!(b.record_meme_sale(1, 30, NOW + 2).is_ok());
    let sale = b.get_sale_metadata_for_meme(1).unwrap();
    assert_eq!(sale.total_sales, 2);
    assert_eq!(sale.total_earned, 100);
    assert_eq!(sale.last_sale_price, Some(30));
    assert_eq!(sale.last_sale_at, Some(NOW + 2));
    assert!(!sale.is_listed);
}

#[test]
fn clearing_memes_is_for_the_administrator() {
    let mut b = fresh();
    b.publish_meme_as(&user(1), meme("https://i/1.png"), NOW).unwrap();
    b.publish_meme_as(&user(2), meme("https://i/2.png"), NOW).unwrap();
    assert_eq!(b.clear_all_memes(&anonymous_user()).err().unwrap(), "Authentication required");
    assert_eq!(b.clear_all_memes(&user(1)).err().unwrap(), "Admin access required");
    assert_eq!(b.clear_all_memes(&admin()), Ok(2));
    assert!(b.get_all_memes().is_empty());
    assert!(b.get_meme(1).is_none());
    assert_eq!(b.get_total_users(), 0);
    assert_eq!(b.get_total_memes(), 0);
    assert_eq!(b.get_user_meme_count(&user(1)), 0);
}

#[test]
fn the_health_report() {
    assert_eq!(
        health(),
        "Meme Worker: https://dark-shape-faac.h28177922.workers.dev/generate_meme - Status: Operational"
    );
}

#[test]
fn clearing_the_market_unlists_every_meme() {
    let mut b = fresh();
    for (n, url) in [(1u8, "https://i/1.png"), (2, "https://i/2.png"), (3, "https://i/3.png")] {
        b.publish_meme_as(&user(n), meme(url), NOW).unwrap();
    }
    for id in 1..=3u64 {
        let owner = user(id as u8);
        mint(&mut b, &owner, id);
    }
    b.list_meme_for_sale(&user(1), 1, ListingStrategy::FixedPrice { price_e8s: 5 }, NOW).unwrap();
    b.list_meme_for_sale(&user(3), 3, ListingStrategy::Auction { start_price_e8s: 9 }, NOW).unwrap();
    assert_eq!(b.get_marketplace_memes().len(), 2);
    assert_eq!(b.remove_all_memes_from_market(&user(1)).err().unwrap(), "Admin access required");
    assert_eq!(b.remove_all_memes_from_market(&anonymous_user()).err().unwrap(), "Authentication required");
    assert_eq!(b.remove_all_memes_from_market(&admin()), Ok(2));
    assert!(b.get_marketplace_memes().is_empty());
    let sale = b.get_sale_metadata_for_meme(3).unwrap();
    // Only the flag, the price and the listing time are cleared.
    assert!(!sale.is_listed);
    assert_eq!(sale.listing_price, None);
    assert_eq!(sale.listed_at, None);
    assert_eq!(sale.auction_start_price, Some(9));
    assert_eq!(b.remove_all_memes_from_market(&admin()), Ok(0));
}

#[test]
fn deleting_all_memes_spares_the_minted_ones() {
    let mut b = fresh();
    b.publish_meme_as(&user(1), meme("https://i/1.png"), NOW).unwrap();
    b.publish_meme_as(&user(1), meme("https://i/2.png"), NOW).unwrap();
    b.publish_meme_as(&user(2), meme("https://i/3.png"), NOW).unwrap();
    mint(&mut b, &user(1), 2);
    assert_eq!(b.delete_all_user_memes(&user(1)).err().unwrap(), "Admin access required");
    let r = b.delete_all_user_memes(&admin());
    assert_eq!(r.err().unwrap(), "Deleted 2 memes, but failed to delete: Meme 2: cannot delete minted NFT");
    assert!(b.get_meme(1).is_none());
    assert!(b.get_meme(2).is_some());
    assert!(b.get_meme(3).is_none());
    assert_eq!(b.get_user_meme_count(&user(1)), 1);
    assert_eq!(b.get_user_meme_count(&user(2)), 0);
}

#[test]
fn deleting_all_unminted_memes_succeeds() {
    let mut b = fresh();
    b.publish_meme_as(&user(1), meme("https://i/1.png"), NOW).unwrap();
    b.publish_meme_as(&user(2), meme("https://i/2.png"), NOW).unwrap();
    assert_eq!(b.delete_all_user_memes(&admin()), Ok(2));
    assert!(b.get_all_memes().is_empty());
    assert_eq!(b.delete_all_user_memes(&admin()), Ok(0));
}
