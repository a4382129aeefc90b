use mementic::ids::{anonymous_user, UserId};
use mementic::minting::build_metadata;
use mementic::model::{InitArgs, MemeData, MetadataValue, MintingMode, PythonMetadata, TokenMetadataEntry};
use mementic::nft::icrc7_supported_standards;
use mementic::state::Backend;

const NOW: u64 = 1_700_000_000_000_000_000;

fn user(n: u8) -> UserId {
    UserId::from_bytes(&[n, 3])
}

fn meme(url: &str, format: &str) -> MemeData {
    MemeData {
        prompt: "a bird".to_string(),
        name: None,
        caption: None,
        image_url: url.to_string(),
        image_filename: "bird.img".to_string(),
        image_format: format.to_string(),
        metadata: PythonMetadata {
            processing_time_bits: 0,
            timestamp: 123,
            file_size_bytes: 456,
            service: "gen".to_string(),
        },
    }
}

fn fresh() -> Backend {
    Backend::init(None, user(200), NOW)
}

fn text(e: &TokenMetadataEntry) -> &str {
    match &e.value {
        MetadataValue::Text(s) => s.as_str(),
        _ => panic!("not a text"),
    }
}

#[test]
fn installation_defaults() {
    let b = fresh();
    assert_eq!(b.icrc7_name(), "Mementic Top Memes");
    assert_eq!(b.icrc7_symbol(), "MEME");
    assert_eq!(b.icrc7_total_supply(), 0);
    assert!(b.get_admin().same(&user(200)));
    assert_eq!(b.get_active_week(), 2810);
    assert_eq!(b.get_week_offset(), 0);
}

#[test]
fn installation_arguments() {
    let args = InitArgs {
        name: Some("Memes".to_string()),
        symbol: None,
        description: Some("d".to_string()),
        logo: None,
        admin: Some(user(9)),
    };
    let b = Backend::init(Some(args), user(200), NOW);
    assert_eq!(b.icrc7_name(), "Memes");
    assert_eq!(b.icrc7_symbol(), "MEME");
    assert!(b.get_admin().same(&user(9)));
    assert_eq!(b.nft.collection.description.as_deref(), Some("d"));
    assert_eq!(b.nft.collection.created_at, NOW);
}

#[test]
fn supported_standards() {
    let s = icrc7_supported_standards();
    assert_eq!(s.len(), 2);
    assert_eq!(s[0].name, "ICRC-7");
    assert_eq!(s[0].url, "https://github.com/dfinity/ICRC/ICRCs/ICRC-7");
    assert_eq!(s[1].name, "ICRC-37");
}

#[test]
fn minting_a_single_token() {
    let mut b = fresh();
    b.publish_meme_as(&user(1), meme("ipfs://cid/x", "PNG"), NOW).unwrap();
    let plan = b.prepare_mint(&user(1), 1, MintingMode::Single).unwrap();
    assert_eq!(plan.to_mint, 1);
    assert_eq!(plan.fetch_url, "https://ipfs.io/ipfs/cid/x");
    assert_eq!(plan.mime_type, "image/png");
    assert!(plan.cached_image.is_none());
    let tokens = b.complete_mint(&plan, vec![9, 8, 7], NOW + 1).unwrap();
    assert_eq!(tokens, vec![0]);
    assert_eq!(b.icrc7_total_supply(), 1);
    assert_eq!(b.get_token_by_meme_id(1), Some(0));
    assert_eq!(b.get_tokens_by_meme_id(1), vec![0]);
    assert!(b.is_meme_minted(1));
    assert_eq!(b.icrc7_tokens_of(&user(1)), vec![0]);
    let owners = b.icrc7_owner_of(&vec![0, 5]);
    assert!(owners[0].as_ref().unwrap().same(&user(1)));
    assert!(owners[1].is_none());
    let img = b.get_nft_image(0).unwrap();
    assert_eq!(img.image, vec![9, 8, 7]);
    assert_eq!(img.mime_type, "image/png");
    let rec = b.get_token(0).unwrap();
    assert_eq!(rec.minted_at, NOW + 1);
    assert_eq!(rec.meme_id, 1);
    assert!(rec.has_image);
    // Image URI, meme fields, the format's type and the stored type: one edition has no numbering.
    assert_eq!(rec.metadata.len(), 4);
    assert_eq!(rec.metadata[3].name, "icrc7:metadata:content_type");
    assert_eq!(text(&rec.metadata[3]), "image/png");
    let sale = b.get_sale_metadata(0).unwrap();
    assert!(!sale.is_listed);
    assert_eq!(sale.meme_id, 1);
    assert_eq!(b.get_all_minted_tokens().len(), 1);
    assert_eq!(b.get_my_minted_tokens(&user(1)).len(), 1);
    assert!(b.get_my_minted_tokens(&user(2)).is_empty());
}

#[test]
fn a_minted_meme_cannot_be_minted_again() {
    let mut b = fresh();
    b.publish_meme_as(&user(1), meme("https://x/a.png", "png"), NOW).unwrap();
    let plan = b.prepare_mint(&user(1), 1, MintingMode::Single).unwrap();
    b.complete_mint(&plan, vec![1], NOW).unwrap();
    assert_eq!(
        b.prepare_mint(&user(1), 1, MintingMode::Single).err().unwrap(),
        "Meme has already been minted as an NFT"
    );
    assert_eq!(
        b.prepare_mint(&user(1), 1, MintingMode::Collection { editions: 2 }).err().unwrap(),
        "A collection has already been minted for this meme"
    );
}

#[test]
fn minting_checks() {
    let mut b = fresh();
    b.publish_meme_as(&user(1), meme("https://x/a.png", "png"), NOW).unwrap();
    b.publish_meme_as(&user(1), meme("ftp://x/b.png", "png"), NOW).unwrap();
    assert_eq!(
        b.prepare_mint(&anonymous_user(), 1, MintingMode::Single).err().unwrap(),
        "Authentication required"
    );
    assert_eq!(
        b.prepare_mint(&user(1), 1, MintingMode::Collection { editions: 0 }).err().unwrap(),
        "Collection supply must be greater than zero"
    );
    assert_eq!(
        b.prepare_mint(&user(1), 1, MintingMode::Collection { editions: 51 }).err().unwrap(),
        "Collection supply cannot exceed 50 editions"
    );
    assert_eq!(
        b.prepare_mint(&user(1), 42, MintingMode::Single).err().unwrap(),
        "StoredMeme 42 not found in voting canister"
    );
    assert_eq!(
        b.prepare_mint(&user(2), 1, MintingMode::Single).err().unwrap(),
        "Only the winning meme owner can mint this NFT"
    );
    assert_eq!(
        b.prepare_mint(&user(1), 2, MintingMode::Single).err().unwrap(),
        "Url need to specify https scheme"
    );
}

#[test]
fn minting_a_collection_numbers_the_editions() {
    let mut b = fresh();
    b.publish_meme_as(&user(1), meme("https://x/a.gif", "weird"), NOW).unwrap();
    let plan = b.prepare_mint(&user(1), 1, MintingMode::Collection { editions: 3 }).unwrap();
    assert_eq!(plan.mime_type, "application/octet-stream");
    let tokens = b.complete_mint(&plan, vec![5], NOW).unwrap();
    assert_eq!(tokens, vec![0, 1, 2]);
    assert_eq!(b.get_tokens_by_meme_id(1), vec![0, 1, 2]);
    assert_eq!(b.icrc7_tokens_of(&user(1)), vec![0, 1, 2]);
    let rec = b.get_token(1).unwrap();
    // Unknown format: no type from the format, then the stored type and the numbering.
    assert_eq!(rec.metadata.len(), 5);
    assert_eq!(text(&rec.metadata[2]), "application/octet-stream");
    assert_eq!(rec.metadata[3].name, "meme:edition_number");
    assert_eq!(text(&rec.metadata[3]), "2");
    assert_eq!(rec.metadata[4].name, "meme:edition_total");
    assert_eq!(text(&rec.metadata[4]), "3");
    // Another meme has no stored image yet.
    b.publish_meme_as(&user(1), meme("https://x/b.gif", "gif"), NOW).unwrap();
    let plan2 = b.prepare_mint(&user(1), 2, MintingMode::Single).unwrap();
    assert!(plan2.cached_image.is_none());
}

#[test]
fn token_metadata_describes_the_meme() {
    let mut b = fresh();
    let p = b.publish_meme_as(&user(1), meme("https://x/a.jpg", "jpg"), NOW).unwrap();
    let md = build_metadata(&p, 7);
    assert_eq!(md.len(), 3);
    assert_eq!(md[0].name, "icrc7:metadata:uri:image");
    assert!(md[0].immutable);
    assert_eq!(text(&md[0]), "https://x/a.jpg");
    assert_eq!(md[1].name, "icrc7:token_metadata");
    match &md[1].value {
        MetadataValue::Pairs(ps) => {
            assert_eq!(ps.len(), 11);
            let get = |k: &str| -> String {
                match &ps.iter().find(|(n, _)| n == k).unwrap().1 {
                    MetadataValue::Text(s) => s.clone(),
                    _ => panic!("not a text"),
                }
            };
            assert_eq!(get("meme:id"), "1");
            assert_eq!(get("meme:prompt"), "a bird");
            assert_eq!(get("meme:caption"), "");
            assert_eq!(get("meme:filename"), "bird.img");
            assert_eq!(get("meme:format"), "jpg");
            assert_eq!(get("meme:service"), "gen");
            assert_eq!(get("meme:ai_timestamp_ns"), "123");
            assert_eq!(get("meme:file_size_bytes"), "456");
            assert_eq!(get("meme:created_at_ns"), NOW.to_string());
            assert_eq!(get("meme:stored_at_ns"), NOW.to_string());
            assert_eq!(get("nft:token_id"), "7");
        },
        _ => panic!("not pairs"),
    }
    assert_eq!(md[2].name, "icrc7:metadata:content_type");
    assert_eq!(text(&md[2]), "image/jpeg");
}

#[test]
fn two_mints_prepared_together_mint_once() {
    let mut b = fresh();
    b.publish_meme_as(&user(1), meme("https://x/a.png", "png"), NOW).unwrap();
    let first = b.prepare_mint(&user(1), 1, MintingMode::Single).unwrap();
    let second = b.prepare_mint(&user(1), 1, MintingMode::Single).unwrap();
    assert_eq!(b.complete_mint(&first, vec![1], NOW).unwrap(), vec![0]);
    assert_eq!(
        b.complete_mint(&second, vec![1], NOW).err().unwrap(),
        "Meme has already been minted as an NFT"
    );
    assert_eq!(b.get_tokens_by_meme_id(1), vec![0]);
    assert_eq!(b.icrc7_total_supply(), 1);
    let third = {
        let mut c = fresh();
        c.publish_meme_as(&user(1), meme("https://x/a.png", "png"), NOW).unwrap();
        c.prepare_mint(&user(1), 1, MintingMode::Collection { editions: 2 }).unwrap()
    };
    assert_eq!(
        b.complete_mint(&third, vec![1], NOW).err().unwrap(),
        "A collection has already been minted for this meme"
    );
}

#[test]
fn a_minted_meme_stays_minted_through_later_operations() {
    let mut b = fresh();
    b.publish_meme_as(&user(1), meme("https://x/a.png", "png"), NOW).unwrap();
    b.publish_meme_as(&user(2), meme("https://x/b.png", "png"), NOW).unwrap();
    let plan = b.prepare_mint(&user(1), 1, MintingMode::Single).unwrap();
    b.complete_mint(&plan, vec![7], NOW).unwrap();
    let _ = b.delete_meme(&user(1), 1);
    let _ = b.delete_all_user_memes(&user(200));
    b.reset_system_to_week_1_at(NOW + 5).unwrap();
    assert!(b.is_meme_minted(1));
    assert_eq!(b.get_tokens_by_meme_id(1), vec![0]);
    assert!(!b.is_meme_minted(2));
}

#[test]
fn publishing_an_image_again_later_gives_back_the_stored_meme() {
    let mut b = fresh();
    let first = b.publish_meme_as(&user(1), meme("https://x/a.png", "png"), NOW).unwrap();
    b.publish_meme_as(&user(2), meme("https://x/b.png", "png"), NOW + 1).unwrap();
    b.increment_meme_views(1).unwrap();
    let again = b.publish_meme_as(&user(1), meme("https://x/a.png", "png"), NOW + 2).unwrap();
    assert_eq!(again.id, first.id);
    assert_eq!(again.views, 1);
    assert_eq!(b.get_total_memes(), 2);
}
