//! The records that the canister stores and returns.

use vstd::prelude::*;
use crate::ids::UserId;

verus! {

/// A copy of an optional text.
pub fn copy_opt_text(o: &Option<String>) -> (r: Option<String>)
    ensures
        r == *o,
{
    match o {
        Some(s) => Some(s.clone()),
        None => None,
    }
}

/// A copy of an optional principal.
pub fn copy_opt_user(o: &Option<UserId>) -> (r: Option<UserId>)
    ensures
        r == *o,
{
    match o {
        Some(u) => Some(u.copy()),
        None => None,
    }
}

// ---------- Leaderboards ----------

/// One ranked meme of a leaderboard.
#[derive(Clone, Copy, Debug)]
pub struct TopEntry {
    pub meme_id: u64,
    pub votes: u64,
    pub rank: u32,
}

/// The frozen leaderboard of a finished week.
pub struct WeeklyLeaderboard {
    pub week_id: u64,
    pub finalized_at: u64,
    pub top: Vec<TopEntry>,
}

// ---------- Voting ----------

/// The direction of a vote.
#[derive(Clone, Copy, Debug, PartialEq, Eq, Structural)]
pub enum VoteType {
    Upvote,
    Downvote,
}

/// Vote tallies of one meme. The ranking score is not stored: it is a
/// function of the tallies, `last_vote_time` and the meme's creation time.
#[derive(Clone, Copy, Debug)]
pub struct MemeVotes {
    pub meme_id: u64,
    pub upvotes: u32,
    pub downvotes: u32,
    pub total_voters: u32,
    /// The week in which the meme was created.
    pub created_week: u64,
    /// The time of the last vote, in nanoseconds.
    pub last_vote_time: u64,
}

/// A user's vote on a meme.
#[derive(Clone, Copy, Debug)]
pub struct VoteRecord {
    pub vote_type: VoteType,
    pub timestamp: u64,
}

/// A voting week.
#[derive(Clone, Copy, Debug)]
pub struct WeeklyPeriod {
    pub meme_count: u32,
    pub week_id: u64,
    /// End of the week, in nanoseconds.
    pub end_time: u64,
    /// Set once voting is locked for this week.
    pub is_completed: bool,
    /// Start of the week, in nanoseconds.
    pub start_time: u64,
}

/// A user's voting power in a week.
#[derive(Clone, Copy, Debug)]
pub struct UserPower {
    pub week_id: u64,
    pub remaining: u32,
    pub cap: u32,
}

/// The answer to a vote or to the removal of one.
pub struct VoteResponse {
    pub success: bool,
    pub message: String,
    pub new_vote_count: u32,
    pub user_previous_vote: Option<VoteType>,
}

/// What the NFT step needs of a winning meme. Its ranking score is computed
/// by the host from these tallies.
#[derive(Clone, Copy, Debug)]
pub struct LegacyTopEntry {
    pub meme_id: u64,
    pub upvotes: u32,
    pub downvotes: u32,
    pub last_vote_time: u64,
}

/// One meme of a leaderboard, with its stored data and tallies.
pub struct LeaderboardEntry {
    pub meme_id: u64,
    pub meme_data: Option<PublicStoredMeme>,
    pub votes: MemeVotes,
    pub rank: u32,
}

/// The most-liked memes of the active week.
pub struct TopLikedLeaderboard {
    pub total_ranked: u32,
    pub top_memes: Vec<LeaderboardEntry>,
}

// ---------- Memes ----------

/// How a meme is put on the market.
#[derive(Clone, Copy, Debug)]
pub enum ListingStrategy {
    FixedPrice { price_e8s: u64 },
    Auction { start_price_e8s: u64 },
}

/// Metadata reported by the generation service. The processing time, a
/// floating-point number of seconds, is kept as its IEEE-754 bit pattern.
pub struct PythonMetadata {
    pub processing_time_bits: u64,
    pub timestamp: u64,
    pub file_size_bytes: u64,
    pub service: String,
}

/// A generated meme.
pub struct MemeData {
    pub prompt: String,
    pub name: Option<String>,
    pub caption: Option<String>,
    pub image_url: String,
    pub image_filename: String,
    pub image_format: String,
    pub metadata: PythonMetadata,
}

impl PythonMetadata {
    pub fn copy(&self) -> (r: Self)
        ensures
            r == *self,
    {
        PythonMetadata {
            processing_time_bits: self.processing_time_bits,
            timestamp: self.timestamp,
            file_size_bytes: self.file_size_bytes,
            service: self.service.clone(),
        }
    }
}

impl MemeData {
    pub fn copy(&self) -> (r: Self)
        ensures
            r == *self,
    {
        MemeData {
            prompt: self.prompt.clone(),
            name: copy_opt_text(&self.name),
            caption: copy_opt_text(&self.caption),
            image_url: self.image_url.clone(),
            image_filename: self.image_filename.clone(),
            image_format: self.image_format.clone(),
            metadata: self.metadata.copy(),
        }
    }
}

/// A published meme as stored.
pub struct StoredMeme {
    pub id: u64,
    pub owner: UserId,
    pub meme_data: MemeData,
    pub created_at: u64,
    pub canister_timestamp: u64,
    pub views: u64,
    pub finalized: bool,
    pub week_ended: bool,
    pub finalized_at: Option<u64>,
}

impl StoredMeme {
    pub fn copy(&self) -> (r: Self)
        ensures
            r == *self,
    {
        StoredMeme {
            id: self.id,
            owner: self.owner.copy(),
            meme_data: self.meme_data.copy(),
            created_at: self.created_at,
            canister_timestamp: self.canister_timestamp,
            views: self.views,
            finalized: self.finalized,
            week_ended: self.week_ended,
            finalized_at: self.finalized_at,
        }
    }
}

/// A published meme as shown to clients, with its sale record if it was minted.
pub struct PublicStoredMeme {
    pub id: u64,
    pub owner: UserId,
    pub meme_data: MemeData,
    pub created_at: u64,
    pub canister_timestamp: u64,
    pub views: u64,
    pub sale_metadata: Option<TokenSaleMetadata>,
    pub finalized: bool,
    pub week_ended: bool,
    pub finalized_at: Option<u64>,
}

/// The public form of a stored meme with a given sale record.
pub open spec fn public_form(m: StoredMeme, sale: Option<TokenSaleMetadata>) -> PublicStoredMeme {
    PublicStoredMeme {
        id: m.id,
        owner: m.owner,
        meme_data: m.meme_data,
        created_at: m.created_at,
        canister_timestamp: m.canister_timestamp,
        views: m.views,
        sale_metadata: sale,
        finalized: m.finalized,
        week_ended: m.week_ended,
        finalized_at: m.finalized_at,
    }
}

// ---------- NFT collection ----------

/// The collection's settings and counters.
pub struct CollectionState {
    pub name: String,
    pub symbol: String,
    pub description: Option<String>,
    pub logo: Option<String>,
    pub total_supply: u64,
    pub admin: UserId,
    pub created_at: u64,
}

/// A named metadata value of a token.
pub struct TokenMetadataEntry {
    pub name: String,
    pub immutable: bool,
    pub value: MetadataValue,
}

/// A metadata value.
pub enum MetadataValue {
    Text(String),
    Blob(Vec<u8>),
    Pairs(Vec<(String, MetadataValue)>),
    Array(Vec<MetadataValue>),
}

/// A minted token.
pub struct TokenRecord {
    pub token_id: u64,
    pub owner: UserId,
    pub minted_at: u64,
    pub meme_id: u64,
    pub metadata: Vec<TokenMetadataEntry>,
    pub mime_type: Option<String>,
    /// Whether the image bytes are stored.
    pub has_image: bool,
}

/// How a token is listed.
#[derive(Clone, Copy, Debug, PartialEq, Eq, Structural)]
pub enum ListingType {
    Unlisted,
    FixedPrice,
    Auction,
}

impl Default for ListingType {
    /// Not listed.
    fn default() -> (r: Self)
        ensures
            r == ListingType::Unlisted,
    {
        ListingType::Unlisted
    }
}

/// Sale state of a token.
pub struct TokenSaleMetadata {
    pub token_id: u64,
    pub meme_id: u64,
    pub is_listed: bool,
    pub listing_price: Option<u64>,
    pub listed_at: Option<u64>,
    pub total_sales: u64,
    pub total_earned: u64,
    pub last_sale_price: Option<u64>,
    pub last_sale_at: Option<u64>,
    pub listing_type: ListingType,
    pub auction_start_price: Option<u64>,
    pub auction_highest_bid: Option<u64>,
    pub auction_highest_bidder: Option<UserId>,
    pub auction_bid_count: u32,
}

impl TokenSaleMetadata {
    pub fn copy(&self) -> (r: Self)
        ensures
            r == *self,
    {
        TokenSaleMetadata {
            token_id: self.token_id,
            meme_id: self.meme_id,
            is_listed: self.is_listed,
            listing_price: self.listing_price,
            listed_at: self.listed_at,
            total_sales: self.total_sales,
            total_earned: self.total_earned,
            last_sale_price: self.last_sale_price,
            last_sale_at: self.last_sale_at,
            listing_type: self.listing_type,
            auction_start_price: self.auction_start_price,
            auction_highest_bid: self.auction_highest_bid,
            auction_highest_bidder: copy_opt_user(&self.auction_highest_bidder),
            auction_bid_count: self.auction_bid_count,
        }
    }

    /// A fresh, unlisted sale record of a token.
    pub fn fresh(token_id: u64, meme_id: u64) -> (r: Self)
        ensures
            r == fresh_sale(token_id, meme_id),
    {
        TokenSaleMetadata {
            token_id,
            meme_id,
            is_listed: false,
            listing_price: None,
            listed_at: None,
            total_sales: 0,
            total_earned: 0,
            last_sale_price: None,
            last_sale_at: None,
            listing_type: ListingType::Unlisted,
            auction_start_price: None,
            auction_highest_bid: None,
            auction_highest_bidder: None,
            auction_bid_count: 0,
        }
    }
}

/// A fresh, unlisted sale record of a token.
pub open spec fn fresh_sale(token_id: u64, meme_id: u64) -> TokenSaleMetadata {
    TokenSaleMetadata {
        token_id,
        meme_id,
        is_listed: false,
        listing_price: None,
        listed_at: None,
        total_sales: 0,
        total_earned: 0,
        last_sale_price: None,
        last_sale_at: None,
        listing_type: ListingType::Unlisted,
        auction_start_price: None,
        auction_highest_bid: None,
        auction_highest_bidder: None,
        auction_bid_count: 0,
    }
}

/// The bytes of a meme's image, as kept for its tokens.
pub struct ImageBlob(pub Vec<u8>);

/// The stored image of a token.
pub struct NftImage {
    pub mime_type: String,
    pub image: Vec<u8>,
}

/// A standard the collection implements.
pub struct SupportedStandard {
    pub name: String,
    pub url: String,
}

/// Settings given when the collection is installed.
pub struct InitArgs {
    pub name: Option<String>,
    pub symbol: Option<String>,
    pub description: Option<String>,
    pub logo: Option<String>,
    pub admin: Option<UserId>,
}

/// How many editions of a meme to mint.
#[derive(Clone, Copy, Debug)]
pub enum MintingMode {
    Single,
    Collection { editions: u32 },
}

} // verus!
