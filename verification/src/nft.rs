//! The NFT collection: tokens minted from winning memes, their owners, images
//! and sale records.

use vstd::prelude::*;
use crate::state::history_kept;
use crate::ids::UserId;
use crate::model::{fresh_sale, ListingStrategy, ListingType, NftImage, SupportedStandard, TokenRecord, TokenSaleMetadata};
use crate::state::Backend;

verus! {

/// The first token minted for a meme, if any.
pub open spec fn token_for_meme(mint_index: Map<u64, Vec<u64>>, meme_id: u64) -> Option<u64> {
    if mint_index.contains_key(meme_id) && mint_index[meme_id]@.len() > 0 {
        Some(mint_index[meme_id]@[0])
    } else {
        None
    }
}

/// The sale record of a meme's first token, if any.
pub open spec fn sale_for_meme(b: Backend, meme_id: u64) -> Option<TokenSaleMetadata> {
    match token_for_meme(b.nft.mint_index@, meme_id) {
        Some(t) => if b.nft.token_sales@.contains_key(t) {
            Some(b.nft.token_sales@[t])
        } else {
            None
        },
        None => None,
    }
}

/// The tokens minted for a meme, in minting order.
pub open spec fn tokens_for_meme(mint_index: Map<u64, Vec<u64>>, meme_id: u64) -> Seq<u64> {
    if mint_index.contains_key(meme_id) { mint_index[meme_id]@ } else { Seq::empty() }
}

/// The sale record a mutation starts from: the stored one, or a fresh one,
/// with the token and meme ids set.
pub open spec fn sale_base(sales: Map<u64, TokenSaleMetadata>, token_id: u64, meme_id: u64) -> TokenSaleMetadata {
    if sales.contains_key(token_id) {
        TokenSaleMetadata { token_id, meme_id, ..sales[token_id] }
    } else {
        fresh_sale(token_id, meme_id)
    }
}

/// Everything but the sale records is unchanged.
pub open spec fn only_sales_changed(a: Backend, b: Backend) -> bool {
    &&& a.weeks == b.weeks
    &&& a.board == b.board
    &&& a.voting == b.voting
    &&& a.store == b.store
    &&& a.nft.collection == b.nft.collection
    &&& a.nft.tokens == b.nft.tokens
    &&& a.nft.owner_index == b.nft.owner_index
    &&& a.nft.mint_index == b.nft.mint_index
    &&& a.nft.stored_images == b.nft.stored_images
}

/// A sale record listed for sale with the given strategy at `now_ns`.
pub open spec fn listed(s: TokenSaleMetadata, strategy: ListingStrategy, now_ns: u64) -> TokenSaleMetadata {
    match strategy {
        ListingStrategy::FixedPrice { price_e8s } => TokenSaleMetadata {
            is_listed: true,
            listing_price: Some(price_e8s),
            listing_type: ListingType::FixedPrice,
            auction_start_price: None,
            auction_highest_bid: None,
            auction_highest_bidder: None,
            auction_bid_count: 0,
            listed_at: Some(now_ns),
            ..s
        },
        ListingStrategy::Auction { start_price_e8s } => TokenSaleMetadata {
            is_listed: true,
            listing_price: Some(start_price_e8s),
            listing_type: ListingType::Auction,
            auction_start_price: Some(start_price_e8s),
            auction_highest_bid: None,
            auction_highest_bidder: None,
            auction_bid_count: 0,
            listed_at: Some(now_ns),
            ..s
        },
    }
}

/// A sale record taken off the market.
pub open spec fn delisted(s: TokenSaleMetadata) -> TokenSaleMetadata {
    TokenSaleMetadata {
        is_listed: false,
        listing_price: None,
        listed_at: None,
        listing_type: ListingType::Unlisted,
        auction_start_price: None,
        auction_highest_bid: None,
        auction_highest_bidder: None,
        auction_bid_count: 0,
        ..s
    }
}

/// A sale record after a sale at `price` at `now_ns`.
pub open spec fn sold(s: TokenSaleMetadata, price: u64, now_ns: u64) -> TokenSaleMetadata {
    TokenSaleMetadata {
        total_sales: s.total_sales.saturating_add(1),
        total_earned: s.total_earned.saturating_add(price),
        last_sale_price: Some(price),
        last_sale_at: Some(now_ns),
        ..delisted(s)
    }
}

/// A change to a sale record.
#[derive(Clone, Copy, Debug)]
pub enum SaleUpdate {
    /// Put on the market with a strategy at a time.
    List { strategy: ListingStrategy, now_ns: u64 },
    /// Taken off the market, listing and auction fields cleared.
    Delist,
    /// Taken off the market, only the listed flag, price and time cleared.
    DelistPriceOnly,
    /// Sold at a price at a time.
    Sold { price_e8s: u64, now_ns: u64 },
    /// Left as it is.
    Keep,
}

/// A sale record only taken off the market: flag, price and listing time cleared.
pub open spec fn delisted_price_only(s: TokenSaleMetadata) -> TokenSaleMetadata {
    TokenSaleMetadata { is_listed: false, listing_price: None, listed_at: None, ..s }
}

/// A sale record after a change.
pub open spec fn applied(s: TokenSaleMetadata, u: SaleUpdate) -> TokenSaleMetadata {
    match u {
        SaleUpdate::List { strategy, now_ns } => listed(s, strategy, now_ns),
        SaleUpdate::Delist => delisted(s),
        SaleUpdate::DelistPriceOnly => delisted_price_only(s),
        SaleUpdate::Sold { price_e8s, now_ns } => sold(s, price_e8s, now_ns),
        SaleUpdate::Keep => s,
    }
}

impl SaleUpdate {
    /// Applies this change to a sale record.
    pub fn apply(self, sale: TokenSaleMetadata) -> (r: TokenSaleMetadata)
        ensures
            r == applied(sale, self),
    {
        let mut sale = sale;
        match self {
            SaleUpdate::List { strategy, now_ns } => {
                match strategy {
                    ListingStrategy::FixedPrice { price_e8s } => {
                        sale.listing_price = Some(price_e8s);
                        sale.listing_type = ListingType::FixedPrice;
                        sale.auction_start_price = None;
                    },
                    ListingStrategy::Auction { start_price_e8s } => {
                        sale.listing_price = Some(start_price_e8s);
                        sale.listing_type = ListingType::Auction;
                        sale.auction_start_price = Some(start_price_e8s);
                    },
                }
                sale.is_listed = true;
                sale.auction_highest_bid = None;
                sale.auction_highest_bidder = None;
                sale.auction_bid_count = 0;
                sale.listed_at = Some(now_ns);
            },
            SaleUpdate::Delist => {
                sale.is_listed = false;
                sale.listing_price = None;
                sale.listed_at = None;
                sale.listing_type = ListingType::Unlisted;
                sale.auction_start_price = None;
                sale.auction_highest_bid = None;
                sale.auction_highest_bidder = None;
                sale.auction_bid_count = 0;
            },
            SaleUpdate::DelistPriceOnly => {
                sale.is_listed = false;
                sale.listing_price = None;
                sale.listed_at = None;
            },
            SaleUpdate::Sold { price_e8s, now_ns } => {
                sale.total_sales = sale.total_sales.saturating_add(1);
                sale.total_earned = sale.total_earned.saturating_add(price_e8s);
                sale.last_sale_price = Some(price_e8s);
                sale.last_sale_at = Some(now_ns);
                sale.is_listed = false;
                sale.listing_price = None;
                sale.listed_at = None;
                sale.listing_type = ListingType::Unlisted;
                sale.auction_start_price = None;
                sale.auction_highest_bid = None;
                sale.auction_highest_bidder = None;
                sale.auction_bid_count = 0;
            },
            SaleUpdate::Keep => {},
        }
        sale
    }
}

/// The standards the collection implements.
pub fn icrc7_supported_standards() -> (r: Vec<SupportedStandard>)
    ensures
        r@.len() == 2,
        r@[0].name@ == "ICRC-7"@,
        r@[0].url@ == "https://github.com/dfinity/ICRC/ICRCs/ICRC-7"@,
        r@[1].name@ == "ICRC-37"@,
        r@[1].url@ == "https://github.com/dfinity/ICRC/ICRCs/ICRC-37"@,
{
    let mut v: Vec<SupportedStandard> = Vec::new();
    v.push(SupportedStandard {
        name: String::from_str("ICRC-7"),
        url: String::from_str("https://github.com/dfinity/ICRC/ICRCs/ICRC-7"),
    });
    v.push(SupportedStandard {
        name: String::from_str("ICRC-37"),
        url: String::from_str("https://github.com/dfinity/ICRC/ICRCs/ICRC-37"),
    });
    v
}

impl Backend {
    /// The collection's administrator.
    pub fn get_admin(&self) -> (r: UserId)
        ensures
            r == self.nft.collection.admin,
    {
        self.nft.collection.admin.copy()
    }

    /// The collection's name.
    pub fn icrc7_name(&self) -> (r: String)
        ensures
            r == self.nft.collection.name,
    {
        self.nft.collection.name.clone()
    }

    /// The collection's symbol.
    pub fn icrc7_symbol(&self) -> (r: String)
        ensures
            r == self.nft.collection.symbol,
    {
        self.nft.collection.symbol.clone()
    }

    /// The number of tokens minted so far.
    pub fn icrc7_total_supply(&self) -> (r: u64)
        ensures
            r == self.nft.collection.total_supply,
    {
        self.nft.collection.total_supply
    }

    /// The owner of each token asked about, none for an unknown token.
    pub fn icrc7_owner_of(&self, token_ids: &Vec<u64>) -> (r: Vec<Option<UserId>>)
        requires
            self.wf(),
        ensures
            r@.len() == token_ids@.len(),
            forall|i: int|
                0 <= i < token_ids@.len() ==> #[trigger] r@[i] == if self.nft.tokens@.contains_key(
                    token_ids@[i],
                ) {
                    Some(self.nft.tokens@[token_ids@[i]].owner)
                } else {
                    None::<UserId>
                },
    {
        let mut out: Vec<Option<UserId>> = Vec::new();
        let mut i: usize = 0;
        while i < token_ids.len()
            invariant
                self.wf(),
                i <= token_ids@.len(),
                out@.len() == i,
                forall|j: int|
                    0 <= j < i ==> #[trigger] out@[j] == if self.nft.tokens@.contains_key(
                        token_ids@[j],
                    ) {
                        Some(self.nft.tokens@[token_ids@[j]].owner)
                    } else {
                        None::<UserId>
                    },
            decreases token_ids@.len() - i,
        {
            let o = match self.nft.tokens.get(token_ids[i]) {
                Some(rec) => Some(rec.owner.copy()),
                None => None,
            };
            out.push(o);
            i += 1;
        }
        out
    }

    /// The tokens an owner holds, in minting order.
    pub fn icrc7_tokens_of(&self, owner: &UserId) -> (r: Vec<u64>)
        requires
            self.wf(),
        ensures
            r@ == if self.nft.owner_index@.contains_key(owner@) {
                self.nft.owner_index@[owner@]@
            } else {
                Seq::<u64>::empty()
            },
    {
        match self.nft.owner_index.get(owner) {
            Some(list) => {
                let c = list.clone();
                assert(c@ =~= list@);
                c
            },
            None => Vec::new(),
        }
    }

    /// A token's record.
    pub fn get_token(&self, token_id: u64) -> (r: Option<&TokenRecord>)
        requires
            self.wf(),
        ensures
            match r {
                Some(t) => self.nft.tokens@.contains_key(token_id) && *t == self.nft.tokens@[token_id],
                None => !self.nft.tokens@.contains_key(token_id),
            },
    {
        self.nft.tokens.get(token_id)
    }

    /// The first token minted for a meme.
    pub fn get_token_by_meme_id(&self, meme_id: u64) -> (r: Option<u64>)
        requires
            self.wf(),
        ensures
            r == token_for_meme(self.nft.mint_index@, meme_id),
    {
        match self.nft.mint_index.get(meme_id) {
            Some(list) => {
                if list.len() > 0 {
                    Some(list[0])
                } else {
                    None
                }
            },
            None => None,
        }
    }

    /// Every token minted for a meme.
    pub fn get_tokens_by_meme_id(&self, meme_id: u64) -> (r: Vec<u64>)
        requires
            self.wf(),
        ensures
            r@ == tokens_for_meme(self.nft.mint_index@, meme_id),
    {
        match self.nft.mint_index.get(meme_id) {
            Some(list) => {
                let c = list.clone();
                assert(c@ =~= list@);
                c
            },
            None => Vec::new(),
        }
    }

    /// Whether a meme has been minted.
    pub fn is_meme_minted(&self, meme_id: u64) -> (r: bool)
        requires
            self.wf(),
        ensures
            r == token_for_meme(self.nft.mint_index@, meme_id).is_some(),
    {
        self.get_token_by_meme_id(meme_id).is_some()
    }

    /// A token's image: its stored bytes and its media type (or
    /// "application/octet-stream" when the token records none).
    pub fn get_nft_image(&self, token_id: u64) -> (r: Option<NftImage>)
        requires
            self.wf(),
        ensures
            match r {
                Some(img) => {
                    &&& self.nft.tokens@.contains_key(token_id)
                    &&& self.nft.stored_images@.contains_key(self.nft.tokens@[token_id].meme_id)
                    &&& img.image@ == self.nft.stored_images@[self.nft.tokens@[token_id].meme_id].0@
                    &&& img.mime_type@ == match self.nft.tokens@[token_id].mime_type {
                        Some(m) => m@,
                        None => "application/octet-stream"@,
                    }
                },
                None => !self.nft.tokens@.contains_key(token_id) || !self.nft.stored_images@.contains_key(
                    self.nft.tokens@[token_id].meme_id,
                ),
            },
    {
        let rec = match self.nft.tokens.get(token_id) {
            Some(rec) => rec,
            None => return None,
        };
        let mime = match &rec.mime_type {
            Some(m) => m.clone(),
            None => String::from_str("application/octet-stream"),
        };
        let blob = match self.nft.stored_images.get(rec.meme_id) {
            Some(b) => b,
            None => return None,
        };
        let image = blob.0.clone();
        assert(image@ =~= blob.0@);
        Some(NftImage { mime_type: mime, image })
    }

    /// A token's sale record.
    pub fn get_sale_metadata(&self, token_id: u64) -> (r: Option<TokenSaleMetadata>)
        requires
            self.wf(),
        ensures
            r == if self.nft.token_sales@.contains_key(token_id) {
                Some(self.nft.token_sales@[token_id])
            } else {
                None::<TokenSaleMetadata>
            },
    {
        match self.nft.token_sales.get(token_id) {
            Some(s) => Some(s.copy()),
            None => None,
        }
    }

    /// The sale record of a meme's first token.
    pub fn get_sale_metadata_for_meme(&self, meme_id: u64) -> (r: Option<TokenSaleMetadata>)
        requires
            self.wf(),
        ensures
            r == sale_for_meme(*self, meme_id),
    {
        match self.get_token_by_meme_id(meme_id) {
            Some(t) => self.get_sale_metadata(t),
            None => None,
        }
    }

    /// Every minted token, in token order.
    pub fn get_all_minted_tokens(&self) -> (r: Vec<&TokenRecord>)
        requires
            self.wf(),
        ensures
            r@.len() == self.nft.tokens.spec_len(),
            forall|i: int| 0 <= i < r@.len() ==> *#[trigger] r@[i] == self.nft.tokens.entries_seq()[i].1,
    {
        let n = self.nft.tokens.len();
        let mut out: Vec<&TokenRecord> = Vec::new();
        let mut i: usize = 0;
        while i < n
            invariant
                self.wf(),
                n == self.nft.tokens.spec_len(),
                i <= n,
                out@.len() == i,
                forall|j: int| 0 <= j < i ==> *#[trigger] out@[j] == self.nft.tokens.entries_seq()[j].1,
            decreases n - i,
        {
            let (_, rec) = self.nft.tokens.entry_at(i);
            out.push(rec);
            i += 1;
        }
        out
    }

    /// The tokens owned by `user`, in token order.
    pub fn get_my_minted_tokens(&self, user: &UserId) -> (r: Vec<&TokenRecord>)
        requires
            self.wf(),
        ensures
            r@ == owned_tokens(self.nft.tokens.entries_seq(), user@).map_values(|t: TokenRecord| &t),
    {
        let n = self.nft.tokens.len();
        let mut out: Vec<&TokenRecord> = Vec::new();
        let mut i: usize = 0;
        while i < n
            invariant
                self.wf(),
                n == self.nft.tokens.spec_len(),
                i <= n,
                out@ =~= owned_tokens(self.nft.tokens.entries_seq().take(i as int), user@).map_values(|t: TokenRecord| &t),
            decreases n - i,
        {
            let (_, rec) = self.nft.tokens.entry_at(i);
            proof {
                let s = self.nft.tokens.entries_seq();
                assert(s.take(i as int + 1).drop_last() =~= s.take(i as int));
            }
            if rec.owner.same(user) {
                out.push(rec);
            }
            i += 1;
        }
        assert(self.nft.tokens.entries_seq().take(n as int) =~= self.nft.tokens.entries_seq());
        out
    }

    /// Applies a change to a token's sale record (the stored one, or a fresh
    /// one, with the token and meme ids set), stores and returns the result.
    pub fn mutate_sale_metadata(&mut self, token_id: u64, meme_id: u64, update: SaleUpdate) -> (r:
        TokenSaleMetadata)
        requires
            old(self).wf(),
        ensures
            history_kept(*old(self), *final(self)),
            final(self).wf(),
            only_sales_changed(*old(self), *final(self)),
            r == applied(sale_base(old(self).nft.token_sales@, token_id, meme_id), update),
            final(self).nft.token_sales@ == old(self).nft.token_sales@.insert(token_id, r),
    {
        let mut record = match self.nft.token_sales.get(token_id) {
            Some(s) => s.copy(),
            None => TokenSaleMetadata::fresh(token_id, meme_id),
        };
        record.token_id = token_id;
        record.meme_id = meme_id;
        let updated = update.apply(record);
        let out = updated.copy();
        self.nft.token_sales.insert(token_id, updated);
        out
    }

    /// Hands out the next token id.
    pub fn next_token_id(&mut self) -> (r: u64)
        requires
            old(self).nft.collection.total_supply < u64::MAX,
        ensures
            history_kept(*old(self), *final(self)),
            r == old(self).nft.collection.total_supply,
            final(self).nft.collection == (crate::model::CollectionState {
                total_supply: (r + 1) as u64,
                ..old(self).nft.collection
            }),
            final(self).nft.tokens == old(self).nft.tokens,
            final(self).nft.owner_index == old(self).nft.owner_index,
            final(self).nft.mint_index == old(self).nft.mint_index,
            final(self).nft.stored_images == old(self).nft.stored_images,
            final(self).nft.token_sales == old(self).nft.token_sales,
            final(self).weeks == old(self).weeks,
            final(self).board == old(self).board,
            final(self).voting == old(self).voting,
            final(self).store == old(self).store,
    {
        let tid = self.nft.collection.total_supply;
        self.nft.collection.total_supply = tid + 1;
        tid
    }

    /// Appends a token to its owner's list.
    pub fn push_owner(&mut self, owner: &UserId, token_id: u64)
        requires
            old(self).wf(),
        ensures
            history_kept(*old(self), *final(self)),
            final(self).wf(),
            final(self).nft.owner_index@ == old(self).nft.owner_index@.insert(
                owner@,
                final(self).nft.owner_index@[owner@],
            ),
            final(self).nft.owner_index@[owner@]@ == owner_tokens(old(self).nft.owner_index@, owner@).push(token_id),
            final(self).nft.collection == old(self).nft.collection,
            final(self).nft.tokens == old(self).nft.tokens,
            final(self).nft.mint_index == old(self).nft.mint_index,
            final(self).nft.stored_images == old(self).nft.stored_images,
            final(self).nft.token_sales == old(self).nft.token_sales,
            final(self).weeks == old(self).weeks,
            final(self).board == old(self).board,
            final(self).voting == old(self).voting,
            final(self).store == old(self).store,
    {
        let mut list = self.icrc7_tokens_of(owner);
        list.push(token_id);
        self.nft.owner_index.insert(owner.copy(), list);
    }
}

/// The tokens an owner holds, none when the owner has no list.
pub open spec fn owner_tokens(index: Map<Seq<char>, Vec<u64>>, owner: Seq<char>) -> Seq<u64> {
    if index.contains_key(owner) { index[owner]@ } else { Seq::empty() }
}

/// The tokens of `user` among tokens walked in order.
pub open spec fn owned_tokens(s: Seq<(u64, TokenRecord)>, user: Seq<char>) -> Seq<TokenRecord>
    decreases s.len(),
{
    if s.len() == 0 {
        Seq::empty()
    } else if s.last().1.owner@ == user {
        owned_tokens(s.drop_last(), user).push(s.last().1)
    } else {
        owned_tokens(s.drop_last(), user)
    }
}

} // verus!
