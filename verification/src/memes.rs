//! Published memes: storage, per-user indices, market listing, sales, views
//! and the daily generation quota.

use vstd::prelude::*;
use crate::state::history_kept;
use crate::codec::{lemma_list_roundtrip, DayUsage, StorableVecU64, MAX_LEN};
use crate::ids::{anonymous_view, UserId};
use crate::model::{public_form, ListingStrategy, PublicStoredMeme, StoredMeme};
use crate::nft::{delisted, listed, only_sales_changed, sale_base, sale_for_meme, sold, token_for_meme, SaleUpdate};
use crate::ranking::{Ranked, RankKey, lemma_is_rank_sorted, rank_injective, rank_sorted, sort_by_rank, sorted_by_rank};
use crate::state::{Backend, week_ids};
use crate::model::MemeData;
use crate::voting::votes_without_meme;
use crate::rollover::rollover_outcome;
use crate::leaderboard::DEFAULT_TOP_N;
use crate::keyed::Key;

verus! {

/// The generation service.
pub const MEME_WORKER_URL: &'static str = "https://dark-shape-faac.h28177922.workers.dev/generate_meme";

/// Memes a user may generate per day.
pub const DAILY_GENERATION_LIMIT: u8 = 3;

/// Nanoseconds in a day.
pub const DAY_NS: u64 = 86_400_000_000_000;

/// The public form of a stored meme in a state.
pub open spec fn public_of(b: Backend, m: StoredMeme) -> PublicStoredMeme {
    public_form(m, sale_for_meme(b, m.id))
}

/// The ids kept for a user, none when the user has no list.
pub open spec fn user_list(b: Backend, user: Seq<char>) -> Seq<u64> {
    if b.store.user_memes@.contains_key(user) { b.store.user_memes@[user].0@ } else { Seq::empty() }
}

/// What the store keeps of a list of ids: its first `MAX_LEN` ids.
pub open spec fn kept_list(s: Seq<u64>) -> Seq<u64> {
    if s.len() <= MAX_LEN { s } else { s.take(MAX_LEN as int) }
}

/// The ids of a list other than `id`.
pub open spec fn without_id(s: Seq<u64>, id: u64) -> Seq<u64>
    decreases s.len(),
{
    if s.len() == 0 {
        Seq::empty()
    } else if s.last() == id {
        without_id(s.drop_last(), id)
    } else {
        without_id(s.drop_last(), id).push(s.last())
    }
}

/// A user's generation count on a day: the stored count for that day, else 0.
pub open spec fn usage_on(rate: Map<Seq<char>, DayUsage>, user: Seq<char>, day: u64) -> u8 {
    if rate.contains_key(user) && rate[user].day == day { rate[user].count } else { 0 }
}

/// Everything but the meme store is unchanged.
pub open spec fn only_store_changed(a: Backend, b: Backend) -> bool {
    &&& a.weeks == b.weeks
    &&& a.board == b.board
    &&& a.voting == b.voting
    &&& a.nft == b.nft
}

/// Stored memes walked in id order, newest (highest id) first, in public form.
pub open spec fn all_public(b: Backend) -> Seq<PublicStoredMeme> {
    b.store.memes.entries_seq().reverse().map_values(|e: (u64, StoredMeme)| public_of(b, e.1))
}

/// Whether a meme's first token is listed.
pub open spec fn is_listed_meme(b: Backend, meme_id: u64) -> bool {
    match sale_for_meme(b, meme_id) {
        Some(s) => s.is_listed,
        None => false,
    }
}

/// Listed memes among entries walked in order, in public form.
pub open spec fn listed_public(b: Backend, s: Seq<(u64, StoredMeme)>) -> Seq<PublicStoredMeme>
    decreases s.len(),
{
    if s.len() == 0 {
        Seq::empty()
    } else if is_listed_meme(b, s.last().1.id) {
        listed_public(b, s.drop_last()).push(public_of(b, s.last().1))
    } else {
        listed_public(b, s.drop_last())
    }
}

/// The stored memes among a list of ids, in public form.
pub open spec fn existing_public(b: Backend, ids: Seq<u64>) -> Seq<PublicStoredMeme>
    decreases ids.len(),
{
    if ids.len() == 0 {
        Seq::empty()
    } else if b.store.memes@.contains_key(ids.last()) {
        existing_public(b, ids.drop_last()).push(public_of(b, b.store.memes@[ids.last()]))
    } else {
        existing_public(b, ids.drop_last())
    }
}

/// The first stored meme (by id) that `user` published with the image `url`.
pub open spec fn first_published(s: Seq<(u64, StoredMeme)>, user: Seq<char>, url: Seq<char>) -> Option<(u64, StoredMeme)>
    decreases s.len(),
{
    if s.len() == 0 {
        None
    } else if first_published(s.drop_last(), user, url).is_some() {
        first_published(s.drop_last(), user, url)
    } else if s.last().1.owner@ == user && s.last().1.meme_data.image_url@ == url {
        Some(s.last())
    } else {
        None
    }
}

proof fn lemma_first_published_extend(s: Seq<(u64, StoredMeme)>, i: int, user: Seq<char>, url: Seq<char>)
    requires
        0 <= i < s.len(),
        first_published(s.take(i), user, url).is_none(),
    ensures
        s.take(i + 1).drop_last() == s.take(i),
        first_published(s.take(i + 1), user, url) == if s[i].1.owner@ == user && s[i].1.meme_data.image_url@ == url {
            Some(s[i])
        } else {
            None::<(u64, StoredMeme)>
        },
        first_published(s.take(i + 1), user, url).is_some() ==> first_published(s, user, url) == first_published(s.take(i + 1), user, url),
{
    assert(s.take(i + 1).drop_last() =~= s.take(i));
    lemma_first_published_prefix(s, i + 1, user, url);
}

proof fn lemma_first_published_prefix(s: Seq<(u64, StoredMeme)>, k: int, user: Seq<char>, url: Seq<char>)
    requires
        0 <= k <= s.len(),
    ensures
        first_published(s.take(k), user, url).is_some() ==> first_published(s, user, url) == first_published(s.take(k), user, url),
    decreases s.len() - k,
{
    if k < s.len() {
        lemma_first_published_prefix(s, k + 1, user, url);
        assert(s.take(k + 1).drop_last() =~= s.take(k));
    } else {
        assert(s.take(k) =~= s);
    }
}

/// Whether an entry is a meme `user` published with the image `url`.
pub open spec fn published_by(e: (u64, StoredMeme), user: Seq<char>, url: Seq<char>) -> bool {
    e.1.owner@ == user && e.1.meme_data.image_url@ == url
}

/// No meme is found exactly when no entry matches.
pub proof fn lemma_first_published_none(s: Seq<(u64, StoredMeme)>, user: Seq<char>, url: Seq<char>)
    ensures
        first_published(s, user, url).is_none() <==> forall|i: int|
            0 <= i < s.len() ==> !published_by(#[trigger] s[i], user, url),
    decreases s.len(),
{
    if s.len() > 0 {
        let p = s.drop_last();
        lemma_first_published_none(p, user, url);
        if first_published(s, user, url).is_none() {
            assert forall|i: int| 0 <= i < s.len() implies !published_by(#[trigger] s[i], user, url) by {
                if i < s.len() - 1 {
                    assert(p[i] == s[i]);
                }
            }
        } else {
            if first_published(p, user, url).is_some() {
                let i = choose|i: int| 0 <= i < p.len() && published_by(#[trigger] p[i], user, url);
                assert(s[i] == p[i]);
            } else {
                assert(published_by(s[s.len() - 1], user, url));
            }
        }
    }
}

/// The meme found is one of the entries, and matches.
pub proof fn lemma_first_published_member(s: Seq<(u64, StoredMeme)>, user: Seq<char>, url: Seq<char>)
    ensures
        first_published(s, user, url) matches Some(e) ==> published_by(e, user, url) && exists|i: int|
            0 <= i < s.len() && #[trigger] s[i] == e,
    decreases s.len(),
{
    if s.len() > 0 {
        let p = s.drop_last();
        lemma_first_published_member(p, user, url);
        if first_published(p, user, url) is Some {
            let e = first_published(p, user, url).unwrap();
            let i = choose|i: int| 0 <= i < p.len() && #[trigger] p[i] == e;
            assert(s[i] == p[i]);
        } else if first_published(s, user, url) is Some {
            assert(s[s.len() - 1] == s.last());
        }
    }
}

/// The only matching entry is the one found.
pub proof fn lemma_first_published_unique(s: Seq<(u64, StoredMeme)>, k: int, user: Seq<char>, url: Seq<char>)
    requires
        0 <= k < s.len(),
        published_by(s[k], user, url),
        forall|i: int| 0 <= i < s.len() && i != k ==> !published_by(#[trigger] s[i], user, url),
    ensures
        first_published(s, user, url) == Some(s[k]),
    decreases s.len(),
{
    let p = s.drop_last();
    if k == s.len() - 1 {
        assert forall|i: int| 0 <= i < p.len() implies !published_by(#[trigger] p[i], user, url) by {
            assert(p[i] == s[i]);
        }
        lemma_first_published_none(p, user, url);
    } else {
        assert forall|i: int| 0 <= i < p.len() && i != k implies !published_by(#[trigger] p[i], user, url) by {
            assert(p[i] == s[i]);
        }
        assert(p[k] == s[k]);
        lemma_first_published_unique(p, k, user, url);
    }
}

/// The state after a new meme is published by `user` at `now_ns` on top of `a`.
pub open spec fn published_state(a: Backend, b: Backend, user: Seq<char>, meme: MemeData, now_ns: u64, r: Result<PublicStoredMeme, String>) -> bool {
    let id = a.store.meme_counter.saturating_add(1);
    let stored = StoredMeme {
        id,
        owner: b.store.memes@[id].owner,
        meme_data: meme,
        created_at: now_ns,
        canister_timestamp: now_ns,
        views: 0,
        finalized: false,
        week_ended: false,
        finalized_at: None,
    };
    &&& b.store.meme_counter == id
    &&& b.store.memes@ == a.store.memes@.insert(id, stored)
    &&& stored.owner@ == user
    &&& b.store.user_memes@ == a.store.user_memes@.insert(user, b.store.user_memes@[user])
    &&& b.store.user_memes@[user].0@ == kept_list(user_list(a, user).push(id))
    &&& b.store.unique_users@ == a.store.unique_users@.insert(user, true)
    &&& b.store.rate == a.store.rate
    &&& week_ids(b.weeks.week_index@, a.weeks.active_week_id) == week_ids(a.weeks.week_index@, a.weeks.active_week_id).push(id)
    &&& forall|w: u64| w != a.weeks.active_week_id ==> week_ids(b.weeks.week_index@, w) == week_ids(a.weeks.week_index@, w)
    &&& b.weeks.active_week_id == a.weeks.active_week_id
    &&& b.weeks.week_offset == a.weeks.week_offset
    &&& b.board == a.board
    &&& b.voting == a.voting
    &&& b.nft == a.nft
    &&& r == Ok::<PublicStoredMeme, String>(public_of(b, stored))
}

/// What publishing `meme` for `user` at `now_ns` does to `a`, giving `b` and `r`:
/// the anonymous user is refused, an image the user already published gives
/// back that meme, and otherwise the weekly rollover is checked first and the
/// meme is then stored under a fresh id.
pub open spec fn publish_outcome(a: Backend, b: Backend, user: Seq<char>, meme: MemeData, now_ns: u64, r: Result<PublicStoredMeme, String>) -> bool {
    let found = first_published(a.store.memes.entries_seq(), user, meme.image_url@);
    let now_secs = now_ns / crate::weeks::NANOS_PER_SECOND;
    if user == anonymous_view() {
        r matches Err(e) && e@ == "Authentication required"@ && b == a
    } else if found.is_some() {
        &&& r == Ok::<PublicStoredMeme, String>(public_of(a, found.unwrap().1))
        &&& b == a
    } else {
        exists|mid: Backend| #![trigger rollover_outcome(a, mid, DEFAULT_TOP_N, now_secs, None::<u64>)]
            (rollover_outcome(a, mid, DEFAULT_TOP_N, now_secs, None::<u64>)
            || rollover_outcome(a, mid, DEFAULT_TOP_N, now_secs, Some(a.weeks.active_week_id)))
            && published_state(mid, b, user, meme, now_ns, r)
    }
}

/// Removing an id never lengthens a list.
pub proof fn lemma_without_id_len(s: Seq<u64>, id: u64)
    ensures
        without_id(s, id).len() <= s.len(),
    decreases s.len(),
{
    if s.len() > 0 {
        lemma_without_id_len(s.drop_last(), id);
    }
}

/// Meme ids rank from the highest down.
impl Ranked for u64 {
    open spec fn rank(&self) -> RankKey {
        ((u64::MAX - *self) as u64, 0, 0, 0)
    }

    fn rank_key(&self) -> (r: RankKey) {
        (u64::MAX - *self, 0, 0, 0)
    }
}

/// Keeps a list as the store does: writes it in the stored byte layout and
/// reads it back.
pub fn store_form(list: Vec<u64>) -> (r: StorableVecU64)
    ensures
        r.0@ == kept_list(list@),
{
    let bytes = StorableVecU64::new(list).to_bytes();
    let r = StorableVecU64::from_bytes(bytes.as_slice());
    proof {
        lemma_list_roundtrip(list@);
        if list@.len() <= MAX_LEN {
            assert(kept_list(list@) == list@);
        }
    }
    r
}

/// The ids of a list other than `id`, in order.
pub fn retain_other_ids(ids: &Vec<u64>, id: u64) -> (r: Vec<u64>)
    ensures
        r@ == without_id(ids@, id),
{
    let mut out: Vec<u64> = Vec::new();
    let mut i: usize = 0;
    while i < ids.len()
        invariant
            i <= ids@.len(),
            out@ == without_id(ids@.take(i as int), id),
        decreases ids@.len() - i,
    {
        proof {
            assert(ids@.take(i as int + 1).drop_last() =~= ids@.take(i as int));
        }
        if ids[i] != id {
            out.push(ids[i]);
        }
        i += 1;
    }
    assert(ids@.take(i as int) =~= ids@);
    out
}

/// The day (in whole days since the epoch) of a time in nanoseconds.
pub fn generation_day(now_ns: u64) -> (r: u64)
    ensures
        r == now_ns / DAY_NS,
{
    now_ns / DAY_NS
}

/// The text of the service's health report.
pub fn health() -> (r: String)
    ensures
        r@ == "Meme Worker: "@ + MEME_WORKER_URL@ + " - Status: Operational"@,
{
    let mut s = String::from_str("Meme Worker: ");
    s.append(MEME_WORKER_URL);
    s.append(" - Status: Operational");
    s
}

impl Backend {
    /// The public form of a stored meme: its fields and the sale record of
    /// its first token.
    pub fn public_meme(&self, m: &StoredMeme) -> (r: PublicStoredMeme)
        requires
            self.wf(),
        ensures
            r == public_of(*self, *m),
    {
        let sale = self.get_sale_metadata_for_meme(m.id);
        PublicStoredMeme {
            id: m.id,
            owner: m.owner.copy(),
            meme_data: m.meme_data.copy(),
            created_at: m.created_at,
            canister_timestamp: m.canister_timestamp,
            views: m.views,
            sale_metadata: sale,
            finalized: m.finalized,
            week_ended: m.week_ended,
            finalized_at: m.finalized_at,
        }
    }

    /// A stored meme in public form.
    pub fn get_meme(&self, meme_id: u64) -> (r: Option<PublicStoredMeme>)
        requires
            self.wf(),
        ensures
            r == if self.store.memes@.contains_key(meme_id) {
                Some(public_of(*self, self.store.memes@[meme_id]))
            } else {
                None::<PublicStoredMeme>
            },
    {
        match self.store.memes.get(meme_id) {
            Some(m) => Some(self.public_meme(m)),
            None => None,
        }
    }

    /// Hands out the next meme id (saturating at `u64::MAX`).
    pub fn next_meme_id(&mut self) -> (r: u64)
        ensures
            history_kept(*old(self), *final(self)),
            r == old(self).store.meme_counter.saturating_add(1),
            final(self).store.meme_counter == r,
            final(self).store.memes == old(self).store.memes,
            final(self).store.user_memes == old(self).store.user_memes,
            final(self).store.unique_users == old(self).store.unique_users,
            final(self).store.rate == old(self).store.rate,
            only_store_changed(*old(self), *final(self)),
    {
        let next = self.store.meme_counter.saturating_add(1);
        self.store.meme_counter = next;
        next
    }

    /// Reserves a meme id.
    pub fn reserve_meme_id(&mut self) -> (r: u64)
        ensures
            history_kept(*old(self), *final(self)),
            r == old(self).store.meme_counter.saturating_add(1),
            final(self).store.meme_counter == r,
            final(self).store.memes == old(self).store.memes,
            final(self).store.user_memes == old(self).store.user_memes,
            final(self).store.unique_users == old(self).store.unique_users,
            final(self).store.rate == old(self).store.rate,
            only_store_changed(*old(self), *final(self)),
    {
        self.next_meme_id()
    }

    /// The owner of a stored meme, checked against the caller: the common
    /// prelude of the market operations.
    fn owned_meme_check(&self, user: &UserId, meme_id: u64) -> (r: Result<(), String>)
        requires
            self.wf(),
        ensures
            user@ == anonymous_view() ==> (r matches Err(e) && e@ == "Authentication required"@),
            user@ != anonymous_view() && !self.store.memes@.contains_key(meme_id) ==> (r matches Err(e)
                && e@ == "Meme not found"@),
            user@ != anonymous_view() && self.store.memes@.contains_key(meme_id)
                && self.store.memes@[meme_id].owner@ != user@ ==> (r matches Err(e)
                && e@ == "You don't own this meme"@),
            user@ != anonymous_view() && self.store.memes@.contains_key(meme_id)
                && self.store.memes@[meme_id].owner@ == user@ ==> r is Ok,
    {
        if user.is_anonymous() {
            return Err(String::from_str("Authentication required"));
        }
        match self.store.memes.get(meme_id) {
            None => Err(String::from_str("Meme not found")),
            Some(m) => {
                if !m.owner.same(user) {
                    Err(String::from_str("You don't own this meme"))
                } else {
                    Ok(())
                }
            },
        }
    }

    /// Lists a minted meme for sale, by its owner.
    pub fn list_meme_for_sale(&mut self, user: &UserId, meme_id: u64, strategy: ListingStrategy, now_ns: u64) -> (r:
        Result<(), String>)
        requires
            old(self).wf(),
        ensures
            history_kept(*old(self), *final(self)),
            final(self).wf(),
            only_sales_changed(*old(self), *final(self)),
            ({
                let b = *old(self);
                let price = match strategy {
                    ListingStrategy::FixedPrice { price_e8s } => price_e8s,
                    ListingStrategy::Auction { start_price_e8s } => start_price_e8s,
                };
                if user@ == anonymous_view() {
                    r matches Err(e) && e@ == "Authentication required"@ && *final(self) == b
                } else if !b.store.memes@.contains_key(meme_id) {
                    r matches Err(e) && e@ == "Meme not found"@ && *final(self) == b
                } else if b.store.memes@[meme_id].owner@ != user@ {
                    r matches Err(e) && e@ == "You don't own this meme"@ && *final(self) == b
                } else if token_for_meme(b.nft.mint_index@, meme_id).is_none() {
                    r matches Err(e) && e@ == "Meme has not been minted as an NFT yet"@ && *final(self) == b
                } else if price == 0 {
                    &&& r matches Err(e) && e@ == (if strategy is FixedPrice {
                        "Listing price must be greater than zero"@
                    } else {
                        "Starting bid must be greater than zero"@
                    })
                    &&& *final(self) == b
                } else {
                    let t = token_for_meme(b.nft.mint_index@, meme_id).unwrap();
                    &&& r is Ok
                    &&& final(self).nft.token_sales@ == b.nft.token_sales@.insert(
                        t,
                        listed(sale_base(b.nft.token_sales@, t, meme_id), strategy, now_ns),
                    )
                }
            }),
    {
        match self.owned_meme_check(user, meme_id) {
            Err(e) => return Err(e),
            Ok(()) => {},
        }
        let token_id = match self.get_token_by_meme_id(meme_id) {
            Some(t) => t,
            None => return Err(String::from_str("Meme has not been minted as an NFT yet")),
        };
        match strategy {
            ListingStrategy::FixedPrice { price_e8s } => {
                if price_e8s == 0 {
                    return Err(String::from_str("Listing price must be greater than zero"));
                }
            },
            ListingStrategy::Auction { start_price_e8s } => {
                if start_price_e8s == 0 {
                    return Err(String::from_str("Starting bid must be greater than zero"));
                }
            },
        }
        self.mutate_sale_metadata(
            token_id,
            meme_id,
            SaleUpdate::List { strategy, now_ns },
        );
        Ok(())
    }

    /// Takes a minted meme off the market, by its owner.
    pub fn remove_meme_from_market(&mut self, user: &UserId, meme_id: u64) -> (r: Result<(), String>)
        requires
            old(self).wf(),
        ensures
            history_kept(*old(self), *final(self)),
            final(self).wf(),
            only_sales_changed(*old(self), *final(self)),
            ({
                let b = *old(self);
                if user@ == anonymous_view() {
                    r matches Err(e) && e@ == "Authentication required"@ && *final(self) == b
                } else if !b.store.memes@.contains_key(meme_id) {
                    r matches Err(e) && e@ == "Meme not found"@ && *final(self) == b
                } else if b.store.memes@[meme_id].owner@ != user@ {
                    r matches Err(e) && e@ == "You don't own this meme"@ && *final(self) == b
                } else if token_for_meme(b.nft.mint_index@, meme_id).is_none() {
                    r matches Err(e) && e@ == "Meme has not been minted as an NFT yet"@ && *final(self) == b
                } else {
                    let t = token_for_meme(b.nft.mint_index@, meme_id).unwrap();
                    &&& r is Ok
                    &&& final(self).nft.token_sales@ == b.nft.token_sales@.insert(
                        t,
                        delisted(sale_base(b.nft.token_sales@, t, meme_id)),
                    )
                }
            }),
    {
        match self.owned_meme_check(user, meme_id) {
            Err(e) => return Err(e),
            Ok(()) => {},
        }
        match self.get_token_by_meme_id(meme_id) {
            Some(token_id) => {
                self.mutate_sale_metadata(
                    token_id,
                    meme_id,
                    SaleUpdate::Delist,
                );
                Ok(())
            },
            None => Err(String::from_str("Meme has not been minted as an NFT yet")),
        }
    }

    /// Records a sale of a minted meme at `sale_price_e8s`, taking it off the market.
    pub fn record_meme_sale(&mut self, meme_id: u64, sale_price_e8s: u64, now_ns: u64) -> (r: Result<(), String>)
        requires
            old(self).wf(),
        ensures
            history_kept(*old(self), *final(self)),
            final(self).wf(),
            only_sales_changed(*old(self), *final(self)),
            ({
                let b = *old(self);
                if !b.store.memes@.contains_key(meme_id) {
                    r matches Err(e) && e@ == "Meme not found"@ && *final(self) == b
                } else if token_for_meme(b.nft.mint_index@, meme_id).is_none() {
                    r matches Err(e) && e@ == "Meme has not been minted as an NFT yet"@ && *final(self) == b
                } else {
                    let t = token_for_meme(b.nft.mint_index@, meme_id).unwrap();
                    &&& r is Ok
                    &&& final(self).nft.token_sales@ == b.nft.token_sales@.insert(
                        t,
                        sold(sale_base(b.nft.token_sales@, t, meme_id), sale_price_e8s, now_ns),
                    )
                }
            }),
    {
        if !self.store.memes.contains_key(meme_id) {
            return Err(String::from_str("Meme not found"));
        }
        match self.get_token_by_meme_id(meme_id) {
            Some(token_id) => {
                self.mutate_sale_metadata(
                    token_id,
                    meme_id,
                    SaleUpdate::Sold { price_e8s: sale_price_e8s, now_ns },
                );
                Ok(())
            },
            None => Err(String::from_str("Meme has not been minted as an NFT yet")),
        }
    }

    /// Counts one more view of a meme (saturating).
    pub fn increment_meme_views(&mut self, meme_id: u64) -> (r: Result<(), String>)
        requires
            old(self).wf(),
        ensures
            history_kept(*old(self), *final(self)),
            final(self).wf(),
            only_store_changed(*old(self), *final(self)),
            final(self).store.user_memes == old(self).store.user_memes,
            final(self).store.meme_counter == old(self).store.meme_counter,
            final(self).store.unique_users == old(self).store.unique_users,
            final(self).store.rate == old(self).store.rate,
            ({
                let m = old(self).store.memes@;
                if m.contains_key(meme_id) {
                    &&& r is Ok
                    &&& final(self).store.memes@ == m.insert(
                        meme_id,
                        StoredMeme { views: m[meme_id].views.saturating_add(1), ..m[meme_id] },
                    )
                } else {
                    &&& r matches Err(e) && e@ == "Meme not found"@
                    &&& final(self).store.memes@ == m
                }
            }),
    {
        let updated = match self.store.memes.get(meme_id) {
            Some(m) => {
                let mut c = m.copy();
                c.views = c.views.saturating_add(1);
                c
            },
            None => return Err(String::from_str("Meme not found")),
        };
        self.store.memes.insert(meme_id, updated);
        Ok(())
    }

    /// Every stored meme in public form, newest (highest id) first.
    pub fn get_all_memes(&self) -> (r: Vec<PublicStoredMeme>)
        requires
            self.wf(),
        ensures
            r@ == all_public(*self),
    {
        let n = self.store.memes.len();
        let mut out: Vec<PublicStoredMeme> = Vec::new();
        let mut i: usize = 0;
        while i < n
            invariant
                self.wf(),
                n == self.store.memes.spec_len(),
                i <= n,
                out@ =~= all_public(*self).subrange(0, i as int),
            decreases n - i,
        {
            let (_, m) = self.store.memes.entry_at(n - 1 - i);
            let pm = self.public_meme(m);
            out.push(pm);
            i += 1;
        }
        out
    }

    /// The memes whose first token is listed, in public form, newest first.
    pub fn get_marketplace_memes(&self) -> (r: Vec<PublicStoredMeme>)
        requires
            self.wf(),
        ensures
            r@ == listed_public(*self, self.store.memes.entries_seq().reverse()),
    {
        let n = self.store.memes.len();
        let ghost rev = self.store.memes.entries_seq().reverse();
        let mut out: Vec<PublicStoredMeme> = Vec::new();
        let mut i: usize = 0;
        while i < n
            invariant
                self.wf(),
                n == self.store.memes.spec_len(),
                rev == self.store.memes.entries_seq().reverse(),
                i <= n,
                out@ == listed_public(*self, rev.take(i as int)),
            decreases n - i,
        {
            let (_, m) = self.store.memes.entry_at(n - 1 - i);
            proof {
                assert(rev.take(i as int + 1).drop_last() =~= rev.take(i as int));
                assert(rev[i as int] == self.store.memes.entries_seq()[n - 1 - i]);
            }
            let listed = match self.get_sale_metadata_for_meme(m.id) {
                Some(s) => s.is_listed,
                None => false,
            };
            if listed {
                out.push(self.public_meme(m));
            }
            i += 1;
        }
        assert(rev.take(n as int) =~= rev);
        out
    }

    /// Whether a user may generate another meme on `day`.
    pub fn generation_allowed(&self, user: &UserId, day: u64) -> (r: bool)
        requires
            self.wf(),
        ensures
            r == (usage_on(self.store.rate@, user@, day) < DAILY_GENERATION_LIMIT),
    {
        match self.store.rate.get(user) {
            Some(u) => {
                if u.day == day {
                    u.count < DAILY_GENERATION_LIMIT
                } else {
                    true
                }
            },
            None => true,
        }
    }

    /// Counts one more generation by a user on `day` (the counter of an
    /// earlier day restarts at 1).
    pub fn record_generation(&mut self, user: &UserId, day: u64)
        requires
            old(self).wf(),
        ensures
            history_kept(*old(self), *final(self)),
            final(self).wf(),
            only_store_changed(*old(self), *final(self)),
            final(self).store.memes == old(self).store.memes,
            final(self).store.user_memes == old(self).store.user_memes,
            final(self).store.meme_counter == old(self).store.meme_counter,
            final(self).store.unique_users == old(self).store.unique_users,
            final(self).store.rate@ == old(self).store.rate@.insert(
                user@,
                DayUsage { day, count: usage_on(old(self).store.rate@, user@, day).wrapping_add(1) },
            ),
    {
        let count = match self.store.rate.get(user) {
            Some(u) => {
                if u.day == day {
                    u.count.wrapping_add(1)
                } else {
                    1
                }
            },
            None => 1,
        };
        self.store.rate.insert(user.copy(), DayUsage { day, count });
    }

    /// Generations a user has left on the day of `now_ns`.
    pub fn check_remaining_calls(&self, user: &UserId, now_ns: u64) -> (r: u8)
        requires
            self.wf(),
        ensures
            ({
                let used = usage_on(self.store.rate@, user@, now_ns / DAY_NS);
                r == if used >= DAILY_GENERATION_LIMIT { 0 } else { (DAILY_GENERATION_LIMIT - used) as u8 }
            }),
    {
        let day = generation_day(now_ns);
        match self.store.rate.get(user) {
            Some(u) => {
                if u.day == day {
                    if u.count >= DAILY_GENERATION_LIMIT {
                        0
                    } else {
                        DAILY_GENERATION_LIMIT - u.count
                    }
                } else {
                    DAILY_GENERATION_LIMIT
                }
            },
            None => DAILY_GENERATION_LIMIT,
        }
    }

    /// A user's stored memes in public form, highest id first.
    pub fn get_user_memes(&self, user: &UserId) -> (r: Vec<PublicStoredMeme>)
        requires
            self.wf(),
        ensures
            r@ == existing_public(*self, rank_sorted(user_list(*self, user@))),
            sorted_by_rank(rank_sorted(user_list(*self, user@))),
    {
        let list = match self.store.user_memes.get(user) {
            Some(l) => {
                let c = l.0.clone();
                assert(c@ =~= l.0@);
                c
            },
            None => Vec::new(),
        };
        let sorted = sort_by_rank(list);
        proof {
            assert(rank_injective(sorted@)) by {
                assert forall|i: int, j: int|
                    0 <= i < sorted@.len() && 0 <= j < sorted@.len() && #[trigger] sorted@[i].rank()
                        == #[trigger] sorted@[j].rank() implies sorted@[i] == sorted@[j] by {}
            }
            lemma_is_rank_sorted(sorted@, list@);
        }
        let mut out: Vec<PublicStoredMeme> = Vec::new();
        let mut i: usize = 0;
        while i < sorted.len()
            invariant
                self.wf(),
                i <= sorted@.len(),
                out@ == existing_public(*self, sorted@.take(i as int)),
            decreases sorted@.len() - i,
        {
            let id = sorted[i];
            proof {
                assert(sorted@.take(i as int + 1).drop_last() =~= sorted@.take(i as int));
            }
            match self.store.memes.get(id) {
                Some(m) => {
                    out.push(self.public_meme(m));
                },
                None => {},
            }
            i += 1;
        }
        assert(sorted@.take(i as int) =~= sorted@);
        out
    }

    /// Deletes a meme that its owner has not minted, with its tallies and
    /// votes, and drops it from the owner's list.
    pub fn delete_meme(&mut self, user: &UserId, meme_id: u64) -> (r: Result<(), String>)
        requires
            old(self).wf(),
        ensures
            history_kept(*old(self), *final(self)),
            final(self).wf(),
            ({
                let b = *old(self);
                if user@ == anonymous_view() {
                    r matches Err(e) && e@ == "Authentication required"@ && *final(self) == b
                } else if !b.store.memes@.contains_key(meme_id) {
                    r matches Err(e) && e@ == "Meme not found"@ && *final(self) == b
                } else if b.store.memes@[meme_id].owner@ != user@ {
                    r matches Err(e) && e@ == "You don't own this meme"@ && *final(self) == b
                } else if token_for_meme(b.nft.mint_index@, meme_id).is_some() {
                    r matches Err(e) && e@ == "Cannot delete a meme that has been minted as NFT"@ && *final(self) == b
                } else {
                    &&& r is Ok
                    &&& final(self).store.memes@ == b.store.memes@.remove(meme_id)
                    &&& if b.store.user_memes@.contains_key(user@) {
                        &&& final(self).store.user_memes@ == b.store.user_memes@.insert(
                            user@,
                            final(self).store.user_memes@[user@],
                        )
                        &&& final(self).store.user_memes@[user@].0@ == without_id(user_list(b, user@), meme_id)
                    } else {
                        final(self).store.user_memes == b.store.user_memes
                    }
                    &&& final(self).voting.votes@ == b.voting.votes@.remove(meme_id)
                    &&& final(self).voting.user_votes@ == votes_without_meme(b.voting.user_votes@, meme_id)
                    &&& final(self).voting.periods == b.voting.periods
                    &&& final(self).voting.powers == b.voting.powers
                    &&& final(self).store.meme_counter == b.store.meme_counter
                    &&& final(self).store.unique_users == b.store.unique_users
                    &&& final(self).store.rate == b.store.rate
                    &&& final(self).weeks == b.weeks
                    &&& final(self).board == b.board
                    &&& final(self).nft == b.nft
                }
            }),
    {
        match self.owned_meme_check(user, meme_id) {
            Err(e) => return Err(e),
            Ok(()) => {},
        }
        if self.is_meme_minted(meme_id) {
            return Err(String::from_str("Cannot delete a meme that has been minted as NFT"));
        }
        self.store.memes.remove(meme_id);
        let kept = match self.store.user_memes.get(user) {
            Some(list) => {
                let ids = retain_other_ids(&list.0, meme_id);
                proof {
                    lemma_without_id_len(list.0@, meme_id);
                }
                Some(store_form(ids))
            },
            None => None,
        };
        match kept {
            Some(k) => {
                self.store.user_memes.insert(user.copy(), k);
            },
            None => {},
        }
        let _ = self.delete_meme_data(meme_id);
        Ok(())
    }

    /// The first stored meme (by id) of `user` with the given image.
    pub fn find_published(&self, user: &UserId, image_url: &String) -> (r: Option<&StoredMeme>)
        requires
            self.wf(),
        ensures
            r.is_some() == first_published(self.store.memes.entries_seq(), user@, image_url@).is_some(),
            r matches Some(m) ==> *m == first_published(self.store.memes.entries_seq(), user@, image_url@).unwrap().1,
    {
        let n = self.store.memes.len();
        let mut i: usize = 0;
        while i < n
            invariant
                self.wf(),
                n == self.store.memes.spec_len(),
                i <= n,
                first_published(self.store.memes.entries_seq().take(i as int), user@, image_url@).is_none(),
            decreases n - i,
        {
            let (_, m) = self.store.memes.entry_at(i);
            proof {
                lemma_first_published_extend(self.store.memes.entries_seq(), i as int, user@, image_url@);
            }
            if m.owner.same(user) && m.meme_data.image_url == *image_url {
                return Some(m);
            }
            i += 1;
        }
        assert(self.store.memes.entries_seq().take(n as int) =~= self.store.memes.entries_seq());
        None
    }

    /// Publishes a generated meme for `user` at `now_ns`: an image the user
    /// already published gives back that meme unchanged; otherwise the week
    /// rollover is checked, a new id is reserved and the meme is stored,
    /// added to the user's list and the active week, and the user counted.
    pub fn publish_meme_as(&mut self, user: &UserId, meme: MemeData, now_ns: u64) -> (r: Result<PublicStoredMeme, String>)
        requires
            old(self).wf(),
        ensures
            history_kept(*old(self), *final(self)),
            final(self).wf(),
            publish_outcome(*old(self), *final(self), user@, meme, now_ns, r),
    {
        if user.is_anonymous() {
            return Err(String::from_str("Authentication required"));
        }
        match self.find_published(user, &meme.image_url) {
            Some(existing) => {
                let pm = self.public_meme(existing);
                return Ok(pm);
            },
            None => {},
        }
        let ghost b0 = *self;
        let rolled = self.maybe_perform_rollover_at(DEFAULT_TOP_N, now_ns / crate::weeks::NANOS_PER_SECOND);
        let ghost mid = *self;
        let id = self.reserve_meme_id();
        let stored = StoredMeme {
            id,
            owner: user.copy(),
            meme_data: meme,
            created_at: now_ns,
            canister_timestamp: now_ns,
            views: 0,
            finalized: false,
            week_ended: false,
            finalized_at: None,
        };
        let copy = stored.copy();
        self.store.memes.insert(id, stored);
        let mut list = match self.store.user_memes.get(user) {
            Some(l) => {
                let c = l.0.clone();
                assert(c@ =~= l.0@);
                c
            },
            None => Vec::new(),
        };
        list.push(id);
        self.store.user_memes.insert(user.copy(), store_form(list));
        self.store.unique_users.insert(user.copy(), true);
        let week = self.weeks.active_week_id;
        self.register_week_meme(week, id);
        let pm = self.public_meme(&copy);
        proof {
            if rolled.is_none() {
                assert(rollover_outcome(b0, mid, DEFAULT_TOP_N, now_ns / crate::weeks::NANOS_PER_SECOND, None::<u64>));
            } else {
                assert(rollover_outcome(b0, mid, DEFAULT_TOP_N, now_ns / crate::weeks::NANOS_PER_SECOND, Some(b0.weeks.active_week_id)));
            }
        }
        Ok(pm)
    }

    /// Publishes a generated meme for the caller, now.
    pub fn publish_meme(&mut self, meme: MemeData) -> (r: Result<PublicStoredMeme, String>)
        requires
            old(self).wf(),
        ensures
            history_kept(*old(self), *final(self)),
            final(self).wf(),
            exists|user: UserId, now_ns: u64| publish_outcome(*old(self), *final(self), user@, meme, now_ns, r),
    {
        let user = crate::ids::caller();
        let now_ns = crate::weeks::host_time_ns();
        self.publish_meme_as(&user, meme, now_ns)
    }

    /// The number of meme ids handed out.
    pub fn get_total_memes(&self) -> (r: u64)
        ensures
            r == self.store.meme_counter,
    {
        self.store.meme_counter
    }

    /// The number of ids kept for a user.
    pub fn get_user_meme_count(&self, user: &UserId) -> (r: u32)
        requires
            self.wf(),
        ensures
            r == user_list(*self, user@).len() as u32,
    {
        match self.store.user_memes.get(user) {
            Some(l) => l.0.len() as u32,
            None => 0,
        }
    }

    /// The number of users who published a meme.
    pub fn get_total_users(&self) -> (r: u64)
        requires
            self.wf(),
        ensures
            r == self.store.unique_users@.len(),
    {
        self.store.unique_users.len() as u64
    }

    /// Clears the meme store: every meme, the per-user meme lists, the users,
    /// the generation counters and the id counter; administrator only.
    /// Returns how many user lists were removed.
    pub fn clear_all_memes(&mut self, user: &UserId) -> (r: Result<u32, String>)
        requires
            old(self).wf(),
            old(self).store.user_memes@.len() <= u32::MAX,
        ensures
            history_kept(*old(self), *final(self)),
            final(self).wf(),
            only_store_changed(*old(self), *final(self)),
            if user@ == anonymous_view() {
                r matches Err(e) && e@ == "Authentication required"@ && *final(self) == *old(self)
            } else if user@ != old(self).nft.collection.admin@ {
                r matches Err(e) && e@ == "Admin access required"@ && *final(self) == *old(self)
            } else {
                &&& r == Ok::<u32, String>(old(self).store.user_memes@.len() as u32)
                &&& final(self).store.memes@ == Map::<u64, StoredMeme>::empty()
                &&& final(self).store.user_memes@ == Map::<Seq<char>, StorableVecU64>::empty()
                &&& final(self).store.unique_users@ == Map::<Seq<char>, bool>::empty()
                &&& final(self).store.rate@ == Map::<Seq<char>, DayUsage>::empty()
                &&& final(self).store.meme_counter == 0
            },
    {
        if user.is_anonymous() {
            return Err(String::from_str("Authentication required"));
        }
        if !user.same(&self.nft.collection.admin) {
            return Err(String::from_str("Admin access required"));
        }
        let cleared = self.store.user_memes.len() as u32;
        self.store.memes.clear();
        self.store.user_memes.clear();
        self.store.unique_users.clear();
        self.store.rate.clear();
        self.store.meme_counter = 0;
        Ok(cleared)
    }
}

} // verus!
