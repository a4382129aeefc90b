//! The canister's whole state, grouped by concern, and the week bookkeeping
//! shared by the other modules.

use vstd::prelude::*;
use crate::codec::{DayUsage, StorableVecU64};
use crate::ids::{anonymous_user, anonymous_view, UserId, UserMemeKey};
use crate::keyed::{KeyedList, SortedMap};
use crate::model::{CollectionState, ImageBlob, MemeVotes, StoredMeme, TokenRecord, TokenSaleMetadata, UserPower, VoteRecord, WeeklyLeaderboard, WeeklyPeriod};
use crate::weeks::{compute_week_id, now_secs, week_of};

verus! {

/// The active week, the clock offset and which memes belong to which week.
pub struct WeekState {
    pub active_week_id: u64,
    pub week_offset: i64,
    /// Meme ids of each week, in the order they were registered.
    pub week_index: SortedMap<Vec<u64>>,
}

/// Live vote counts of the active week and the leaderboards of finished weeks.
pub struct BoardState {
    /// Live upvote count per meme; a meme with no votes has no entry.
    pub live_votes: SortedMap<u64>,
    pub finalized: SortedMap<WeeklyLeaderboard>,
}

/// Vote tallies, individual votes, voting weeks and weekly voting power.
pub struct VotingState {
    pub votes: SortedMap<MemeVotes>,
    pub user_votes: KeyedList<UserMemeKey, VoteRecord>,
    pub periods: SortedMap<WeeklyPeriod>,
    pub powers: KeyedList<UserId, UserPower>,
    /// Every upvote ever cast (saturating); removals and cleanups leave it.
    pub lifetime_upvotes: u64,
}

/// Published memes and their per-user indices.
pub struct MemeStore {
    pub memes: SortedMap<StoredMeme>,
    pub user_memes: KeyedList<UserId, StorableVecU64>,
    /// The last meme id handed out; 0 before the first.
    pub meme_counter: u64,
    pub unique_users: KeyedList<UserId, bool>,
    /// Generation counts per user and day.
    pub rate: KeyedList<UserId, DayUsage>,
}

/// The NFT collection.
pub struct NftState {
    pub collection: CollectionState,
    pub tokens: SortedMap<TokenRecord>,
    pub owner_index: KeyedList<UserId, Vec<u64>>,
    pub mint_index: SortedMap<Vec<u64>>,
    pub stored_images: SortedMap<ImageBlob>,
    pub token_sales: SortedMap<TokenSaleMetadata>,
}

/// The canister state.
pub struct Backend {
    pub weeks: WeekState,
    pub board: BoardState,
    pub voting: VotingState,
    pub store: MemeStore,
    pub nft: NftState,
}

impl WeekState {
    pub open spec fn wf(&self) -> bool {
        self.week_index.wf()
    }
}

impl BoardState {
    pub open spec fn wf(&self) -> bool {
        &&& self.live_votes.wf()
        &&& self.finalized.wf()
        &&& forall|k: u64| #[trigger] self.live_votes@.contains_key(k) ==> self.live_votes@[k] != 0
    }
}

impl VotingState {
    pub open spec fn wf(&self) -> bool {
        &&& self.votes.wf()
        &&& self.user_votes.wf()
        &&& self.periods.wf()
        &&& self.powers.wf()
        &&& forall|k: u64| #[trigger] self.periods@.contains_key(k) ==> self.periods@[k].week_id == k
        &&& forall|u: Seq<char>| #[trigger] self.powers@.contains_key(u) ==> self.powers@[u].remaining <= self.powers@[u].cap
    }
}

impl MemeStore {
    pub open spec fn wf(&self) -> bool {
        &&& self.memes.wf()
        &&& self.user_memes.wf()
        &&& self.unique_users.wf()
        &&& self.rate.wf()
        &&& forall|k: u64| #[trigger] self.memes@.contains_key(k) ==> self.memes@[k].id == k
        &&& forall|u: Seq<char>| #[trigger] self.user_memes@.contains_key(u) ==> self.user_memes@[u].0@.len()
            <= crate::codec::MAX_LEN
    }
}

impl NftState {
    pub open spec fn wf(&self) -> bool {
        &&& self.tokens.wf()
        &&& self.owner_index.wf()
        &&& self.mint_index.wf()
        &&& self.stored_images.wf()
        &&& self.token_sales.wf()
        &&& forall|m: u64, i: int|
            #![trigger self.mint_index@[m]@[i]]
            self.mint_index@.contains_key(m) && 0 <= i < self.mint_index@[m]@.len() ==> self.mint_index@[m]@[i]
                < self.collection.total_supply
        &&& forall|m1: u64, m2: u64, i: int, j: int|
            #![trigger self.mint_index@[m1]@[i], self.mint_index@[m2]@[j]]
            m1 != m2 && self.mint_index@.contains_key(m1) && self.mint_index@.contains_key(m2) && 0 <= i
                < self.mint_index@[m1]@.len() && 0 <= j < self.mint_index@[m2]@.len() ==> self.mint_index@[m1]@[i]
                != self.mint_index@[m2]@[j]
    }
}

/// The live count of a meme: its entry, or 0 when it has none.
pub open spec fn live_count(live: Map<u64, u64>, meme_id: u64) -> u64 {
    if live.contains_key(meme_id) { live[meme_id] } else { 0 }
}

/// The meme ids registered for a week, none when the week has no entry.
pub open spec fn week_ids(index: Map<u64, Vec<u64>>, week_id: u64) -> Seq<u64> {
    if index.contains_key(week_id) { index[week_id]@ } else { Seq::empty() }
}

/// What every operation keeps of the past: the count of upvotes ever cast
/// does not go down, and a meme that has tokens keeps exactly those tokens.
pub open spec fn history_kept(a: Backend, c: Backend) -> bool {
    &&& a.voting.lifetime_upvotes <= c.voting.lifetime_upvotes
    &&& forall|m: u64|
        #[trigger] crate::nft::tokens_for_meme(a.nft.mint_index@, m).len() > 0 ==> crate::nft::tokens_for_meme(
            c.nft.mint_index@,
            m,
        ) == crate::nft::tokens_for_meme(a.nft.mint_index@, m)
}

impl Backend {
    /// All tables are well formed.
    pub open spec fn wf(&self) -> bool {
        &&& self.weeks.wf()
        &&& self.board.wf()
        &&& self.voting.wf()
        &&& self.store.wf()
        &&& self.nft.wf()
    }

    /// A fresh state: week 0 active, no offset, every table empty, and an
    /// unnamed collection administered by the anonymous principal.
    pub fn new() -> (r: Self)
        ensures
            r.wf(),
            r.weeks.active_week_id == 0,
            r.weeks.week_offset == 0,
            r.weeks.week_index@ == Map::<u64, Vec<u64>>::empty(),
            r.board.live_votes@ == Map::<u64, u64>::empty(),
            r.board.finalized@ == Map::<u64, WeeklyLeaderboard>::empty(),
            r.voting.votes@ == Map::<u64, MemeVotes>::empty(),
            r.voting.user_votes@ == Map::<(Seq<char>, u64), VoteRecord>::empty(),
            r.voting.periods@ == Map::<u64, WeeklyPeriod>::empty(),
            r.voting.powers@ == Map::<Seq<char>, UserPower>::empty(),
            r.voting.lifetime_upvotes == 0,
            r.store.memes@ == Map::<u64, StoredMeme>::empty(),
            r.store.user_memes@ == Map::<Seq<char>, StorableVecU64>::empty(),
            r.store.meme_counter == 0,
            r.store.unique_users@ == Map::<Seq<char>, bool>::empty(),
            r.store.rate@ == Map::<Seq<char>, DayUsage>::empty(),
            r.nft.collection.total_supply == 0,
            r.nft.collection.admin@ == anonymous_view(),
            r.nft.collection.name@ == Seq::<char>::empty(),
            r.nft.collection.symbol@ == Seq::<char>::empty(),
            r.nft.collection.description.is_none(),
            r.nft.collection.logo.is_none(),
            r.nft.collection.created_at == 0,
            r.nft.tokens@ == Map::<u64, TokenRecord>::empty(),
            r.nft.owner_index@ == Map::<Seq<char>, Vec<u64>>::empty(),
            r.nft.mint_index@ == Map::<u64, Vec<u64>>::empty(),
            r.nft.stored_images@ == Map::<u64, ImageBlob>::empty(),
            r.nft.token_sales@ == Map::<u64, TokenSaleMetadata>::empty(),
    {
        Backend {
            weeks: WeekState { active_week_id: 0, week_offset: 0, week_index: SortedMap::new() },
            board: BoardState { live_votes: SortedMap::new(), finalized: SortedMap::new() },
            voting: VotingState {
                votes: SortedMap::new(),
                user_votes: KeyedList::new(),
                periods: SortedMap::new(),
                powers: KeyedList::new(),
                lifetime_upvotes: 0,
            },
            store: MemeStore {
                memes: SortedMap::new(),
                user_memes: KeyedList::new(),
                meme_counter: 0,
                unique_users: KeyedList::new(),
                rate: KeyedList::new(),
            },
            nft: NftState {
                collection: CollectionState::default(),
                tokens: SortedMap::new(),
                owner_index: KeyedList::new(),
                mint_index: SortedMap::new(),
                stored_images: SortedMap::new(),
                token_sales: SortedMap::new(),
            },
        }
    }

    /// The active week.
    pub fn get_active_week_id(&self) -> (r: u64)
        ensures
            r == self.weeks.active_week_id,
    {
        self.weeks.active_week_id
    }

    /// Makes `week_id` the active week.
    pub fn set_active_week_id(&mut self, week_id: u64)
        ensures
            history_kept(*old(self), *final(self)),
            final(self).weeks.active_week_id == week_id,
            final(self).weeks.week_offset == old(self).weeks.week_offset,
            final(self).weeks.week_index == old(self).weeks.week_index,
            final(self).board == old(self).board,
            final(self).voting == old(self).voting,
            final(self).store == old(self).store,
            final(self).nft == old(self).nft,
    {
        self.weeks.active_week_id = week_id;
    }

    /// The week offset, in seconds.
    pub fn get_week_offset(&self) -> (r: i64)
        ensures
            r == self.weeks.week_offset,
    {
        self.weeks.week_offset
    }

    /// Sets the week offset, in seconds.
    pub fn set_week_offset(&mut self, offset_secs: i64)
        ensures
            history_kept(*old(self), *final(self)),
            final(self).weeks.week_offset == offset_secs,
            final(self).weeks.active_week_id == old(self).weeks.active_week_id,
            final(self).weeks.week_index == old(self).weeks.week_index,
            final(self).board == old(self).board,
            final(self).voting == old(self).voting,
            final(self).store == old(self).store,
            final(self).nft == old(self).nft,
    {
        self.weeks.week_offset = offset_secs;
    }

    /// The week a timestamp in seconds falls in, with this state's offset.
    pub fn compute_week_id(&self, timestamp_secs: u64) -> (r: u64)
        ensures
            r == week_of(timestamp_secs as int, self.weeks.week_offset as int),
    {
        compute_week_id(timestamp_secs, self.weeks.week_offset)
    }

    /// The week the host clock is in, with this state's offset.
    pub fn current_week_id(&self) -> (r: u64)
        ensures
            exists|t: u64| r == week_of(t as int, self.weeks.week_offset as int),
    {
        let t = now_secs();
        self.compute_week_id(t)
    }

    /// The ids of the memes registered for a week.
    pub fn week_meme_ids(&self, week_id: u64) -> (r: Vec<u64>)
        requires
            self.wf(),
        ensures
            r@ == week_ids(self.weeks.week_index@, week_id),
    {
        match self.weeks.week_index.get(week_id) {
            Some(ids) => {
                let c = ids.clone();
                assert(c@ =~= ids@);
                c
            },
            None => Vec::new(),
        }
    }

    /// Registers a meme id under a week, after the ids already there.
    pub fn register_week_meme(&mut self, week_id: u64, meme_id: u64)
        requires
            old(self).wf(),
        ensures
            history_kept(*old(self), *final(self)),
            final(self).wf(),
            week_ids(final(self).weeks.week_index@, week_id) == week_ids(
                old(self).weeks.week_index@,
                week_id,
            ).push(meme_id),
            forall|w: u64|
                w != week_id ==> week_ids(final(self).weeks.week_index@, w) == week_ids(
                    old(self).weeks.week_index@,
                    w,
                ),
            final(self).weeks.active_week_id == old(self).weeks.active_week_id,
            final(self).weeks.week_offset == old(self).weeks.week_offset,
            final(self).board == old(self).board,
            final(self).voting == old(self).voting,
            final(self).store == old(self).store,
            final(self).nft == old(self).nft,
    {
        let mut ids = self.week_meme_ids(week_id);
        ids.push(meme_id);
        self.weeks.week_index.insert(week_id, ids);
    }
}

impl Default for CollectionState {
    /// An unnamed, empty collection administered by the anonymous principal.
    fn default() -> (r: Self)
        ensures
            r.name@ == Seq::<char>::empty(),
            r.symbol@ == Seq::<char>::empty(),
            r.description.is_none(),
            r.logo.is_none(),
            r.total_supply == 0,
            r.admin@ == anonymous_view(),
            r.created_at == 0,
    {
        CollectionState::default_with_admin(anonymous_user())
    }
}

impl CollectionState {
    /// An unnamed, empty collection administered by `admin`.
    pub fn default_with_admin(admin: UserId) -> (r: Self)
        ensures
            r.name@ == Seq::<char>::empty(),
            r.symbol@ == Seq::<char>::empty(),
            r.description.is_none(),
            r.logo.is_none(),
            r.total_supply == 0,
            r.admin == admin,
            r.created_at == 0,
    {
        CollectionState {
            name: String::new(),
            symbol: String::new(),
            description: None,
            logo: None,
            total_supply: 0,
            admin,
            created_at: 0,
        }
    }
}

} // verus!
