//! The canister's top-level operations: installation, the caller's
//! identity, the week settings and the reset to week one.

use vstd::prelude::*;
use crate::state::history_kept;
use crate::generation::text_or;
use crate::ids::{caller, UserId};
use crate::codec::StorableVecU64;
use crate::model::{InitArgs, MemeVotes, StoredMeme, VoteRecord, WeeklyLeaderboard, WeeklyPeriod};
use crate::voting::WEEK_NS;
use crate::state::Backend;
use crate::weeks::{host_time_ns, week_of, NANOS_PER_SECOND, WEEK_SECONDS};

verus! {

/// The collection name used when none is given.
pub const DEFAULT_COLLECTION_NAME: &'static str = "Mementic Top Memes";

/// The collection symbol used when none is given.
pub const DEFAULT_COLLECTION_SYMBOL: &'static str = "MEME";

/// The principal that made the current call.
pub fn whoami() -> (r: UserId)
    ensures
        r@.len() <= 29,
        exists|b: Seq<u8>| b.len() <= 29 && r@ == #[trigger] crate::ids::bytes_as_chars(b),
{
    caller()
}

/// The week offset (in seconds) that makes the time `now_ns` fall in week
/// one: one week minus the start of the week that `now_ns` falls in.
pub open spec fn reset_offset(now_ns: u64) -> int {
    let secs = now_ns / NANOS_PER_SECOND;
    WEEK_SECONDS - (secs / WEEK_SECONDS) * WEEK_SECONDS
}

/// The state after a reset to week one at `now_ns`: every meme, per-user
/// meme list, vote, week, week index and leaderboard is gone; week one is
/// active, with an offset that puts `now_ns` in it, and its voting week runs
/// for one week (in nanoseconds, saturating) from `now_ns`. The id counter,
/// the users, the generation quotas, voting power, the count of upvotes
/// ever cast and the NFT collection stay.
pub open spec fn reset_state(a: Backend, b: Backend, now_ns: u64) -> bool {
    &&& b.weeks.active_week_id == 1
    &&& b.weeks.week_offset == reset_offset(now_ns)
    &&& b.weeks.week_index@ == Map::<u64, Vec<u64>>::empty()
    &&& b.board.live_votes@ == Map::<u64, u64>::empty()
    &&& b.board.finalized@ == Map::<u64, WeeklyLeaderboard>::empty()
    &&& b.voting.votes@ == Map::<u64, MemeVotes>::empty()
    &&& b.voting.user_votes@ == Map::<(Seq<char>, u64), VoteRecord>::empty()
    &&& b.voting.periods@ == Map::<u64, WeeklyPeriod>::empty().insert(
        1,
        WeeklyPeriod {
            week_id: 1,
            start_time: now_ns,
            end_time: now_ns.saturating_add(WEEK_NS),
            is_completed: false,
            meme_count: 0,
        },
    )
    &&& b.voting.powers == a.voting.powers
    &&& b.voting.lifetime_upvotes == a.voting.lifetime_upvotes
    &&& b.store.memes@ == Map::<u64, StoredMeme>::empty()
    &&& b.store.user_memes@ == Map::<Seq<char>, StorableVecU64>::empty()
    &&& b.store.meme_counter == a.store.meme_counter
    &&& b.store.unique_users == a.store.unique_users
    &&& b.store.rate == a.store.rate
    &&& b.nft == a.nft
}

/// The reset's offset puts the time of the reset in week one.
pub proof fn lemma_reset_offset_week_one(now_ns: u64)
    ensures
        week_of((now_ns / NANOS_PER_SECOND) as int, reset_offset(now_ns)) == 1,
        i64::MIN <= reset_offset(now_ns) <= i64::MAX,
{
    let secs = (now_ns / NANOS_PER_SECOND) as int;
    let w = WEEK_SECONDS as int;
    let q = secs / w;
    assert(0 <= secs - q * w < w) by (nonlinear_arith)
        requires
            w > 0,
            secs >= 0,
            q == secs / w,
    ;
    assert(secs <= 18_446_744_073_709);
    assert(q * w <= secs);
    let x = secs - q * w + w;
    assert(x / w == 1) by (nonlinear_arith)
        requires
            w <= x < 2 * w,
            w > 0,
    ;
}

impl Backend {
    /// The state of a freshly installed canister: the collection named by
    /// `args` (with defaults), administered by `args`' admin or else by the
    /// installer `caller`, created at `now_ns`, and the week of `now_ns`
    /// active.
    pub fn init(args: Option<InitArgs>, caller: UserId, now_ns: u64) -> (r: Backend)
        ensures
            r.wf(),
            ({
                let name = match args {
                    Some(a) => a.name,
                    None => None,
                };
                let symbol = match args {
                    Some(a) => a.symbol,
                    None => None,
                };
                &&& r.nft.collection.name@ == text_or(name, DEFAULT_COLLECTION_NAME@)
                &&& r.nft.collection.symbol@ == text_or(symbol, DEFAULT_COLLECTION_SYMBOL@)
                &&& r.nft.collection.description == match args {
                    Some(a) => a.description,
                    None => None,
                }
                &&& r.nft.collection.logo == match args {
                    Some(a) => a.logo,
                    None => None,
                }
                &&& r.nft.collection.admin == match args {
                    Some(a) => match a.admin {
                        Some(u) => u,
                        None => caller,
                    },
                    None => caller,
                }
                &&& r.nft.collection.total_supply == 0
                &&& r.nft.collection.created_at == now_ns
                &&& r.weeks.active_week_id == week_of((now_ns / NANOS_PER_SECOND) as int, 0)
                &&& r.weeks.week_offset == 0
            }),
    {
        let (name, symbol, description, logo, admin) = match args {
            Some(a) => (
                a.name,
                a.symbol,
                a.description,
                a.logo,
                match a.admin {
                    Some(u) => u,
                    None => caller,
                },
            ),
            None => (None, None, None, None, caller),
        };
        let mut b = Backend::new();
        b.nft.collection.admin = admin;
        b.nft.collection.name = match name {
            Some(n) => n,
            None => String::from_str(DEFAULT_COLLECTION_NAME),
        };
        b.nft.collection.symbol = match symbol {
            Some(s) => s,
            None => String::from_str(DEFAULT_COLLECTION_SYMBOL),
        };
        b.nft.collection.description = description;
        b.nft.collection.logo = logo;
        b.nft.collection.total_supply = 0;
        b.nft.collection.created_at = now_ns;
        b.ensure_active_week_initialized_at(now_ns / NANOS_PER_SECOND);
        b
    }

    /// Sets the week offset, in seconds.
    pub fn admin_set_week_offset(&mut self, offset_secs: i64)
        ensures
            history_kept(*old(self), *final(self)),
            final(self).weeks.week_offset == offset_secs,
            final(self).weeks.active_week_id == old(self).weeks.active_week_id,
            final(self).weeks.week_index == old(self).weeks.week_index,
            final(self).board == old(self).board,
            final(self).voting == old(self).voting,
            final(self).store == old(self).store,
            final(self).nft == old(self).nft,
    {
        self.set_week_offset(offset_secs);
    }

    /// The active week.
    pub fn get_active_week(&self) -> (r: u64)
        ensures
            r == self.weeks.active_week_id,
    {
        self.get_active_week_id()
    }

    /// Clears every meme, vote, week, week index and leaderboard and starts
    /// over at week one at `now_ns`.
    pub fn reset_system_to_week_1_at(&mut self, now_ns: u64) -> (r: Result<String, String>)
        requires
            old(self).wf(),
        ensures
            history_kept(*old(self), *final(self)),
            final(self).wf(),
            reset_state(*old(self), *final(self), now_ns),
            week_of((now_ns / NANOS_PER_SECOND) as int, final(self).weeks.week_offset as int) == 1,
            r matches Ok(s) && s@ == "System reset to week 1 complete. All data cleared, counters reset."@,
    {
        self.store.memes.clear();
        self.store.user_memes.clear();
        self.weeks.week_index.clear();
        self.voting.votes.clear();
        self.voting.user_votes.clear();
        self.board.live_votes.clear();
        self.voting.periods.clear();
        self.board.finalized.clear();
        self.set_active_week_id(1);
        let secs = now_ns / NANOS_PER_SECOND;
        proof {
            lemma_reset_offset_week_one(now_ns);
            assert((secs / WEEK_SECONDS) * WEEK_SECONDS <= secs) by (nonlinear_arith)
                requires
                    WEEK_SECONDS > 0,
            ;
        }
        let week_start = (secs / WEEK_SECONDS) * WEEK_SECONDS;
        let offset: i64 = WEEK_SECONDS as i64 - week_start as i64;
        self.set_week_offset(offset);
        let first = WeeklyPeriod {
            week_id: 1,
            start_time: now_ns,
            end_time: now_ns.saturating_add(WEEK_NS),
            is_completed: false,
            meme_count: 0,
        };
        self.voting.periods.insert(1, first);
        Ok(String::from_str("System reset to week 1 complete. All data cleared, counters reset."))
    }

    /// Clears every meme, vote, week, week index and leaderboard and starts
    /// over at week one, now.
    pub fn reset_system_to_week_1(&mut self) -> (r: Result<String, String>)
        requires
            old(self).wf(),
        ensures
            history_kept(*old(self), *final(self)),
            final(self).wf(),
            exists|t: u64| reset_state(*old(self), *final(self), t),
            r matches Ok(s) && s@ == "System reset to week 1 complete. All data cleared, counters reset."@,
    {
        let now = host_time_ns();
        self.reset_system_to_week_1_at(now)
    }
}

} // verus!
