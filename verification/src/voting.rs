//! Weekly voting: voting weeks, weekly voting power, per-meme tallies and
//! the queries over them.

use vstd::prelude::*;
use crate::state::history_kept;
use crate::ids::{UserId, UserMemeKey};
use crate::keyed::Key;
use crate::model::{LeaderboardEntry, LegacyTopEntry, MemeVotes, TopLikedLeaderboard, UserPower, VoteRecord, WeeklyPeriod};
use crate::keyed::{keys_increasing, lemma_increasing_distinct};
use crate::memes::public_of;
use crate::ranking::{Ranked, RankKey, lemma_is_rank_sorted, rank_injective, rank_sorted, sort_by_rank, sorted_by_rank};
use crate::rollover::memes_finalized;
use crate::state::{Backend, week_ids};
use crate::weeks::{get_week_id, week_of_ns};

verus! {

/// Voting power each user gets per week.
pub const WEEKLY_POWER_CAP: u32 = 100;

/// Power spent by a plain vote.
pub const DEFAULT_VOTE_COST: u32 = 10;

/// Length of a week in nanoseconds.
pub const WEEK_NS: u64 = 604_800_000_000_000;

/// Start of a week in nanoseconds (wrapping, as the unchecked product does
/// in the canister's release build).
pub open spec fn week_start_ns(week_id: u64) -> u64 {
    week_id.wrapping_mul(WEEK_NS)
}

/// End of a week in nanoseconds (wrapping).
pub open spec fn week_end_ns(week_id: u64) -> u64 {
    week_start_ns(week_id).wrapping_add(WEEK_NS)
}

/// A new voting week.
pub open spec fn new_period(week_id: u64, is_completed: bool) -> WeeklyPeriod {
    WeeklyPeriod {
        meme_count: 0,
        week_id,
        start_time: week_start_ns(week_id),
        end_time: week_end_ns(week_id),
        is_completed,
    }
}

/// Builds a new voting week.
pub fn make_period(week_id: u64, is_completed: bool) -> (r: WeeklyPeriod)
    ensures
        r == new_period(week_id, is_completed),
{
    let start = week_id.wrapping_mul(WEEK_NS);
    let end = start.wrapping_add(WEEK_NS);
    WeeklyPeriod { meme_count: 0, week_id, start_time: start, end_time: end, is_completed }
}

/// Fresh weekly power.
pub open spec fn full_power(week_id: u64) -> UserPower {
    UserPower { week_id, remaining: WEEKLY_POWER_CAP, cap: WEEKLY_POWER_CAP }
}

/// A user's power as it stands in `week_id`: the stored power if it is for
/// that week, else fresh power.
pub open spec fn power_in_week(powers: Map<Seq<char>, UserPower>, user: Seq<char>, week_id: u64) -> UserPower {
    if powers.contains_key(user) && powers[user].week_id == week_id {
        powers[user]
    } else {
        full_power(week_id)
    }
}

/// Everything but the voting weeks is unchanged.
pub open spec fn only_periods_changed(a: Backend, b: Backend) -> bool {
    &&& a.weeks == b.weeks
    &&& a.board == b.board
    &&& a.voting.votes == b.voting.votes
    &&& a.voting.user_votes == b.voting.user_votes
    &&& a.voting.powers == b.voting.powers
    &&& a.voting.lifetime_upvotes == b.voting.lifetime_upvotes
    &&& a.store == b.store
    &&& a.nft == b.nft
}

/// Everything but the voting power is unchanged.
pub open spec fn only_powers_changed(a: Backend, b: Backend) -> bool {
    &&& a.weeks == b.weeks
    &&& a.board == b.board
    &&& a.voting.votes == b.voting.votes
    &&& a.voting.user_votes == b.voting.user_votes
    &&& a.voting.periods == b.voting.periods
    &&& a.voting.lifetime_upvotes == b.voting.lifetime_upvotes
    &&& a.store == b.store
    &&& a.nft == b.nft
}

/// The voting weeks after making sure the week of `now_ns` (or the next one)
/// is open for voting: nothing changes when the current week exists, is not
/// completed and has not ended; otherwise the next week is reopened when it
/// exists and has not ended, or created when it does not exist.
pub open spec fn periods_after_ensure(periods: Map<u64, WeeklyPeriod>, now_ns: u64) -> Map<u64, WeeklyPeriod> {
    let cw = week_of_ns(now_ns as int) as u64;
    let nw = (cw + 1) as u64;
    if periods.contains_key(cw) && !periods[cw].is_completed && now_ns <= periods[cw].end_time {
        periods
    } else if periods.contains_key(nw) {
        if now_ns <= periods[nw].end_time {
            periods.insert(nw, WeeklyPeriod { is_completed: false, ..periods[nw] })
        } else {
            periods
        }
    } else {
        periods.insert(nw, new_period(nw, false))
    }
}

/// Periods walked in week order, keeping the completed ones.
pub open spec fn completed_periods(s: Seq<(u64, WeeklyPeriod)>) -> Seq<WeeklyPeriod>
    decreases s.len(),
{
    if s.len() == 0 {
        Seq::empty()
    } else if s.last().1.is_completed {
        completed_periods(s.drop_last()).push(s.last().1)
    } else {
        completed_periods(s.drop_last())
    }
}

/// Sum of upvotes over tallies walked in meme order.
pub open spec fn sum_upvotes(s: Seq<(u64, MemeVotes)>) -> int
    decreases s.len(),
{
    if s.len() == 0 { 0 } else { sum_upvotes(s.drop_last()) + s.last().1.upvotes }
}

/// Sum of upvotes and downvotes over tallies walked in meme order.
pub open spec fn sum_all_votes(s: Seq<(u64, MemeVotes)>) -> int
    decreases s.len(),
{
    if s.len() == 0 {
        0
    } else {
        sum_all_votes(s.drop_last()) + s.last().1.upvotes + s.last().1.downvotes
    }
}

/// The user votes that remain once every vote on `meme_id` is removed.
pub open spec fn votes_without_meme(
    uv: Map<(Seq<char>, u64), VoteRecord>,
    meme_id: u64,
) -> Map<(Seq<char>, u64), VoteRecord> {
    Map::new(|k: (Seq<char>, u64)| uv.contains_key(k) && k.1 != meme_id, |k: (Seq<char>, u64)| uv[k])
}

impl Backend {
    /// The voting week of `now_ns`, created (open) when it does not exist yet.
    pub fn get_or_create_current_week(&mut self, now_ns: u64) -> (r: WeeklyPeriod)
        requires
            old(self).wf(),
        ensures
            history_kept(*old(self), *final(self)),
            final(self).wf(),
            only_periods_changed(*old(self), *final(self)),
            ({
                let cw = week_of_ns(now_ns as int) as u64;
                if old(self).voting.periods@.contains_key(cw) {
                    &&& r == old(self).voting.periods@[cw]
                    &&& *final(self) == *old(self)
                } else {
                    &&& r == new_period(cw, false)
                    &&& final(self).voting.periods@ == old(self).voting.periods@.insert(cw, r)
                }
            }),
    {
        let week_id = get_week_id(now_ns);
        match self.voting.periods.get(week_id) {
            Some(p) => *p,
            None => {
                let p = make_period(week_id, false);
                self.voting.periods.insert(week_id, p);
                p
            },
        }
    }

    /// The week of `now_ns`, creating its voting week when needed.
    pub fn get_current_week_id(&mut self, now_ns: u64) -> (r: u64)
        requires
            old(self).wf(),
        ensures
            history_kept(*old(self), *final(self)),
            final(self).wf(),
            only_periods_changed(*old(self), *final(self)),
            r == week_of_ns(now_ns as int),
            final(self).voting.periods@ == if old(self).voting.periods@.contains_key(r) {
                old(self).voting.periods@
            } else {
                old(self).voting.periods@.insert(r, new_period(r, false))
            },
    {
        let p = self.get_or_create_current_week(now_ns);
        p.week_id
    }

    /// Makes sure there is a week open for voting at `now_ns`.
    pub fn ensure_active_week(&mut self, now_ns: u64)
        requires
            old(self).wf(),
        ensures
            history_kept(*old(self), *final(self)),
            final(self).wf(),
            only_periods_changed(*old(self), *final(self)),
            final(self).voting.periods@ == periods_after_ensure(old(self).voting.periods@, now_ns),
    {
        let current_week_id = get_week_id(now_ns);
        match self.voting.periods.get(current_week_id) {
            Some(p) => {
                if !p.is_completed && now_ns <= p.end_time {
                    return;
                }
            },
            None => {},
        }
        let next_week_id = current_week_id + 1;
        match self.voting.periods.get(next_week_id) {
            Some(next) => {
                if now_ns <= next.end_time {
                    let mut active = *next;
                    active.is_completed = false;
                    self.voting.periods.insert(next_week_id, active);
                }
            },
            None => {
                let p = make_period(next_week_id, false);
                self.voting.periods.insert(next_week_id, p);
            },
        }
    }

    /// A user's voting power for `week_id`, reset to the full weekly cap
    /// (and stored) when it was for another week or absent.
    pub fn get_or_reset_user_power(&mut self, user: &UserId, week_id: u64) -> (r: UserPower)
        requires
            old(self).wf(),
        ensures
            history_kept(*old(self), *final(self)),
            final(self).wf(),
            only_powers_changed(*old(self), *final(self)),
            r == power_in_week(old(self).voting.powers@, user@, week_id),
            final(self).voting.powers@ == if old(self).voting.powers@.contains_key(user@)
                && old(self).voting.powers@[user@].week_id == week_id {
                old(self).voting.powers@
            } else {
                old(self).voting.powers@.insert(user@, full_power(week_id))
            },
    {
        match self.voting.powers.get(user) {
            Some(p) => {
                if p.week_id == week_id {
                    return *p;
                }
            },
            None => {},
        }
        let p = UserPower { week_id, remaining: WEEKLY_POWER_CAP, cap: WEEKLY_POWER_CAP };
        self.voting.powers.insert(user.copy(), p);
        p
    }

    /// Spends `cost` of a user's power for `week_id`; fails, changing
    /// nothing, when less than `cost` remains.
    pub fn spend_power(&mut self, user: &UserId, week_id: u64, cost: u32) -> (r: Result<(), String>)
        requires
            old(self).wf(),
        ensures
            history_kept(*old(self), *final(self)),
            final(self).wf(),
            only_powers_changed(*old(self), *final(self)),
            ({
                let p = power_in_week(old(self).voting.powers@, user@, week_id);
                if p.remaining < cost {
                    &&& r matches Err(e) && e@ == "Insufficient voting power"@
                    &&& *final(self) == *old(self)
                } else {
                    &&& r is Ok
                    &&& final(self).voting.powers@ == old(self).voting.powers@.insert(
                        user@,
                        UserPower { remaining: (p.remaining - cost) as u32, ..p },
                    )
                }
            }),
    {
        let mut p = match self.voting.powers.get(user) {
            Some(p) => *p,
            None => UserPower { week_id, remaining: WEEKLY_POWER_CAP, cap: WEEKLY_POWER_CAP },
        };
        if p.week_id != week_id {
            p.week_id = week_id;
            p.remaining = WEEKLY_POWER_CAP;
            p.cap = WEEKLY_POWER_CAP;
        }
        if p.remaining < cost {
            return Err(String::from_str("Insufficient voting power"));
        }
        p.remaining = p.remaining - cost;
        self.voting.powers.insert(user.copy(), p);
        Ok(())
    }

    /// The tallies of a meme.
    pub fn get_meme_votes(&self, meme_id: u64) -> (r: Option<MemeVotes>)
        requires
            self.wf(),
        ensures
            r == if self.voting.votes@.contains_key(meme_id) {
                Some(self.voting.votes@[meme_id])
            } else {
                None::<MemeVotes>
            },
    {
        match self.voting.votes.get(meme_id) {
            Some(v) => Some(*v),
            None => None,
        }
    }

    /// A user's vote on a meme.
    pub fn get_user_vote(&self, user: &UserId, meme_id: u64) -> (r: Option<VoteRecord>)
        requires
            self.wf(),
        ensures
            r == if self.voting.user_votes@.contains_key((user@, meme_id)) {
                Some(self.voting.user_votes@[(user@, meme_id)])
            } else {
                None::<VoteRecord>
            },
    {
        let key = UserMemeKey { user: user.copy(), meme_id };
        match self.voting.user_votes.get(&key) {
            Some(v) => Some(*v),
            None => None,
        }
    }

    /// The completed voting weeks, in week order.
    pub fn get_completed_weeks(&self) -> (r: Vec<WeeklyPeriod>)
        requires
            self.wf(),
        ensures
            r@ == completed_periods(self.voting.periods.entries_seq()),
    {
        let n = self.voting.periods.len();
        let mut out: Vec<WeeklyPeriod> = Vec::new();
        let mut i: usize = 0;
        while i < n
            invariant
                self.wf(),
                n == self.voting.periods.spec_len(),
                i <= n,
                out@ == completed_periods(self.voting.periods.entries_seq().take(i as int)),
            decreases n - i,
        {
            let (_, p) = self.voting.periods.entry_at(i);
            proof {
                let s = self.voting.periods.entries_seq();
                assert(s.take(i as int + 1).drop_last() =~= s.take(i as int));
            }
            if p.is_completed {
                out.push(*p);
            }
            i += 1;
        }
        assert(self.voting.periods.entries_seq().take(n as int) =~= self.voting.periods.entries_seq());
        out
    }

    /// The status of the week of `now_ns` once a voting week is ensured:
    /// its id, the nanoseconds left, its end and whether it is completed.
    pub fn get_current_week_status(&mut self, now_ns: u64) -> (r: (u64, u64, u64, bool))
        requires
            old(self).wf(),
        ensures
            history_kept(*old(self), *final(self)),
            final(self).wf(),
            only_periods_changed(*old(self), *final(self)),
            ({
                let ensured = periods_after_ensure(old(self).voting.periods@, now_ns);
                let cw = week_of_ns(now_ns as int) as u64;
                let p = if ensured.contains_key(cw) { ensured[cw] } else { new_period(cw, false) };
                &&& final(self).voting.periods@ == if ensured.contains_key(cw) {
                    ensured
                } else {
                    ensured.insert(cw, p)
                }
                &&& r == (p.week_id, if now_ns < p.end_time { (p.end_time - now_ns) as u64 } else { 0 }, p.end_time, p.is_completed)
            }),
    {
        self.ensure_active_week(now_ns);
        let period = self.get_or_create_current_week(now_ns);
        let remaining = if now_ns < period.end_time {
            period.end_time - now_ns
        } else {
            0
        };
        (period.week_id, remaining, period.end_time, period.is_completed)
    }

    /// A user's voting power in the week of `now_ns`, once a voting week is ensured.
    pub fn get_voting_power(&mut self, user: &UserId, now_ns: u64) -> (r: UserPower)
        requires
            old(self).wf(),
        ensures
            history_kept(*old(self), *final(self)),
            final(self).wf(),
            r == power_in_week(old(self).voting.powers@, user@, week_of_ns(now_ns as int) as u64),
            final(self).voting.powers@ == if old(self).voting.powers@.contains_key(user@)
                && old(self).voting.powers@[user@].week_id == week_of_ns(now_ns as int) {
                old(self).voting.powers@
            } else {
                old(self).voting.powers@.insert(user@, full_power(week_of_ns(now_ns as int) as u64))
            },
            final(self).voting.votes == old(self).voting.votes,
            final(self).voting.user_votes == old(self).voting.user_votes,
            final(self).weeks == old(self).weeks,
            final(self).board == old(self).board,
            final(self).store == old(self).store,
            final(self).nft == old(self).nft,
    {
        self.ensure_active_week(now_ns);
        let week_id = self.get_current_week_id(now_ns);
        self.get_or_reset_user_power(user, week_id)
    }

    /// Removes a meme's tallies and every vote cast on it.
    pub fn delete_meme_data(&mut self, meme_id: u64) -> (r: Result<(), String>)
        requires
            old(self).wf(),
        ensures
            history_kept(*old(self), *final(self)),
            final(self).wf(),
            r is Ok,
            final(self).voting.votes@ == old(self).voting.votes@.remove(meme_id),
            final(self).voting.user_votes@ == votes_without_meme(old(self).voting.user_votes@, meme_id),
            final(self).voting.periods == old(self).voting.periods,
            final(self).voting.powers == old(self).voting.powers,
            final(self).voting.lifetime_upvotes == old(self).voting.lifetime_upvotes,
            final(self).weeks == old(self).weeks,
            final(self).board == old(self).board,
            final(self).store == old(self).store,
            final(self).nft == old(self).nft,
    {
        self.voting.votes.remove(meme_id);
        let ghost old_uv = self.voting.user_votes@;
        let n = self.voting.user_votes.len();
        let mut keys: Vec<UserMemeKey> = Vec::new();
        let mut i: usize = 0;
        while i < n
            invariant
                self.wf(),
                old_uv == self.voting.user_votes@,
                n == self.voting.user_votes.spec_len(),
                i <= n,
                forall|j: int|
                    0 <= j < keys@.len() ==> (#[trigger] keys@[j]).meme_id == meme_id
                        && old_uv.contains_key(keys@[j].kv()),
                forall|j: int|
                    0 <= j < i && (#[trigger] self.voting.user_votes.entries_seq()[j]).0.meme_id
                        == meme_id ==> keys@.map_values(|x: UserMemeKey| x.kv()).contains(
                        self.voting.user_votes.entries_seq()[j].0.kv(),
                    ),
            decreases n - i,
        {
            let (k, _) = self.voting.user_votes.entry_at(i);
            proof {
                self.voting.user_votes.lemma_view();
            }
            if k.meme_id == meme_id {
                let ghost before = keys@;
                keys.push(k.key_copy());
                proof {
                    let kv = keys@.map_values(|x: UserMemeKey| x.kv());
                    assert forall|j: int|
                        0 <= j < i + 1 && (#[trigger] self.voting.user_votes.entries_seq()[j]).0.meme_id
                            == meme_id implies kv.contains(self.voting.user_votes.entries_seq()[j].0.kv()) by {
                        if j < i {
                            let bv = before.map_values(|x: UserMemeKey| x.kv());
                            let t = choose|t: int| 0 <= t < bv.len() && bv[t] == self.voting.user_votes.entries_seq()[j].0.kv();
                            assert(kv[t] == bv[t]);
                        } else {
                            assert(kv[before.len() as int] == k.kv());
                        }
                    }
                }
            }
            i += 1;
        }
        proof {
            self.voting.user_votes.lemma_view();
        }
        let ghost old_entries = self.voting.user_votes.entries_seq();
        self.voting.user_votes.remove_all(&keys);
        proof {
            let kv = keys@.map_values(|x: UserMemeKey| x.kv());
            assert forall|k: (Seq<char>, u64)| old_uv.contains_key(k) implies (kv.contains(k) <==> k.1 == meme_id) by {
                if kv.contains(k) {
                    let t = choose|t: int| 0 <= t < kv.len() && kv[t] == k;
                    assert(keys@[t].meme_id == meme_id);
                }
                if k.1 == meme_id {
                    let j = choose|j: int| 0 <= j < old_entries.len() && #[trigger] old_entries[j].0.kv() == k;
                    assert(old_entries[j].0.meme_id == meme_id);
                }
            }
            assert(self.voting.user_votes@ =~= votes_without_meme(old_uv, meme_id));
        }
        Ok(())
    }

    /// Sum of all votes cast (up and down) and the number of memes with tallies.
    pub fn get_voting_stats(&self) -> (r: (u32, u32))
        requires
            self.wf(),
            sum_all_votes(self.voting.votes.entries_seq()) <= u32::MAX,
        ensures
            r.0 == sum_all_votes(self.voting.votes.entries_seq()),
            r.1 == self.voting.votes@.len() as u32,
    {
        let n = self.voting.votes.len();
        let mut total: u32 = 0;
        let mut i: usize = 0;
        while i < n
            invariant
                self.wf(),
                n == self.voting.votes.spec_len(),
                i <= n,
                sum_all_votes(self.voting.votes.entries_seq()) <= u32::MAX,
                total == sum_all_votes(self.voting.votes.entries_seq().take(i as int)),
            decreases n - i,
        {
            let (_, mv) = self.voting.votes.entry_at(i);
            proof {
                let s = self.voting.votes.entries_seq();
                assert(s.take(i as int + 1).drop_last() =~= s.take(i as int));
                lemma_sum_all_votes_prefix(s, i as int + 1);
            }
            total = total + mv.upvotes + mv.downvotes;
            i += 1;
        }
        assert(self.voting.votes.entries_seq().take(n as int) =~= self.voting.votes.entries_seq());
        (total, n as u32)
    }

    /// The number of upvotes ever cast (saturating).
    pub fn get_lifetime_votes(&self) -> (r: u64)
        ensures
            r == self.voting.lifetime_upvotes,
    {
        self.voting.lifetime_upvotes
    }

    /// The number of memes registered for the active week.
    pub fn get_current_week_meme_count(&self) -> (r: u64)
        requires
            self.wf(),
        ensures
            r == week_ids(self.weeks.week_index@, self.weeks.active_week_id).len(),
    {
        let ids = self.week_meme_ids(self.weeks.active_week_id);
        ids.len() as u64
    }
}

/// Winners of a week rank by upvotes (most first), then by the time of the
/// last vote (latest first), then by meme id (smallest first).
impl Ranked for LegacyTopEntry {
    open spec fn rank(&self) -> RankKey {
        ((u32::MAX - self.upvotes) as u64, (u64::MAX - self.last_vote_time) as u64, self.meme_id, self.downvotes as u64)
    }

    fn rank_key(&self) -> (r: RankKey) {
        ((u32::MAX - self.upvotes) as u64, u64::MAX - self.last_vote_time, self.meme_id, self.downvotes as u64)
    }
}

/// The most-liked memes rank by upvotes (most first), then by downvotes
/// (fewest first), then by the time of the last vote (latest first), then by
/// meme id (smallest first).
impl Ranked for (u64, MemeVotes) {
    open spec fn rank(&self) -> RankKey {
        ((u32::MAX - self.1.upvotes) as u64, self.1.downvotes as u64, (u64::MAX - self.1.last_vote_time) as u64, self.0)
    }

    fn rank_key(&self) -> (r: RankKey) {
        ((u32::MAX - self.1.upvotes) as u64, self.1.downvotes as u64, u64::MAX - self.1.last_vote_time, self.0)
    }
}

/// The winner entry of a meme's tallies.
pub open spec fn top_entry_of(meme_id: u64, mv: MemeVotes) -> LegacyTopEntry {
    LegacyTopEntry {
        meme_id,
        upvotes: mv.upvotes,
        downvotes: mv.downvotes,
        last_vote_time: mv.last_vote_time,
    }
}

/// Winner entries of the tallies of memes created in `week_id`, walked in order.
pub open spec fn week_top_entries(s: Seq<(u64, MemeVotes)>, week_id: u64) -> Seq<LegacyTopEntry>
    decreases s.len(),
{
    if s.len() == 0 {
        Seq::empty()
    } else if s.last().1.created_week == week_id {
        week_top_entries(s.drop_last(), week_id).push(top_entry_of(s.last().0, s.last().1))
    } else {
        week_top_entries(s.drop_last(), week_id)
    }
}

/// The tallies of memes created in `week_id`, walked in order.
pub open spec fn week_pairs(s: Seq<(u64, MemeVotes)>, week_id: u64) -> Seq<(u64, MemeVotes)>
    decreases s.len(),
{
    if s.len() == 0 {
        Seq::empty()
    } else if s.last().1.created_week == week_id {
        week_pairs(s.drop_last(), week_id).push(s.last())
    } else {
        week_pairs(s.drop_last(), week_id)
    }
}

/// The first `n` elements of `s`, or all of them when it is shorter.
pub open spec fn first_n<T>(s: Seq<T>, n: int) -> Seq<T> {
    if n < s.len() { s.take(n) } else { s }
}

/// The top three of a week: every tallied meme of that week ranked, the
/// first three kept.
pub open spec fn week_top3(b: Backend, week_id: u64) -> Seq<LegacyTopEntry> {
    first_n(rank_sorted(week_top_entries(b.voting.votes.entries_seq(), week_id)), 3)
}

/// The number of memes shown by the most-liked leaderboard: 3 by default,
/// at least 1 and at most 50.
pub open spec fn liked_limit(limit: Option<u32>) -> int {
    let l = match limit { Some(l) => l as int, None => 3 };
    if l < 1 { 1 } else if l > 50 { 50 } else { l }
}

/// A leaderboard entry of ranked tallies.
pub open spec fn liked_entry(b: Backend, e: (u64, MemeVotes), rank: int) -> LeaderboardEntry {
    LeaderboardEntry {
        meme_id: e.0,
        meme_data: if b.store.memes@.contains_key(e.0) {
            Some(public_of(b, b.store.memes@[e.0]))
        } else {
            None
        },
        votes: e.1,
        rank: rank as u32,
    }
}

/// The elements of a filtered walk each come from the walked list.
proof fn lemma_week_pairs_from(s: Seq<(u64, MemeVotes)>, week_id: u64)
    ensures
        forall|i: int| 0 <= i < week_pairs(s, week_id).len() ==> exists|j: int|
            0 <= j < s.len() && #[trigger] week_pairs(s, week_id)[i] == s[j],
    decreases s.len(),
{
    if s.len() > 0 {
        lemma_week_pairs_from(s.drop_last(), week_id);
        let r = week_pairs(s, week_id);
        let r0 = week_pairs(s.drop_last(), week_id);
        assert forall|i: int| 0 <= i < r.len() implies exists|j: int| 0 <= j < s.len() && #[trigger] r[i] == s[j] by {
            if i < r0.len() {
                assert(r[i] == r0[i]);
                let j = choose|j: int| 0 <= j < s.drop_last().len() && #[trigger] r0[i] == s.drop_last()[j];
                assert(s[j] == s.drop_last()[j]);
            } else {
                assert(r[i] == s[s.len() - 1]);
            }
        }
    }
}

impl Backend {
    /// The top three memes of a completed week by upvotes (then latest vote,
    /// then smallest id).
    pub fn get_top3_for_week(&self, week_id: u64) -> (r: Result<Vec<LegacyTopEntry>, String>)
        requires
            self.wf(),
        ensures
            !self.voting.periods@.contains_key(week_id) ==> (r matches Err(e) && e@ == "Week not found"@),
            self.voting.periods@.contains_key(week_id) && !self.voting.periods@[week_id].is_completed ==> (r matches Err(
                e,
            ) && e@ == "Week not completed yet"@),
            self.voting.periods@.contains_key(week_id) && self.voting.periods@[week_id].is_completed ==> (r matches Ok(v)
                && v@ == week_top3(*self, week_id)),
    {
        match self.voting.periods.get(week_id) {
            None => return Err(String::from_str("Week not found")),
            Some(p) => {
                if !p.is_completed {
                    return Err(String::from_str("Week not completed yet"));
                }
            },
        }
        let n = self.voting.votes.len();
        let ghost s = self.voting.votes.entries_seq();
        let mut items: Vec<LegacyTopEntry> = Vec::new();
        let mut i: usize = 0;
        while i < n
            invariant
                self.wf(),
                n == self.voting.votes.spec_len(),
                s == self.voting.votes.entries_seq(),
                i <= n,
                items@ == week_top_entries(s.take(i as int), week_id),
            decreases n - i,
        {
            let (id, mv) = self.voting.votes.entry_at(i);
            proof {
                assert(s.take(i as int + 1).drop_last() =~= s.take(i as int));
            }
            if mv.created_week == week_id {
                items.push(LegacyTopEntry {
                    meme_id: id,
                    upvotes: mv.upvotes,
                    downvotes: mv.downvotes,
                    last_vote_time: mv.last_vote_time,
                });
            }
            i += 1;
        }
        assert(s.take(n as int) =~= s);
        let ghost cands = items@;
        let mut sorted = sort_by_rank(items);
        proof {
            assert(rank_injective(sorted@)) by {
                assert forall|a: int, b: int|
                    0 <= a < sorted@.len() && 0 <= b < sorted@.len() && #[trigger] sorted@[a].rank()
                        == #[trigger] sorted@[b].rank() implies sorted@[a] == sorted@[b] by {
                    let x = sorted@[a];
                    let y = sorted@[b];
                    assert(x.upvotes == y.upvotes);
                    assert(x.last_vote_time == y.last_vote_time);
                }
            }
            lemma_is_rank_sorted(sorted@, cands);
        }
        if sorted.len() > 3 {
            sorted.truncate(3);
        }
        proof {
            assert(sorted@ =~= week_top3(*self, week_id));
        }
        Ok(sorted)
    }

    /// The most-liked memes across all weeks: every tallied meme ranked by
    /// upvotes (then fewest downvotes, latest vote, smallest id), at most
    /// `liked_limit` of them, each with its meme in public form; and the
    /// number of memes with tallies.
    pub fn get_top_liked_memes(&self, limit: Option<u32>) -> (r: TopLikedLeaderboard)
        requires
            self.wf(),
        ensures
            r.total_ranked == self.voting.votes@.len() as u32,
            sorted_by_rank(rank_sorted(self.voting.votes.entries_seq())),
            rank_sorted(self.voting.votes.entries_seq()).to_multiset() == self.voting.votes.entries_seq().to_multiset(),
            ({
                let ranked = first_n(rank_sorted(self.voting.votes.entries_seq()), liked_limit(limit));
                &&& r.top_memes@.len() == ranked.len()
                &&& forall|i: int|
                    0 <= i < ranked.len() ==> #[trigger] r.top_memes@[i] == liked_entry(*self, ranked[i], i + 1)
            }),
    {
        let requested = match limit {
            Some(l) => l,
            None => 3,
        };
        let lim: usize = if requested < 1 { 1 } else if requested > 50 { 50 } else { requested as usize };
        let n = self.voting.votes.len();
        let ghost s = self.voting.votes.entries_seq();
        let mut items: Vec<(u64, MemeVotes)> = Vec::new();
        let mut i: usize = 0;
        while i < n
            invariant
                self.wf(),
                n == self.voting.votes.spec_len(),
                s == self.voting.votes.entries_seq(),
                i <= n,
                items@ == s.take(i as int),
            decreases n - i,
        {
            let (id, mv) = self.voting.votes.entry_at(i);
            items.push((id, *mv));
            assert(items@ =~= s.take(i as int + 1));
            i += 1;
        }
        assert(s.take(n as int) =~= s);
        let ghost cands = items@;
        let mut sorted = sort_by_rank(items);
        proof {
            lemma_increasing_distinct(s);
            sorted@.to_multiset_ensures();
            cands.to_multiset_ensures();
            assert(rank_injective(sorted@)) by {
                assert forall|a: int, b: int|
                    0 <= a < sorted@.len() && 0 <= b < sorted@.len() && #[trigger] sorted@[a].rank()
                        == #[trigger] sorted@[b].rank() implies sorted@[a] == sorted@[b] by {
                    assert(sorted@.contains(sorted@[a]));
                    assert(sorted@.contains(sorted@[b]));
                    assert(cands.to_multiset().count(sorted@[a]) > 0);
                    assert(cands.to_multiset().count(sorted@[b]) > 0);
                    let ja = choose|ja: int| 0 <= ja < cands.len() && cands[ja] == sorted@[a];
                    let jb = choose|jb: int| 0 <= jb < cands.len() && cands[jb] == sorted@[b];
                    assert(s[ja].0 == s[jb].0);
                    if ja != jb {
                        assert(s[ja].0.kv() != s[jb].0.kv());
                    }
                }
            }
            lemma_is_rank_sorted(sorted@, cands);
            assert(cands == s);
        }
        if sorted.len() > lim {
            sorted.truncate(lim);
        }
        let ghost ranked = sorted@;
        let mut top: Vec<LeaderboardEntry> = Vec::new();
        let mut k: usize = 0;
        while k < sorted.len()
            invariant
                self.wf(),
                ranked == sorted@,
                k <= sorted@.len(),
                top@.len() == k,
                forall|j: int| 0 <= j < k ==> #[trigger] top@[j] == liked_entry(*self, ranked[j], j + 1),
            decreases sorted@.len() - k,
        {
            let (id, mv) = sorted[k];
            let data = self.get_meme(id);
            top.push(LeaderboardEntry { meme_id: id, meme_data: data, votes: mv, rank: (k + 1) as u32 });
            k += 1;
        }
        let total = self.voting.votes.len() as u32;
        TopLikedLeaderboard { total_ranked: total, top_memes: top }
    }
}

/// The tallies that remain once those of memes created in `week_id` or
/// earlier are removed.
pub open spec fn votes_after_cleanup(votes: Map<u64, MemeVotes>, week_id: u64) -> Map<u64, MemeVotes> {
    Map::new(|k: u64| votes.contains_key(k) && votes[k].created_week > week_id, |k: u64| votes[k])
}

/// The user votes that remain once the votes on memes whose tallies are
/// removed by a cleanup of `week_id` are removed.
pub open spec fn user_votes_after_cleanup(
    uv: Map<(Seq<char>, u64), VoteRecord>,
    votes: Map<u64, MemeVotes>,
    week_id: u64,
) -> Map<(Seq<char>, u64), VoteRecord> {
    Map::new(
        |k: (Seq<char>, u64)|
            uv.contains_key(k) && !(votes.contains_key(k.1) && votes[k.1].created_week <= week_id),
        |k: (Seq<char>, u64)| uv[k],
    )
}

/// The period of a finalized week: the stored one marked completed, or a
/// new completed one.
pub open spec fn finalized_period(periods: Map<u64, WeeklyPeriod>, week_id: u64) -> WeeklyPeriod {
    if periods.contains_key(week_id) {
        WeeklyPeriod { is_completed: true, ..periods[week_id] }
    } else {
        new_period(week_id, true)
    }
}

/// The memes once every meme registered for any of `weeks` is finalized at `t`.
pub open spec fn memes_finalized_weeks(
    memes: Map<u64, crate::model::StoredMeme>,
    index: Map<u64, Vec<u64>>,
    weeks: Seq<u64>,
    t: u64,
) -> Map<u64, crate::model::StoredMeme> {
    Map::new(
        |k: u64| memes.contains_key(k),
        |k: u64| if exists|j: int| 0 <= j < weeks.len() && #[trigger] week_ids(index, weeks[j]).contains(k) {
            crate::rollover::finalized_meme(memes[k], t)
        } else {
            memes[k]
        },
    )
}

/// The weeks to close at `now_ns`, walked in week order: not completed,
/// earlier than the week of `now_ns`, and ended.
pub open spec fn closable_weeks(s: Seq<(u64, WeeklyPeriod)>, now_ns: u64) -> Seq<u64>
    decreases s.len(),
{
    if s.len() == 0 {
        Seq::empty()
    } else if !s.last().1.is_completed && s.last().1.week_id < week_of_ns(now_ns as int) && now_ns > s.last().1.end_time {
        closable_weeks(s.drop_last(), now_ns).push(s.last().0)
    } else {
        closable_weeks(s.drop_last(), now_ns)
    }
}

/// The state after a week is finalized at `now_ns`, described table by table.
pub open spec fn finalized_week_state(a: Backend, b: Backend, week_id: u64, now_ns: u64) -> bool {
    &&& b.voting.periods@ == a.voting.periods@.insert(week_id, finalized_period(a.voting.periods@, week_id))
    &&& b.voting.votes@ == votes_after_cleanup(a.voting.votes@, week_id)
    &&& b.voting.user_votes@ == user_votes_after_cleanup(a.voting.user_votes@, a.voting.votes@, week_id)
    &&& b.voting.powers == a.voting.powers
    &&& b.voting.lifetime_upvotes == a.voting.lifetime_upvotes
    &&& b.board.live_votes@ == Map::<u64, u64>::empty()
    &&& b.board.finalized == a.board.finalized
    &&& b.store.memes@ == memes_finalized(
        a.store.memes@,
        week_ids(a.weeks.week_index@, week_id),
        now_ns / crate::weeks::NANOS_PER_SECOND,
    )
    &&& b.store.user_memes == a.store.user_memes
    &&& b.store.meme_counter == a.store.meme_counter
    &&& b.store.unique_users == a.store.unique_users
    &&& b.store.rate == a.store.rate
    &&& b.weeks == a.weeks
    &&& b.nft == a.nft
}

/// Whether a list holds a value.
pub fn vec_contains(v: &Vec<u64>, x: u64) -> (r: bool)
    ensures
        r == v@.contains(x),
{
    let mut i: usize = 0;
    while i < v.len()
        invariant
            i <= v@.len(),
            forall|j: int| 0 <= j < i ==> v@[j] != x,
        decreases v@.len() - i,
    {
        if v[i] == x {
            assert(v@[i as int] == x);
            return true;
        }
        i += 1;
    }
    false
}

impl Backend {
    /// Removes the tallies of memes created in `finalized_week_id` or
    /// earlier, and the user votes on those memes; the memes themselves stay.
    pub fn cleanup_old_week_data(&mut self, finalized_week_id: u64) -> (r: Result<(), String>)
        requires
            old(self).wf(),
        ensures
            history_kept(*old(self), *final(self)),
            final(self).wf(),
            r is Ok,
            final(self).voting.votes@ == votes_after_cleanup(old(self).voting.votes@, finalized_week_id),
            final(self).voting.user_votes@ == user_votes_after_cleanup(
                old(self).voting.user_votes@,
                old(self).voting.votes@,
                finalized_week_id,
            ),
            final(self).voting.periods == old(self).voting.periods,
            final(self).voting.powers == old(self).voting.powers,
            final(self).voting.lifetime_upvotes == old(self).voting.lifetime_upvotes,
            final(self).weeks == old(self).weeks,
            final(self).board == old(self).board,
            final(self).store == old(self).store,
            final(self).nft == old(self).nft,
    {
        let ghost votes0 = self.voting.votes@;
        let ghost uv0 = self.voting.user_votes@;
        let n = self.voting.votes.len();
        let mut votes_to_remove: Vec<u64> = Vec::new();
        let mut i: usize = 0;
        proof {
            self.voting.votes.lemma_view();
        }
        while i < n
            invariant
                self.wf(),
                votes0 == self.voting.votes@,
                n == self.voting.votes.spec_len(),
                i <= n,
                forall|j: int|
                    0 <= j < votes_to_remove@.len() ==> votes0.contains_key(#[trigger] votes_to_remove@[j])
                        && votes0[votes_to_remove@[j]].created_week <= finalized_week_id,
                forall|j: int|
                    0 <= j < i && (#[trigger] self.voting.votes.entries_seq()[j]).1.created_week
                        <= finalized_week_id ==> votes_to_remove@.contains(self.voting.votes.entries_seq()[j].0),
            decreases n - i,
        {
            let (k, mv) = self.voting.votes.entry_at(i);
            proof {
                self.voting.votes.lemma_view();
                assert(votes0.contains_key(self.voting.votes.entries_seq()[i as int].0));
                assert(votes0[k] == *mv);
            }
            if mv.created_week <= finalized_week_id {
                let ghost before = votes_to_remove@;
                votes_to_remove.push(k);
                proof {
                    assert forall|j: int|
                        0 <= j < i + 1 && (#[trigger] self.voting.votes.entries_seq()[j]).1.created_week
                            <= finalized_week_id implies votes_to_remove@.contains(self.voting.votes.entries_seq()[j].0) by {
                        if j == i {
                            assert(votes_to_remove@[votes_to_remove@.len() - 1] == k);
                        } else {
                            assert(before.contains(self.voting.votes.entries_seq()[j].0));
                            let t = choose|t: int| 0 <= t < before.len() && before[t] == self.voting.votes.entries_seq()[j].0;
                            assert(votes_to_remove@[t] == before[t]);
                        }
                    }
                }
            }
            i += 1;
        }
        proof {
            self.voting.votes.lemma_view();
            assert forall|k: u64| votes0.contains_key(k) implies (votes_to_remove@.contains(k) <==> votes0[k].created_week
                <= finalized_week_id) by {
                if votes_to_remove@.contains(k) {
                    let t = choose|t: int| 0 <= t < votes_to_remove@.len() && votes_to_remove@[t] == k;
                    assert(votes0.contains_key(votes_to_remove@[t]));
                }
                if votes0[k].created_week <= finalized_week_id {
                    let j = choose|j: int| 0 <= j < self.voting.votes.spec_len() && #[trigger] self.voting.votes.entries_seq()[j].0 == k;
                    assert(self.voting.votes.entries_seq()[j].1 == votes0[k]);
                }
            }
        }
        let m = self.voting.user_votes.len();
        let mut user_votes_to_remove: Vec<UserMemeKey> = Vec::new();
        let mut i: usize = 0;
        proof {
            self.voting.user_votes.lemma_view();
        }
        while i < m
            invariant
                self.wf(),
                uv0 == self.voting.user_votes@,
                m == self.voting.user_votes.spec_len(),
                i <= m,
                forall|j: int|
                    0 <= j < user_votes_to_remove@.len() ==> votes_to_remove@.contains(
                        (#[trigger] user_votes_to_remove@[j]).meme_id,
                    ),
                forall|j: int|
                    0 <= j < i && votes_to_remove@.contains(
                        (#[trigger] self.voting.user_votes.entries_seq()[j]).0.meme_id,
                    ) ==> user_votes_to_remove@.map_values(|x: UserMemeKey| x.kv()).contains(
                        self.voting.user_votes.entries_seq()[j].0.kv(),
                    ),
            decreases m - i,
        {
            let (k, _) = self.voting.user_votes.entry_at(i);
            if vec_contains(&votes_to_remove, k.meme_id) {
                let ghost before = user_votes_to_remove@;
                user_votes_to_remove.push(k.key_copy());
                proof {
                    let kv = user_votes_to_remove@.map_values(|x: UserMemeKey| x.kv());
                    assert forall|j: int|
                        0 <= j < i + 1 && votes_to_remove@.contains(
                            (#[trigger] self.voting.user_votes.entries_seq()[j]).0.meme_id,
                        ) implies kv.contains(self.voting.user_votes.entries_seq()[j].0.kv()) by {
                        if j < i {
                            let bv = before.map_values(|x: UserMemeKey| x.kv());
                            let t = choose|t: int| 0 <= t < bv.len() && bv[t] == self.voting.user_votes.entries_seq()[j].0.kv();
                            assert(kv[t] == bv[t]);
                        } else {
                            assert(kv[before.len() as int] == k.kv());
                        }
                    }
                }
            }
            i += 1;
        }
        proof {
            self.voting.user_votes.lemma_view();
        }
        let ghost uv_entries = self.voting.user_votes.entries_seq();
        self.voting.votes.remove_all(&votes_to_remove);
        self.voting.user_votes.remove_all(&user_votes_to_remove);
        proof {
            assert(self.voting.votes@ =~= votes_after_cleanup(votes0, finalized_week_id));
            let kv = user_votes_to_remove@.map_values(|x: UserMemeKey| x.kv());
            assert forall|k: (Seq<char>, u64)| uv0.contains_key(k) implies (kv.contains(k) <==> (votes0.contains_key(k.1)
                && votes0[k.1].created_week <= finalized_week_id)) by {
                if kv.contains(k) {
                    let t = choose|t: int| 0 <= t < kv.len() && kv[t] == k;
                    assert(votes_to_remove@.contains(user_votes_to_remove@[t].meme_id));
                }
                if votes0.contains_key(k.1) && votes0[k.1].created_week <= finalized_week_id {
                    let j = choose|j: int| 0 <= j < uv_entries.len() && #[trigger] uv_entries[j].0.kv() == k;
                    assert(uv_entries[j].0.meme_id == k.1);
                }
            }
            assert(self.voting.user_votes@ =~= user_votes_after_cleanup(uv0, votes0, finalized_week_id));
        }
        Ok(())
    }

    /// Finalizes a week: marks its voting week completed (creating it when it
    /// is not in the future), takes its top three, removes the tallies and
    /// votes of it and earlier weeks, forgets the live counts and marks its
    /// memes finalized. No mint entitlements are issued for the week's
    /// winners: minting is not gated by entitlements in this library.
    pub fn finalize_week(&mut self, week_id: u64, now_ns: u64) -> (r: Result<(), String>)
        requires
            old(self).wf(),
        ensures
            history_kept(*old(self), *final(self)),
            final(self).wf(),
            if !old(self).voting.periods@.contains_key(week_id) && week_id > week_of_ns(now_ns as int) {
                &&& r matches Err(e) && e@ == "Cannot finalize future week"@
                &&& *final(self) == *old(self)
            } else {
                &&& r is Ok
                &&& finalized_week_state(*old(self), *final(self), week_id, now_ns)
            },
    {
        let ghost b0 = *self;
        match self.voting.periods.get(week_id) {
            Some(p) => {
                let mut c = *p;
                c.is_completed = true;
                self.voting.periods.insert(week_id, c);
            },
            None => {
                let current = get_week_id(now_ns);
                if week_id <= current {
                    let p = make_period(week_id, true);
                    self.voting.periods.insert(week_id, p);
                } else {
                    return Err(String::from_str("Cannot finalize future week"));
                }
            },
        }
        assert(self.voting.votes == b0.voting.votes);
        let _ = self.cleanup_old_week_data(week_id);
        self.clear_live_votes();
        self.finalize_memes_for_week(week_id, now_ns / crate::weeks::NANOS_PER_SECOND);
        Ok(())
    }

    /// Closes every week that has ended: each voting week that is not
    /// completed, lies before the week of `now_ns` and ended before `now_ns`
    /// is finalized, in week order. Returns the weeks finalized.
    pub fn close_finished_weeks(&mut self, now_ns: u64) -> (r: Vec<u64>)
        requires
            old(self).wf(),
        ensures
            history_kept(*old(self), *final(self)),
            final(self).wf(),
            r@ == closable_weeks(old(self).voting.periods.entries_seq(), now_ns),
            closed_weeks_state(*old(self), *final(self), r@, now_ns),
            final(self).voting.periods@ == periods_closed(old(self).voting.periods@, r@),
    {
        let ghost b0 = *self;
        let n = self.voting.periods.len();
        let current = get_week_id(now_ns);
        let ghost ps = self.voting.periods.entries_seq();
        let mut to_finalize: Vec<u64> = Vec::new();
        let mut i: usize = 0;
        while i < n
            invariant
                self.wf(),
                n == self.voting.periods.spec_len(),
                ps == self.voting.periods.entries_seq(),
                current == week_of_ns(now_ns as int),
                i <= n,
                to_finalize@ == closable_weeks(ps.take(i as int), now_ns),
            decreases n - i,
        {
            let (k, p) = self.voting.periods.entry_at(i);
            proof {
                assert(ps.take(i as int + 1).drop_last() =~= ps.take(i as int));
            }
            if !p.is_completed && p.week_id < current && now_ns > p.end_time {
                to_finalize.push(k);
            }
            i += 1;
        }
        assert(ps.take(n as int) =~= ps);
        proof {
            self.voting.periods.lemma_view();
            lemma_closable_props(ps, now_ns);
            assert(to_finalize@.take(0) =~= Seq::<u64>::empty());
            assert(self.voting.periods@ =~= periods_closed(b0.voting.periods@, to_finalize@.take(0)));
            assert(closed_weeks_state(b0, *self, to_finalize@.take(0), now_ns)) by {
                assert(self.store.memes@ =~= memes_finalized_weeks(b0.store.memes@, b0.weeks.week_index@, Seq::<u64>::empty(), now_ns / crate::weeks::NANOS_PER_SECOND));
            }
        }
        let mut j: usize = 0;
        while j < to_finalize.len()
            invariant
                self.wf(),
                b0.wf(),
                j <= to_finalize@.len(),
                to_finalize@ == closable_weeks(ps, now_ns),
                ps == b0.voting.periods.entries_seq(),
                keys_increasing(ps),
                forall|a: int| 0 <= a < to_finalize@.len() ==> b0.voting.periods@.contains_key(#[trigger] to_finalize@[a]),
                forall|a: int| 0 <= a < to_finalize@.len() ==> !b0.voting.periods@[#[trigger] to_finalize@[a]].is_completed,
                forall|a: int, c: int| 0 <= a < c < to_finalize@.len() ==> #[trigger] to_finalize@[a] < #[trigger] to_finalize@[c],
                closed_weeks_state(b0, *self, to_finalize@.take(j as int), now_ns),
                self.voting.periods@ == periods_closed(b0.voting.periods@, to_finalize@.take(j as int)),
            decreases to_finalize@.len() - j,
        {
            let w = to_finalize[j];
            let ghost before = *self;
            let _ = self.finalize_week(w, now_ns);
            proof {
                lemma_close_step(b0, before, *self, to_finalize@, j as int, now_ns);
            }
            j += 1;
        }
        assert(to_finalize@.take(j as int) =~= to_finalize@);
        to_finalize
    }
}

/// The periods once every week of `weeks` is marked completed.
pub open spec fn periods_closed(periods: Map<u64, WeeklyPeriod>, weeks: Seq<u64>) -> Map<u64, WeeklyPeriod> {
    Map::new(
        |k: u64| periods.contains_key(k),
        |k: u64| if weeks.contains(k) { WeeklyPeriod { is_completed: true, ..periods[k] } } else { periods[k] },
    )
}

/// The state after the weeks `weeks` (increasing) are finalized in order.
pub open spec fn closed_weeks_state(a: Backend, b: Backend, weeks: Seq<u64>, now_ns: u64) -> bool {
    &&& b.voting.powers == a.voting.powers
    &&& b.voting.lifetime_upvotes == a.voting.lifetime_upvotes
    &&& b.board.finalized == a.board.finalized
    &&& b.store.memes@ == memes_finalized_weeks(
        a.store.memes@,
        a.weeks.week_index@,
        weeks,
        now_ns / crate::weeks::NANOS_PER_SECOND,
    )
    &&& b.store.user_memes == a.store.user_memes
    &&& b.store.meme_counter == a.store.meme_counter
    &&& b.store.unique_users == a.store.unique_users
    &&& b.store.rate == a.store.rate
    &&& b.weeks == a.weeks
    &&& b.nft == a.nft
    &&& if weeks.len() == 0 {
        &&& b.voting.votes == a.voting.votes
        &&& b.voting.user_votes == a.voting.user_votes
        &&& b.board.live_votes == a.board.live_votes
    } else {
        &&& b.voting.votes@ == votes_after_cleanup(a.voting.votes@, weeks.last())
        &&& b.voting.user_votes@ == user_votes_after_cleanup(a.voting.user_votes@, a.voting.votes@, weeks.last())
        &&& b.board.live_votes@ == Map::<u64, u64>::empty()
    }
}

/// Closable weeks are keys of the walked periods that are not completed,
/// in increasing order.
proof fn lemma_closable_props(ps: Seq<(u64, WeeklyPeriod)>, now_ns: u64)
    requires
        keys_increasing(ps),
    ensures
        forall|a: int| 0 <= a < closable_weeks(ps, now_ns).len() ==> exists|i: int|
            0 <= i < ps.len() && ps[i].0 == #[trigger] closable_weeks(ps, now_ns)[a] && !ps[i].1.is_completed,
        forall|a: int, c: int|
            0 <= a < c < closable_weeks(ps, now_ns).len() ==> #[trigger] closable_weeks(ps, now_ns)[a]
                < #[trigger] closable_weeks(ps, now_ns)[c],
    decreases ps.len(),
{
    if ps.len() > 0 {
        let ps0 = ps.drop_last();
        assert(keys_increasing(ps0)) by {
            assert forall|x: int, y: int| 0 <= x < y < ps0.len() implies #[trigger] ps0[x].0 < #[trigger] ps0[y].0 by {
                assert(ps0[x] == ps[x] && ps0[y] == ps[y]);
            }
        }
        lemma_closable_props(ps0, now_ns);
        let c0 = closable_weeks(ps0, now_ns);
        let c = closable_weeks(ps, now_ns);
        assert forall|a: int| 0 <= a < c.len() implies exists|i: int|
            0 <= i < ps.len() && ps[i].0 == #[trigger] c[a] && !ps[i].1.is_completed by {
            if a < c0.len() {
                assert(c[a] == c0[a]);
                let i = choose|i: int| 0 <= i < ps0.len() && ps0[i].0 == #[trigger] c0[a] && !ps0[i].1.is_completed;
                assert(ps[i] == ps0[i]);
            } else {
                assert(c[a] == ps[ps.len() - 1].0);
            }
        }
        assert forall|a: int, d: int| 0 <= a < d < c.len() implies #[trigger] c[a] < #[trigger] c[d] by {
            if d < c0.len() {
                assert(c[a] == c0[a] && c[d] == c0[d]);
            } else {
                assert(c[a] == c0[a]);
                let i = choose|i: int| 0 <= i < ps0.len() && ps0[i].0 == #[trigger] c0[a] && !ps0[i].1.is_completed;
                assert(ps[i] == ps0[i]);
                assert(ps[i].0 < ps[ps.len() - 1].0);
            }
        }
    }
}

/// One more finalized week extends the description of the closed state.
proof fn lemma_close_step(b0: Backend, before: Backend, after: Backend, weeks: Seq<u64>, j: int, now_ns: u64)
    requires
        0 <= j < weeks.len(),
        closed_weeks_state(b0, before, weeks.take(j), now_ns),
        before.voting.periods@ == periods_closed(b0.voting.periods@, weeks.take(j)),
        finalized_week_state(before, after, weeks[j], now_ns),
        b0.voting.periods@.contains_key(weeks[j]),
        forall|a: int, c: int| 0 <= a < c < weeks.len() ==> #[trigger] weeks[a] < #[trigger] weeks[c],
    ensures
        closed_weeks_state(b0, after, weeks.take(j + 1), now_ns),
        after.voting.periods@ == periods_closed(b0.voting.periods@, weeks.take(j + 1)),
{
    let w = weeks[j];
    let pre = weeks.take(j);
    let post = weeks.take(j + 1);
    let t = now_ns / crate::weeks::NANOS_PER_SECOND;
    assert(pre =~= weeks.subrange(0, j));
    assert(post =~= weeks.subrange(0, j + 1));
    crate::keyed::lemma_prefix_step(weeks, j);
    assert forall|k: u64| post.contains(k) <==> pre.contains(k) || k == w by {}
    // periods
    assert(after.voting.periods@ =~= periods_closed(b0.voting.periods@, post));
    // votes and user votes
    if j == 0 {
        assert(post.last() == w);
        assert(after.voting.votes@ =~= votes_after_cleanup(b0.voting.votes@, w));
        assert(after.voting.user_votes@ =~= user_votes_after_cleanup(b0.voting.user_votes@, b0.voting.votes@, w));
    } else {
        let a = pre.last();
        assert(a == weeks[j - 1]);
        assert(a < w);
        assert(post.last() == w);
        assert(after.voting.votes@ =~= votes_after_cleanup(b0.voting.votes@, w));
        assert(after.voting.user_votes@ =~= user_votes_after_cleanup(b0.voting.user_votes@, b0.voting.votes@, w));
    }
    // memes
    let index = b0.weeks.week_index@;
    assert forall|k: u64| (exists|x: int| 0 <= x < post.len() && #[trigger] week_ids(index, post[x]).contains(k))
        <==> ((exists|x: int| 0 <= x < pre.len() && #[trigger] week_ids(index, pre[x]).contains(k))
        || week_ids(index, w).contains(k)) by {
        if exists|x: int| 0 <= x < post.len() && #[trigger] week_ids(index, post[x]).contains(k) {
            let x = choose|x: int| 0 <= x < post.len() && #[trigger] week_ids(index, post[x]).contains(k);
            if x < j {
                assert(pre[x] == post[x]);
            }
        }
        if exists|x: int| 0 <= x < pre.len() && #[trigger] week_ids(index, pre[x]).contains(k) {
            let x = choose|x: int| 0 <= x < pre.len() && #[trigger] week_ids(index, pre[x]).contains(k);
            assert(post[x] == pre[x]);
        }
        if week_ids(index, w).contains(k) {
            assert(post[j] == w);
        }
    }
    assert(after.store.memes@ =~= memes_finalized_weeks(b0.store.memes@, index, post, t));
}

/// The week before the week of `now_ns`, none in week 0.
pub fn get_previous_week_id(now_ns: u64) -> (r: Option<u64>)
    ensures
        r == if week_of_ns(now_ns as int) == 0 {
            None::<u64>
        } else {
            Some((week_of_ns(now_ns as int) - 1) as u64)
        },
{
    let current = get_week_id(now_ns);
    if current == 0 {
        return None;
    }
    Some(current - 1)
}

/// Prefix sums never exceed the whole sum.
pub proof fn lemma_sum_all_votes_prefix(s: Seq<(u64, MemeVotes)>, k: int)
    requires
        0 <= k <= s.len(),
    ensures
        sum_all_votes(s.take(k)) <= sum_all_votes(s),
    decreases s.len() - k,
{
    if k < s.len() {
        lemma_sum_all_votes_prefix(s, k + 1);
        assert(s.take(k + 1).drop_last() =~= s.take(k));
    } else {
        assert(s.take(k) =~= s);
    }
}

/// Prefix sums never exceed the whole sum.
pub proof fn lemma_sum_upvotes_prefix(s: Seq<(u64, MemeVotes)>, k: int)
    requires
        0 <= k <= s.len(),
    ensures
        sum_upvotes(s.take(k)) <= sum_upvotes(s),
    decreases s.len() - k,
{
    if k < s.len() {
        lemma_sum_upvotes_prefix(s, k + 1);
        assert(s.take(k + 1).drop_last() =~= s.take(k));
    } else {
        assert(s.take(k) =~= s);
    }
}

} // verus!
