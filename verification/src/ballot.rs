//! Casting and withdrawing votes on the memes of the current week.

use vstd::prelude::*;
use crate::state::history_kept;
use crate::ids::{anonymous_view, caller, UserId, UserMemeKey};
use crate::keyed::Key;
use crate::leaderboard::with_count;
use crate::model::{MemeVotes, StoredMeme, UserPower, VoteRecord, VoteResponse, VoteType, WeeklyPeriod};
use crate::state::Backend;
use crate::voting::{
    closable_weeks, closed_weeks_state, memes_finalized_weeks, new_period, periods_after_ensure,
    periods_closed, power_in_week, user_votes_after_cleanup, votes_after_cleanup, DEFAULT_VOTE_COST,
    WEEKLY_POWER_CAP,
};
use crate::weeks::{get_week_id, host_time_ns, normalize_timestamp_ns, normalized_ns, week_of_ns};

verus! {

/// The weeks that voting would close at `now_ns`.
pub open spec fn weeks_to_close(b: Backend, now_ns: u64) -> Seq<u64> {
    closable_weeks(b.voting.periods.entries_seq(), now_ns)
}

/// The voting weeks once finished weeks are closed and a week is ensured open.
pub open spec fn ensured_periods(b: Backend, now_ns: u64) -> Map<u64, WeeklyPeriod> {
    periods_after_ensure(periods_closed(b.voting.periods@, weeks_to_close(b, now_ns)), now_ns)
}

/// The voting weeks once, in addition, the week of `now_ns` exists.
pub open spec fn current_periods(b: Backend, now_ns: u64) -> Map<u64, WeeklyPeriod> {
    let p = ensured_periods(b, now_ns);
    let cw = week_of_ns(now_ns as int) as u64;
    if p.contains_key(cw) { p } else { p.insert(cw, new_period(cw, false)) }
}

/// The state once finished weeks are closed and a week is ensured open, with
/// the voting weeks `periods`.
pub open spec fn prepared(a: Backend, b: Backend, now_ns: u64, periods: Map<u64, WeeklyPeriod>) -> bool {
    &&& closed_weeks_state(a, b, weeks_to_close(a, now_ns), now_ns)
    &&& b.voting.periods@ == periods
}

/// The meme's week: the week of its creation time, normalized to nanoseconds.
pub open spec fn meme_week(m: StoredMeme) -> u64 {
    week_of_ns(normalized_ns(m.created_at as int)) as u64
}

/// The tallies of a meme after a user's vote of `vote_type`: a vote the
/// user cast before (`prev`) is taken back first, otherwise the user counts
/// as one more voter.
pub open spec fn tallied(base: MemeVotes, prev: Option<VoteType>, vote_type: VoteType, now_ns: u64) -> MemeVotes {
    let b1 = match prev {
        Some(VoteType::Upvote) => MemeVotes { upvotes: base.upvotes.saturating_sub(1), ..base },
        Some(VoteType::Downvote) => MemeVotes { downvotes: base.downvotes.saturating_sub(1), ..base },
        None => MemeVotes { total_voters: base.total_voters.saturating_add(1), ..base },
    };
    MemeVotes {
        upvotes: if vote_type == VoteType::Upvote { b1.upvotes.saturating_add(1) } else { b1.upvotes },
        downvotes: if vote_type == VoteType::Downvote { b1.downvotes.saturating_add(1) } else { b1.downvotes },
        last_vote_time: now_ns,
        ..b1
    }
}

/// The count of upvotes ever cast after a vote of `vote_type`.
pub open spec fn lifetime_after(count: u64, vote_type: VoteType) -> u64 {
    if vote_type == VoteType::Upvote { count.saturating_add(1) } else { count }
}

/// The tallies of a meme once a user's vote of the given type is withdrawn.
pub open spec fn untallied(base: MemeVotes, vote_type: VoteType, now_ns: u64) -> MemeVotes {
    MemeVotes {
        total_voters: base.total_voters.saturating_sub(1),
        upvotes: if vote_type == VoteType::Upvote { base.upvotes.saturating_sub(1) } else { base.upvotes },
        downvotes: if vote_type == VoteType::Downvote { base.downvotes.saturating_sub(1) } else { base.downvotes },
        last_vote_time: now_ns,
        ..base
    }
}

/// The tallies a meme's first vote starts from.
pub open spec fn fresh_tallies(meme_id: u64, week: u64, now_ns: u64) -> MemeVotes {
    MemeVotes { meme_id, upvotes: 0, downvotes: 0, total_voters: 0, created_week: week, last_vote_time: now_ns }
}

/// The tallied votes of a meme, as the sum reported to the voter (wrapping,
/// as the unchecked sum does in the canister's release build).
pub open spec fn vote_count(mv: MemeVotes) -> u32 {
    mv.upvotes.wrapping_add(mv.downvotes)
}

/// The error of the checks made before any state is touched, if one fails.
pub open spec fn vote_input_error(user: Seq<char>, meme_id: u64, cost: u32) -> Option<Seq<char>> {
    if user == anonymous_view() {
        Some("Authentication required"@)
    } else if meme_id == 0 {
        Some("Invalid meme ID"@)
    } else if cost == 0 {
        Some("Voting cost must be greater than zero"@)
    } else if cost > WEEKLY_POWER_CAP {
        Some("Voting cost exceeds weekly cap"@)
    } else {
        None
    }
}

/// Everything that a cast vote leaves untouched besides the prepared tables.
pub open spec fn vote_frame(a: Backend, b: Backend) -> bool {
    &&& b.board.finalized == a.board.finalized
    &&& b.store.user_memes == a.store.user_memes
    &&& b.store.meme_counter == a.store.meme_counter
    &&& b.store.unique_users == a.store.unique_users
    &&& b.store.rate == a.store.rate
    &&& b.weeks == a.weeks
    &&& b.nft == a.nft
}

/// The whole outcome of a vote of `user` on `meme_id` at `now_ns`.
pub open spec fn vote_outcome(
    a: Backend,
    b: Backend,
    user: Seq<char>,
    meme_id: u64,
    vote_type: VoteType,
    cost: u32,
    now_ns: u64,
    r: Result<VoteResponse, String>,
) -> bool {
    let cw = week_of_ns(now_ns as int) as u64;
    let memes = a.store.memes@;
    let m = memes[meme_id];
    let periods = current_periods(a, now_ns);
    let period = periods[cw];
    let votes1 = if weeks_to_close(a, now_ns).len() == 0 {
        a.voting.votes@
    } else {
        votes_after_cleanup(a.voting.votes@, weeks_to_close(a, now_ns).last())
    };
    let uv1 = if weeks_to_close(a, now_ns).len() == 0 {
        a.voting.user_votes@
    } else {
        user_votes_after_cleanup(a.voting.user_votes@, a.voting.votes@, weeks_to_close(a, now_ns).last())
    };
    let live1 = if weeks_to_close(a, now_ns).len() == 0 {
        a.board.live_votes@
    } else {
        Map::<u64, u64>::empty()
    };
    let power = power_in_week(a.voting.powers@, user, cw);
    let base = if votes1.contains_key(meme_id) { votes1[meme_id] } else { fresh_tallies(meme_id, meme_week(m), now_ns) };
    let prev = if uv1.contains_key((user, meme_id)) { Some(uv1[(user, meme_id)].vote_type) } else { None::<VoteType> };
    let mv = tallied(base, prev, vote_type, now_ns);
    if vote_input_error(user, meme_id, cost) is Some {
        &&& r matches Err(e) && e@ == vote_input_error(user, meme_id, cost).unwrap()
        &&& b == a
    } else if !memes.contains_key(meme_id) {
        &&& r matches Err(e) && e@ == "Meme not found"@
        &&& prepared(a, b, now_ns, ensured_periods(a, now_ns))
    } else if m.owner@ == user {
        &&& r matches Err(e) && e@ == "Cannot vote on your own meme"@
        &&& prepared(a, b, now_ns, ensured_periods(a, now_ns))
    } else if meme_week(m) != cw {
        &&& r matches Err(e) && e@ == "Can only vote on memes from the current week"@
        &&& prepared(a, b, now_ns, periods)
    } else if period.is_completed || now_ns > period.end_time {
        &&& r matches Err(e) && e@ == "Voting period for the current week has ended"@
        &&& prepared(a, b, now_ns, periods)
    } else if power.remaining < cost {
        &&& r matches Err(e) && e@ == "Insufficient voting power"@
        &&& prepared(a, b, now_ns, periods)
    } else {
        &&& r matches Ok(resp) && resp.success && resp.message@ == "Vote recorded"@
            && resp.new_vote_count == vote_count(mv) && resp.user_previous_vote == prev
        &&& b.voting.periods@ == periods
        &&& b.voting.lifetime_upvotes == lifetime_after(a.voting.lifetime_upvotes, vote_type)
        &&& b.voting.powers@ == a.voting.powers@.insert(
            user,
            UserPower { remaining: (power.remaining - cost) as u32, ..power },
        )
        &&& b.voting.user_votes@ == uv1.insert((user, meme_id), VoteRecord { vote_type, timestamp: now_ns })
        &&& b.voting.votes@ == votes1.insert(meme_id, mv)
        &&& b.board.live_votes@ == with_count(live1, meme_id, mv.upvotes as u64)
        &&& b.store.memes@ == memes_finalized_weeks(
            a.store.memes@,
            a.weeks.week_index@,
            weeks_to_close(a, now_ns),
            now_ns / crate::weeks::NANOS_PER_SECOND,
        )
        &&& vote_frame(a, b)
    }
}

/// The whole outcome of `user` withdrawing their vote on `meme_id` at `now_ns`.
pub open spec fn remove_outcome(
    a: Backend,
    b: Backend,
    user: Seq<char>,
    meme_id: u64,
    now_ns: u64,
    r: Result<VoteResponse, String>,
) -> bool {
    let cw = week_of_ns(now_ns as int) as u64;
    let memes = a.store.memes@;
    let m = memes[meme_id];
    let periods = current_periods(a, now_ns);
    let period = periods[cw];
    let votes1 = if weeks_to_close(a, now_ns).len() == 0 {
        a.voting.votes@
    } else {
        votes_after_cleanup(a.voting.votes@, weeks_to_close(a, now_ns).last())
    };
    let uv1 = if weeks_to_close(a, now_ns).len() == 0 {
        a.voting.user_votes@
    } else {
        user_votes_after_cleanup(a.voting.user_votes@, a.voting.votes@, weeks_to_close(a, now_ns).last())
    };
    let live1 = if weeks_to_close(a, now_ns).len() == 0 {
        a.board.live_votes@
    } else {
        Map::<u64, u64>::empty()
    };
    let prev = uv1[(user, meme_id)];
    let mv = untallied(votes1[meme_id], prev.vote_type, now_ns);
    let memes1 = memes_finalized_weeks(
        a.store.memes@,
        a.weeks.week_index@,
        weeks_to_close(a, now_ns),
        now_ns / crate::weeks::NANOS_PER_SECOND,
    );
    if user == anonymous_view() {
        &&& r matches Err(e) && e@ == "Authentication required"@
        &&& b == a
    } else if meme_id == 0 {
        &&& r matches Err(e) && e@ == "Invalid meme ID"@
        &&& b == a
    } else if !memes.contains_key(meme_id) {
        &&& r matches Err(e) && e@ == "Meme not found"@
        &&& prepared(a, b, now_ns, ensured_periods(a, now_ns))
    } else if m.owner@ == user {
        &&& r matches Err(e) && e@ == "Cannot remove votes from your own meme"@
        &&& prepared(a, b, now_ns, ensured_periods(a, now_ns))
    } else if meme_week(m) != cw {
        &&& r matches Err(e) && e@ == "Can only remove votes from the current week"@
        &&& prepared(a, b, now_ns, periods)
    } else if period.is_completed || now_ns > period.end_time {
        &&& r matches Err(e) && e@ == "Voting period for the current week has ended"@
        &&& prepared(a, b, now_ns, periods)
    } else if !uv1.contains_key((user, meme_id)) {
        &&& r matches Err(e) && e@ == "No vote found to remove"@
        &&& prepared(a, b, now_ns, periods)
    } else {
        &&& b.voting.periods@ == periods
        &&& b.voting.user_votes@ == uv1.remove((user, meme_id))
        &&& b.voting.powers == a.voting.powers
        &&& b.voting.lifetime_upvotes == a.voting.lifetime_upvotes
        &&& b.store.memes@ == memes1
        &&& vote_frame(a, b)
        &&& if votes1.contains_key(meme_id) {
            &&& r matches Ok(resp) && resp.success && resp.message@ == "Vote removed"@
                && resp.new_vote_count == vote_count(mv) && resp.user_previous_vote == Some(prev.vote_type)
            &&& b.voting.votes@ == votes1.insert(meme_id, mv)
            &&& b.board.live_votes@ == with_count(live1, meme_id, mv.upvotes as u64)
        } else {
            &&& r matches Err(e) && e@ == "Meme votes not found"@
            &&& b.voting.votes@ == votes1
            &&& b.board.live_votes@ == live1
        }
    }
}

/// Whether a voting week is to be closed at `now_ns`: open, earlier than
/// the week of `now_ns`, and ended.
pub open spec fn closable_at(p: WeeklyPeriod, now_ns: u64) -> bool {
    !p.is_completed && p.week_id < week_of_ns(now_ns as int) && now_ns > p.end_time
}

/// No week is closed when none is closable.
proof fn lemma_closable_none(s: Seq<(u64, WeeklyPeriod)>, now_ns: u64)
    requires
        forall|i: int| 0 <= i < s.len() ==> !closable_at(#[trigger] s[i].1, now_ns),
    ensures
        closable_weeks(s, now_ns).len() == 0,
    decreases s.len(),
{
    if s.len() > 0 {
        let p = s.drop_last();
        assert forall|i: int| 0 <= i < p.len() implies !closable_at(#[trigger] p[i].1, now_ns) by {
            assert(p[i] == s[i]);
        }
        lemma_closable_none(p, now_ns);
        assert(!closable_at(s[s.len() - 1].1, now_ns));
    }
}

/// Every closable week is among the weeks closed.
proof fn lemma_closable_found(s: Seq<(u64, WeeklyPeriod)>, now_ns: u64, i: int)
    requires
        0 <= i < s.len(),
        closable_at(s[i].1, now_ns),
    ensures
        closable_weeks(s, now_ns).contains(s[i].0),
    decreases s.len(),
{
    let p = s.drop_last();
    if i < s.len() - 1 {
        assert(p[i] == s[i]);
        lemma_closable_found(p, now_ns, i);
        let j = choose|j: int| 0 <= j < closable_weeks(p, now_ns).len() && closable_weeks(p, now_ns)[j] == s[i].0;
        if closable_at(s.last().1, now_ns) {
            assert(closable_weeks(s, now_ns)[j] == s[i].0);
        }
    } else {
        assert(closable_weeks(s, now_ns).last() == s[i].0);
    }
}

/// The weeks to close lie before the week of `now_ns`.
pub proof fn lemma_closable_before_now(s: Seq<(u64, WeeklyPeriod)>, now_ns: u64)
    requires
        forall|i: int| 0 <= i < s.len() ==> (#[trigger] s[i]).1.week_id == s[i].0,
    ensures
        forall|j: int| 0 <= j < closable_weeks(s, now_ns).len() ==> #[trigger] closable_weeks(s, now_ns)[j]
            < week_of_ns(now_ns as int),
    decreases s.len(),
{
    if s.len() > 0 {
        let p = s.drop_last();
        assert forall|i: int| 0 <= i < p.len() implies (#[trigger] p[i]).1.week_id == p[i].0 by {
            assert(p[i] == s[i]);
        }
        lemma_closable_before_now(p, now_ns);
        assert(s[s.len() - 1].1.week_id == s[s.len() - 1].0);
        let c = closable_weeks(s, now_ns);
        let c0 = closable_weeks(p, now_ns);
        assert forall|j: int| 0 <= j < c.len() implies #[trigger] c[j] < week_of_ns(now_ns as int) by {
            if j < c0.len() {
                assert(c[j] == c0[j]);
            }
        }
    }
}

/// Once finished weeks are closed and a week is ensured open at `now_ns`,
/// nothing is left to close at `now_ns`.
pub proof fn lemma_prepared_leaves_nothing_to_close(a: Backend, b: Backend, now_ns: u64, periods: Map<u64, WeeklyPeriod>)
    requires
        a.wf(),
        b.wf(),
        b.voting.periods@ == periods,
        periods == current_periods(a, now_ns) || periods == ensured_periods(a, now_ns),
    ensures
        weeks_to_close(b, now_ns).len() == 0,
{
    let s = b.voting.periods.entries_seq();
    let sa = a.voting.periods.entries_seq();
    let w = weeks_to_close(a, now_ns);
    let cw = week_of_ns(now_ns as int) as u64;
    b.voting.periods.lemma_view();
    a.voting.periods.lemma_view();
    assert forall|i: int| 0 <= i < s.len() implies !closable_at(#[trigger] s[i].1, now_ns) by {
        let k = s[i].0;
        assert(b.voting.periods@.contains_key(k));
        assert(s[i].1 == b.voting.periods@[k]);
        assert(s[i].1.week_id == k);
        if k < cw {
            let closed = periods_closed(a.voting.periods@, w);
            assert(periods[k] == closed[k]);
            assert(a.voting.periods@.contains_key(k));
            if !w.contains(k) {
                let ia = choose|ia: int| 0 <= ia < sa.len() && #[trigger] sa[ia].0 == k;
                if closable_at(sa[ia].1, now_ns) {
                    lemma_closable_found(sa, now_ns, ia);
                }
            }
        }
    }
    lemma_closable_none(s, now_ns);
}

/// The power a vote with a requested cost charges: the default for 0.
pub open spec fn vote_charge(cost: u32) -> u32 {
    if cost == 0 { DEFAULT_VOTE_COST } else { cost }
}

impl Backend {
    /// Withdraws `user`'s vote on a meme of the current week at `now_ns`.
    /// The power spent on it is not returned.
    pub fn remove_vote_as(&mut self, user: &UserId, meme_id: u64, now_ns: u64) -> (r: Result<VoteResponse, String>)
        requires
            old(self).wf(),
        ensures
            history_kept(*old(self), *final(self)),
            final(self).wf(),
            remove_outcome(*old(self), *final(self), user@, meme_id, now_ns, r),
    {
        if user.is_anonymous() {
            return Err(String::from_str("Authentication required"));
        }
        if meme_id == 0 {
            return Err(String::from_str("Invalid meme ID"));
        }
        self.prepare_voting(now_ns);
        let (owner_is_user, created_at) = match self.store.memes.get(meme_id) {
            None => return Err(String::from_str("Meme not found")),
            Some(m) => (m.owner.same(user), m.created_at),
        };
        if owner_is_user {
            return Err(String::from_str("Cannot remove votes from your own meme"));
        }
        let meme_created_ns = normalize_timestamp_ns(created_at);
        let meme_week = get_week_id(meme_created_ns);
        let period = self.get_or_create_current_week(now_ns);
        if meme_week != period.week_id {
            return Err(String::from_str("Can only remove votes from the current week"));
        }
        if period.is_completed || now_ns > period.end_time {
            return Err(String::from_str("Voting period for the current week has ended"));
        }
        let key = UserMemeKey { user: user.copy(), meme_id };
        let prev = match self.voting.user_votes.get(&key) {
            None => return Err(String::from_str("No vote found to remove")),
            Some(p) => *p,
        };
        self.voting.user_votes.remove(&key);
        let current = match self.voting.votes.get(meme_id) {
            Some(v) => *v,
            None => return Err(String::from_str("Meme votes not found")),
        };
        let mut mv = current;
        match prev.vote_type {
            VoteType::Upvote => mv.upvotes = mv.upvotes.saturating_sub(1),
            VoteType::Downvote => mv.downvotes = mv.downvotes.saturating_sub(1),
        }
        mv.total_voters = mv.total_voters.saturating_sub(1);
        mv.last_vote_time = now_ns;
        self.voting.votes.insert(meme_id, mv);
        self.set_vote_count(meme_id, mv.upvotes as u64);
        Ok(VoteResponse {
            success: true,
            message: String::from_str("Vote removed"),
            new_vote_count: mv.upvotes.wrapping_add(mv.downvotes),
            user_previous_vote: Some(prev.vote_type),
        })
    }

    /// A vote that spends `cost` of `user`'s power (the default cost when 0
    /// is asked for); costs above the weekly cap are refused.
    pub fn vote_with_power_as(&mut self, user: &UserId, meme_id: u64, vote_type: VoteType, cost: u32, now_ns: u64) -> (r:
        Result<VoteResponse, String>)
        requires
            old(self).wf(),
        ensures
            history_kept(*old(self), *final(self)),
            final(self).wf(),
            cost > WEEKLY_POWER_CAP ==> (r matches Err(e) && e@ == "Voting cost exceeds weekly cap"@
                && *final(self) == *old(self)),
            cost <= WEEKLY_POWER_CAP ==> vote_outcome(
                *old(self),
                *final(self),
                user@,
                meme_id,
                vote_type,
                vote_charge(cost),
                now_ns,
                r,
            ),
    {
        let charge = if cost == 0 {
            DEFAULT_VOTE_COST
        } else if cost > WEEKLY_POWER_CAP {
            return Err(String::from_str("Voting cost exceeds weekly cap"));
        } else {
            cost
        };
        self.perform_vote(user, meme_id, vote_type, charge, now_ns)
    }

    /// The caller's vote on a meme, at the default cost, now.
    pub fn vote_meme(&mut self, meme_id: u64, vote_type: VoteType) -> (r: Result<VoteResponse, String>)
        requires
            old(self).wf(),
        ensures
            history_kept(*old(self), *final(self)),
            final(self).wf(),
            exists|user: UserId, now_ns: u64|
                vote_outcome(*old(self), *final(self), user@, meme_id, vote_type, DEFAULT_VOTE_COST, now_ns, r),
    {
        let user = caller();
        let now_ns = host_time_ns();
        self.perform_vote(&user, meme_id, vote_type, DEFAULT_VOTE_COST, now_ns)
    }

    /// The caller's vote on a meme at a chosen cost, now.
    pub fn vote_with_power(&mut self, meme_id: u64, vote_type: VoteType, cost: u32) -> (r: Result<VoteResponse, String>)
        requires
            old(self).wf(),
        ensures
            history_kept(*old(self), *final(self)),
            final(self).wf(),
            cost > WEEKLY_POWER_CAP ==> (r matches Err(e) && e@ == "Voting cost exceeds weekly cap"@
                && *final(self) == *old(self)),
            cost <= WEEKLY_POWER_CAP ==> exists|user: UserId, now_ns: u64|
                vote_outcome(*old(self), *final(self), user@, meme_id, vote_type, vote_charge(cost), now_ns, r),
    {
        let user = caller();
        let now_ns = host_time_ns();
        self.vote_with_power_as(&user, meme_id, vote_type, cost, now_ns)
    }

    /// Withdraws the caller's vote on a meme, now.
    pub fn remove_vote(&mut self, meme_id: u64) -> (r: Result<VoteResponse, String>)
        requires
            old(self).wf(),
        ensures
            history_kept(*old(self), *final(self)),
            final(self).wf(),
            exists|user: UserId, now_ns: u64| remove_outcome(*old(self), *final(self), user@, meme_id, now_ns, r),
    {
        let user = caller();
        let now_ns = host_time_ns();
        self.remove_vote_as(&user, meme_id, now_ns)
    }

    /// Closes finished weeks and makes sure a week is open for voting.
    pub fn prepare_voting(&mut self, now_ns: u64)
        requires
            old(self).wf(),
        ensures
            history_kept(*old(self), *final(self)),
            final(self).wf(),
            prepared(*old(self), *final(self), now_ns, ensured_periods(*old(self), now_ns)),
    {
        let closed = self.close_finished_weeks(now_ns);
        self.ensure_active_week(now_ns);
    }

    /// Casts `user`'s vote on a meme of the current week at `now_ns`,
    /// spending `cost` of the user's weekly power. A user votes at most once
    /// per meme and never on their own meme.
    pub fn perform_vote(&mut self, user: &UserId, meme_id: u64, vote_type: VoteType, cost: u32, now_ns: u64) -> (r:
        Result<VoteResponse, String>)
        requires
            old(self).wf(),
        ensures
            history_kept(*old(self), *final(self)),
            final(self).wf(),
            vote_outcome(*old(self), *final(self), user@, meme_id, vote_type, cost, now_ns, r),
    {
        if user.is_anonymous() {
            return Err(String::from_str("Authentication required"));
        }
        if meme_id == 0 {
            return Err(String::from_str("Invalid meme ID"));
        }
        if cost == 0 {
            return Err(String::from_str("Voting cost must be greater than zero"));
        }
        if cost > WEEKLY_POWER_CAP {
            return Err(String::from_str("Voting cost exceeds weekly cap"));
        }
        self.prepare_voting(now_ns);
        let (owner_is_user, created_at) = match self.store.memes.get(meme_id) {
            None => return Err(String::from_str("Meme not found")),
            Some(m) => (m.owner.same(user), m.created_at),
        };
        if owner_is_user {
            return Err(String::from_str("Cannot vote on your own meme"));
        }
        let meme_created_ns = normalize_timestamp_ns(created_at);
        let meme_week = get_week_id(meme_created_ns);
        let period = self.get_or_create_current_week(now_ns);
        let current_week = period.week_id;
        if meme_week != current_week {
            return Err(String::from_str("Can only vote on memes from the current week"));
        }
        if period.is_completed || now_ns > period.end_time {
            return Err(String::from_str("Voting period for the current week has ended"));
        }
        let key = UserMemeKey { user: user.copy(), meme_id };
        let previous: Option<VoteType> = match self.voting.user_votes.get(&key) {
            Some(v) => Some(v.vote_type),
            None => None,
        };
        match self.spend_power(user, current_week, cost) {
            Err(e) => return Err(e),
            Ok(()) => {},
        }
        self.voting.user_votes.insert(key, VoteRecord { vote_type, timestamp: now_ns });
        let mut mv = match self.voting.votes.get(meme_id) {
            Some(v) => *v,
            None => MemeVotes {
                meme_id,
                upvotes: 0,
                downvotes: 0,
                total_voters: 0,
                created_week: meme_week,
                last_vote_time: now_ns,
            },
        };
        match previous {
            Some(VoteType::Upvote) => mv.upvotes = mv.upvotes.saturating_sub(1),
            Some(VoteType::Downvote) => mv.downvotes = mv.downvotes.saturating_sub(1),
            None => mv.total_voters = mv.total_voters.saturating_add(1),
        }
        match vote_type {
            VoteType::Upvote => {
                mv.upvotes = mv.upvotes.saturating_add(1);
                self.voting.lifetime_upvotes = self.voting.lifetime_upvotes.saturating_add(1);
            },
            VoteType::Downvote => mv.downvotes = mv.downvotes.saturating_add(1),
        }
        mv.last_vote_time = now_ns;
        self.voting.votes.insert(meme_id, mv);
        self.set_vote_count(meme_id, mv.upvotes as u64);
        Ok(VoteResponse {
            success: true,
            message: String::from_str("Vote recorded"),
            new_vote_count: mv.upvotes.wrapping_add(mv.downvotes),
            user_previous_vote: previous,
        })
    }
}

} // verus!
