//! Operator actions on voting weeks: forcing the end of the current week,
//! reporting on it, and the tallies a week's score leaderboard is built from.

use vstd::prelude::*;
use crate::state::history_kept;
use crate::ballot::{current_periods, prepared};
use crate::model::{MemeVotes, WeeklyPeriod};
use crate::rollover::memes_finalized;
use crate::state::{Backend, week_ids};
use crate::ids::{anonymous_view, caller, UserId};
use crate::text::{decimal, push_decimal, push_text};
use crate::voting::{
    make_period, new_period, user_votes_after_cleanup, votes_after_cleanup, week_pairs, week_top3,
};
use crate::weeks::{host_time_ns, week_of_ns, NANOS_PER_SECOND};

verus! {

/// A remaining time in nanoseconds as days, hours and minutes: "1d 2h 3m",
/// "2h 3m" under a day, "3m" under an hour.
pub open spec fn remaining_text(ns: u64) -> Seq<char> {
    let seconds = ns / NANOS_PER_SECOND;
    let days = seconds / 86400;
    let hours = (seconds % 86400) / 3600;
    let minutes = (seconds % 3600) / 60;
    if days > 0 {
        decimal(days as nat) + "d "@ + decimal(hours as nat) + "h "@ + decimal(minutes as nat) + "m"@
    } else if hours > 0 {
        decimal(hours as nat) + "h "@ + decimal(minutes as nat) + "m"@
    } else {
        decimal(minutes as nat) + "m"@
    }
}

/// Formats a remaining time in nanoseconds as days, hours and minutes.
pub fn format_remaining_time(ns: u64) -> (r: String)
    ensures
        r@ == remaining_text(ns),
{
    let seconds = ns / NANOS_PER_SECOND;
    let days = seconds / 86400;
    let hours = (seconds % 86400) / 3600;
    let minutes = (seconds % 3600) / 60;
    let mut s = String::new();
    if days > 0 {
        push_decimal(&mut s, days);
        push_text(&mut s, "d ");
        push_decimal(&mut s, hours);
        push_text(&mut s, "h ");
        push_decimal(&mut s, minutes);
        push_text(&mut s, "m");
    } else if hours > 0 {
        push_decimal(&mut s, hours);
        push_text(&mut s, "h ");
        push_decimal(&mut s, minutes);
        push_text(&mut s, "m");
    } else {
        push_decimal(&mut s, minutes);
        push_text(&mut s, "m");
    }
    assert(s@ =~= remaining_text(ns));
    s
}

/// The report of a week's state at `now_ns`.
pub open spec fn week_report(p: WeeklyPeriod, now_ns: u64) -> Seq<char> {
    if p.is_completed {
        "Week "@ + decimal(p.week_id as nat) + " is completed. Next active week should be available."@
    } else if now_ns > p.end_time {
        "Week "@ + decimal(p.week_id as nat)
            + " has ended but not yet finalized. Next active week should be available."@
    } else {
        "Week "@ + decimal(p.week_id as nat) + " is active. "@ + remaining_text((p.end_time - now_ns) as u64)
            + " remaining."@
    }
}

/// The message of a forced finalization.
pub open spec fn force_message(week_id: u64, winners: nat, next: u64) -> Seq<char> {
    "Week "@ + decimal(week_id as nat) + " force-finalized with "@ + decimal(winners) + " winners. Advanced to week "@
        + decimal(next as nat)
}

/// The state after the current week is forced to its end at `now_ns`.
pub open spec fn forced_state(a: Backend, b: Backend, now_ns: u64) -> bool {
    let cw = week_of_ns(now_ns as int) as u64;
    let p0 = if a.voting.periods@.contains_key(cw) { a.voting.periods@ } else { a.voting.periods@.insert(cw, new_period(cw, false)) };
    let p1 = p0.insert(cw, WeeklyPeriod { is_completed: true, ..p0[cw] });
    let next = (cw + 1) as u64;
    &&& b.voting.periods@ == if p1.contains_key(next) { p1 } else { p1.insert(next, new_period(next, false)) }
    &&& b.voting.votes@ == votes_after_cleanup(a.voting.votes@, cw)
    &&& b.voting.user_votes@ == user_votes_after_cleanup(a.voting.user_votes@, a.voting.votes@, cw)
    &&& b.voting.powers == a.voting.powers
    &&& b.voting.lifetime_upvotes == a.voting.lifetime_upvotes
    &&& b.board.live_votes@ == Map::<u64, u64>::empty()
    &&& b.board.finalized == a.board.finalized
    &&& b.store.memes@ == memes_finalized(a.store.memes@, week_ids(a.weeks.week_index@, cw), now_ns / NANOS_PER_SECOND)
    &&& b.store.user_memes == a.store.user_memes
    &&& b.store.meme_counter == a.store.meme_counter
    &&& b.store.unique_users == a.store.unique_users
    &&& b.store.rate == a.store.rate
    &&& b.weeks.active_week_id == next
    &&& b.weeks.week_offset == a.weeks.week_offset
    &&& b.weeks.week_index == a.weeks.week_index
    &&& b.nft == a.nft
}

/// The outcome of `user` forcing the end of the week of `now_ns`: only the
/// administrator may, and not for a completed week.
pub open spec fn force_outcome(a: Backend, b: Backend, user: Seq<char>, now_ns: u64, r: Result<String, String>) -> bool {
    let cw = week_of_ns(now_ns as int) as u64;
    if user == anonymous_view() {
        &&& r matches Err(e) && e@ == "Authentication required"@
        &&& b == a
    } else if user != a.nft.collection.admin@ {
        &&& r matches Err(e) && e@ == "Admin access required"@
        &&& b == a
    } else if a.voting.periods@.contains_key(cw) && a.voting.periods@[cw].is_completed {
        &&& r matches Err(e) && e@ == "Current week is already completed"@
        &&& b == a
    } else {
        &&& r matches Ok(msg) && msg@ == force_message(cw, week_top3(a, cw).len(), (cw + 1) as u64)
        &&& forced_state(a, b, now_ns)
    }
}

impl Backend {
    /// Forces the end of the week of `now_ns`: completes it, takes its top
    /// three, removes the tallies and votes of it and earlier weeks, forgets
    /// the live counts, finalizes its memes, and activates (and opens) the
    /// next week. Administrator only; refused when the week is already
    /// completed.
    pub fn force_finalize_current_week_at(&mut self, user: &UserId, now_ns: u64) -> (r: Result<String, String>)
        requires
            old(self).wf(),
        ensures
            history_kept(*old(self), *final(self)),
            final(self).wf(),
            force_outcome(*old(self), *final(self), user@, now_ns, r),
    {
        if user.is_anonymous() {
            return Err(String::from_str("Authentication required"));
        }
        if !user.same(&self.nft.collection.admin) {
            return Err(String::from_str("Admin access required"));
        }
        let period = self.get_or_create_current_week(now_ns);
        if period.is_completed {
            return Err(String::from_str("Current week is already completed"));
        }
        let week_id = period.week_id;
        let mut completed = period;
        completed.is_completed = true;
        self.voting.periods.insert(week_id, completed);
        let winners_len = match self.get_top3_for_week(week_id) {
            Ok(top) => top.len(),
            Err(_) => 0,
        };
        let _ = self.cleanup_old_week_data(week_id);
        self.clear_live_votes();
        self.finalize_memes_for_week(week_id, now_ns / NANOS_PER_SECOND);
        proof {
            assert(week_id <= u64::MAX / NANOS_PER_SECOND);
        }
        let next_week_id = week_id + 1;
        self.set_active_week_id(next_week_id);
        if !self.voting.periods.contains_key(next_week_id) {
            let p = make_period(next_week_id, false);
            self.voting.periods.insert(next_week_id, p);
        }
        let mut msg = String::from_str("Week ");
        push_decimal(&mut msg, week_id);
        push_text(&mut msg, " force-finalized with ");
        push_decimal(&mut msg, winners_len as u64);
        push_text(&mut msg, " winners. Advanced to week ");
        push_decimal(&mut msg, next_week_id);
        Ok(msg)
    }

    /// Forces the end of the current week, by the caller, now.
    pub fn force_finalize_current_week(&mut self) -> (r: Result<String, String>)
        requires
            old(self).wf(),
        ensures
            history_kept(*old(self), *final(self)),
            final(self).wf(),
            exists|user: UserId, now_ns: u64| force_outcome(*old(self), *final(self), user@, now_ns, r),
    {
        let user = caller();
        let now_ns = host_time_ns();
        self.force_finalize_current_week_at(&user, now_ns)
    }

    /// Closes finished weeks, makes sure a week is open and reports on the
    /// week of `now_ns`.
    pub fn sync_week_state_at(&mut self, now_ns: u64) -> (r: String)
        requires
            old(self).wf(),
        ensures
            history_kept(*old(self), *final(self)),
            final(self).wf(),
            prepared(*old(self), *final(self), now_ns, current_periods(*old(self), now_ns)),
            r@ == week_report(current_periods(*old(self), now_ns)[week_of_ns(now_ns as int) as u64], now_ns),
    {
        self.prepare_voting(now_ns);
        let period = self.get_or_create_current_week(now_ns);
        if period.is_completed {
            let mut s = String::from_str("Week ");
            push_decimal(&mut s, period.week_id);
            push_text(&mut s, " is completed. Next active week should be available.");
            s
        } else if now_ns > period.end_time {
            let mut s = String::from_str("Week ");
            push_decimal(&mut s, period.week_id);
            push_text(&mut s, " has ended but not yet finalized. Next active week should be available.");
            s
        } else {
            let mut s = String::from_str("Week ");
            push_decimal(&mut s, period.week_id);
            push_text(&mut s, " is active. ");
            let rem = format_remaining_time(period.end_time - now_ns);
            push_text(&mut s, rem.as_str());
            push_text(&mut s, " remaining.");
            s
        }
    }

    /// Closes finished weeks and confirms it.
    pub fn finalize_finished_weeks_at(&mut self, now_ns: u64) -> (r: String)
        requires
            old(self).wf(),
        ensures
            history_kept(*old(self), *final(self)),
            final(self).wf(),
            r@ == "Finished weeks finalized"@,
            crate::voting::closed_weeks_state(
                *old(self),
                *final(self),
                crate::ballot::weeks_to_close(*old(self), now_ns),
                now_ns,
            ),
            final(self).voting.periods@ == crate::voting::periods_closed(
                old(self).voting.periods@,
                crate::ballot::weeks_to_close(*old(self), now_ns),
            ),
    {
        let _ = self.close_finished_weeks(now_ns);
        String::from_str("Finished weeks finalized")
    }

    /// Closes finished weeks, makes sure a week is open and reports on the
    /// current week, now.
    pub fn sync_week_state(&mut self) -> (r: String)
        requires
            old(self).wf(),
        ensures
            history_kept(*old(self), *final(self)),
            final(self).wf(),
            exists|now_ns: u64|
                prepared(*old(self), *final(self), now_ns, current_periods(*old(self), now_ns)) && r@ == week_report(
                    current_periods(*old(self), now_ns)[week_of_ns(now_ns as int) as u64],
                    now_ns,
                ),
    {
        let now_ns = host_time_ns();
        self.sync_week_state_at(now_ns)
    }

    /// Closes the weeks that have ended by now and confirms it.
    pub fn finalize_finished_weeks(&mut self) -> (r: String)
        requires
            old(self).wf(),
        ensures
            history_kept(*old(self), *final(self)),
            final(self).wf(),
            r@ == "Finished weeks finalized"@,
            exists|now_ns: u64|
                crate::voting::closed_weeks_state(
                    *old(self),
                    *final(self),
                    crate::ballot::weeks_to_close(*old(self), now_ns),
                    now_ns,
                ) && final(self).voting.periods@ == crate::voting::periods_closed(
                    old(self).voting.periods@,
                    crate::ballot::weeks_to_close(*old(self), now_ns),
                ),
    {
        let now_ns = host_time_ns();
        self.finalize_finished_weeks_at(now_ns)
    }

    /// The tallies of the memes created in a week, in meme order; the score
    /// leaderboards rank them.
    pub fn get_week_tallies(&self, week_id: u64) -> (r: Vec<(u64, MemeVotes)>)
        requires
            self.wf(),
        ensures
            r@ == week_pairs(self.voting.votes.entries_seq(), week_id),
    {
        let n = self.voting.votes.len();
        let ghost s = self.voting.votes.entries_seq();
        let mut items: Vec<(u64, MemeVotes)> = Vec::new();
        let mut i: usize = 0;
        while i < n
            invariant
                self.wf(),
                n == self.voting.votes.spec_len(),
                s == self.voting.votes.entries_seq(),
                i <= n,
                items@ == week_pairs(s.take(i as int), week_id),
            decreases n - i,
        {
            let (id, mv) = self.voting.votes.entry_at(i);
            proof {
                assert(s.take(i as int + 1).drop_last() =~= s.take(i as int));
            }
            if mv.created_week == week_id {
                items.push((id, *mv));
            }
            i += 1;
        }
        assert(s.take(n as int) =~= s);
        items
    }

    /// A voting week.
    pub fn get_week_period(&self, week_id: u64) -> (r: Option<WeeklyPeriod>)
        requires
            self.wf(),
        ensures
            r == if self.voting.periods@.contains_key(week_id) {
                Some(self.voting.periods@[week_id])
            } else {
                None::<WeeklyPeriod>
            },
    {
        match self.voting.periods.get(week_id) {
            Some(p) => Some(*p),
            None => None,
        }
    }
}

} // verus!
