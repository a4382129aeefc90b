//! Week rollover: finalizing the memes and the leaderboard of a finished
//! week and advancing the active week.

use vstd::prelude::*;
use crate::state::history_kept;
use crate::leaderboard::{ranked_live, window_entries, DEFAULT_TOP_N};
use crate::model::{StoredMeme, TopEntry};
use crate::state::{Backend, week_ids};
use crate::weeks::{now_secs, week_of};

verus! {

/// A stored meme marked as finalized at `t` (seconds).
pub open spec fn finalized_meme(m: StoredMeme, t: u64) -> StoredMeme {
    StoredMeme { finalized: true, week_ended: true, finalized_at: Some(t), ..m }
}

/// The stored memes once the memes with ids in `ids` are finalized at `t`.
pub open spec fn memes_finalized(memes: Map<u64, StoredMeme>, ids: Seq<u64>, t: u64) -> Map<u64, StoredMeme> {
    Map::new(
        |k: u64| memes.contains_key(k),
        |k: u64| if ids.contains(k) { finalized_meme(memes[k], t) } else { memes[k] },
    )
}

/// Everything but the stored memes is unchanged.
pub open spec fn only_memes_changed(a: Backend, b: Backend) -> bool {
    &&& a.weeks == b.weeks
    &&& a.board == b.board
    &&& a.voting == b.voting
    &&& a.nft == b.nft
    &&& a.store.user_memes == b.store.user_memes
    &&& a.store.meme_counter == b.store.meme_counter
    &&& a.store.unique_users == b.store.unique_users
    &&& a.store.rate == b.store.rate
}

impl Backend {
    /// Marks every stored meme registered for `week_id` as finalized at
    /// `finalized_at` (seconds).
    pub fn finalize_memes_for_week(&mut self, week_id: u64, finalized_at: u64)
        requires
            old(self).wf(),
        ensures
            history_kept(*old(self), *final(self)),
            final(self).wf(),
            only_memes_changed(*old(self), *final(self)),
            final(self).store.memes@ == memes_finalized(
                old(self).store.memes@,
                week_ids(old(self).weeks.week_index@, week_id),
                finalized_at,
            ),
    {
        let ids = self.week_meme_ids(week_id);
        let ghost old_memes = self.store.memes@;
        let mut i: usize = 0;
        while i < ids.len()
            invariant
                self.wf(),
                only_memes_changed(*old(self), *self),
                i <= ids@.len(),
                ids@ == week_ids(old(self).weeks.week_index@, week_id),
                old_memes == old(self).store.memes@,
                self.store.memes@ == memes_finalized(old_memes, ids@.subrange(0, i as int), finalized_at),
            decreases ids@.len() - i,
        {
            let id = ids[i];
            let updated = match self.store.memes.get(id) {
                Some(m) => {
                    let mut c = m.copy();
                    c.finalized = true;
                    c.week_ended = true;
                    c.finalized_at = Some(finalized_at);
                    Some(c)
                },
                None => None,
            };
            match updated {
                Some(c) => {
                    self.store.memes.insert(id, c);
                },
                None => {},
            }
            proof {
                crate::keyed::lemma_prefix_step(ids@, i as int);
                assert(self.store.memes@ =~= memes_finalized(old_memes, ids@.subrange(0, i as int + 1), finalized_at));
            }
            i += 1;
        }
        assert(ids@.subrange(0, i as int) =~= ids@);
    }
}

/// The finalized leaderboards after a rollover finalizes `week_id` at `t`:
/// unchanged when the week already has one, else with a new snapshot of its
/// first `top_n` live entries.
pub open spec fn board_after_rollover(a: Backend, b: Backend, week_id: u64, t: u64, top_n: usize) -> bool {
    if a.board.finalized@.contains_key(week_id) {
        b.board.finalized == a.board.finalized
    } else {
        &&& b.board.finalized@ == a.board.finalized@.insert(week_id, b.board.finalized@[week_id])
        &&& b.board.finalized@[week_id].week_id == week_id
        &&& b.board.finalized@[week_id].finalized_at == t
        &&& b.board.finalized@[week_id].top@ == window_entries(ranked_live(a, week_id), 0, top_n as int)
    }
}

/// The whole effect of finalizing `week_id` at `t` (seconds) in a rollover,
/// apart from the active week.
pub open spec fn rolled_over(a: Backend, b: Backend, week_id: u64, t: u64, top_n: usize) -> bool {
    &&& b.store.memes@ == memes_finalized(a.store.memes@, week_ids(a.weeks.week_index@, week_id), t)
    &&& board_after_rollover(a, b, week_id, t, top_n)
    &&& b.board.live_votes@ == Map::<u64, u64>::empty()
    &&& b.weeks.week_offset == a.weeks.week_offset
    &&& b.weeks.week_index == a.weeks.week_index
    &&& b.voting == a.voting
    &&& b.nft == a.nft
    &&& b.store.user_memes == a.store.user_memes
    &&& b.store.meme_counter == a.store.meme_counter
    &&& b.store.unique_users == a.store.unique_users
    &&& b.store.rate == a.store.rate
}

/// A state with another active week.
pub open spec fn with_active_week(a: Backend, week_id: u64) -> Backend {
    Backend { weeks: crate::state::WeekState { active_week_id: week_id, ..a.weeks }, ..a }
}

/// The outcome of a rollover check at `now_secs`: the first check activates
/// the current week; a later week finalizes the active one and becomes active.
pub open spec fn rollover_outcome(a: Backend, b: Backend, top_n: usize, now_secs: u64, r: Option<u64>) -> bool {
    let current = week_of(now_secs as int, a.weeks.week_offset as int) as u64;
    let active = a.weeks.active_week_id;
    if active == 0 {
        &&& r.is_none()
        &&& b == with_active_week(a, current)
    } else if current <= active {
        &&& r.is_none()
        &&& b == a
    } else {
        &&& r == Some(active)
        &&& b.weeks.active_week_id == current
        &&& rolled_over(a, b, active, now_secs, top_n)
        &&& b.board.finalized@.contains_key(active)
    }
}

impl Backend {
    /// Finalizes a week in a rollover at `now_secs`: marks its memes
    /// finalized, freezes its leaderboard (unless one exists), forgets the
    /// live counts, and returns the first three entries of its leaderboard
    /// (the week's winners; no mint entitlements are issued for them, as
    /// minting is not gated by entitlements in this library).
    pub fn finalize_rollover_week(&mut self, week_id: u64, top_n: usize, now_secs: u64) -> (r: Vec<TopEntry>)
        requires
            old(self).wf(),
        ensures
            history_kept(*old(self), *final(self)),
            final(self).wf(),
            rolled_over(*old(self), *final(self), week_id, now_secs, top_n),
            final(self).weeks.active_week_id == old(self).weeks.active_week_id,
            final(self).board.finalized@.contains_key(week_id),
            r@ == crate::voting::first_n(final(self).board.finalized@[week_id].top@, 3),
    {
        let ghost b0 = *self;
        self.finalize_memes_for_week(week_id, now_secs);
        let ghost b1 = *self;
        assert(ranked_live(b1, week_id) == ranked_live(b0, week_id));
        if !self.board.finalized.contains_key(week_id) {
            let board = self.snapshot_weekly_leaderboard(week_id, now_secs, top_n);
            self.store_weekly_leaderboard(board);
        }
        let mut top3: Vec<TopEntry> = Vec::new();
        match self.board.finalized.get(week_id) {
            Some(board) => {
                let n = if board.top.len() < 3 { board.top.len() } else { 3 };
                let mut i: usize = 0;
                while i < n
                    invariant
                        n <= board.top@.len(),
                        n == if board.top@.len() < 3 { board.top@.len() } else { 3 },
                        i <= n,
                        top3@ =~= board.top@.take(i as int),
                    decreases n - i,
                {
                    top3.push(board.top[i]);
                    i += 1;
                }
            },
            None => {},
        }
        self.clear_live_votes();
        top3
    }

    /// The rollover check at `now_secs` (seconds since the epoch).
    pub fn maybe_perform_rollover_at(&mut self, top_n: usize, now_secs: u64) -> (r: Option<u64>)
        requires
            old(self).wf(),
        ensures
            history_kept(*old(self), *final(self)),
            final(self).wf(),
            rollover_outcome(*old(self), *final(self), top_n, now_secs, r),
    {
        let current = self.compute_week_id(now_secs);
        let active = self.get_active_week_id();
        if active == 0 {
            self.set_active_week_id(current);
            return None;
        }
        if current <= active {
            return None;
        }
        let finalized_week = active;
        self.set_active_week_id(current);
        let ghost b1 = *self;
        proof {
            assert(ranked_live(b1, finalized_week) == ranked_live(*old(self), finalized_week));
        }
        let _winners = self.finalize_rollover_week(finalized_week, top_n, now_secs);
        Some(finalized_week)
    }

    /// The rollover check, now.
    pub fn maybe_perform_rollover(&mut self, top_n: usize) -> (r: Option<u64>)
        requires
            old(self).wf(),
        ensures
            history_kept(*old(self), *final(self)),
            final(self).wf(),
            exists|t: u64| rollover_outcome(*old(self), *final(self), top_n, t, r),
    {
        let now = now_secs();
        self.maybe_perform_rollover_at(top_n, now)
    }

    /// An immediate rollover check, keeping the default number of leaderboard entries.
    pub fn admin_rollover_now(&mut self) -> (r: Option<u64>)
        requires
            old(self).wf(),
        ensures
            history_kept(*old(self), *final(self)),
            final(self).wf(),
            exists|t: u64| rollover_outcome(*old(self), *final(self), DEFAULT_TOP_N, t, r),
    {
        self.maybe_perform_rollover(DEFAULT_TOP_N)
    }

    /// Activates the week of `now_secs` when no week is active yet.
    pub fn ensure_active_week_initialized_at(&mut self, now_secs: u64)
        ensures
            history_kept(*old(self), *final(self)),
            old(self).weeks.active_week_id == 0 ==> *final(self) == with_active_week(
                *old(self),
                week_of(now_secs as int, old(self).weeks.week_offset as int) as u64,
            ),
            old(self).weeks.active_week_id != 0 ==> *final(self) == *old(self),
    {
        if self.get_active_week_id() == 0 {
            let w = self.compute_week_id(now_secs);
            self.set_active_week_id(w);
        }
    }

    /// Activates the current week when no week is active yet.
    pub fn ensure_active_week_initialized(&mut self)
        ensures
            history_kept(*old(self), *final(self)),
            old(self).weeks.active_week_id == 0 ==> (exists|t: u64| *final(self) == with_active_week(
                *old(self),
                week_of(t as int, old(self).weeks.week_offset as int) as u64,
            )),
            old(self).weeks.active_week_id != 0 ==> *final(self) == *old(self),
    {
        if self.get_active_week_id() == 0 {
            let w = self.current_week_id();
            self.set_active_week_id(w);
        }
    }
}

} // verus!
