//! Live vote counts of the active week and the weekly leaderboards.

use vstd::prelude::*;
use crate::state::history_kept;
use crate::model::{TopEntry, WeeklyLeaderboard};
use crate::ranking::{Ranked, RankKey, lemma_is_rank_sorted, rank_injective, rank_sorted, sort_by_rank, sorted_by_rank, rank_le};
use crate::state::{Backend, live_count, week_ids};

verus! {

/// How many memes a frozen weekly leaderboard keeps.
pub const DEFAULT_TOP_N: usize = 50;

/// A live entry `(meme_id, votes)` ranks by votes, most first, then by meme
/// id, smallest first.
impl Ranked for (u64, u64) {
    open spec fn rank(&self) -> RankKey {
        ((u64::MAX - self.1) as u64, self.0, 0, 0)
    }

    fn rank_key(&self) -> (r: RankKey) {
        (u64::MAX - self.1, self.0, 0, 0)
    }
}

/// Distinct live entries never share a ranking key.
pub proof fn lemma_live_rank_injective(s: Seq<(u64, u64)>)
    ensures
        rank_injective(s),
{
    assert forall|i: int, j: int|
        0 <= i < s.len() && 0 <= j < s.len() && #[trigger] s[i].rank() == #[trigger] s[j].rank() implies s[i]
        == s[j] by {
        assert(s[i].0 == s[j].0);
        assert(s[i].1 == s[j].1);
    }
}

/// Orders live entries by votes (most first), then by meme id.
pub fn sort_entries(entries: &mut Vec<(u64, u64)>)
    ensures
        sorted_by_rank(final(entries)@),
        final(entries)@.to_multiset() == old(entries)@.to_multiset(),
        final(entries)@ == rank_sorted(old(entries)@),
{
    let mut v: Vec<(u64, u64)> = Vec::new();
    std::mem::swap(&mut v, entries);
    let sorted = sort_by_rank(v);
    proof {
        lemma_live_rank_injective(sorted@);
        lemma_is_rank_sorted(sorted@, old(entries)@);
    }
    *entries = sorted;
}

/// The live entries of a week's memes, in registration order.
pub open spec fn live_candidates(b: Backend, week_id: u64) -> Seq<(u64, u64)> {
    week_ids(b.weeks.week_index@, week_id).map_values(
        |id: u64| (id, live_count(b.board.live_votes@, id)),
    )
}

/// The live entries of a week, ranked.
pub open spec fn ranked_live(b: Backend, week_id: u64) -> Seq<(u64, u64)> {
    rank_sorted(live_candidates(b, week_id))
}

/// Ranked entries from position `start` on, at most `limit` of them, each
/// with its 1-based rank in the whole ranking.
pub open spec fn window_entries(e: Seq<(u64, u64)>, start: int, limit: int) -> Seq<TopEntry> {
    if start >= e.len() {
        Seq::empty()
    } else {
        let end = if start + limit < e.len() { start + limit } else { e.len() as int };
        Seq::new(
            (end - start) as nat,
            |i: int| TopEntry { meme_id: e[start + i].0, votes: e[start + i].1, rank: (start + i + 1) as u32 },
        )
    }
}

/// Entries in order of votes, most first.
pub open spec fn descending(s: Seq<TopEntry>) -> bool {
    forall|i: int, j: int| 0 <= i < j < s.len() ==> #[trigger] s[i].votes >= #[trigger] s[j].votes
}

/// A window of ranked entries lists votes from most to fewest.
pub proof fn lemma_window_descending(e: Seq<(u64, u64)>, start: int, limit: int)
    requires
        sorted_by_rank(e),
        0 <= start,
        0 <= limit,
    ensures
        descending(window_entries(e, start, limit)),
{
    let w = window_entries(e, start, limit);
    if start < e.len() {
        let end = if start + limit < e.len() { start + limit } else { e.len() as int };
        assert(w.len() == end - start);
        assert forall|i: int, j: int| 0 <= i < j < w.len() implies #[trigger] w[i].votes >= #[trigger] w[j].votes by {
            assert(start + j < e.len());
            assert(w[i].votes == e[start + i].1);
            assert(w[j].votes == e[start + j].1);
            assert(rank_le(e[start + i].rank(), e[start + j].rank()));
        }
    }
}

/// The live count after one vote: one more for an upvote, one fewer for a
/// downvote, saturating at both ends.
pub open spec fn after_vote(current: u64, up: bool) -> u64 {
    if up {
        if current == u64::MAX { current } else { (current + 1) as u64 }
    } else {
        if current == 0 { 0 } else { (current - 1) as u64 }
    }
}

/// The live-vote table once `meme_id` holds `value` (no entry for 0).
pub open spec fn with_count(live: Map<u64, u64>, meme_id: u64, value: u64) -> Map<u64, u64> {
    if value == 0 { live.remove(meme_id) } else { live.insert(meme_id, value) }
}

impl Backend {
    /// Applies one up or down vote to a meme's live count and returns the new count.
    pub fn apply_vote(&mut self, meme_id: u64, up: bool) -> (r: u64)
        requires
            old(self).wf(),
        ensures
            history_kept(*old(self), *final(self)),
            final(self).wf(),
            r == after_vote(live_count(old(self).board.live_votes@, meme_id), up),
            final(self).board.live_votes@ == with_count(old(self).board.live_votes@, meme_id, r),
            final(self).board.finalized == old(self).board.finalized,
            final(self).weeks == old(self).weeks,
            final(self).voting == old(self).voting,
            final(self).store == old(self).store,
            final(self).nft == old(self).nft,
    {
        let current = self.get_vote_count(meme_id);
        let updated = if up {
            current.saturating_add(1)
        } else {
            current.saturating_sub(1)
        };
        self.set_vote_count(meme_id, updated);
        updated
    }

    /// Sets a meme's live count; a count of 0 removes its entry.
    pub fn set_vote_count(&mut self, meme_id: u64, value: u64)
        requires
            old(self).wf(),
        ensures
            history_kept(*old(self), *final(self)),
            final(self).wf(),
            final(self).board.live_votes@ == with_count(old(self).board.live_votes@, meme_id, value),
            final(self).board.finalized == old(self).board.finalized,
            final(self).weeks == old(self).weeks,
            final(self).voting == old(self).voting,
            final(self).store == old(self).store,
            final(self).nft == old(self).nft,
    {
        if value == 0 {
            self.board.live_votes.remove(meme_id);
        } else {
            self.board.live_votes.insert(meme_id, value);
        }
    }

    /// A meme's live count, 0 when it has none.
    pub fn get_vote_count(&self, meme_id: u64) -> (r: u64)
        requires
            self.wf(),
        ensures
            r == live_count(self.board.live_votes@, meme_id),
    {
        match self.board.live_votes.get(meme_id) {
            Some(v) => *v,
            None => 0,
        }
    }

    /// Forgets every live count.
    pub fn clear_live_votes(&mut self)
        requires
            old(self).wf(),
        ensures
            history_kept(*old(self), *final(self)),
            final(self).wf(),
            final(self).board.live_votes@ == Map::<u64, u64>::empty(),
            final(self).board.finalized == old(self).board.finalized,
            final(self).weeks == old(self).weeks,
            final(self).voting == old(self).voting,
            final(self).store == old(self).store,
            final(self).nft == old(self).nft,
    {
        self.board.live_votes.clear();
    }

    /// The live entries `(meme_id, votes)` of a week's memes, ranked by votes
    /// (most first), then by meme id.
    pub fn live_vote_entries_for_week(&self, week_id: u64) -> (r: Vec<(u64, u64)>)
        requires
            self.wf(),
        ensures
            r@ == ranked_live(*self, week_id),
            sorted_by_rank(r@),
    {
        let ids = self.week_meme_ids(week_id);
        let mut entries: Vec<(u64, u64)> = Vec::new();
        let mut i: usize = 0;
        while i < ids.len()
            invariant
                self.wf(),
                ids@ == week_ids(self.weeks.week_index@, week_id),
                i <= ids@.len(),
                entries@ == live_candidates(*self, week_id).subrange(0, i as int),
            decreases ids@.len() - i,
        {
            let id = ids[i];
            let votes = self.get_vote_count(id);
            entries.push((id, votes));
            i += 1;
            assert(entries@ =~= live_candidates(*self, week_id).subrange(0, i as int));
        }
        assert(live_candidates(*self, week_id).subrange(0, i as int) =~= live_candidates(
            *self,
            week_id,
        ));
        sort_entries(&mut entries);
        entries
    }

    /// A page of the active week's live leaderboard: the ranked entries from
    /// position `offset`, at most `limit` of them, each with its rank.
    pub fn current_leaderboard(&self, offset: u32, limit: u32) -> (r: Vec<TopEntry>)
        requires
            self.wf(),
        ensures
            r@ == window_entries(
                ranked_live(*self, self.weeks.active_week_id),
                offset as int,
                limit as int,
            ),
            descending(r@),
    {
        let week_id = self.get_active_week_id();
        let entries = self.live_vote_entries_for_week(week_id);
        proof {
            lemma_window_descending(entries@, offset as int, limit as int);
        }
        let n = entries.len();
        let start = offset as usize;
        if start >= n {
            assert(window_entries(entries@, offset as int, limit as int) =~= Seq::<TopEntry>::empty());
            return Vec::new();
        }
        let end = if (n - start) as u64 > limit as u64 {
            start + limit as usize
        } else {
            n
        };
        let mut out: Vec<TopEntry> = Vec::new();
        let mut idx: usize = 0;
        while start + idx < end
            invariant
                entries@ == ranked_live(*self, week_id),
                n == entries@.len(),
                start < n,
                start == offset,
                end <= n,
                start <= end,
                end == if start + limit < n { start + limit } else { n as int },
                start + idx <= end,
                out@ =~= window_entries(entries@, start as int, limit as int).subrange(0, idx as int),
            decreases end - start - idx,
        {
            let (meme_id, votes) = entries[start + idx];
            out.push(TopEntry { meme_id, votes, rank: (start + idx + 1) as u32 });
            idx += 1;
        }
        out
    }

    /// The frozen leaderboard of a week: its first `top_n` ranked live
    /// entries, ranked from 1.
    pub fn snapshot_weekly_leaderboard(&self, week_id: u64, finalized_at: u64, top_n: usize) -> (r:
        WeeklyLeaderboard)
        requires
            self.wf(),
        ensures
            r.week_id == week_id,
            r.finalized_at == finalized_at,
            r.top@ == window_entries(ranked_live(*self, week_id), 0, top_n as int),
            descending(r.top@),
    {
        let mut entries = self.live_vote_entries_for_week(week_id);
        proof {
            lemma_window_descending(entries@, 0, top_n as int);
        }
        entries.truncate(top_n);
        let n = entries.len();
        let mut top: Vec<TopEntry> = Vec::new();
        let mut idx: usize = 0;
        while idx < n
            invariant
                n == entries@.len(),
                n == if top_n < ranked_live(*self, week_id).len() { top_n as int } else { ranked_live(*self, week_id).len() as int },
                entries@ == ranked_live(*self, week_id).subrange(0, n as int),
                idx <= n,
                top@ =~= window_entries(ranked_live(*self, week_id), 0, top_n as int).subrange(0, idx as int),
            decreases n - idx,
        {
            let (meme_id, votes) = entries[idx];
            top.push(TopEntry { meme_id, votes, rank: (idx + 1) as u32 });
            idx += 1;
        }
        proof {
            if ranked_live(*self, week_id).len() == 0 {
                assert(window_entries(ranked_live(*self, week_id), 0, top_n as int) =~= Seq::<TopEntry>::empty());
            }
        }
        assert(top@ =~= window_entries(ranked_live(*self, week_id), 0, top_n as int));
        WeeklyLeaderboard { week_id, finalized_at, top }
    }

    /// Stores a frozen leaderboard under its week, replacing any there.
    pub fn store_weekly_leaderboard(&mut self, board: WeeklyLeaderboard)
        requires
            old(self).wf(),
        ensures
            history_kept(*old(self), *final(self)),
            final(self).wf(),
            final(self).board.finalized@ == old(self).board.finalized@.insert(board.week_id, board),
            final(self).board.live_votes == old(self).board.live_votes,
            final(self).weeks == old(self).weeks,
            final(self).voting == old(self).voting,
            final(self).store == old(self).store,
            final(self).nft == old(self).nft,
    {
        let week_id = board.week_id;
        self.board.finalized.insert(week_id, board);
    }

    /// The frozen leaderboard of a week, if there is one.
    pub fn get_weekly_leaderboard(&self, week_id: u64) -> (r: Option<&WeeklyLeaderboard>)
        requires
            self.wf(),
        ensures
            match r {
                Some(b) => self.board.finalized@.contains_key(week_id) && *b == self.board.finalized@[week_id],
                None => !self.board.finalized@.contains_key(week_id),
            },
    {
        self.board.finalized.get(week_id)
    }

    /// A page of the weeks that have a frozen leaderboard, latest first.
    pub fn list_finalized_weeks(&self, offset: u32, limit: u32) -> (r: Vec<u64>)
        requires
            self.wf(),
        ensures
            r@ == page(self.board.finalized.keys_seq().reverse(), offset as int, limit as int),
    {
        let n = self.board.finalized.len();
        let mut weeks: Vec<u64> = Vec::new();
        let mut i: usize = 0;
        while i < n
            invariant
                self.wf(),
                n == self.board.finalized.spec_len(),
                i <= n,
                weeks@ =~= self.board.finalized.keys_seq().reverse().subrange(0, i as int),
            decreases n - i,
        {
            let (w, _) = self.board.finalized.entry_at(n - 1 - i);
            weeks.push(w);
            i += 1;
        }
        assert(weeks@ =~= self.board.finalized.keys_seq().reverse());
        let start = offset as usize;
        if start >= n {
            return Vec::new();
        }
        let end = if (n - start) as u64 > limit as u64 {
            start + limit as usize
        } else {
            n
        };
        let mut out: Vec<u64> = Vec::new();
        let mut k: usize = start;
        while k < end
            invariant
                weeks@ == self.board.finalized.keys_seq().reverse(),
                n == weeks@.len(),
                start <= k <= end <= n,
                out@ =~= weeks@.subrange(start as int, k as int),
            decreases end - k,
        {
            out.push(weeks[k]);
            k += 1;
        }
        out
    }
}

/// Elements of `s` from position `start` on, at most `limit` of them.
pub open spec fn page<T>(s: Seq<T>, start: int, limit: int) -> Seq<T> {
    if start >= s.len() {
        Seq::empty()
    } else if start + limit < s.len() {
        s.subrange(start, start + limit)
    } else {
        s.subrange(start, s.len() as int)
    }
}

} // verus!
