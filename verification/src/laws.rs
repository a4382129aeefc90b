//! Properties that relate several operations of the backend.

use vstd::prelude::*;
use crate::ballot::{
    current_periods, lifetime_after, ensured_periods, fresh_tallies, lemma_closable_before_now, lemma_prepared_leaves_nothing_to_close,
    meme_week, remove_outcome, tallied, untallied, vote_count, vote_input_error, vote_outcome, weeks_to_close,
};
use crate::model::{ListingStrategy, ListingType, TokenSaleMetadata, WeeklyLeaderboard};
use crate::nft::{applied, delisted, listed, token_for_meme, tokens_for_meme, SaleUpdate};
use crate::voting::{first_n, liked_entry, liked_limit, week_top3, week_top_entries, memes_finalized_weeks, periods_closed};
use crate::ranking::{lemma_rank_sorted, rank_le, rank_sorted, Ranked};
use crate::model::TopLikedLeaderboard;
use crate::memes::{existing_public, user_list};
use crate::model::VoteResponse;
use crate::leaderboard::{after_vote, with_count};
use crate::market::{lemma_market_cleared_unlisted, listed_ids, market_cleared, swept_state, sweep_limit, unminted};
use crate::memes::{first_published, is_listed_meme, lemma_first_published_member, lemma_first_published_none, public_of, lemma_first_published_unique, published_by, publish_outcome, published_state};
use crate::model::{MemeData, PublicStoredMeme};
use crate::leaderboard::{live_candidates, page, ranked_live, DEFAULT_TOP_N};
use crate::state::week_ids;
use crate::canister::reset_state;
use crate::nft::only_sales_changed;
use crate::minting::{already_minted_error, ascii_lower, content_type_of, lower_char, mint_outcome, normalized_url, slashes, MintPlan};
use crate::generation::{encoded_char, generation_outcome, hex_digit, is_unreserved, starts_with, url_allowed, url_encoded};
use crate::memes::{usage_on, DAILY_GENERATION_LIMIT, DAY_NS};
use crate::codec::DayUsage;
use crate::model::{MemeVotes, VoteType};
use crate::rollover::rollover_outcome;
use crate::state::{history_kept, live_count, Backend};
use crate::ids::anonymous_view;
use crate::keyed::Key;
use crate::text::{trim_start_where, trimmed};
use crate::weeks::week_of_ns;

verus! {

/// Reading a meme's live count after setting it gives the value set, and
/// the other memes keep theirs.
pub proof fn law_live_count_read_after_write(live: Map<u64, u64>, meme_id: u64, value: u64, other: u64)
    requires
        other != meme_id,
    ensures
        live_count(with_count(live, meme_id, value), meme_id) == value,
        live_count(with_count(live, meme_id, value), other) == live_count(live, other),
{
}

/// An upvote followed by a downvote leaves a meme's live count as it was
/// (below the saturation bound), and the live table as it was.
pub proof fn law_up_then_down_restores(live: Map<u64, u64>, meme_id: u64)
    requires
        forall|k: u64| #[trigger] live.contains_key(k) ==> live[k] != 0,
        live_count(live, meme_id) < u64::MAX,
    ensures
        after_vote(after_vote(live_count(live, meme_id), true), false) == live_count(live, meme_id),
        with_count(
            with_count(live, meme_id, after_vote(live_count(live, meme_id), true)),
            meme_id,
            after_vote(after_vote(live_count(live, meme_id), true), false),
        ) == live,
{
    let c = live_count(live, meme_id);
    let up = with_count(live, meme_id, after_vote(c, true));
    assert(live_count(up, meme_id) == c + 1);
    if c == 0 {
        assert(with_count(up, meme_id, 0) =~= live);
    } else {
        assert(with_count(up, meme_id, c) =~= live);
    }
}

/// Withdrawing a vote takes back what casting it added to the tallies (up
/// or down, and the voter), below the saturation bounds; only the time of
/// the last vote differs.
pub proof fn law_withdraw_undoes_vote(base: MemeVotes, vote_type: VoteType, cast_ns: u64, withdraw_ns: u64)
    requires
        base.upvotes < u32::MAX,
        base.downvotes < u32::MAX,
        base.total_voters < u32::MAX,
    ensures
        untallied(tallied(base, None, vote_type, cast_ns), vote_type, withdraw_ns) == (MemeVotes {
            last_vote_time: withdraw_ns,
            ..base
        }),
{
}

/// Meme ids handed out one after another strictly increase until the
/// counter saturates.
pub proof fn law_meme_ids_increase(counter: u64)
    requires
        counter < u64::MAX - 1,
    ensures
        counter.saturating_add(1) < counter.saturating_add(1).saturating_add(1),
{
}

/// A second rollover check at the same time changes nothing and finalizes
/// nothing.
pub proof fn law_rollover_idempotent(a: Backend, b: Backend, c: Backend, top_n: usize, now_secs: u64, r1: Option<u64>, r2: Option<u64>)
    requires
        rollover_outcome(a, b, top_n, now_secs, r1),
        rollover_outcome(b, c, top_n, now_secs, r2),
    ensures
        r2.is_none(),
        c == b,
{
}

/// A pass that deletes the unminted memes leaves exactly the minted ones,
/// each as it was.
pub proof fn law_deletion_keeps_minted(b: Backend, c: Backend, meme_id: u64)
    requires
        swept_state(b, c, b.store.memes.entries_seq(), b.store.memes.entries_seq().len() as int),
    ensures
        c.store.memes@.contains_key(meme_id) == (b.store.memes@.contains_key(meme_id) && !unminted(b, meme_id)),
        c.store.memes@.contains_key(meme_id) ==> c.store.memes@[meme_id] == b.store.memes@[meme_id],
        b.store.memes@.contains_key(meme_id) && unminted(b, meme_id) ==> !c.voting.votes@.contains_key(meme_id),
{
    assert(sweep_limit(b.store.memes.entries_seq(), b.store.memes.entries_seq().len() as int) == u64::MAX as int + 1);
}

/// The media type of an extension does not depend on its ASCII case.
pub proof fn law_content_type_ignores_case(ext: Seq<char>)
    ensures
        content_type_of(ascii_lower(ext)) == content_type_of(ext),
{
    assert(ascii_lower(ascii_lower(ext)) =~= ascii_lower(ext)) by {
        assert forall|i: int| 0 <= i < ext.len() implies lower_char(lower_char(ext[i])) == lower_char(ext[i]) by {
            let v = ext[i] as u32;
            if 65 <= v <= 90 {
                assert(((v + 32) as char) as u32 == v + 32);
            }
        }
    }
}

/// Every image URL that is accepted is one the canister may fetch: HTTPS,
/// or plain HTTP on the local machine.
pub proof fn law_normalized_url_fetchable(url: Seq<char>)
    ensures
        normalized_url(url) matches Ok(u) ==> url_allowed(u),
{
    reveal_strlit("https://");
    reveal_strlit("https://ipfs.io/ipfs/");
    let t = trimmed(url);
    if starts_with(t, "ipfs://"@) {
        let u = "https://ipfs.io/ipfs/"@ + trim_start_where(t.subrange("ipfs://"@.len() as int, t.len() as int), slashes());
        assert(u.subrange(0, "https://"@.len() as int) =~= "https://"@);
    } else if starts_with(t, "http://"@) && !starts_with(t, "https://"@) && !starts_with(t, "http://127.0.0.1"@)
        && !starts_with(t, "http://localhost"@) {
        let u = "https://"@ + t.subrange("http://"@.len() as int, t.len() as int);
        assert(u.subrange(0, "https://"@.len() as int) =~= "https://"@);
    }
}

/// Once every listed meme is taken off the market, no stored meme is
/// listed any more.
pub proof fn law_market_clearing_unlists_all(b: Backend, c: Backend, meme_id: u64)
    requires
        b.wf(),
        only_sales_changed(b, c),
        c.nft.token_sales@ == market_cleared(b, listed_ids(b, b.store.memes.entries_seq())),
        b.store.memes@.contains_key(meme_id),
    ensures
        !is_listed_meme(c, meme_id),
{
    lemma_market_cleared_unlisted(b, c, meme_id);
}

/// Publishing is idempotent per user and image: publishing again an image
/// the user already published gives back the same meme and changes nothing.
#[verifier::spinoff_prover]
pub proof fn law_publish_idempotent(
    a: Backend,
    b: Backend,
    c: Backend,
    user: Seq<char>,
    meme: MemeData,
    again: MemeData,
    first_ns: u64,
    second_ns: u64,
    r1: Result<PublicStoredMeme, String>,
    r2: Result<PublicStoredMeme, String>,
)
    requires
        a.wf(),
        b.wf(),
        publish_outcome(a, b, user, meme, first_ns, r1),
        r1 is Ok,
        again.image_url@ == meme.image_url@,
        publish_outcome(b, c, user, again, second_ns, r2),
    ensures
        r2 == r1,
        c == b,
{
    let url = meme.image_url@;
    let sa = a.store.memes.entries_seq();
    let sb = b.store.memes.entries_seq();
    if first_published(sa, user, url).is_none() {
        let now_secs = first_ns / crate::weeks::NANOS_PER_SECOND;
        let mid = choose|mid: Backend|
            #![trigger rollover_outcome(a, mid, DEFAULT_TOP_N, now_secs, None::<u64>)]
            (rollover_outcome(a, mid, DEFAULT_TOP_N, now_secs, None::<u64>) || rollover_outcome(
                a,
                mid,
                DEFAULT_TOP_N,
                now_secs,
                Some(a.weeks.active_week_id),
            )) && published_state(mid, b, user, meme, first_ns, r1);
        let id = a.store.meme_counter.saturating_add(1);
        assert(mid.store.meme_counter == a.store.meme_counter);
        a.store.memes.lemma_view();
        b.store.memes.lemma_view();
        lemma_first_published_none(sa, user, url);
        assert(b.store.memes@.contains_key(id));
        let kb = choose|i: int| 0 <= i < sb.len() && #[trigger] sb[i].0 == id;
        assert forall|i: int| 0 <= i < sb.len() && i != kb implies !published_by(#[trigger] sb[i], user, url) by {
            let k = sb[i].0;
            assert(b.store.memes@.contains_key(b.store.memes.entries_seq()[i].0));
            assert(b.store.memes.entries_seq()[i].0 == k);
            assert(b.store.memes.entries_seq()[kb].0 == id);
            assert(k != id);
            assert(sb[i].1 == b.store.memes@[k]);
            assert(b.store.memes@[k] == mid.store.memes@[k]);
            assert(a.store.memes@.contains_key(k));
            let ia = choose|ia: int| 0 <= ia < sa.len() && #[trigger] sa[ia].0 == k;
            assert(!published_by(sa[ia], user, url));
        }
        lemma_first_published_unique(sb, kb, user, url);
    }
}

/// Publishing an image again, at any later time and whatever happened in
/// between, gives back the user's stored meme with that image and changes
/// nothing; when the user has one such meme it is that one.
pub proof fn law_publish_again_returns_stored(
    a: Backend,
    c: Backend,
    user: Seq<char>,
    id: u64,
    again: MemeData,
    now_ns: u64,
    r: Result<PublicStoredMeme, String>,
)
    requires
        a.wf(),
        user != anonymous_view(),
        a.store.memes@.contains_key(id),
        a.store.memes@[id].owner@ == user,
        a.store.memes@[id].meme_data.image_url@ == again.image_url@,
        publish_outcome(a, c, user, again, now_ns, r),
    ensures
        c == a,
        r matches Ok(q) && a.store.memes@.contains_key(q.id) && q == public_of(a, a.store.memes@[q.id])
            && a.store.memes@[q.id].owner@ == user && a.store.memes@[q.id].meme_data.image_url@ == again.image_url@,
        (forall|k: u64|
            #[trigger] a.store.memes@.contains_key(k) && k != id ==> !(a.store.memes@[k].owner@ == user
                && a.store.memes@[k].meme_data.image_url@ == again.image_url@)) ==> (r matches Ok(q) && q.id == id),
{
    let url = again.image_url@;
    let sa = a.store.memes.entries_seq();
    a.store.memes.lemma_view();
    let i = choose|i: int| 0 <= i < sa.len() && #[trigger] sa[i].0 == id;
    assert(sa[i].1 == a.store.memes@[id]);
    assert(published_by(sa[i], user, url));
    lemma_first_published_none(sa, user, url);
    lemma_first_published_member(sa, user, url);
    let e = first_published(sa, user, url).unwrap();
    let j = choose|j: int| 0 <= j < sa.len() && #[trigger] sa[j] == e;
    assert(a.store.memes@.contains_key(a.store.memes.entries_seq()[j].0));
    assert(a.store.memes@.contains_key(e.0) && a.store.memes@[e.0] == e.1);
    assert(e.1.id == e.0);
    if forall|k: u64|
        #[trigger] a.store.memes@.contains_key(k) && k != id ==> !(a.store.memes@[k].owner@ == user
            && a.store.memes@[k].meme_data.image_url@ == url) {
        assert forall|m: int| 0 <= m < sa.len() && m != i implies !published_by(#[trigger] sa[m], user, url) by {
            let k = sa[m].0;
            assert(a.store.memes@.contains_key(a.store.memes.entries_seq()[m].0));
            assert(a.store.memes@.contains_key(k) && a.store.memes@[k] == sa[m].1);
            assert(sa[m].0.kv() != sa[i].0.kv());
        }
        lemma_first_published_unique(sa, i, user, url);
    }
}

/// Whether a character may appear in an encoded query value: an unreserved
/// character, `%`, or an upper-case hexadecimal digit.
pub open spec fn url_safe(c: char) -> bool {
    is_unreserved(c) || c == '%' || (48 <= c as u32 <= 57) || (65 <= c as u32 <= 70)
}

/// An encoded query value holds only URL-safe characters.
pub proof fn law_url_encoding_is_safe(s: Seq<char>)
    ensures
        forall|i: int| 0 <= i < url_encoded(s).len() ==> url_safe(#[trigger] url_encoded(s)[i]),
    decreases s.len(),
{
    if s.len() > 0 {
        let p = s.drop_last();
        law_url_encoding_is_safe(p);
        let e = encoded_char(s.last());
        let b = (s.last() as u32) % 256;
        assert(forall|d: nat| d < 16 ==> url_safe(#[trigger] hex_digit(d)));
        assert forall|i: int| 0 <= i < e.len() implies url_safe(#[trigger] e[i]) by {
            if !is_unreserved(s.last()) && s.last() != ' ' {
                assert(url_safe(hex_digit((b / 16) as nat)));
                assert(url_safe(hex_digit((b % 16) as nat)));
            }
        }
        let u = url_encoded(s);
        assert forall|i: int| 0 <= i < u.len() implies url_safe(#[trigger] u[i]) by {
            if i < url_encoded(p).len() {
                assert(u[i] == url_encoded(p)[i]);
            } else {
                assert(u[i] == e[i - url_encoded(p).len()]);
            }
        }
    }
}

/// The daily quota: each generation recorded on a day counts once, and a
/// user with no generation yet that day may generate exactly
/// `DAILY_GENERATION_LIMIT` times.
pub proof fn law_daily_quota(rate: Map<Seq<char>, DayUsage>, user: Seq<char>, day: u64)
    requires
        usage_on(rate, user, day) == 0,
    ensures
        ({
            let r1 = rate.insert(user, DayUsage { day, count: usage_on(rate, user, day).wrapping_add(1) });
            let r2 = r1.insert(user, DayUsage { day, count: usage_on(r1, user, day).wrapping_add(1) });
            let r3 = r2.insert(user, DayUsage { day, count: usage_on(r2, user, day).wrapping_add(1) });
            &&& usage_on(rate, user, day) < DAILY_GENERATION_LIMIT
            &&& usage_on(r1, user, day) < DAILY_GENERATION_LIMIT
            &&& usage_on(r2, user, day) < DAILY_GENERATION_LIMIT
            &&& usage_on(r3, user, day) == DAILY_GENERATION_LIMIT
        }),
{
}

/// Replies counted against the daily quota never take a user past it,
/// however many requests were let through before any reply came: a reply is
/// counted only while the day's count is under the limit, and then counts
/// exactly once.
pub proof fn law_quota_never_exceeded(
    a: Backend,
    c: Backend,
    user: Seq<char>,
    now_ns: u64,
    status: u64,
    r: Result<(), String>,
)
    requires
        usage_on(a.store.rate@, user, now_ns / DAY_NS) <= DAILY_GENERATION_LIMIT,
        generation_outcome(a, c, user, now_ns, status, r),
    ensures
        usage_on(c.store.rate@, user, now_ns / DAY_NS) <= DAILY_GENERATION_LIMIT,
        r is Ok ==> usage_on(a.store.rate@, user, now_ns / DAY_NS) < DAILY_GENERATION_LIMIT
            && usage_on(c.store.rate@, user, now_ns / DAY_NS) == usage_on(a.store.rate@, user, now_ns / DAY_NS) + 1,
        r is Err ==> c == a,
{
}

/// Changing a vote moves it: the count of the old direction loses one, the
/// new direction gains one, and the user is not counted as a new voter
/// (below the saturation bounds).
pub proof fn law_vote_change_moves_count(base: MemeVotes, first: VoteType, second: VoteType, t1: u64, t2: u64)
    requires
        base.upvotes < u32::MAX,
        base.downvotes < u32::MAX,
        base.total_voters < u32::MAX,
    ensures
        ({
            let after = tallied(tallied(base, None, first, t1), Some(first), second, t2);
            &&& after.upvotes == base.upvotes + if second == VoteType::Upvote { 1int } else { 0int }
            &&& after.downvotes == base.downvotes + if second == VoteType::Downvote { 1int } else { 0int }
            &&& after.total_voters == base.total_voters + 1
            &&& after.last_vote_time == t2
        }),
{
}

/// The count of upvotes ever cast never goes down: a vote adds one for an
/// upvote (saturating) and nothing otherwise, and withdrawing a vote leaves
/// the count as it was.
pub proof fn law_lifetime_upvotes_never_decrease(
    a: Backend,
    b: Backend,
    c: Backend,
    user: Seq<char>,
    meme_id: u64,
    vote_type: VoteType,
    cost: u32,
    t1: u64,
    t2: u64,
    r1: Result<VoteResponse, String>,
    r2: Result<VoteResponse, String>,
)
    requires
        vote_outcome(a, b, user, meme_id, vote_type, cost, t1, r1),
        remove_outcome(b, c, user, meme_id, t2, r2),
    ensures
        a.voting.lifetime_upvotes <= b.voting.lifetime_upvotes,
        r1 is Ok ==> b.voting.lifetime_upvotes == lifetime_after(a.voting.lifetime_upvotes, vote_type),
        c.voting.lifetime_upvotes == b.voting.lifetime_upvotes,
{
}

/// A vote withdrawn right after it was cast (by a user who had not voted on
/// the meme) gives back the tallies and the live count from before the vote,
/// and the vote is gone. Left out are the states whose stored tallies for
/// the meme date from a week that the vote itself closes first: that
/// closing drops them, so the vote starts from fresh tallies.
pub proof fn law_remove_after_vote_restores(
    a: Backend,
    b: Backend,
    c: Backend,
    user: Seq<char>,
    meme_id: u64,
    vote_type: VoteType,
    cost: u32,
    now_ns: u64,
    r1: Result<VoteResponse, String>,
    r2: Result<VoteResponse, String>,
)
    requires
        a.wf(),
        b.wf(),
        vote_outcome(a, b, user, meme_id, vote_type, cost, now_ns, r1),
        r1 is Ok,
        !a.voting.user_votes@.contains_key((user, meme_id)),
        a.voting.votes@.contains_key(meme_id) && weeks_to_close(a, now_ns).len() > 0 ==> a.voting.votes@[meme_id].created_week
            > weeks_to_close(a, now_ns).last(),
        a.voting.votes@.contains_key(meme_id) ==> a.voting.votes@[meme_id].upvotes < u32::MAX
            && a.voting.votes@[meme_id].downvotes < u32::MAX && a.voting.votes@[meme_id].total_voters < u32::MAX,
        remove_outcome(b, c, user, meme_id, now_ns, r2),
    ensures
        ({
            let before = if a.voting.votes@.contains_key(meme_id) {
                a.voting.votes@[meme_id]
            } else {
                fresh_tallies(meme_id, 0, 0)
            };
            &&& r2 matches Ok(resp) && resp.success && resp.user_previous_vote == Some(vote_type)
                && resp.new_vote_count == before.upvotes.wrapping_add(before.downvotes)
            &&& !c.voting.user_votes@.contains_key((user, meme_id))
            &&& c.voting.votes@.contains_key(meme_id)
            &&& c.voting.votes@[meme_id].upvotes == before.upvotes
            &&& c.voting.votes@[meme_id].downvotes == before.downvotes
            &&& c.voting.votes@[meme_id].total_voters == before.total_voters
            &&& live_count(c.board.live_votes@, meme_id) == before.upvotes
        }),
{
    let cw = week_of_ns(now_ns as int) as u64;
    assert(vote_input_error(user, meme_id, cost).is_none());
    assert(a.store.memes@.contains_key(meme_id));
    let w = weeks_to_close(a, now_ns);
    a.voting.periods.lemma_view();
    assert forall|i: int| 0 <= i < a.voting.periods.entries_seq().len() implies (#[trigger] a.voting.periods.entries_seq()[i]).1.week_id
        == a.voting.periods.entries_seq()[i].0 by {
        assert(a.voting.periods@.contains_key(a.voting.periods.entries_seq()[i].0));
    }
    lemma_closable_before_now(a.voting.periods.entries_seq(), now_ns);
    if w.len() > 0 {
        assert(w[w.len() - 1] < cw);
    }
    lemma_prepared_leaves_nothing_to_close(a, b, now_ns, current_periods(a, now_ns));
    let pb = b.voting.periods@;
    assert(periods_closed(pb, weeks_to_close(b, now_ns)) =~= pb);
    assert(ensured_periods(b, now_ns) == pb);
    assert(current_periods(b, now_ns) == pb);
    assert(b.store.memes@.contains_key(meme_id));
    assert(b.store.memes@[meme_id].owner == a.store.memes@[meme_id].owner);
    assert(meme_week(b.store.memes@[meme_id]) == meme_week(a.store.memes@[meme_id]));
    assert(b.voting.user_votes@.contains_key((user, meme_id)));
    assert(b.voting.user_votes@[(user, meme_id)].vote_type == vote_type);
}

/// A sale record that was not on the market comes back unchanged when it is
/// listed and then taken off the market.
pub proof fn law_list_then_delist_restores(s: TokenSaleMetadata, strategy: ListingStrategy, now_ns: u64)
    requires
        !s.is_listed,
        s.listing_price.is_none(),
        s.listed_at.is_none(),
        s.listing_type == ListingType::Unlisted,
        s.auction_start_price.is_none(),
        s.auction_highest_bid.is_none(),
        s.auction_highest_bidder.is_none(),
        s.auction_bid_count == 0,
    ensures
        delisted(listed(s, strategy, now_ns)) == s,
{
}

/// Minting a meme that had no tokens leaves every other meme's tokens as
/// they were: a minted meme stays minted.
pub proof fn law_mint_keeps_minted(before: Map<u64, Vec<u64>>, after: Map<u64, Vec<u64>>, meme_id: u64, other: u64)
    requires
        tokens_for_meme(before, meme_id).len() == 0,
        after.remove(meme_id) == before.remove(meme_id),
        token_for_meme(before, other).is_some(),
    ensures
        token_for_meme(after, other) == token_for_meme(before, other),
        tokens_for_meme(after, other) == tokens_for_meme(before, other),
{
    assert(other != meme_id);
    assert(before.remove(meme_id).contains_key(other));
    assert(after.remove(meme_id).contains_key(other));
    assert(after.contains_key(other));
    assert(after[other] == after.remove(meme_id)[other]);
    assert(before[other] == before.remove(meme_id)[other]);
}

/// A meme is minted once: of two mints of the same meme completed one after
/// the other (as when both were prepared before either finished), the
/// second is refused and changes nothing; when the meme had no tokens
/// before, the first succeeds and the meme then holds exactly its editions.
pub proof fn law_meme_minted_once(
    a: Backend,
    b: Backend,
    c: Backend,
    p1: MintPlan,
    p2: MintPlan,
    image1: Seq<u8>,
    image2: Seq<u8>,
    t1: u64,
    t2: u64,
    r1: Result<Vec<u64>, String>,
    r2: Result<Vec<u64>, String>,
)
    requires
        p1.meme.id == p2.meme.id,
        p1.to_mint > 0,
        mint_outcome(a, b, p1, image1, t1, r1),
        mint_outcome(b, c, p2, image2, t2, r2),
    ensures
        r2 matches Err(e) && e@ == already_minted_error(p2.mode),
        c == b,
        tokens_for_meme(a.nft.mint_index@, p1.meme.id).len() == 0 ==> r1 is Ok && tokens_for_meme(
            c.nft.mint_index@,
            p1.meme.id,
        ).len() == p1.to_mint,
{
    if tokens_for_meme(a.nft.mint_index@, p1.meme.id).len() == 0 {
        let v = r1->Ok_0;
        assert(tokens_for_meme(b.nft.mint_index@, p1.meme.id) == tokens_for_meme(a.nft.mint_index@, p1.meme.id) + v@);
        assert(tokens_for_meme(b.nft.mint_index@, p1.meme.id).len() == p1.to_mint);
    }
}

/// What one operation keeps of the past, a run of operations keeps: over
/// any sequence of states each of which an operation of the backend made
/// from the one before (every operation ensures `history_kept`), the count
/// of upvotes ever cast never goes down, and a meme that had tokens at the
/// start has exactly those tokens at the end, so it stays minted
/// (`is_meme_minted` stays true and gives the same first token).
pub proof fn law_history_kept_in_any_run(states: Seq<Backend>)
    requires
        states.len() > 0,
        forall|i: int| 0 <= i < states.len() - 1 ==> history_kept(#[trigger] states[i], states[i + 1]),
    ensures
        history_kept(states[0], states[states.len() - 1]),
        states[0].voting.lifetime_upvotes <= states[states.len() - 1].voting.lifetime_upvotes,
        forall|m: u64|
            tokens_for_meme(states[0].nft.mint_index@, m).len() > 0 ==> #[trigger] tokens_for_meme(
                states[states.len() - 1].nft.mint_index@,
                m,
            ) == tokens_for_meme(states[0].nft.mint_index@, m),
        forall|m: u64|
            token_for_meme(states[0].nft.mint_index@, m) is Some ==> #[trigger] token_for_meme(
                states[states.len() - 1].nft.mint_index@,
                m,
            ) == token_for_meme(states[0].nft.mint_index@, m),
    decreases states.len(),
{
    if states.len() > 1 {
        let p = states.drop_last();
        assert forall|i: int| 0 <= i < p.len() - 1 implies history_kept(#[trigger] p[i], p[i + 1]) by {
            assert(p[i] == states[i] && p[i + 1] == states[i + 1]);
        }
        law_history_kept_in_any_run(p);
        let a = states[0];
        let b = states[states.len() - 2];
        let c = states[states.len() - 1];
        assert(p[p.len() - 1] == b);
        assert(history_kept(b, c));
        assert forall|m: u64| #[trigger] tokens_for_meme(a.nft.mint_index@, m).len() > 0 implies tokens_for_meme(
            c.nft.mint_index@,
            m,
        ) == tokens_for_meme(a.nft.mint_index@, m) by {
            assert(tokens_for_meme(b.nft.mint_index@, m) == tokens_for_meme(a.nft.mint_index@, m));
        }
    }
    let a = states[0];
    let c = states[states.len() - 1];
    assert forall|m: u64| token_for_meme(a.nft.mint_index@, m) is Some implies #[trigger] token_for_meme(
        c.nft.mint_index@,
        m,
    ) == token_for_meme(a.nft.mint_index@, m) by {
        assert(tokens_for_meme(a.nft.mint_index@, m).len() > 0);
        assert(tokens_for_meme(c.nft.mint_index@, m) == tokens_for_meme(a.nft.mint_index@, m));
    }
}

/// Whether `states` are the states a run of completions of `plans` (with
/// the fetched `images`, at `times`, giving `results`) goes through, every
/// plan minting at least one edition of meme `meme_id`.
pub open spec fn mint_run(
    states: Seq<Backend>,
    plans: Seq<MintPlan>,
    images: Seq<Seq<u8>>,
    times: Seq<u64>,
    results: Seq<Result<Vec<u64>, String>>,
    meme_id: u64,
) -> bool {
    &&& states.len() == plans.len() + 1
    &&& images.len() == plans.len()
    &&& times.len() == plans.len()
    &&& results.len() == plans.len()
    &&& forall|i: int|
        0 <= i < plans.len() ==> (#[trigger] plans[i]).meme.id == meme_id && plans[i].to_mint > 0 && mint_outcome(
            states[i],
            states[i + 1],
            plans[i],
            images[i],
            times[i],
            results[i],
        )
}

/// Once a meme has tokens, every later completion in a run is refused and
/// changes nothing.
proof fn lemma_minted_run_refused(
    states: Seq<Backend>,
    plans: Seq<MintPlan>,
    images: Seq<Seq<u8>>,
    times: Seq<u64>,
    results: Seq<Result<Vec<u64>, String>>,
    meme_id: u64,
    from: int,
)
    requires
        mint_run(states, plans, images, times, results, meme_id),
        0 <= from <= plans.len(),
        tokens_for_meme(states[from].nft.mint_index@, meme_id).len() > 0,
    ensures
        forall|i: int| from <= i < plans.len() ==> (#[trigger] results[i]) is Err,
        forall|i: int| from <= i <= plans.len() ==> #[trigger] states[i] == states[from],
    decreases plans.len() - from,
{
    if from < plans.len() {
        assert(plans[from].meme.id == meme_id);
        lemma_minted_run_refused(states, plans, images, times, results, meme_id, from + 1);
    }
}

/// A meme is minted at most once, however many mints of it are completed
/// one after another (as when they were all prepared before any finished):
/// after one completion succeeds every later one is refused, the meme then
/// holds exactly that completion's editions, and when the meme had tokens
/// already every completion is refused and nothing changes.
pub proof fn law_meme_minted_at_most_once(
    states: Seq<Backend>,
    plans: Seq<MintPlan>,
    images: Seq<Seq<u8>>,
    times: Seq<u64>,
    results: Seq<Result<Vec<u64>, String>>,
    meme_id: u64,
)
    requires
        mint_run(states, plans, images, times, results, meme_id),
    ensures
        forall|i: int, j: int|
            0 <= i < j < plans.len() && (#[trigger] results[i]) is Ok ==> (#[trigger] results[j]) is Err,
        forall|i: int|
            0 <= i < plans.len() && (#[trigger] results[i]) is Ok ==> tokens_for_meme(
                states[plans.len() as int].nft.mint_index@,
                meme_id,
            ).len() == plans[i].to_mint,
        tokens_for_meme(states[0].nft.mint_index@, meme_id).len() > 0 ==> (forall|i: int|
            0 <= i < plans.len() ==> (#[trigger] results[i]) is Err) && states[plans.len() as int] == states[0],
{
    let n = plans.len() as int;
    assert forall|i: int| 0 <= i < n && (#[trigger] results[i]) is Ok implies tokens_for_meme(
        states[i + 1].nft.mint_index@,
        meme_id,
    ).len() == plans[i].to_mint && tokens_for_meme(states[n].nft.mint_index@, meme_id).len() == plans[i].to_mint
        && (forall|j: int| i < j < n ==> (#[trigger] results[j]) is Err) by {
        assert(plans[i].meme.id == meme_id);
        let v = results[i]->Ok_0;
        assert(tokens_for_meme(states[i].nft.mint_index@, meme_id).len() == 0);
        assert(tokens_for_meme(states[i + 1].nft.mint_index@, meme_id) == tokens_for_meme(
            states[i].nft.mint_index@,
            meme_id,
        ) + v@);
        lemma_minted_run_refused(states, plans, images, times, results, meme_id, i + 1);
        assert(states[n] == states[i + 1]);
    }
    if tokens_for_meme(states[0].nft.mint_index@, meme_id).len() > 0 {
        lemma_minted_run_refused(states, plans, images, times, results, meme_id, 0);
        assert(states[n] == states[0]);
    }
}

/// A stored weekly leaderboard is what is read back for its week, its week
/// is among the weeks listed, and every other week reads as before: a week
/// that was not stored still reads as absent.
pub proof fn law_stored_leaderboard_read_back(a: Backend, c: Backend, board: WeeklyLeaderboard, w: u64)
    requires
        c.wf(),
        c.board.finalized@ == a.board.finalized@.insert(board.week_id, board),
    ensures
        c.board.finalized@.contains_key(board.week_id),
        c.board.finalized@[board.week_id] == board,
        page(c.board.finalized.keys_seq().reverse(), 0, c.board.finalized.keys_seq().len() as int).contains(
            board.week_id,
        ),
        w != board.week_id ==> c.board.finalized@.contains_key(w) == a.board.finalized@.contains_key(w),
        w != board.week_id && a.board.finalized@.contains_key(w) ==> c.board.finalized@[w]
            == a.board.finalized@[w],
{
    let f = c.board.finalized;
    f.lemma_view();
    let ks = f.keys_seq();
    assert(f@.contains_key(board.week_id));
    assert(ks.len() == f.spec_len());
    let i = choose|i: int| 0 <= i < f.spec_len() && #[trigger] f.entries_seq()[i].0 == board.week_id;
    assert(ks[i] == board.week_id);
    let r = ks.reverse();
    assert(r[ks.len() - 1 - i] == board.week_id);
    assert(page(r, 0, ks.len() as int) =~= r);
}

/// After a reset no week has a stored leaderboard.
pub proof fn law_reset_forgets_leaderboards(a: Backend, c: Backend, now_ns: u64, w: u64)
    requires
        reset_state(a, c, now_ns),
    ensures
        !c.board.finalized@.contains_key(w),
{
}


/// Whether meme `a` (tallies `va`) comes no later than meme `b` (tallies
/// `vb`) among the most liked: more upvotes first, then fewer downvotes,
/// then the later last vote, then the smaller id.
pub open spec fn liked_no_later(a: u64, va: MemeVotes, b: u64, vb: MemeVotes) -> bool {
    va.upvotes > vb.upvotes || (va.upvotes == vb.upvotes && (va.downvotes < vb.downvotes || (va.downvotes
        == vb.downvotes && (va.last_vote_time > vb.last_vote_time || (va.last_vote_time == vb.last_vote_time
        && a <= b)))))
}

/// The most-liked list puts memes in order of upvotes, most first (then
/// fewer downvotes, later last vote, smaller id); each entry shows its
/// meme's own tallies; and a tallied meme that is left out has no more
/// upvotes than the last one shown, and comes no earlier than it.
pub proof fn law_top_liked_by_upvotes(b: Backend, limit: Option<u32>, r: TopLikedLeaderboard)
    requires
        b.wf(),
        r.top_memes@.len() == first_n(rank_sorted(b.voting.votes.entries_seq()), liked_limit(limit)).len(),
        forall|i: int|
            0 <= i < r.top_memes@.len() ==> #[trigger] r.top_memes@[i] == liked_entry(
                b,
                first_n(rank_sorted(b.voting.votes.entries_seq()), liked_limit(limit))[i],
                i + 1,
            ),
    ensures
        forall|i: int, j: int|
            0 <= i < j < r.top_memes@.len() ==> (#[trigger] r.top_memes@[i]).votes.upvotes >= (
            #[trigger] r.top_memes@[j]).votes.upvotes,
        forall|i: int, j: int|
            0 <= i < j < r.top_memes@.len() ==> liked_no_later(
                (#[trigger] r.top_memes@[i]).meme_id,
                r.top_memes@[i].votes,
                (#[trigger] r.top_memes@[j]).meme_id,
                r.top_memes@[j].votes,
            ),
        forall|i: int|
            0 <= i < r.top_memes@.len() ==> b.voting.votes@.contains_key((#[trigger] r.top_memes@[i]).meme_id)
                && b.voting.votes@[r.top_memes@[i].meme_id] == r.top_memes@[i].votes,
        forall|k: u64|
            #[trigger] b.voting.votes@.contains_key(k) && r.top_memes@.len() > 0 && (forall|i: int|
                0 <= i < r.top_memes@.len() ==> r.top_memes@[i].meme_id != k) ==> b.voting.votes@[k].upvotes
                <= r.top_memes@[r.top_memes@.len() - 1].votes.upvotes && liked_no_later(
                r.top_memes@[r.top_memes@.len() - 1].meme_id,
                r.top_memes@[r.top_memes@.len() - 1].votes,
                k,
                b.voting.votes@[k],
            ),
{
    let s = b.voting.votes.entries_seq();
    let rs = rank_sorted(s);
    let ranked = first_n(rs, liked_limit(limit));
    let n = r.top_memes@.len();
    lemma_rank_sorted(s);
    b.voting.votes.lemma_view();
    assert forall|i: int| 0 <= i < ranked.len() implies #[trigger] ranked[i] == rs[i] by {}
    assert forall|i: int, j: int| 0 <= i < j < n implies (#[trigger] r.top_memes@[i]).votes.upvotes >= (
    #[trigger] r.top_memes@[j]).votes.upvotes by {
        assert(ranked[i] == rs[i] && ranked[j] == rs[j]);
        assert(rank_le(rs[i].rank(), rs[j].rank()));
    }
    assert forall|i: int, j: int| 0 <= i < j < n implies liked_no_later(
        (#[trigger] r.top_memes@[i]).meme_id,
        r.top_memes@[i].votes,
        (#[trigger] r.top_memes@[j]).meme_id,
        r.top_memes@[j].votes,
    ) by {
        assert(ranked[i] == rs[i] && ranked[j] == rs[j]);
        assert(rank_le(rs[i].rank(), rs[j].rank()));
    }
    assert forall|i: int| 0 <= i < n implies b.voting.votes@.contains_key((#[trigger] r.top_memes@[i]).meme_id)
        && b.voting.votes@[r.top_memes@[i].meme_id] == r.top_memes@[i].votes by {
        assert(ranked[i] == rs[i]);
        assert(rs.contains(rs[i]));
        vstd::seq_lib::to_multiset_contains(rs, rs[i]);
        vstd::seq_lib::to_multiset_contains(s, rs[i]);
        assert(s.contains(rs[i]));
        let q = choose|q: int| 0 <= q < s.len() && s[q] == rs[i];
        assert(b.voting.votes@.contains_key(s[q].0));
    }
    assert forall|k: u64|
        #[trigger] b.voting.votes@.contains_key(k) && n > 0 && (forall|i: int|
            0 <= i < n ==> r.top_memes@[i].meme_id != k) implies b.voting.votes@[k].upvotes
            <= r.top_memes@[n - 1].votes.upvotes && liked_no_later(
            r.top_memes@[n - 1].meme_id,
            r.top_memes@[n - 1].votes,
            k,
            b.voting.votes@[k],
        ) by {
        let q = choose|q: int| 0 <= q < s.len() && #[trigger] s[q].0 == k;
        assert(b.voting.votes@.contains_key(s[q].0));
        assert(s.contains(s[q]));
        vstd::seq_lib::to_multiset_contains(s, s[q]);
        vstd::seq_lib::to_multiset_contains(rs, s[q]);
        assert(rs.contains(s[q]));
        let p = choose|p: int| 0 <= p < rs.len() && rs[p] == s[q];
        if p < n {
            assert(ranked[p] == rs[p]);
            assert(r.top_memes@[p].meme_id == k);
        }
        assert(ranked[n - 1] == rs[n - 1]);
        assert(rank_le(rs[n - 1].rank(), rs[p].rank()));
    }
}

/// Listing records the strategy asked for: a fixed price is listed as a
/// fixed-price sale at that price, with no auction; an auction is listed as
/// an auction whose price and starting price are the starting price; either
/// way the record is on the market since `now_ns`, for the same token and
/// meme, with no bid yet.
pub proof fn law_listing_records_strategy(s: TokenSaleMetadata, strategy: ListingStrategy, now_ns: u64)
    ensures
        ({
            let l = listed(s, strategy, now_ns);
            &&& l.is_listed
            &&& l.listed_at == Some(now_ns)
            &&& l.token_id == s.token_id && l.meme_id == s.meme_id
            &&& l.auction_highest_bid.is_none() && l.auction_highest_bidder.is_none() && l.auction_bid_count == 0
            &&& match strategy {
                ListingStrategy::FixedPrice { price_e8s } => {
                    &&& l.listing_type == ListingType::FixedPrice
                    &&& l.listing_price == Some(price_e8s)
                    &&& l.auction_start_price.is_none()
                },
                ListingStrategy::Auction { start_price_e8s } => {
                    &&& l.listing_type == ListingType::Auction
                    &&& l.listing_price == Some(start_price_e8s)
                    &&& l.auction_start_price == Some(start_price_e8s)
                },
            }
        }),
{
}

/// The stored memes among ids in non-increasing order come out in
/// non-increasing order of id, each id one of the list's.
proof fn lemma_existing_public_order(b: Backend, ids: Seq<u64>)
    requires
        b.wf(),
        forall|i: int, j: int| 0 <= i < j < ids.len() ==> #[trigger] ids[i] >= #[trigger] ids[j],
    ensures
        forall|k: int|
            0 <= k < existing_public(b, ids).len() ==> exists|i: int|
                0 <= i < ids.len() && ids[i] == (#[trigger] existing_public(b, ids)[k]).id,
        forall|x: int, y: int|
            0 <= x < y < existing_public(b, ids).len() ==> (#[trigger] existing_public(b, ids)[x]).id >= (
            #[trigger] existing_public(b, ids)[y]).id,
    decreases ids.len(),
{
    if ids.len() > 0 {
        let p = ids.drop_last();
        assert forall|i: int, j: int| 0 <= i < j < p.len() implies #[trigger] p[i] >= #[trigger] p[j] by {
            assert(p[i] == ids[i] && p[j] == ids[j]);
        }
        lemma_existing_public_order(b, p);
        let e = existing_public(b, ids);
        let ep = existing_public(b, p);
        assert forall|k: int| 0 <= k < ep.len() implies exists|i: int|
            0 <= i < ids.len() && ids[i] == (#[trigger] ep[k]).id by {
            let i = choose|i: int| 0 <= i < p.len() && p[i] == ep[k].id;
            assert(ids[i] == p[i]);
        }
        if b.store.memes@.contains_key(ids.last()) {
            let last = public_of(b, b.store.memes@[ids.last()]);
            assert(e == ep.push(last));
            assert(last.id == ids.last());
            assert forall|k: int| 0 <= k < e.len() implies exists|i: int|
                0 <= i < ids.len() && ids[i] == (#[trigger] e[k]).id by {
                if k < ep.len() {
                    assert(e[k] == ep[k]);
                } else {
                    assert(ids[ids.len() - 1] == e[k].id);
                }
            }
            assert forall|x: int, y: int| 0 <= x < y < e.len() implies (#[trigger] e[x]).id >= (#[trigger] e[y]).id by {
                assert(e[x] == ep[x]);
                if y < ep.len() {
                    assert(e[y] == ep[y]);
                } else {
                    let i = choose|i: int| 0 <= i < ids.len() && ids[i] == (#[trigger] ep[x]).id;
                    if i < ids.len() - 1 {
                        assert(ids[i] >= ids[ids.len() - 1]);
                    }
                }
            }
        }
    }
}

/// A user's memes are listed newest first: in non-increasing order of id.
pub proof fn law_user_memes_newest_first(b: Backend, user: Seq<char>, r: Seq<PublicStoredMeme>)
    requires
        b.wf(),
        r == existing_public(b, rank_sorted(user_list(b, user))),
    ensures
        forall|i: int, j: int| 0 <= i < j < r.len() ==> (#[trigger] r[i]).id >= (#[trigger] r[j]).id,
{
    let ids = rank_sorted(user_list(b, user));
    lemma_rank_sorted(user_list(b, user));
    assert forall|i: int, j: int| 0 <= i < j < ids.len() implies #[trigger] ids[i] >= #[trigger] ids[j] by {
        assert(rank_le(ids[i].rank(), ids[j].rank()));
    }
    lemma_existing_public_order(b, ids);
}

/// After a vote is recorded, the meme's live count is its upvote tally; the
/// same holds after a vote is withdrawn from a meme that keeps its tallies.
pub proof fn law_live_count_is_upvotes(
    a: Backend,
    b: Backend,
    c: Backend,
    user: Seq<char>,
    meme_id: u64,
    vote_type: VoteType,
    cost: u32,
    now_ns: u64,
    later_ns: u64,
    r1: Result<VoteResponse, String>,
    r2: Result<VoteResponse, String>,
)
    requires
        vote_outcome(a, b, user, meme_id, vote_type, cost, now_ns, r1),
        remove_outcome(a, c, user, meme_id, later_ns, r2),
    ensures
        r1 is Ok ==> b.voting.votes@.contains_key(meme_id) && live_count(b.board.live_votes@, meme_id)
            == b.voting.votes@[meme_id].upvotes,
        r2 is Ok ==> c.voting.votes@.contains_key(meme_id) && live_count(c.board.live_votes@, meme_id)
            == c.voting.votes@[meme_id].upvotes,
{
}


/// The top three of a week hold at most three entries, by upvotes (most
/// first), then the later last vote, then the smaller id; an entry of the
/// week that is left out has no more upvotes than the last one shown.
pub proof fn law_week_top3_by_upvotes(b: Backend, week_id: u64)
    ensures
        week_top3(b, week_id).len() <= 3,
        forall|i: int, j: int|
            0 <= i < j < week_top3(b, week_id).len() ==> {
                let x = #[trigger] week_top3(b, week_id)[i];
                let y = #[trigger] week_top3(b, week_id)[j];
                x.upvotes > y.upvotes || (x.upvotes == y.upvotes && (x.last_vote_time > y.last_vote_time || (
                x.last_vote_time == y.last_vote_time && x.meme_id <= y.meme_id)))
            },
        forall|q: int|
            0 <= q < week_top_entries(b.voting.votes.entries_seq(), week_id).len() && week_top3(b, week_id).len()
                > 0 && (forall|i: int|
                0 <= i < week_top3(b, week_id).len() ==> week_top3(b, week_id)[i] != #[trigger] week_top_entries(
                    b.voting.votes.entries_seq(),
                    week_id,
                )[q]) ==> week_top_entries(b.voting.votes.entries_seq(), week_id)[q].upvotes <= week_top3(
                b,
                week_id,
            )[week_top3(b, week_id).len() - 1].upvotes,
{
    let c = week_top_entries(b.voting.votes.entries_seq(), week_id);
    let rs = rank_sorted(c);
    let t = week_top3(b, week_id);
    lemma_rank_sorted(c);
    assert forall|i: int| 0 <= i < t.len() implies #[trigger] t[i] == rs[i] by {}
    assert forall|i: int, j: int| 0 <= i < j < t.len() implies {
        let x = #[trigger] t[i];
        let y = #[trigger] t[j];
        x.upvotes > y.upvotes || (x.upvotes == y.upvotes && (x.last_vote_time > y.last_vote_time || (
        x.last_vote_time == y.last_vote_time && x.meme_id <= y.meme_id)))
    } by {
        assert(t[i] == rs[i] && t[j] == rs[j]);
        assert(rank_le(rs[i].rank(), rs[j].rank()));
    }
    assert forall|q: int|
        0 <= q < c.len() && t.len() > 0 && (forall|i: int| 0 <= i < t.len() ==> t[i] != #[trigger] c[q]) implies c[q].upvotes
        <= t[t.len() - 1].upvotes by {
        assert(c.contains(c[q]));
        vstd::seq_lib::to_multiset_contains(c, c[q]);
        vstd::seq_lib::to_multiset_contains(rs, c[q]);
        let p = choose|p: int| 0 <= p < rs.len() && rs[p] == c[q];
        if p < t.len() {
            assert(t[p] == rs[p]);
        }
        assert(t[t.len() - 1] == rs[t.len() - 1]);
        assert(rank_le(rs[t.len() - 1].rank(), rs[p].rank()));
    }
}

/// The live ranking of a week lists each of the week's memes with its live
/// count, by count (most first), then by the smaller id.
pub proof fn law_live_ranking_by_count(b: Backend, week_id: u64)
    ensures
        ranked_live(b, week_id).len() == week_ids(b.weeks.week_index@, week_id).len(),
        forall|i: int, j: int|
            0 <= i < j < ranked_live(b, week_id).len() ==> {
                let x = #[trigger] ranked_live(b, week_id)[i];
                let y = #[trigger] ranked_live(b, week_id)[j];
                x.1 > y.1 || (x.1 == y.1 && x.0 <= y.0)
            },
        forall|i: int|
            0 <= i < ranked_live(b, week_id).len() ==> (#[trigger] ranked_live(b, week_id)[i]).1 == live_count(
                b.board.live_votes@,
                ranked_live(b, week_id)[i].0,
            ) && week_ids(b.weeks.week_index@, week_id).contains(ranked_live(b, week_id)[i].0),
{
    let c = live_candidates(b, week_id);
    let e = ranked_live(b, week_id);
    lemma_rank_sorted(c);
    vstd::seq_lib::to_multiset_len(c);
    vstd::seq_lib::to_multiset_len(e);
    assert forall|i: int, j: int| 0 <= i < j < e.len() implies {
        let x = #[trigger] e[i];
        let y = #[trigger] e[j];
        x.1 > y.1 || (x.1 == y.1 && x.0 <= y.0)
    } by {
        assert(rank_le(e[i].rank(), e[j].rank()));
    }
    assert forall|i: int| 0 <= i < e.len() implies (#[trigger] e[i]).1 == live_count(b.board.live_votes@, e[i].0)
        && week_ids(b.weeks.week_index@, week_id).contains(e[i].0) by {
        assert(e.contains(e[i]));
        vstd::seq_lib::to_multiset_contains(e, e[i]);
        vstd::seq_lib::to_multiset_contains(c, e[i]);
        let k = choose|k: int| 0 <= k < c.len() && c[k] == e[i];
        let ids = week_ids(b.weeks.week_index@, week_id);
        assert(c[k] == (ids[k], live_count(b.board.live_votes@, ids[k])));
        assert(ids.contains(ids[k]));
    }
}


/// What each change does to a sale record: listing puts it on the market
/// with the strategy's type and prices; taking it off the market clears the
/// listing and any auction; a sale counts one more sale (saturating), adds
/// the price to the earnings (saturating), records the price and time and
/// takes it off the market; nothing else about the record changes.
pub proof fn law_sale_updates(s: TokenSaleMetadata, u: SaleUpdate)
    ensures
        ({
            let t = applied(s, u);
            &&& t.token_id == s.token_id && t.meme_id == s.meme_id
            &&& match u {
                SaleUpdate::List { strategy, now_ns } => {
                    &&& t.is_listed && t.listed_at == Some(now_ns)
                    &&& t.total_sales == s.total_sales && t.total_earned == s.total_earned
                    &&& t.auction_highest_bid.is_none() && t.auction_bid_count == 0
                    &&& match strategy {
                        ListingStrategy::FixedPrice { price_e8s } => t.listing_type == ListingType::FixedPrice
                            && t.listing_price == Some(price_e8s) && t.auction_start_price.is_none(),
                        ListingStrategy::Auction { start_price_e8s } => t.listing_type == ListingType::Auction
                            && t.listing_price == Some(start_price_e8s) && t.auction_start_price == Some(
                            start_price_e8s,
                        ),
                    }
                },
                SaleUpdate::Delist => {
                    &&& !t.is_listed && t.listing_price.is_none() && t.listed_at.is_none()
                    &&& t.listing_type == ListingType::Unlisted
                    &&& t.auction_start_price.is_none() && t.auction_highest_bid.is_none()
                    &&& t.auction_highest_bidder.is_none() && t.auction_bid_count == 0
                    &&& t.total_sales == s.total_sales && t.total_earned == s.total_earned
                    &&& t.last_sale_price == s.last_sale_price && t.last_sale_at == s.last_sale_at
                },
                SaleUpdate::DelistPriceOnly => {
                    &&& !t.is_listed && t.listing_price.is_none() && t.listed_at.is_none()
                    &&& t.listing_type == s.listing_type && t.auction_start_price == s.auction_start_price
                    &&& t.total_sales == s.total_sales && t.total_earned == s.total_earned
                },
                SaleUpdate::Sold { price_e8s, now_ns } => {
                    &&& !t.is_listed && t.listing_price.is_none() && t.listing_type == ListingType::Unlisted
                    &&& t.total_sales == (if s.total_sales == u64::MAX { u64::MAX as int } else { s.total_sales + 1 })
                    &&& t.total_earned == (if s.total_earned + price_e8s > u64::MAX { u64::MAX as int } else {
                        s.total_earned + price_e8s
                    })
                    &&& t.last_sale_price == Some(price_e8s) && t.last_sale_at == Some(now_ns)
                },
                SaleUpdate::Keep => t == s,
            }
        }),
{
}

/// A vote by a user who had not voted on the meme counts the user as one
/// more voter and adds one to the count of its direction, leaving the other
/// direction as it was (below the saturation bounds); the vote's time
/// becomes the last vote time, and the meme and its week stay.
pub proof fn law_first_vote_counts_once(base: MemeVotes, vote_type: VoteType, now_ns: u64)
    requires
        base.upvotes < u32::MAX,
        base.downvotes < u32::MAX,
        base.total_voters < u32::MAX,
    ensures
        ({
            let t = tallied(base, None, vote_type, now_ns);
            &&& t.total_voters == base.total_voters + 1
            &&& vote_type == VoteType::Upvote ==> t.upvotes == base.upvotes + 1 && t.downvotes == base.downvotes
            &&& vote_type == VoteType::Downvote ==> t.downvotes == base.downvotes + 1 && t.upvotes == base.upvotes
            &&& t.last_vote_time == now_ns
            &&& t.meme_id == base.meme_id && t.created_week == base.created_week
        }),
{
}


/// A vote is recorded only for a signed-in user, a nonzero meme id and a
/// cost from 1 to the weekly cap, on a stored meme of someone else; then the
/// user's vote on the meme is the one cast, at the time of the vote, the
/// response counts both directions of the meme's new tallies, and the
/// user's power for the week of the vote is what it had left (the full
/// weekly cap in a new week) less the cost.
pub proof fn law_recorded_vote(
    a: Backend,
    b: Backend,
    user: Seq<char>,
    meme_id: u64,
    vote_type: VoteType,
    cost: u32,
    now_ns: u64,
    r: Result<VoteResponse, String>,
)
    requires
        vote_outcome(a, b, user, meme_id, vote_type, cost, now_ns, r),
        r is Ok,
    ensures
        user != anonymous_view(),
        meme_id != 0,
        1 <= cost <= 100,
        a.store.memes@.contains_key(meme_id),
        a.store.memes@[meme_id].owner@ != user,
        b.voting.user_votes@.contains_key((user, meme_id)),
        b.voting.user_votes@[(user, meme_id)].vote_type == vote_type,
        b.voting.user_votes@[(user, meme_id)].timestamp == now_ns,
        b.voting.votes@.contains_key(meme_id),
        r->Ok_0.success,
        r->Ok_0.new_vote_count == b.voting.votes@[meme_id].upvotes.wrapping_add(b.voting.votes@[meme_id].downvotes),
        b.voting.powers@.contains_key(user),
        b.voting.powers@[user].week_id == week_of_ns(now_ns as int),
        b.voting.powers@[user].remaining + cost == (if a.voting.powers@.contains_key(user)
            && a.voting.powers@[user].week_id == week_of_ns(now_ns as int) {
            a.voting.powers@[user].remaining as int
        } else {
            100
        }),
{
}


/// Publishing an image the user has not published yet stores a new meme:
/// the user's, with the data given, created at the time of the call, with
/// no views and not finalized, under the id the counter now holds; it is
/// the last meme registered for the active week.
pub proof fn law_fresh_publish_stores_meme(
    a: Backend,
    b: Backend,
    user: Seq<char>,
    meme: MemeData,
    now_ns: u64,
    r: Result<PublicStoredMeme, String>,
)
    requires
        a.wf(),
        user != anonymous_view(),
        forall|k: u64|
            #[trigger] a.store.memes@.contains_key(k) ==> !(a.store.memes@[k].owner@ == user
                && a.store.memes@[k].meme_data.image_url@ == meme.image_url@),
        publish_outcome(a, b, user, meme, now_ns, r),
    ensures
        r matches Ok(q) && {
            &&& q.owner@ == user
            &&& q.meme_data == meme
            &&& q.created_at == now_ns
            &&& q.views == 0
            &&& !q.finalized && !q.week_ended && q.finalized_at.is_none()
            &&& q.id == b.store.meme_counter
            &&& b.store.memes@.contains_key(q.id)
            &&& b.store.memes@[q.id].owner@ == user
            &&& b.store.memes@[q.id].meme_data == meme
            &&& week_ids(b.weeks.week_index@, b.weeks.active_week_id).last() == q.id
        },
{
    let url = meme.image_url@;
    let sa = a.store.memes.entries_seq();
    a.store.memes.lemma_view();
    assert forall|i: int| 0 <= i < sa.len() implies !published_by(#[trigger] sa[i], user, url) by {
        assert(a.store.memes@.contains_key(a.store.memes.entries_seq()[i].0));
    }
    lemma_first_published_none(sa, user, url);
    let now_secs = now_ns / crate::weeks::NANOS_PER_SECOND;
    let mid = choose|mid: Backend|
        #![trigger rollover_outcome(a, mid, DEFAULT_TOP_N, now_secs, None::<u64>)]
        (rollover_outcome(a, mid, DEFAULT_TOP_N, now_secs, None::<u64>) || rollover_outcome(
            a,
            mid,
            DEFAULT_TOP_N,
            now_secs,
            Some(a.weeks.active_week_id),
        )) && published_state(mid, b, user, meme, now_ns, r);
    let id = mid.store.meme_counter.saturating_add(1);
    assert(b.store.memes@.contains_key(id));
}

} // verus!
