//! Administrator operations over the whole meme store: clearing the market
//! and deleting every meme that was not minted.

use vstd::prelude::*;
use crate::state::history_kept;
use crate::codec::StorableVecU64;
use crate::ids::{anonymous_view, UserId};
use crate::keyed::keys_increasing;
use crate::memes::{is_listed_meme, kept_list, lemma_without_id_len, retain_other_ids, store_form, without_id};
use crate::model::{StoredMeme, TokenSaleMetadata};
use crate::nft::{delisted_price_only, only_sales_changed, sale_base, token_for_meme, SaleUpdate};
use crate::state::Backend;
use crate::text::{decimal, push_decimal, push_text};

verus! {

/// The ids of listed memes among entries walked in order.
pub open spec fn listed_ids(b: Backend, s: Seq<(u64, StoredMeme)>) -> Seq<u64>
    decreases s.len(),
{
    if s.len() == 0 {
        Seq::empty()
    } else if is_listed_meme(b, s.last().0) {
        listed_ids(b, s.drop_last()).push(s.last().0)
    } else {
        listed_ids(b, s.drop_last())
    }
}

/// The sale records of `b` after the memes `ids` are taken off the market:
/// for each, the record of its first token keeps all but the listed flag,
/// the price and the listing time, which are cleared.
pub open spec fn market_cleared(b: Backend, ids: Seq<u64>) -> Map<u64, TokenSaleMetadata>
    decreases ids.len(),
{
    if ids.len() == 0 {
        b.nft.token_sales@
    } else {
        let m = ids.last();
        let t = token_for_meme(b.nft.mint_index@, m).unwrap();
        market_cleared(b, ids.drop_last()).insert(t, delisted_price_only(sale_base(b.nft.token_sales@, t, m)))
    }
}

/// Whether no token was minted for a meme.
pub open spec fn unminted(b: Backend, id: u64) -> bool {
    token_for_meme(b.nft.mint_index@, id).is_none()
}

/// The bound below which a pass over the entries in key order has reached
/// after `i` of them: the next key, or past every key.
pub open spec fn sweep_limit(s: Seq<(u64, StoredMeme)>, i: int) -> int {
    if 0 <= i < s.len() { s[i].0 as int } else { u64::MAX as int + 1 }
}

/// Whether `id` is a stored, unminted meme below `lim`: deleted by a pass
/// that has reached `lim`.
pub open spec fn swept(b: Backend, id: u64, lim: int) -> bool {
    b.store.memes@.contains_key(id) && unminted(b, id) && id < lim
}

/// The minted ids among entries walked in order.
pub open spec fn minted_ids(b: Backend, s: Seq<(u64, StoredMeme)>) -> Seq<u64>
    decreases s.len(),
{
    if s.len() == 0 {
        Seq::empty()
    } else if unminted(b, s.last().0) {
        minted_ids(b, s.drop_last())
    } else {
        minted_ids(b, s.drop_last()).push(s.last().0)
    }
}

/// The number of unminted memes among entries.
pub open spec fn unminted_count(b: Backend, s: Seq<(u64, StoredMeme)>) -> nat
    decreases s.len(),
{
    if s.len() == 0 {
        0
    } else if unminted(b, s.last().0) {
        unminted_count(b, s.drop_last()) + 1
    } else {
        unminted_count(b, s.drop_last())
    }
}

/// The id lists of the users, by user.
pub open spec fn list_views(m: Map<Seq<char>, StorableVecU64>) -> Map<Seq<char>, Seq<u64>> {
    m.map_values(|v: StorableVecU64| v.0@)
}

/// The users' id lists after the unminted memes among `s` are deleted in
/// order: each leaves its owner's list, and a list left empty is dropped.
pub open spec fn lists_after(b: Backend, s: Seq<(u64, StoredMeme)>) -> Map<Seq<char>, Seq<u64>>
    decreases s.len(),
{
    if s.len() == 0 {
        list_views(b.store.user_memes@)
    } else {
        let prev = lists_after(b, s.drop_last());
        let id = s.last().0;
        let owner = s.last().1.owner@;
        if unminted(b, id) && prev.contains_key(owner) {
            let kept = without_id(prev[owner], id);
            if kept.len() == 0 {
                prev.remove(owner)
            } else {
                prev.insert(owner, kept)
            }
        } else {
            prev
        }
    }
}

/// The report of one meme that could not be deleted.
pub open spec fn failure_item(id: u64) -> Seq<char> {
    "Meme "@ + decimal(id as nat) + ": cannot delete minted NFT"@
}

/// The reports of the memes that could not be deleted, joined by ", ".
pub open spec fn failure_list(ids: Seq<u64>) -> Seq<char>
    decreases ids.len(),
{
    if ids.len() == 0 {
        Seq::empty()
    } else if ids.len() == 1 {
        failure_item(ids[0])
    } else {
        failure_list(ids.drop_last()) + ", "@ + failure_item(ids.last())
    }
}

/// The error of a deletion pass that left minted memes behind.
pub open spec fn deletion_error(deleted: nat, minted: Seq<u64>) -> Seq<char> {
    "Deleted "@ + decimal(deleted) + " memes, but failed to delete: "@ + failure_list(minted)
}

/// Whether `c` is `b` after a deletion pass over the first `i` entries `s`
/// of the meme table.
pub open spec fn swept_state(b: Backend, c: Backend, s: Seq<(u64, StoredMeme)>, i: int) -> bool {
    let lim = sweep_limit(s, i);
    &&& c.store.memes@ == Map::new(
        |k: u64| b.store.memes@.contains_key(k) && !swept(b, k, lim),
        |k: u64| b.store.memes@[k],
    )
    &&& c.voting.votes@ == Map::new(
        |k: u64| b.voting.votes@.contains_key(k) && !swept(b, k, lim),
        |k: u64| b.voting.votes@[k],
    )
    &&& c.voting.user_votes@ == Map::new(
        |k: (Seq<char>, u64)| b.voting.user_votes@.contains_key(k) && !swept(b, k.1, lim),
        |k: (Seq<char>, u64)| b.voting.user_votes@[k],
    )
    &&& list_views(c.store.user_memes@) == lists_after(b, s.take(i))
    &&& c.voting.periods == b.voting.periods
    &&& c.voting.powers == b.voting.powers
    &&& c.voting.lifetime_upvotes == b.voting.lifetime_upvotes
    &&& c.store.meme_counter == b.store.meme_counter
    &&& c.store.unique_users == b.store.unique_users
    &&& c.store.rate == b.store.rate
    &&& c.weeks == b.weeks
    &&& c.board == b.board
    &&& c.nft == b.nft
}

/// One more entry passed: a key is below the next limit exactly when it is
/// below the current one or is the entry's own key.
proof fn lemma_limit_step(b: Backend, s: Seq<(u64, StoredMeme)>, i: int)
    requires
        b.store.memes.wf(),
        s == b.store.memes.entries_seq(),
        0 <= i < s.len(),
    ensures
        forall|k: u64| #[trigger] b.store.memes@.contains_key(k) ==> ((k < sweep_limit(s, i + 1)) <==> (k
            < sweep_limit(s, i) || k == s[i].0)),
{
    b.store.memes.lemma_view();
    assert forall|k: u64| #[trigger] b.store.memes@.contains_key(k) implies ((k < sweep_limit(s, i + 1)) <==> (
    k < sweep_limit(s, i) || k == s[i].0)) by {
        let j = choose|j: int| 0 <= j < s.len() && #[trigger] s[j].0 == k;
        if j < i {
            assert(s[j].0 < s[i].0);
        } else if j > i {
            assert(s[i].0 < s[j].0);
            if i + 1 < s.len() {
                if j > i + 1 {
                    assert(s[i + 1].0 < s[j].0);
                }
            }
        }
        if i + 1 < s.len() {
            assert(s[i].0 < s[i + 1].0);
        }
    }
}

/// Listed ids are keys of the entries, listed, and increasing when the keys are.
proof fn lemma_listed_ids(b: Backend, s: Seq<(u64, StoredMeme)>)
    requires
        keys_increasing(s),
    ensures
        forall|j: int|
            0 <= j < listed_ids(b, s).len() ==> is_listed_meme(b, #[trigger] listed_ids(b, s)[j]),
        forall|j: int|
            0 <= j < listed_ids(b, s).len() ==> exists|k: int|
                0 <= k < s.len() && s[k].0 == #[trigger] listed_ids(b, s)[j],
        forall|i: int, j: int|
            0 <= i < j < listed_ids(b, s).len() ==> #[trigger] listed_ids(b, s)[i] < #[trigger] listed_ids(
                b,
                s,
            )[j],
        listed_ids(b, s).len() <= s.len(),
    decreases s.len(),
{
    if s.len() > 0 {
        let p = s.drop_last();
        assert(keys_increasing(p)) by {
            assert forall|i: int, j: int| 0 <= i < j < p.len() implies #[trigger] p[i].0 < #[trigger] p[j].0 by {
                assert(s[i].0 < s[j].0);
            }
        }
        lemma_listed_ids(b, p);
        let l = listed_ids(b, p);
        assert forall|j: int| 0 <= j < l.len() implies #[trigger] l[j] < s.last().0 by {
            let k = choose|k: int| 0 <= k < p.len() && p[k].0 == l[j];
            assert(s[k].0 < s[s.len() - 1].0);
        }
        if is_listed_meme(b, s.last().0) {
            let l2 = listed_ids(b, s);
            assert(l2 == l.push(s.last().0));
            assert forall|j: int| 0 <= j < l2.len() implies exists|k: int|
                0 <= k < s.len() && s[k].0 == #[trigger] l2[j] by {
                if j < l.len() {
                    let k = choose|k: int| 0 <= k < p.len() && p[k].0 == l[j];
                    assert(s[k].0 == l2[j]);
                } else {
                    assert(s[s.len() - 1].0 == l2[j]);
                }
            }
        } else {
            assert forall|j: int| 0 <= j < l.len() implies exists|k: int|
                0 <= k < s.len() && s[k].0 == #[trigger] l[j] by {
                let k = choose|k: int| 0 <= k < p.len() && p[k].0 == l[j];
                assert(s[k].0 == l[j]);
            }
        }
    }
}

/// Every listed meme among the entries is among the listed ids.
proof fn lemma_listed_ids_complete(b: Backend, s: Seq<(u64, StoredMeme)>, k: int)
    requires
        0 <= k < s.len(),
        is_listed_meme(b, s[k].0),
    ensures
        listed_ids(b, s).contains(s[k].0),
    decreases s.len(),
{
    let p = s.drop_last();
    if k < s.len() - 1 {
        assert(p[k] == s[k]);
        lemma_listed_ids_complete(b, p, k);
        let j = choose|j: int| 0 <= j < listed_ids(b, p).len() && listed_ids(b, p)[j] == s[k].0;
        if is_listed_meme(b, s.last().0) {
            assert(listed_ids(b, s)[j] == s[k].0);
        }
    } else {
        assert(listed_ids(b, s).last() == s[k].0);
    }
}

/// The record of the first token of a meme among `ids` is taken off the
/// market, when the memes of `ids` have distinct first tokens.
proof fn lemma_cleared_at(b: Backend, ids: Seq<u64>, j: int)
    requires
        0 <= j < ids.len(),
        forall|x: int| 0 <= x < ids.len() ==> token_for_meme(b.nft.mint_index@, #[trigger] ids[x]).is_some(),
        forall|x: int, y: int|
            0 <= x < ids.len() && 0 <= y < ids.len() && x != y ==> token_for_meme(b.nft.mint_index@, #[trigger] ids[x])
                != token_for_meme(b.nft.mint_index@, #[trigger] ids[y]),
    ensures
        ({
            let t = token_for_meme(b.nft.mint_index@, ids[j]).unwrap();
            &&& market_cleared(b, ids).contains_key(t)
            &&& market_cleared(b, ids)[t] == delisted_price_only(sale_base(b.nft.token_sales@, t, ids[j]))
        }),
    decreases ids.len(),
{
    let p = ids.drop_last();
    if j < ids.len() - 1 {
        assert forall|x: int| 0 <= x < p.len() implies token_for_meme(b.nft.mint_index@, #[trigger] p[x]).is_some() by {
            assert(p[x] == ids[x]);
        }
        assert forall|x: int, y: int|
            0 <= x < p.len() && 0 <= y < p.len() && x != y implies token_for_meme(b.nft.mint_index@, #[trigger] p[x])
                != token_for_meme(b.nft.mint_index@, #[trigger] p[y]) by {
            assert(p[x] == ids[x] && p[y] == ids[y]);
        }
        assert(p[j] == ids[j]);
        lemma_cleared_at(b, p, j);
        assert(token_for_meme(b.nft.mint_index@, ids[j]) != token_for_meme(b.nft.mint_index@, ids[ids.len() - 1]));
    }
}

/// After the market is cleared, no stored meme is listed.
pub proof fn lemma_market_cleared_unlisted(b: Backend, c: Backend, meme_id: u64)
    requires
        b.wf(),
        only_sales_changed(b, c),
        c.nft.token_sales@ == market_cleared(b, listed_ids(b, b.store.memes.entries_seq())),
        b.store.memes@.contains_key(meme_id),
    ensures
        !is_listed_meme(c, meme_id),
{
    let s = b.store.memes.entries_seq();
    let ids = listed_ids(b, s);
    b.store.memes.lemma_view();
    lemma_listed_ids(b, s);
    assert forall|x: int| 0 <= x < ids.len() implies token_for_meme(b.nft.mint_index@, #[trigger] ids[x]).is_some() by {
        assert(is_listed_meme(b, ids[x]));
    }
    assert forall|x: int, y: int|
        0 <= x < ids.len() && 0 <= y < ids.len() && x != y implies token_for_meme(b.nft.mint_index@, #[trigger] ids[x])
            != token_for_meme(b.nft.mint_index@, #[trigger] ids[y]) by {
        assert(is_listed_meme(b, ids[x]) && is_listed_meme(b, ids[y]));
        if x < y {
            assert(ids[x] < ids[y]);
        } else {
            assert(ids[y] < ids[x]);
        }
        let m1 = ids[x];
        let m2 = ids[y];
        assert(b.nft.mint_index@[m1]@[0] != b.nft.mint_index@[m2]@[0]);
    }
    match token_for_meme(b.nft.mint_index@, meme_id) {
        None => {},
        Some(t) => {
            if ids.contains(meme_id) {
                let j = choose|j: int| 0 <= j < ids.len() && ids[j] == meme_id;
                lemma_cleared_at(b, ids, j);
            } else {
                let k = choose|k: int| 0 <= k < s.len() && #[trigger] s[k].0 == meme_id;
                if is_listed_meme(b, meme_id) {
                    lemma_listed_ids_complete(b, s, k);
                }
                assert forall|x: int| 0 <= x < ids.len() implies token_for_meme(b.nft.mint_index@, #[trigger] ids[x]) != Some(t) by {
                    assert(is_listed_meme(b, ids[x]));
                    assert(ids[x] != meme_id);
                    let m1 = ids[x];
                    assert(b.nft.mint_index@[m1]@[0] != b.nft.mint_index@[meme_id]@[0]);
                }
                lemma_cleared_elsewhere(b, ids, t);
            }
        },
    }
}

/// A token of no meme in `ids` keeps its sale record.
proof fn lemma_cleared_elsewhere(b: Backend, ids: Seq<u64>, t: u64)
    requires
        forall|j: int| 0 <= j < ids.len() ==> token_for_meme(b.nft.mint_index@, #[trigger] ids[j]) != Some(t),
        forall|j: int| 0 <= j < ids.len() ==> token_for_meme(b.nft.mint_index@, #[trigger] ids[j]).is_some(),
    ensures
        market_cleared(b, ids).contains_key(t) == b.nft.token_sales@.contains_key(t),
        b.nft.token_sales@.contains_key(t) ==> market_cleared(b, ids)[t] == b.nft.token_sales@[t],
    decreases ids.len(),
{
    if ids.len() > 0 {
        let p = ids.drop_last();
        assert forall|j: int| 0 <= j < p.len() implies token_for_meme(b.nft.mint_index@, #[trigger] p[j]) != Some(t)
            && token_for_meme(b.nft.mint_index@, p[j]).is_some() by {
            assert(p[j] == ids[j]);
        }
        lemma_cleared_elsewhere(b, p, t);
        assert(token_for_meme(b.nft.mint_index@, ids[ids.len() - 1]) != Some(t));
    }
}

/// The error text of a deletion pass that left the minted memes `failed` behind.
fn deletion_report(deleted: u32, failed: &Vec<u64>) -> (r: String)
    requires
        failed@.len() > 0,
    ensures
        r@ == deletion_error(deleted as nat, failed@),
{
    let mut msg = String::from_str("Deleted ");
    push_decimal(&mut msg, deleted as u64);
    push_text(&mut msg, " memes, but failed to delete: ");
    let ghost head = msg@;
    assert(head == "Deleted "@ + decimal(deleted as nat) + " memes, but failed to delete: "@);
    assert(failed@.take(0) =~= Seq::<u64>::empty());
    assert(head + failure_list(failed@.take(0)) =~= head);
    let mut k: usize = 0;
    while k < failed.len()
        invariant
            k <= failed@.len(),
            msg@ == head + failure_list(failed@.take(k as int)),
        decreases failed@.len() - k,
    {
        if k > 0 {
            push_text(&mut msg, ", ");
        }
        push_text(&mut msg, "Meme ");
        push_decimal(&mut msg, failed[k]);
        push_text(&mut msg, ": cannot delete minted NFT");
        proof {
            let t = failed@.take(k as int + 1);
            assert(t.drop_last() =~= failed@.take(k as int));
            assert(t.last() == failed@[k as int]);
            if k == 0 {
                assert(failure_list(t) == failure_item(failed@[0]));
                assert(msg@ =~= head + failure_list(t));
            } else {
                assert(failure_list(t) == failure_list(failed@.take(k as int)) + ", "@ + failure_item(failed@[k as int]));
                assert(msg@ =~= head + failure_list(t));
            }
        }
        k += 1;
    }
    assert(failed@.take(failed@.len() as int) =~= failed@);
    msg
}

impl Backend {
    /// Takes every listed meme off the market (only the listed flag, the
    /// price and the listing time of its first token's sale record are
    /// cleared); administrator only. Returns how many were taken off.
    pub fn remove_all_memes_from_market(&mut self, user: &UserId) -> (r: Result<u32, String>)
        requires
            old(self).wf(),
            old(self).store.memes@.len() <= u32::MAX,
        ensures
            history_kept(*old(self), *final(self)),
            final(self).wf(),
            only_sales_changed(*old(self), *final(self)),
            ({
                let b = *old(self);
                let ids = listed_ids(b, b.store.memes.entries_seq());
                if user@ == anonymous_view() {
                    r matches Err(e) && e@ == "Authentication required"@ && *final(self) == b
                } else if user@ != b.nft.collection.admin@ {
                    r matches Err(e) && e@ == "Admin access required"@ && *final(self) == b
                } else {
                    &&& r == Ok::<u32, String>(ids.len() as u32)
                    &&& final(self).nft.token_sales@ == market_cleared(b, ids)
                }
            }),
    {
        if user.is_anonymous() {
            return Err(String::from_str("Authentication required"));
        }
        let admin = self.get_admin();
        if !user.same(&admin) {
            return Err(String::from_str("Admin access required"));
        }
        let ghost b = *self;
        let ghost s = self.store.memes.entries_seq();
        let n = self.store.memes.len();
        let mut keys: Vec<u64> = Vec::new();
        let mut i: usize = 0;
        while i < n
            invariant
                *self == b,
                self.wf(),
                s == self.store.memes.entries_seq(),
                n == s.len(),
                i <= n,
                keys@ == listed_ids(b, s.take(i as int)),
            decreases n - i,
        {
            let (id, _) = self.store.memes.entry_at(i);
            proof {
                assert(s.take(i as int + 1).drop_last() =~= s.take(i as int));
            }
            let listed = match self.get_sale_metadata_for_meme(id) {
                Some(sale) => sale.is_listed,
                None => false,
            };
            if listed {
                keys.push(id);
            }
            i += 1;
        }
        assert(s.take(n as int) =~= s);
        proof {
            lemma_listed_ids(b, s);
        }
        let mut removed: u32 = 0;
        let mut j: usize = 0;
        while j < keys.len()
            invariant
                self.wf(),
                only_sales_changed(b, *self),
                b.wf(),
                keys@ == listed_ids(b, s),
                keys@.len() <= s.len(),
                s.len() <= u32::MAX,
                j <= keys@.len(),
                removed == j,
                self.nft.token_sales@ == market_cleared(b, keys@.take(j as int)),
                forall|k: int| 0 <= k < keys@.len() ==> is_listed_meme(b, #[trigger] keys@[k]),
                forall|x: int, y: int| 0 <= x < y < keys@.len() ==> #[trigger] keys@[x] < #[trigger] keys@[y],
            decreases keys@.len() - j,
        {
            let meme_id = keys[j];
            let ghost pre = keys@.take(j as int);
            proof {
                assert(keys@.take(j as int + 1).drop_last() =~= pre);
                assert(is_listed_meme(b, meme_id));
                let t = token_for_meme(b.nft.mint_index@, meme_id).unwrap();
                assert forall|k: int| 0 <= k < pre.len() implies token_for_meme(b.nft.mint_index@, #[trigger] pre[k]) != Some(t)
                    && token_for_meme(b.nft.mint_index@, pre[k]).is_some() by {
                    assert(pre[k] == keys@[k]);
                    assert(keys@[k] < keys@[j as int]);
                    assert(is_listed_meme(b, keys@[k]));
                    let m1 = pre[k];
                    assert(b.nft.mint_index@[m1]@[0] != b.nft.mint_index@[meme_id]@[0]);
                }
                lemma_cleared_elsewhere(b, pre, t);
            }
            match self.get_token_by_meme_id(meme_id) {
                Some(token_id) => {
                    self.mutate_sale_metadata(token_id, meme_id, SaleUpdate::DelistPriceOnly);
                    removed += 1;
                },
                None => {},
            }
            j += 1;
        }
        assert(keys@.take(keys@.len() as int) =~= keys@);
        Ok(removed)
    }
    /// Deletes every meme that has not been minted, with its votes, from
    /// its owner's list (dropping a list left empty); administrator only.
    /// Minted memes stay, and their ids are reported in the error.
    /// Returns how many were deleted.
    #[verifier::rlimit(40)]
    pub fn delete_all_user_memes(&mut self, user: &UserId) -> (r: Result<u32, String>)
        requires
            old(self).wf(),
            old(self).store.memes@.len() <= u32::MAX,
        ensures
            history_kept(*old(self), *final(self)),
            final(self).wf(),
            ({
                let b = *old(self);
                let s = b.store.memes.entries_seq();
                let minted = minted_ids(b, s);
                let deleted = unminted_count(b, s);
                if user@ == anonymous_view() {
                    r matches Err(e) && e@ == "Authentication required"@ && *final(self) == b
                } else if user@ != b.nft.collection.admin@ {
                    r matches Err(e) && e@ == "Admin access required"@ && *final(self) == b
                } else {
                    &&& swept_state(b, *final(self), s, s.len() as int)
                    &&& if minted.len() > 0 {
                        r matches Err(e) && e@ == deletion_error(deleted, minted)
                    } else {
                        r == Ok::<u32, String>(deleted as u32)
                    }
                }
            }),
    {
        if user.is_anonymous() {
            return Err(String::from_str("Authentication required"));
        }
        let admin = self.get_admin();
        if !user.same(&admin) {
            return Err(String::from_str("Admin access required"));
        }
        let ghost b = *self;
        let ghost s = self.store.memes.entries_seq();
        let n = self.store.memes.len();
        let mut all_ids: Vec<u64> = Vec::new();
        let mut i: usize = 0;
        while i < n
            invariant
                *self == b,
                self.wf(),
                s == self.store.memes.entries_seq(),
                n == s.len(),
                i <= n,
                all_ids@.len() == i,
                forall|j: int| 0 <= j < i ==> #[trigger] all_ids@[j] == s[j].0,
            decreases n - i,
        {
            let (id, _) = self.store.memes.entry_at(i);
            all_ids.push(id);
            i += 1;
        }
        proof {
            b.store.memes.lemma_view();
            assert(s.take(0) =~= Seq::<(u64, StoredMeme)>::empty());
            assert(self.store.memes@ =~= Map::new(
                |k: u64| b.store.memes@.contains_key(k) && !swept(b, k, sweep_limit(s, 0)),
                |k: u64| b.store.memes@[k],
            )) by {
                assert forall|k: u64| #[trigger] b.store.memes@.contains_key(k) implies !swept(b, k, sweep_limit(s, 0)) by {
                    let j = choose|j: int| 0 <= j < s.len() && #[trigger] s[j].0 == k;
                    if j > 0 {
                        assert(s[0].0 < s[j].0);
                    }
                }
            }
            assert(self.voting.votes@ =~= Map::new(
                |k: u64| b.voting.votes@.contains_key(k) && !swept(b, k, sweep_limit(s, 0)),
                |k: u64| b.voting.votes@[k],
            )) by {
                assert forall|k: u64| #[trigger] b.store.memes@.contains_key(k) implies !swept(b, k, sweep_limit(s, 0)) by {
                    let j = choose|j: int| 0 <= j < s.len() && #[trigger] s[j].0 == k;
                    if j > 0 {
                        assert(s[0].0 < s[j].0);
                    }
                }
            }
            assert(self.voting.user_votes@ =~= Map::new(
                |k: (Seq<char>, u64)| b.voting.user_votes@.contains_key(k) && !swept(b, k.1, sweep_limit(s, 0)),
                |k: (Seq<char>, u64)| b.voting.user_votes@[k],
            )) by {
                assert forall|k: u64| #[trigger] b.store.memes@.contains_key(k) implies !swept(b, k, sweep_limit(s, 0)) by {
                    let j = choose|j: int| 0 <= j < s.len() && #[trigger] s[j].0 == k;
                    if j > 0 {
                        assert(s[0].0 < s[j].0);
                    }
                }
            }
        }
        let mut deleted: u32 = 0;
        let mut failed: Vec<u64> = Vec::new();
        let mut i: usize = 0;
        while i < n
            invariant
                self.wf(),
                b.wf(),
                s == b.store.memes.entries_seq(),
                n == s.len(),
                n <= u32::MAX,
                i <= n,
                all_ids@.len() == n,
                forall|j: int| 0 <= j < n ==> #[trigger] all_ids@[j] == s[j].0,
                swept_state(b, *self, s, i as int),
                deleted == unminted_count(b, s.take(i as int)),
                unminted_count(b, s.take(i as int)) <= i,
                failed@ == minted_ids(b, s.take(i as int)),
            decreases n - i,
        {
            let id = all_ids[i];
            let ghost lim = sweep_limit(s, i as int);
            proof {
                assert(s.take(i as int + 1).drop_last() =~= s.take(i as int));
                assert(s.take(i as int + 1).last() == s[i as int]);
                b.store.memes.lemma_view();
                lemma_limit_step(b, s, i as int);
                assert(b.store.memes@.contains_key(id));
                assert(!swept(b, id, lim));
                assert(self.store.memes@.contains_key(id));
            }
            let owner = match self.store.memes.get(id) {
                Some(m) => m.owner.copy(),
                None => {
                    i += 1;
                    continue;
                },
            };
            if self.is_meme_minted(id) {
                failed.push(id);
                proof {
                    assert(sweep_limit(s, i as int + 1) >= lim);
                    assert(self.store.memes@ =~= Map::new(
                        |k: u64| b.store.memes@.contains_key(k) && !swept(b, k, sweep_limit(s, i as int + 1)),
                        |k: u64| b.store.memes@[k],
                    ));
                    assert(self.voting.votes@ =~= Map::new(
                        |k: u64| b.voting.votes@.contains_key(k) && !swept(b, k, sweep_limit(s, i as int + 1)),
                        |k: u64| b.voting.votes@[k],
                    ));
                    assert(self.voting.user_votes@ =~= Map::new(
                        |k: (Seq<char>, u64)| b.voting.user_votes@.contains_key(k) && !swept(b, k.1, sweep_limit(s, i as int + 1)),
                        |k: (Seq<char>, u64)| b.voting.user_votes@[k],
                    ));
                }
                i += 1;
                continue;
            }
            self.store.memes.remove(id);
            let kept = match self.store.user_memes.get(&owner) {
                Some(list) => {
                    proof {
                        lemma_without_id_len(list.0@, id);
                    }
                    Some(retain_other_ids(&list.0, id))
                },
                None => None,
            };
            let ghost views = list_views(self.store.user_memes@);
            match kept {
                Some(ids) => {
                    if ids.len() == 0 {
                        self.store.user_memes.remove(&owner);
                        proof {
                            assert(list_views(self.store.user_memes@) =~= views.remove(owner@));
                        }
                    } else {
                        let stored = store_form(ids);
                        proof {
                            assert(kept_list(ids@) == ids@);
                        }
                        self.store.user_memes.insert(owner, stored);
                        proof {
                            assert(list_views(self.store.user_memes@) =~= views.insert(owner@, ids@));
                        }
                    }
                },
                None => {},
            }
            let _ = self.delete_meme_data(id);
            deleted += 1;
            proof {
                assert(self.store.memes@ =~= Map::new(
                    |k: u64| b.store.memes@.contains_key(k) && !swept(b, k, sweep_limit(s, i as int + 1)),
                    |k: u64| b.store.memes@[k],
                ));
                assert(self.voting.votes@ =~= Map::new(
                    |k: u64| b.voting.votes@.contains_key(k) && !swept(b, k, sweep_limit(s, i as int + 1)),
                    |k: u64| b.voting.votes@[k],
                ));
                assert(self.voting.user_votes@ =~= Map::new(
                    |k: (Seq<char>, u64)| b.voting.user_votes@.contains_key(k) && !swept(b, k.1, sweep_limit(s, i as int + 1)),
                    |k: (Seq<char>, u64)| b.voting.user_votes@[k],
                ));
            }
            i += 1;
        }
        assert(s.take(n as int) =~= s);
        if failed.len() > 0 {
            return Err(deletion_report(deleted, &failed));
        }
        Ok(deleted)
    }
}

} // verus!
