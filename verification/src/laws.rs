//! Laws that relate several operations, stated over the transition
//! predicates that the operations' own contracts establish.

use vstd::prelude::*;

use crate::interact::{
    dislike_applied, first_occurrence, is_first_occurrence, lemma_first_occurrence_agrees,
    lemma_first_occurrence_valid, like_applied,
};
use crate::pallet::{
    first_idx, has_tweet, is_first_idx, lemma_first_idx_agrees, lemma_first_idx_valid,
    lemma_occurrences_contains, occurrences, profile_in, Pallet,
};
use crate::search::matching;
use crate::text::is_substring;
use crate::timeline::{feed_extended, resolve_ids, store_tweet_post};
use crate::types::{AccountId, TweetView};

verus! {

/// Resolution finds every id that the store holds: when an id list contains
/// an id and some stored tweet has it, the resolved snapshots contain a
/// tweet with that id.
pub proof fn lemma_resolve_finds(ids: Seq<u32>, feed: Seq<TweetView>, id: u32)
    requires
        ids.contains(id),
        has_tweet(feed, id),
    ensures
        exists|j: int|
            0 <= j < resolve_ids(ids, feed).len() && #[trigger] resolve_ids(ids, feed)[j].id == id,
    decreases ids.len(),
{
    lemma_first_idx_valid(feed, id);
    let r = resolve_ids(ids, feed);
    if ids.last() == id {
        assert(r[r.len() - 1].id == id);
    } else {
        let w = choose|w: int| 0 <= w < ids.len() && ids[w] == id;
        assert(ids.drop_last()[w] == id);
        assert(ids.drop_last().contains(id));
        lemma_resolve_finds(ids.drop_last(), feed, id);
        let rest = resolve_ids(ids.drop_last(), feed);
        let j = choose|j: int| 0 <= j < rest.len() && #[trigger] rest[j].id == id;
        assert(r[j].id == id);
    }
}

/// Fan-out on write: after a post, the author's home timeline holds the new
/// id and resolves to a snapshot carrying it, the public timeline of every
/// current follower holds the id, and the profile of every account that is
/// neither the author nor a follower is exactly what it was.
pub proof fn lemma_store_tweet_fans_out(
    pre: Pallet,
    post: Pallet,
    caller: AccountId,
    data: TweetView,
)
    requires
        store_tweet_post(pre, post, caller, data),
    ensures
        post.profile_of(caller).home_time_line.contains(data.id),
        exists|j: int|
            0 <= j < resolve_ids(post.profile_of(caller).home_time_line, post.feed()).len()
                && #[trigger] resolve_ids(
                post.profile_of(caller).home_time_line,
                post.feed(),
            )[j].id == data.id,
        forall|a: AccountId|
            a != caller && pre.profile_of(caller).followers.contains(a)
                ==> #[trigger] post.profile_of(a).public_time_line.contains(data.id),
        forall|a: AccountId|
            a != caller && !pre.profile_of(caller).followers.contains(a)
                ==> #[trigger] post.profile_of(a) == pre.profile_of(a),
{
    let home = post.profile_of(caller).home_time_line;
    assert(home[home.len() - 1] == data.id);
    assert(post.feed()[post.feed().len() - 1].id == data.id);
    lemma_resolve_finds(home, post.feed(), data.id);
    let fl = pre.profile_of(caller).followers;
    assert forall|a: AccountId| a != caller && fl.contains(a) implies #[trigger] post.profile_of(
        a,
    ).public_time_line.contains(data.id) by {
        lemma_occurrences_contains(fl, a);
        let k = occurrences(fl, a);
        assert(feed_extended(pre.accounts(), post.accounts(), a, data.id, k));
        let fed = post.profile_of(a).public_time_line;
        let base = profile_in(pre.accounts(), a).public_time_line;
        assert(fed[base.len() as int] == data.id);
    }
    assert forall|a: AccountId| a != caller && !fl.contains(a) implies #[trigger] post.profile_of(
        a,
    ) == pre.profile_of(a) by {
        lemma_occurrences_contains(fl, a);
        assert(feed_extended(pre.accounts(), post.accounts(), a, data.id, 0));
    }
}

/// Like then dislike, same caller and same tweet, restores the store: when
/// the caller was not yet in the liker list, the like count and the liker
/// list come back exactly to their pre-like values and nothing else ever
/// moved.
pub proof fn lemma_like_dislike_round_trip(
    p0: Pallet,
    p1: Pallet,
    p2: Pallet,
    caller: AccountId,
    tweet_id: u32,
)
    requires
        like_applied(p0, p1, caller, tweet_id),
        dislike_applied(p1, p2, caller, tweet_id),
        !p0.feed()[first_idx(p0.feed(), tweet_id)].user_liked_tweet.contains(caller),
    ensures
        p2.feed() == p0.feed(),
        p2.accounts() == p0.accounts(),
{
    lemma_first_idx_valid(p0.feed(), tweet_id);
    let i = first_idx(p0.feed(), tweet_id);
    let t0 = p0.feed()[i];
    assert(is_first_idx(p1.feed(), tweet_id, i));
    lemma_first_idx_agrees(p1.feed(), tweet_id, i);
    let t1 = p1.feed()[i];
    assert(t1 == t0.with_like(caller));
    let len0 = t0.user_liked_tweet.len() as int;
    assert(t1.user_liked_tweet[len0] == caller);
    assert forall|j: int| 0 <= j < len0 implies t1.user_liked_tweet[j] != caller by {
        assert(t0.user_liked_tweet[j] == t1.user_liked_tweet[j]);
    }
    assert(is_first_occurrence(t1.user_liked_tweet, caller, len0));
    lemma_first_occurrence_agrees(t1.user_liked_tweet, caller, len0);
    let t2 = t1.with_like_removed(len0);
    assert(t2.user_liked_tweet =~= t0.user_liked_tweet);
    assert(t2 =~= t0);
    assert(p2.feed() =~= p0.feed());
}

/// Like then dislike, same caller and same tweet, always restores the like
/// count exactly and the liker list up to order: whatever the list held
/// before, the multiset of likers comes back to its pre-like value, and no
/// other tweet and no profile ever moved.
pub proof fn lemma_like_dislike_round_trip_counts(
    p0: Pallet,
    p1: Pallet,
    p2: Pallet,
    caller: AccountId,
    tweet_id: u32,
)
    requires
        like_applied(p0, p1, caller, tweet_id),
        dislike_applied(p1, p2, caller, tweet_id),
    ensures
        p2.accounts() == p0.accounts(),
        p2.feed().len() == p0.feed().len(),
        forall|j: int|
            0 <= j < p0.feed().len() && j != first_idx(p0.feed(), tweet_id)
                ==> p2.feed()[j] == p0.feed()[j],
        ({
            let t0 = p0.feed()[first_idx(p0.feed(), tweet_id)];
            let t2 = p2.feed()[first_idx(p0.feed(), tweet_id)];
            &&& t2.likes == t0.likes
            &&& t2.user_liked_tweet.to_multiset() == t0.user_liked_tweet.to_multiset()
            &&& t2.id == t0.id
            &&& t2.text == t0.text
            &&& t2.account_id == t0.account_id
            &&& t2.comments == t0.comments
            &&& t2.tag == t0.tag
        }),
{
    lemma_first_idx_valid(p0.feed(), tweet_id);
    let i = first_idx(p0.feed(), tweet_id);
    let t0 = p0.feed()[i];
    assert(is_first_idx(p1.feed(), tweet_id, i));
    lemma_first_idx_agrees(p1.feed(), tweet_id, i);
    let t1 = p1.feed()[i];
    assert(t1 == t0.with_like(caller));
    lemma_first_occurrence_valid(t1.user_liked_tweet, caller);
    let k = first_occurrence(t1.user_liked_tweet, caller);
    assert(t1.user_liked_tweet[k] == caller);
    t0.user_liked_tweet.to_multiset_ensures();
    t1.user_liked_tweet.to_multiset_ensures();
    let m0 = t0.user_liked_tweet.to_multiset();
    assert(t1.user_liked_tweet.to_multiset() =~= m0.insert(caller));
    let t2 = p2.feed()[i];
    assert(t2.user_liked_tweet =~= t1.user_liked_tweet.remove(k));
    assert(t2.user_liked_tweet.to_multiset() =~= m0.insert(caller).remove(caller));
    assert(m0.insert(caller).remove(caller) =~= m0);
}

/// Searching with a stored tweet's own full tag always finds that tweet:
/// every tag contains itself, so running the search once per stored tag
/// reproduces the whole store.
pub proof fn lemma_search_own_tag(feed: Seq<TweetView>, i: int)
    requires
        0 <= i < feed.len(),
    ensures
        matching(feed, feed[i].tag).contains(feed[i]),
{
    let frag = feed[i].tag;
    let z: int = 0;
    assert(frag.subrange(z, z + frag.len()) =~= frag);
    assert(is_substring(frag, frag));
    lemma_matching_keeps(feed, frag, i);
}

/// Any stored tweet whose tag contains the fragment shows up in the match
/// list.
pub proof fn lemma_matching_keeps(feed: Seq<TweetView>, frag: Seq<u8>, i: int)
    requires
        0 <= i < feed.len(),
        is_substring(frag, feed[i].tag),
    ensures
        matching(feed, frag).contains(feed[i]),
    decreases feed.len(),
{
    reveal_with_fuel(Seq::<TweetView>::filter, 2);
    if i == feed.len() - 1 {
        let r = matching(feed, frag);
        assert(r[r.len() - 1] == feed[i]);
    } else {
        assert(feed.drop_last()[i] == feed[i]);
        lemma_matching_keeps(feed.drop_last(), frag, i);
        let rest = matching(feed.drop_last(), frag);
        let j = choose|j: int| 0 <= j < rest.len() && rest[j] == feed[i];
        assert(matching(feed, frag)[j] == feed[i]);
    }
}

} // verus!
