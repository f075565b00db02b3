//! The store itself: the account map and the tweet collection, with the
//! primitive reads and writes and the profile registration and bookmark
//! operations.

use std::collections::HashMap;
use vstd::prelude::*;

use crate::types::{AccountId, Event, Tweet, TweetView, User, UserView};

verus! {

broadcast use vstd::std_specs::hash::group_hash_axioms;

/// Whether the store holds a tweet with this id.
pub open spec fn has_tweet(feed: Seq<TweetView>, id: u32) -> bool {
    exists|i: int| 0 <= i < feed.len() && feed[i].id == id
}

/// Whether `i` is the position of the first tweet with this id: every
/// lookup resolves an id to this position, whatever duplicates follow it.
pub open spec fn is_first_idx(feed: Seq<TweetView>, id: u32, i: int) -> bool {
    &&& 0 <= i < feed.len()
    &&& feed[i].id == id
    &&& forall|j: int| 0 <= j < i ==> feed[j].id != id
}

/// The position of the first tweet with this id (meaningful only when
/// `has_tweet` holds; see [`lemma_first_idx_valid`]).
pub open spec fn first_idx(feed: Seq<TweetView>, id: u32) -> int {
    choose|i: int| is_first_idx(feed, id, i)
}

/// A position that is first is the one `first_idx` denotes.
pub proof fn lemma_first_idx_agrees(feed: Seq<TweetView>, id: u32, i: int)
    requires
        is_first_idx(feed, id, i),
    ensures
        first_idx(feed, id) == i,
{
    let k = first_idx(feed, id);
    assert(is_first_idx(feed, id, k));
    if k < i {
        assert(feed[k].id == id);
        assert(false);
    }
    if i < k {
        assert(feed[i].id == id);
        assert(false);
    }
}

proof fn lemma_exists_first(feed: Seq<TweetView>, id: u32, w: int)
    requires
        0 <= w < feed.len(),
        feed[w].id == id,
    ensures
        exists|i: int| is_first_idx(feed, id, i),
    decreases w,
{
    if forall|j: int| 0 <= j < w ==> feed[j].id != id {
        assert(is_first_idx(feed, id, w));
    } else {
        let j = choose|j: int| 0 <= j < w && feed[j].id == id;
        lemma_exists_first(feed, id, j);
    }
}

/// When the store holds the id at all, `first_idx` is a real first position.
pub proof fn lemma_first_idx_valid(feed: Seq<TweetView>, id: u32)
    requires
        has_tweet(feed, id),
    ensures
        is_first_idx(feed, id, first_idx(feed, id)),
{
    let w = choose|w: int| 0 <= w < feed.len() && feed[w].id == id;
    lemma_exists_first(feed, id, w);
}

/// How often an account occurs in a follower list.
pub open spec fn occurrences(s: Seq<AccountId>, a: AccountId) -> nat
    decreases s.len(),
{
    if s.len() == 0 {
        0
    } else {
        occurrences(s.drop_last(), a) + if s.last() == a {
            1nat
        } else {
            0nat
        }
    }
}

/// An account occurs in a list exactly when its count there is not zero.
pub proof fn lemma_occurrences_contains(s: Seq<AccountId>, a: AccountId)
    ensures
        occurrences(s, a) > 0 <==> s.contains(a),
    decreases s.len(),
{
    if s.len() > 0 {
        lemma_occurrences_contains(s.drop_last(), a);
        if s.last() == a {
            assert(s[s.len() - 1] == a);
        } else if s.drop_last().contains(a) {
            let j = choose|j: int| 0 <= j < s.drop_last().len() && s.drop_last()[j] == a;
            assert(s[j] == a);
        } else if s.contains(a) {
            let j = choose|j: int| 0 <= j < s.len() && s[j] == a;
            assert(s.drop_last()[j] == a);
        }
    }
}

/// Scans the tweet store for the first tweet with this id.
pub(crate) fn find_tweet(tweets: &Vec<Tweet>, id: u32) -> (r: Option<usize>)
    ensures
        match r {
            Some(i) => is_first_idx(tweets.deep_view(), id, i as int),
            None => !has_tweet(tweets.deep_view(), id),
        },
{
    let n = tweets.len();
    let mut i: usize = 0;
    while i < n
        invariant
            i <= n,
            n == tweets@.len(),
            forall|j: int| 0 <= j < i ==> tweets.deep_view()[j].id != id,
        decreases n - i,
    {
        if tweets[i].id == id {
            return Some(i);
        }
        i += 1;
    }
    None
}

/// The map of profile views that a map of stored profiles presents.
pub open spec fn views_of(m: Map<AccountId, User>) -> Map<AccountId, UserView> {
    Map::new(|a: AccountId| m.contains_key(a), |a: AccountId| m[a].deep_view())
}

/// The profile view an account reads back from a given account map: the
/// stored one, or blank when the account never stored anything.
pub open spec fn profile_in(m: Map<AccountId, UserView>, a: AccountId) -> UserView {
    if m.contains_key(a) {
        m[a]
    } else {
        UserView::blank()
    }
}

/// The whole store.  Each public operation on it is one atomic transition:
/// it either completes and returns one [`Event`], or fails with an
/// [`Error`] and leaves both collections exactly as they were.
pub struct Pallet {
    /// One profile per account that ever stored one or was written to as a
    /// follower; absent accounts read back as a blank profile.
    pub users: HashMap<AccountId, User>,
    /// The system of record for all posts, append-only for creation;
    /// elements are edited in place, found by `id`, not by position.
    pub tweets: Vec<Tweet>,
}

impl Pallet {
    /// The account store as a map from identity to profile view.
    pub open spec fn accounts(self) -> Map<AccountId, UserView> {
        views_of(self.users@)
    }

    /// The tweet store as a sequence of tweet views, in insertion order.
    pub open spec fn feed(self) -> Seq<TweetView> {
        self.tweets.deep_view()
    }

    /// The profile view an account reads back: the stored one, or blank.
    pub open spec fn profile_of(self, a: AccountId) -> UserView {
        profile_in(self.accounts(), a)
    }

    /// An empty store.
    pub fn new() -> (r: Pallet)
        ensures
            r.accounts() == Map::<AccountId, UserView>::empty(),
            r.feed() == Seq::<TweetView>::empty(),
    {
        let r = Pallet { users: HashMap::new(), tweets: Vec::new() };
        proof {
            assert(r.accounts() =~= Map::<AccountId, UserView>::empty());
            assert(r.feed() =~= Seq::<TweetView>::empty());
        }
        r
    }

    /// Reads the profile of `a`: the stored one, or a fresh default.
    /// This read never fails.
    pub fn get_user(&self, a: AccountId) -> (r: User)
        ensures
            r.deep_view() == self.profile_of(a),
    {
        match self.users.get(&a) {
            Some(u) => u.clone(),
            None => User::default(),
        }
    }

    /// Reads the whole tweet store, in insertion order.  An untouched store
    /// reads back empty.  This read never fails.
    pub fn get_all_tweets(&self) -> (r: &Vec<Tweet>)
        ensures
            r.deep_view() == self.feed(),
    {
        &self.tweets
    }

    /// Replaces the whole tweet store, leaving every profile as it was.
    pub fn put_all_tweets(&mut self, tweets: Vec<Tweet>)
        ensures
            final(self).feed() == tweets.deep_view(),
            final(self).accounts() == old(self).accounts(),
    {
        self.tweets = tweets;
    }

    /// Stores `u` as the profile of `a`: an upsert, a total overwrite.
    pub(crate) fn put_user(&mut self, a: AccountId, u: User)
        ensures
            final(self).accounts() == old(self).accounts().insert(a, u.deep_view()),
            final(self).tweets == old(self).tweets,
    {
        self.users.insert(a, u);
        proof {
            assert(self.accounts() =~= old(self).accounts().insert(a, u.deep_view()));
        }
    }

    /// Registers or replaces the caller's profile: an unconditional upsert,
    /// a total overwrite with no merge of a prior profile.
    pub fn store_user(&mut self, caller: AccountId, data: User) -> (ev: Event)
        ensures
            final(self).accounts() == old(self).accounts().insert(caller, data.deep_view()),
            final(self).feed() == old(self).feed(),
            ev matches Event::UserStored(p, who) && who == caller && p.deep_view()
                == data.deep_view(),
    {
        let ev = Event::UserStored(data.clone(), caller);
        self.put_user(caller, data);
        ev
    }

    /// Appends `tweet_id` to the caller's bookmark list, creating the
    /// profile if absent.  There is no existence check against the tweet
    /// store and no duplicate check, by design.
    pub fn bookmark_a_tweet(&mut self, caller: AccountId, tweet_id: u32) -> (ev: Event)
        ensures
            final(self).accounts() == old(self).accounts().insert(
                caller,
                old(self).profile_of(caller).with_bookmark(tweet_id),
            ),
            final(self).feed() == old(self).feed(),
            ev == Event::UserBookmarkedTweet(tweet_id, caller),
    {
        let mut user = self.get_user(caller);
        user.bookmark.push(tweet_id);
        proof {
            assert(user.deep_view() =~= old(self).profile_of(caller).with_bookmark(tweet_id));
        }
        self.put_user(caller, user);
        Event::UserBookmarkedTweet(tweet_id, caller)
    }
}

} // verus!
