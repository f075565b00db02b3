//! Like and dislike mutations against the tweet store.
//!
//! Both scan for the first tweet with the requested id and edit that one
//! element in place; the rest of the store and all profiles stay untouched.
//! Every failure leaves the store exactly as it was.

use vstd::prelude::*;

use crate::pallet::{find_tweet, first_idx, has_tweet, lemma_first_idx_agrees, Pallet};
use crate::types::{AccountId, Error, Event};

verus! {

/// Whether `i` is the position of the first occurrence of `x` in `s`.
pub open spec fn is_first_occurrence(s: Seq<AccountId>, x: AccountId, i: int) -> bool {
    &&& 0 <= i < s.len()
    &&& s[i] == x
    &&& forall|j: int| 0 <= j < i ==> s[j] != x
}

/// The position of the first occurrence of `x` in `s` (meaningful only when
/// `s` contains `x`).
pub open spec fn first_occurrence(s: Seq<AccountId>, x: AccountId) -> int {
    choose|i: int| is_first_occurrence(s, x, i)
}

/// A position that is a first occurrence is the one `first_occurrence`
/// denotes.
pub proof fn lemma_first_occurrence_agrees(s: Seq<AccountId>, x: AccountId, i: int)
    requires
        is_first_occurrence(s, x, i),
    ensures
        first_occurrence(s, x) == i,
{
    let k = first_occurrence(s, x);
    assert(is_first_occurrence(s, x, k));
    if k < i {
        assert(s[k] == x);
        assert(false);
    }
    if i < k {
        assert(s[i] == x);
        assert(false);
    }
}

proof fn lemma_exists_first_occurrence(s: Seq<AccountId>, x: AccountId, w: int)
    requires
        0 <= w < s.len(),
        s[w] == x,
    ensures
        exists|i: int| is_first_occurrence(s, x, i),
    decreases w,
{
    if forall|j: int| 0 <= j < w ==> s[j] != x {
        assert(is_first_occurrence(s, x, w));
    } else {
        let j = choose|j: int| 0 <= j < w && s[j] == x;
        lemma_exists_first_occurrence(s, x, j);
    }
}

/// When the list contains `x` at all, `first_occurrence` is a real first
/// position.
pub proof fn lemma_first_occurrence_valid(s: Seq<AccountId>, x: AccountId)
    requires
        s.contains(x),
    ensures
        is_first_occurrence(s, x, first_occurrence(s, x)),
{
    let w = choose|w: int| 0 <= w < s.len() && s[w] == x;
    lemma_exists_first_occurrence(s, x, w);
}

/// Scans an account list for the first occurrence of `x`.
fn find_account(s: &Vec<AccountId>, x: AccountId) -> (r: Option<usize>)
    ensures
        match r {
            Some(i) => is_first_occurrence(s@, x, i as int),
            None => !s@.contains(x),
        },
{
    let n = s.len();
    let mut i: usize = 0;
    while i < n
        invariant
            i <= n,
            n == s@.len(),
            forall|j: int| 0 <= j < i ==> s@[j] != x,
        decreases n - i,
    {
        if s[i] == x {
            return Some(i);
        }
        i += 1;
    }
    proof {
        assert forall|j: int| 0 <= j < s@.len() implies s@[j] != x by {}
    }
    None
}

/// The transition of a successful like: the first tweet with the id gets
/// one more like, credited to the caller at the end of its liker list;
/// nothing else moves.
pub open spec fn like_applied(pre: Pallet, post: Pallet, caller: AccountId, tweet_id: u32) -> bool {
    let i = first_idx(pre.feed(), tweet_id);
    &&& has_tweet(pre.feed(), tweet_id)
    &&& pre.feed()[i].likes < u32::MAX
    &&& post.feed() == pre.feed().update(i, pre.feed()[i].with_like(caller))
    &&& post.accounts() == pre.accounts()
}

/// The transition of a successful dislike: the first tweet with the id
/// loses one like, and the caller's first entry leaves its liker list;
/// nothing else moves.
pub open spec fn dislike_applied(
    pre: Pallet,
    post: Pallet,
    caller: AccountId,
    tweet_id: u32,
) -> bool {
    let i = first_idx(pre.feed(), tweet_id);
    let t = pre.feed()[i];
    &&& has_tweet(pre.feed(), tweet_id)
    &&& t.likes > 0
    &&& t.user_liked_tweet.contains(caller)
    &&& post.feed() == pre.feed().update(
        i,
        t.with_like_removed(first_occurrence(t.user_liked_tweet, caller)),
    )
    &&& post.accounts() == pre.accounts()
}

impl Pallet {
    /// Likes a tweet: the first tweet with this id gets `likes + 1` and the
    /// caller appended to its liker list.  Fails with `NotFound` when no
    /// tweet has the id, and with `StorageOverflow` when the counter is
    /// already at its greatest value; either failure changes nothing.
    pub fn like_a_tweet(&mut self, caller: AccountId, tweet_id: u32) -> (r: Result<Event, Error>)
        ensures
            final(self).accounts() == old(self).accounts(),
            !has_tweet(old(self).feed(), tweet_id) ==> r == Err::<Event, Error>(Error::NotFound)
                && final(self).feed() == old(self).feed(),
            has_tweet(old(self).feed(), tweet_id) ==> {
                let t = old(self).feed()[first_idx(old(self).feed(), tweet_id)];
                if t.likes == u32::MAX {
                    &&& r == Err::<Event, Error>(Error::StorageOverflow)
                    &&& final(self).feed() == old(self).feed()
                } else {
                    &&& r == Ok::<Event, Error>(
                        Event::UserLikedATweet((t.likes + 1) as u32, caller),
                    )
                    &&& like_applied(*old(self), *final(self), caller, tweet_id)
                }
            },
    {
        let ghost pre = *old(self);
        match find_tweet(&self.tweets, tweet_id) {
            None => Err(Error::NotFound),
            Some(i) => {
                proof {
                    lemma_first_idx_agrees(pre.feed(), tweet_id, i as int);
                }
                if self.tweets[i].likes == u32::MAX {
                    return Err(Error::StorageOverflow);
                }
                let tweet = &mut self.tweets[i];
                tweet.likes = tweet.likes + 1;
                tweet.user_liked_tweet.push(caller);
                let total_likes = self.tweets[i].likes;
                proof {
                    assert(self.feed() =~= pre.feed().update(
                        i as int,
                        pre.feed()[i as int].with_like(caller),
                    ));
                }
                Ok(Event::UserLikedATweet(total_likes, caller))
            },
        }
    }

    /// Dislikes a tweet: the first tweet with this id gets `likes - 1` and
    /// the caller's first entry leaves its liker list.  Fails with
    /// `NotFound` when no tweet has the id, with `Underflow` when its like
    /// count is already zero, and with `NotLiked` when the caller is not in
    /// the liker list; every failure changes nothing.
    pub fn dislike_a_tweet(&mut self, caller: AccountId, tweet_id: u32) -> (r: Result<
        Event,
        Error,
    >)
        ensures
            final(self).accounts() == old(self).accounts(),
            !has_tweet(old(self).feed(), tweet_id) ==> r == Err::<Event, Error>(Error::NotFound)
                && final(self).feed() == old(self).feed(),
            has_tweet(old(self).feed(), tweet_id) ==> {
                let t = old(self).feed()[first_idx(old(self).feed(), tweet_id)];
                if t.likes == 0 {
                    &&& r == Err::<Event, Error>(Error::Underflow)
                    &&& final(self).feed() == old(self).feed()
                } else if !t.user_liked_tweet.contains(caller) {
                    &&& r == Err::<Event, Error>(Error::NotLiked)
                    &&& final(self).feed() == old(self).feed()
                } else {
                    &&& r == Ok::<Event, Error>(
                        Event::UserLikedATweet((t.likes - 1) as u32, caller),
                    )
                    &&& dislike_applied(*old(self), *final(self), caller, tweet_id)
                }
            },
    {
        let ghost pre = *old(self);
        match find_tweet(&self.tweets, tweet_id) {
            None => Err(Error::NotFound),
            Some(i) => {
                proof {
                    lemma_first_idx_agrees(pre.feed(), tweet_id, i as int);
                }
                if self.tweets[i].likes == 0 {
                    return Err(Error::Underflow);
                }
                let liker_at = find_account(&self.tweets[i].user_liked_tweet, caller);
                match liker_at {
                    None => Err(Error::NotLiked),
                    Some(p) => {
                        proof {
                            lemma_first_occurrence_agrees(
                                pre.feed()[i as int].user_liked_tweet,
                                caller,
                                p as int,
                            );
                            assert(pre.feed()[i as int].user_liked_tweet[p as int] == caller);
                        }
                        let tweet = &mut self.tweets[i];
                        tweet.likes = tweet.likes - 1;
                        tweet.user_liked_tweet.remove(p);
                        let total_likes = self.tweets[i].likes;
                        proof {
                            assert(self.feed() =~= pre.feed().update(
                                i as int,
                                pre.feed()[i as int].with_like_removed(p as int),
                            ));
                        }
                        Ok(Event::UserLikedATweet(total_likes, caller))
                    },
                }
            },
        }
    }
}

} // verus!
